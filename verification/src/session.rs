use vstd::prelude::*;

verus! {

/// The port on which the receiver listens.
pub const SERVER_PORT: u16 = 52525;

/// Seconds after which a sender gives up waiting for the acknowledgment.
pub const CONNECTION_TIMEOUT_SECS: u64 = 5;

/// Seconds between two liveness probes, and the receiver's read timeout.
pub const RETRY_INTERVAL_SECS: u64 = 1;

/// The address of a peer: its IP address as 128 bits (an IPv4 address in
/// its IPv6-mapped form) and its port.
#[derive(Clone, Copy, Debug, PartialEq, Eq, Structural)]
pub struct PeerAddr {
    pub ip: u128,
    pub port: u16,
}

/// The liveness probe that a sender opens the session with: `HELLO`.
pub open spec fn probe_bytes() -> Seq<u8> {
    seq![0x48u8, 0x45u8, 0x4cu8, 0x4cu8, 0x4fu8]
}

/// The acknowledgment with which the receiver answers: `CONNECTED`.
pub open spec fn ack_bytes() -> Seq<u8> {
    seq![0x43u8, 0x4fu8, 0x4eu8, 0x4eu8, 0x45u8, 0x43u8, 0x54u8, 0x45u8, 0x44u8]
}

/// The probe datagram.
pub fn probe() -> (datagram: [u8; 5])
    ensures
        datagram@ == probe_bytes(),
{
    let datagram: [u8; 5] = [0x48, 0x45, 0x4c, 0x4c, 0x4f];
    assert(datagram@ =~= probe_bytes());
    datagram
}

/// The acknowledgment datagram.
pub fn ack() -> (datagram: [u8; 9])
    ensures
        datagram@ == ack_bytes(),
{
    let datagram: [u8; 9] = [0x43, 0x4f, 0x4e, 0x4e, 0x45, 0x43, 0x54, 0x45, 0x44];
    assert(datagram@ =~= ack_bytes());
    datagram
}

/// Whether two byte strings are the same.
pub fn same_bytes(left: &[u8], right: &[u8]) -> (same: bool)
    ensures
        same == (left@ == right@),
{
    if left.len() != right.len() {
        return false;
    }
    let mut at: usize = 0;
    while at < left.len()
        invariant
            left@.len() == right@.len(),
            at <= left@.len(),
            forall|i: int| 0 <= i < at ==> left@[i] == right@[i],
        decreases left@.len() - at,
    {
        if left[at] != right[at] {
            return false;
        }
        at = at + 1;
    }
    assert(left@ =~= right@);
    true
}

/// Whether a datagram is the liveness probe.
pub fn is_probe(datagram: &[u8]) -> (yes: bool)
    ensures
        yes == (datagram@ == probe_bytes()),
{
    let expected = probe();
    same_bytes(datagram, expected.as_slice())
}

/// Whether a datagram is the acknowledgment.
pub fn is_ack(datagram: &[u8]) -> (yes: bool)
    ensures
        yes == (datagram@ == ack_bytes()),
{
    let expected = ack();
    same_bytes(datagram, expected.as_slice())
}

/// Where a side stands in the handshake.
#[derive(Clone, Copy, Debug, PartialEq, Eq, Structural)]
pub enum HandshakeState {
    /// Nothing has been sent or received yet.
    Idle,
    /// A probe is under way and no acknowledgment has arrived.
    AwaitingAck,
    /// The session stands.
    Established,
}

} // verus!
