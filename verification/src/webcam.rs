use vstd::prelude::*;
use crate::chunker::{chunk_datagram, chunks_needed, split_frame, CHUNK_DATA_SIZE, MAX_CHUNKS};
use crate::error::ProtocolError;
use crate::header::{ChunkHeader, HEADER_SIZE};
use crate::reassembly::{accept_model, EntryModel, Reassembler, Receipt, ReceiptModel};
use crate::session::{
    ack_bytes, is_ack, is_probe, probe_bytes, HandshakeState, PeerAddr, CONNECTION_TIMEOUT_SECS,
};

verus! {

/// Bytes per pixel of the frames that the receiver expects.
pub const CHANNEL_COUNT: usize = 3;

/// What the sender does next while the session is being set up.
#[derive(Clone, Copy, Debug, PartialEq, Eq, Structural)]
pub enum SenderStep {
    /// Send the liveness probe and wait one retry interval for the answer.
    SendProbe,
    /// The session stands: frames can be sent.
    Stream,
}

/// The sender's move and its next handshake state, `elapsed_secs` seconds
/// after it began to connect: stream once the session stands; before
/// that, probe while the timeout has not elapsed, and time out after.
pub open spec fn sender_step(state: HandshakeState, elapsed_secs: u64, timeout_secs: u64) -> (
    Result<SenderStep, ProtocolError>,
    HandshakeState,
) {
    if state == HandshakeState::Established {
        (Ok(SenderStep::Stream), HandshakeState::Established)
    } else if elapsed_secs < timeout_secs {
        (Ok(SenderStep::SendProbe), HandshakeState::AwaitingAck)
    } else {
        (Err(ProtocolError::HandshakeTimeout), HandshakeState::Idle)
    }
}

/// The producer side: it opens the session and turns frames into chunk
/// datagrams.
pub struct Windows {
    server_ip: String,
    width: i32,
    height: i32,
    state: HandshakeState,
    next_frame_id: u32,
}

impl Windows {
    /// The receiver's address, as given at construction.
    pub closed spec fn server_ip(&self) -> Seq<char> {
        self.server_ip@
    }

    /// The width to which captured frames are resized.
    pub closed spec fn width(&self) -> i32 {
        self.width
    }

    /// The height to which captured frames are resized.
    pub closed spec fn height(&self) -> i32 {
        self.height
    }

    /// Where the sender stands in the handshake.
    pub closed spec fn state(&self) -> HandshakeState {
        self.state
    }

    /// The identifier that the next frame will carry.
    pub closed spec fn next_frame_id(&self) -> u32 {
        self.next_frame_id
    }

    /// A sender for the receiver at `ip`, for frames of the given
    /// dimensions. It has sent nothing yet, and its first frame will be
    /// frame 0.
    pub fn new(ip: &str, width: i32, height: i32) -> (sender: Windows)
        ensures
            sender.server_ip() == ip@,
            sender.width() == width,
            sender.height() == height,
            sender.state() == HandshakeState::Idle,
            sender.next_frame_id() == 0,
    {
        Windows {
            server_ip: ip.to_owned(),
            width,
            height,
            state: HandshakeState::Idle,
            next_frame_id: 0,
        }
    }

    /// A sender like that of `new` whose first frame will carry the
    /// identifier `first_frame_id`.
    pub fn starting_at(ip: &str, width: i32, height: i32, first_frame_id: u32) -> (sender: Windows)
        ensures
            sender.server_ip() == ip@,
            sender.width() == width,
            sender.height() == height,
            sender.state() == HandshakeState::Idle,
            sender.next_frame_id() == first_frame_id,
    {
        Windows {
            server_ip: ip.to_owned(),
            width,
            height,
            state: HandshakeState::Idle,
            next_frame_id: first_frame_id,
        }
    }

    /// The receiver's address.
    pub fn ip(&self) -> (ip: &str)
        ensures
            ip@ == self.server_ip(),
    {
        self.server_ip.as_str()
    }

    /// The configured frame width.
    pub fn frame_width(&self) -> (width: i32)
        ensures
            width == self.width(),
    {
        self.width
    }

    /// The configured frame height.
    pub fn frame_height(&self) -> (height: i32)
        ensures
            height == self.height(),
    {
        self.height
    }

    /// The current handshake state.
    pub fn handshake_state(&self) -> (state: HandshakeState)
        ensures
            state == self.state(),
    {
        self.state
    }

    /// The identifier of the next frame.
    pub fn frame_id(&self) -> (frame_id: u32)
        ensures
            frame_id == self.next_frame_id(),
    {
        self.next_frame_id
    }

    /// Decides the sender's next move, `elapsed_secs` seconds after it
    /// began to connect, with the usual connection timeout.
    ///
    /// Once the session stands the answer is `Stream`. Before that, the
    /// sender probes again as long as the connection timeout has not
    /// elapsed, and fails with `HandshakeTimeout` from then on, back in
    /// `Idle`.
    pub fn poll(&mut self, elapsed_secs: u64) -> (step: Result<SenderStep, ProtocolError>)
        ensures
            final(self).server_ip() == old(self).server_ip(),
            final(self).width() == old(self).width(),
            final(self).height() == old(self).height(),
            final(self).next_frame_id() == old(self).next_frame_id(),
            step == sender_step(old(self).state(), elapsed_secs, CONNECTION_TIMEOUT_SECS).0,
            final(self).state() == sender_step(
                old(self).state(),
                elapsed_secs,
                CONNECTION_TIMEOUT_SECS,
            ).1,
    {
        self.poll_within(elapsed_secs, CONNECTION_TIMEOUT_SECS)
    }

    /// Decides the sender's next move like `poll`, with a connection
    /// timeout of `timeout_secs` seconds.
    pub fn poll_within(&mut self, elapsed_secs: u64, timeout_secs: u64) -> (step: Result<
        SenderStep,
        ProtocolError,
    >)
        ensures
            final(self).server_ip() == old(self).server_ip(),
            final(self).width() == old(self).width(),
            final(self).height() == old(self).height(),
            final(self).next_frame_id() == old(self).next_frame_id(),
            step == sender_step(old(self).state(), elapsed_secs, timeout_secs).0,
            final(self).state() == sender_step(old(self).state(), elapsed_secs, timeout_secs).1,
    {
        match self.state {
            HandshakeState::Established => Ok(SenderStep::Stream),
            _ => {
                if elapsed_secs < timeout_secs {
                    self.state = HandshakeState::AwaitingAck;
                    Ok(SenderStep::SendProbe)
                } else {
                    self.state = HandshakeState::Idle;
                    Err(ProtocolError::HandshakeTimeout)
                }
            },
        }
    }

    /// Takes a datagram that arrived while the sender waits.
    ///
    /// The acknowledgment establishes the session if a probe is under way;
    /// anything else, and anything at another time, changes nothing. The
    /// result says whether the session stands afterwards.
    pub fn on_reply(&mut self, datagram: &[u8]) -> (established: bool)
        ensures
            final(self).server_ip() == old(self).server_ip(),
            final(self).width() == old(self).width(),
            final(self).height() == old(self).height(),
            final(self).next_frame_id() == old(self).next_frame_id(),
            final(self).state() == (if old(self).state() == HandshakeState::AwaitingAck
                && datagram@ == ack_bytes() {
                HandshakeState::Established
            } else {
                old(self).state()
            }),
            established == (final(self).state() == HandshakeState::Established),
    {
        match self.state {
            HandshakeState::AwaitingAck => {
                if is_ack(datagram) {
                    self.state = HandshakeState::Established;
                    true
                } else {
                    false
                }
            },
            HandshakeState::Established => true,
            HandshakeState::Idle => false,
        }
    }

    /// Splits the next frame into its chunk datagrams, in index order, and
    /// moves on to the next frame identifier.
    ///
    /// All chunks carry the current frame identifier. After a frame that
    /// was split the identifier is one higher, or zero after the highest.
    /// A frame that needs more chunks than the header can count fails with
    /// `FrameTooLarge` and leaves the identifier as it was.
    pub fn send_frame(&mut self, frame: &[u8]) -> (chunks: Result<Vec<Vec<u8>>, ProtocolError>)
        requires
            old(self).state() == HandshakeState::Established,
        ensures
            final(self).server_ip() == old(self).server_ip(),
            final(self).width() == old(self).width(),
            final(self).height() == old(self).height(),
            final(self).state() == old(self).state(),
            chunks_needed(frame@.len(), CHUNK_DATA_SIZE as nat) > MAX_CHUNKS <==> chunks is Err,
            chunks is Err ==> chunks == Err::<Vec<Vec<u8>>, ProtocolError>(
                ProtocolError::FrameTooLarge,
            ) && final(self).next_frame_id() == old(self).next_frame_id(),
            chunks is Ok ==> {
                &&& final(self).next_frame_id() == (if old(self).next_frame_id() == u32::MAX {
                    0u32
                } else {
                    (old(self).next_frame_id() + 1) as u32
                })
                &&& chunks->Ok_0@.len() == chunks_needed(frame@.len(), CHUNK_DATA_SIZE as nat)
                &&& forall|i: int|
                    0 <= i < chunks->Ok_0@.len() ==> (#[trigger] chunks->Ok_0@[i])@
                        == chunk_datagram(
                        frame@,
                        old(self).next_frame_id(),
                        CHUNK_DATA_SIZE as nat,
                        i as nat,
                    )
            },
    {
        let chunks = split_frame(frame, self.next_frame_id, CHUNK_DATA_SIZE);
        if chunks.is_ok() {
            self.next_frame_id = self.next_frame_id.wrapping_add(1);
        }
        chunks
    }
}

/// The receiver's state as the contracts see it: the established peer, if
/// any, and the frames in progress.
pub struct WslModel {
    pub peer: Option<PeerAddr>,
    pub table: Map<u32, EntryModel>,
}

/// What the receiver does with a datagram.
pub enum ReactionModel {
    Acknowledge,
    Ignored,
    Foreign,
    Chunk(ReceiptModel),
}

/// One step of the receiver: its state after a datagram from `from`, and
/// its reaction. `frame_len` is the configured length of a frame.
pub open spec fn react_model(state: WslModel, frame_len: int, from: PeerAddr, datagram: Seq<u8>) -> (
    WslModel,
    ReactionModel,
) {
    match state.peer {
        None => if datagram == probe_bytes() {
            (WslModel { peer: Some(from), table: state.table }, ReactionModel::Acknowledge)
        } else {
            (state, ReactionModel::Ignored)
        },
        Some(peer) => if from != peer {
            (state, ReactionModel::Foreign)
        } else {
            let step = accept_model(state.table, frame_len, datagram);
            (WslModel { peer: state.peer, table: step.0 }, ReactionModel::Chunk(step.1))
        },
    }
}

/// Foreign-peer rejection: once a session stands, a datagram from any other
/// address is dropped and leaves the peer and every reassembly entry as
/// they were, whatever the datagram holds.
pub proof fn foreign_peer_changes_nothing(
    state: WslModel,
    frame_len: int,
    from: PeerAddr,
    datagram: Seq<u8>,
)
    requires
        state.peer is Some,
        state.peer != Some(from),
    ensures
        react_model(state, frame_len, from, datagram) == (state, ReactionModel::Foreign),
{
}

/// Malformed-header safety: a datagram shorter than a header is dropped and
/// leaves every reassembly entry as it was; from the session's peer it is
/// rejected as a malformed packet, and the receiver goes on.
pub proof fn short_datagram_changes_no_entry(
    state: WslModel,
    frame_len: int,
    from: PeerAddr,
    datagram: Seq<u8>,
)
    requires
        datagram.len() < HEADER_SIZE,
    ensures
        react_model(state, frame_len, from, datagram).0.table == state.table,
        state.peer == Some(from) ==> react_model(state, frame_len, from, datagram) == (
            state,
            ReactionModel::Chunk(ReceiptModel::Rejected(ProtocolError::MalformedPacket)),
        ),
{
}

/// What the receiver tells its caller about a datagram.
#[derive(Debug)]
pub enum Reaction {
    /// The probe arrived and its sender is now the session's peer: answer
    /// it with the acknowledgment.
    Acknowledge,
    /// No session stands yet and the datagram is not the probe.
    Ignored,
    /// The datagram came from another address than the session's peer.
    Foreign,
    /// The datagram came from the peer and was handled as a chunk.
    Chunk(Receipt),
}

impl View for Reaction {
    type V = ReactionModel;

    open spec fn view(&self) -> ReactionModel {
        match self {
            Reaction::Acknowledge => ReactionModel::Acknowledge,
            Reaction::Ignored => ReactionModel::Ignored,
            Reaction::Foreign => ReactionModel::Foreign,
            Reaction::Chunk(receipt) => ReactionModel::Chunk(receipt@),
        }
    }
}

/// The consumer side: it accepts one peer and reassembles that peer's
/// frames.
pub struct Wsl {
    peer: Option<PeerAddr>,
    reassembler: Reassembler,
}

impl View for Wsl {
    type V = WslModel;

    closed spec fn view(&self) -> WslModel {
        WslModel { peer: self.peer, table: self.reassembler.model() }
    }
}

impl Wsl {
    /// The configured width of a frame.
    pub closed spec fn width(&self) -> nat {
        self.reassembler.width()
    }

    /// The configured height of a frame.
    pub closed spec fn height(&self) -> nat {
        self.reassembler.height()
    }

    /// The length that a whole frame must have: width times height times
    /// the channel count.
    pub open spec fn frame_len(&self) -> nat {
        self.width() * self.height() * CHANNEL_COUNT as nat
    }

    /// Every entry of the receiver's table is well formed.
    pub closed spec fn wf(&self) -> bool {
        &&& self.reassembler.wf()
        &&& self.reassembler.channel_count() == CHANNEL_COUNT
    }

    /// Where the receiver stands in the handshake.
    pub open spec fn state(&self) -> HandshakeState {
        if self@.peer is Some {
            HandshakeState::Established
        } else {
            HandshakeState::Idle
        }
    }

    /// A receiver for frames of `width` by `height` pixels of three bytes,
    /// with no peer yet and no frame in progress.
    pub fn new(width: usize, height: usize) -> (receiver: Wsl)
        ensures
            receiver.wf(),
            receiver.width() == width,
            receiver.height() == height,
            receiver@ == (WslModel { peer: None, table: Map::empty() }),
    {
        Wsl { peer: None, reassembler: Reassembler::new(width, height, CHANNEL_COUNT) }
    }

    /// Where the receiver stands in the handshake.
    pub fn handshake_state(&self) -> (state: HandshakeState)
        ensures
            state == self.state(),
    {
        match self.peer {
            Some(_) => HandshakeState::Established,
            None => HandshakeState::Idle,
        }
    }

    /// The session's peer, once the handshake is done.
    pub fn peer(&self) -> (peer: Option<PeerAddr>)
        ensures
            peer == self@.peer,
    {
        self.peer
    }

    /// The number of frames in progress.
    pub fn pending_frames(&self) -> (count: usize)
        ensures
            count == self@.table.dom().len(),
    {
        self.reassembler.pending_frames()
    }

    /// Whether a chunk with this header disagrees with the chunk count
    /// that its frame's entry was made with.
    pub fn conflicts(&self, header: &ChunkHeader) -> (conflict: bool)
        ensures
            conflict == (self@.table.contains_key(header.frame_id)
                && self@.table[header.frame_id].expected != header.total_chunks),
    {
        self.reassembler.conflicts(header)
    }

    /// Handles one datagram that arrived from `from`.
    ///
    /// Before a session stands, the probe makes its sender the peer and is
    /// to be acknowledged; anything else is ignored. Afterwards a datagram
    /// from another address is dropped, and one from the peer is handled as
    /// a chunk. The state afterwards and the reaction are those of
    /// `react_model`.
    pub fn on_datagram(&mut self, from: PeerAddr, datagram: &[u8]) -> (reaction: Reaction)
        requires
            old(self).wf(),
        ensures
            final(self).wf(),
            final(self).width() == old(self).width(),
            final(self).height() == old(self).height(),
            (final(self)@, reaction@) == react_model(
                old(self)@,
                old(self).frame_len() as int,
                from,
                datagram@,
            ),
    {
        match self.peer {
            None => {
                if is_probe(datagram) {
                    self.peer = Some(from);
                    Reaction::Acknowledge
                } else {
                    Reaction::Ignored
                }
            },
            Some(peer) => {
                if from != peer {
                    Reaction::Foreign
                } else {
                    let receipt = self.reassembler.accept(datagram);
                    Reaction::Chunk(receipt)
                }
            },
        }
    }
}

} // verus!
