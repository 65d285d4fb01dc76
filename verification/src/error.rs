use vstd::prelude::*;

verus! {

/// The ways in which the protocol can fail.
#[derive(Clone, Copy, Debug, PartialEq, Eq, Structural)]
pub enum ProtocolError {
    /// No acknowledgment arrived before the connection timeout elapsed.
    HandshakeTimeout,
    /// A datagram too short to hold a chunk header.
    MalformedPacket,
    /// A chunk whose index lies outside the chunk count of its frame.
    InvalidChunkIndex,
    /// A frame whose chunks all arrived but whose length is not the configured one.
    ReassembledSizeMismatch,
    /// A frame that would need more chunks than the header can count.
    FrameTooLarge,
}

impl ProtocolError {
    /// A short description of the failure.
    pub fn message(&self) -> (text: &'static str)
        ensures
            text@ == (match *self {
                ProtocolError::HandshakeTimeout => "handshake timed out"@,
                ProtocolError::MalformedPacket => "malformed packet"@,
                ProtocolError::InvalidChunkIndex => "invalid chunk index"@,
                ProtocolError::ReassembledSizeMismatch => "reassembled size mismatch"@,
                ProtocolError::FrameTooLarge => "frame too large"@,
            }),
    {
        match self {
            ProtocolError::HandshakeTimeout => "handshake timed out",
            ProtocolError::MalformedPacket => "malformed packet",
            ProtocolError::InvalidChunkIndex => "invalid chunk index",
            ProtocolError::ReassembledSizeMismatch => "reassembled size mismatch",
            ProtocolError::FrameTooLarge => "frame too large",
        }
    }
}

} // verus!
