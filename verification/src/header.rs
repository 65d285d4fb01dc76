use vstd::prelude::*;
use crate::error::ProtocolError;

verus! {

/// Number of bytes of the chunk header on the wire.
pub const HEADER_SIZE: usize = 8;

/// The fixed header that precedes the payload of every chunk datagram.
///
/// On the wire the three fields follow each other in big-endian byte order:
/// four bytes of `frame_id`, two of `total_chunks`, two of `chunk_index`.
#[derive(Clone, Copy, Debug, PartialEq, Eq, Structural)]
pub struct ChunkHeader {
    pub frame_id: u32,
    pub total_chunks: u16,
    pub chunk_index: u16,
}

/// The eight bytes that stand for a header on the wire.
pub open spec fn header_bytes(h: ChunkHeader) -> Seq<u8> {
    seq![
        (h.frame_id / 0x100_0000) as u8,
        (h.frame_id / 0x1_0000 % 0x100) as u8,
        (h.frame_id / 0x100 % 0x100) as u8,
        (h.frame_id % 0x100) as u8,
        (h.total_chunks / 0x100) as u8,
        (h.total_chunks % 0x100) as u8,
        (h.chunk_index / 0x100) as u8,
        (h.chunk_index % 0x100) as u8,
    ]
}

/// The header that the first eight bytes of a datagram stand for.
pub open spec fn parse_header(bytes: Seq<u8>) -> ChunkHeader
    recommends
        bytes.len() >= HEADER_SIZE,
{
    ChunkHeader {
        frame_id: (bytes[0] * 0x100_0000 + bytes[1] * 0x1_0000 + bytes[2] * 0x100
            + bytes[3]) as u32,
        total_chunks: (bytes[4] * 0x100 + bytes[5]) as u16,
        chunk_index: (bytes[6] * 0x100 + bytes[7]) as u16,
    }
}

/// A datagram made of a header and a payload.
pub open spec fn datagram_of(h: ChunkHeader, payload: Seq<u8>) -> Seq<u8> {
    header_bytes(h) + payload
}

/// The payload of a datagram that is long enough to hold a header.
pub open spec fn payload_of(datagram: Seq<u8>) -> Seq<u8>
    recommends
        datagram.len() >= HEADER_SIZE,
{
    datagram.subrange(HEADER_SIZE as int, datagram.len() as int)
}

/// Parsing undoes encoding: a datagram built from a header and a payload
/// yields that header and that payload again.
pub proof fn header_round_trip(h: ChunkHeader, payload: Seq<u8>)
    ensures
        datagram_of(h, payload).len() == HEADER_SIZE + payload.len(),
        parse_header(datagram_of(h, payload)) == h,
        payload_of(datagram_of(h, payload)) == payload,
{
    let d = datagram_of(h, payload);
    assert(header_bytes(h).len() == 8);
    assert(payload_of(d) =~= payload);
    assert(d[0] == header_bytes(h)[0]);
    assert(d[1] == header_bytes(h)[1]);
    assert(d[2] == header_bytes(h)[2]);
    assert(d[3] == header_bytes(h)[3]);
    assert(d[4] == header_bytes(h)[4]);
    assert(d[5] == header_bytes(h)[5]);
    assert(d[6] == header_bytes(h)[6]);
    assert(d[7] == header_bytes(h)[7]);
}

impl ChunkHeader {
    /// Writes the header as its eight wire bytes. Encoding cannot fail.
    pub fn encode(&self) -> (bytes: [u8; 8])
        ensures
            bytes@ == header_bytes(*self),
    {
        let bytes: [u8; 8] = [
            (self.frame_id / 0x100_0000) as u8,
            (self.frame_id / 0x1_0000 % 0x100) as u8,
            (self.frame_id / 0x100 % 0x100) as u8,
            (self.frame_id % 0x100) as u8,
            (self.total_chunks / 0x100) as u8,
            (self.total_chunks % 0x100) as u8,
            (self.chunk_index / 0x100) as u8,
            (self.chunk_index % 0x100) as u8,
        ];
        assert(bytes@ =~= header_bytes(*self));
        bytes
    }

    /// Reads the header at the start of a datagram.
    ///
    /// Fails with `MalformedPacket` exactly when the datagram is shorter than
    /// a header.
    pub fn decode(datagram: &[u8]) -> (parsed: Result<ChunkHeader, ProtocolError>)
        ensures
            datagram@.len() < HEADER_SIZE <==> parsed is Err,
            parsed is Err ==> parsed == Err::<ChunkHeader, ProtocolError>(
                ProtocolError::MalformedPacket,
            ),
            parsed is Ok ==> parsed->Ok_0 == parse_header(datagram@),
    {
        if datagram.len() < HEADER_SIZE {
            return Err(ProtocolError::MalformedPacket);
        }
        let b0: u32 = datagram[0] as u32;
        let b1: u32 = datagram[1] as u32;
        let b2: u32 = datagram[2] as u32;
        let b3: u32 = datagram[3] as u32;
        let t0: u16 = datagram[4] as u16;
        let t1: u16 = datagram[5] as u16;
        let c0: u16 = datagram[6] as u16;
        let c1: u16 = datagram[7] as u16;
        Ok(
            ChunkHeader {
                frame_id: b0 * 0x100_0000 + b1 * 0x1_0000 + b2 * 0x100 + b3,
                total_chunks: t0 * 0x100 + t1,
                chunk_index: c0 * 0x100 + c1,
            },
        )
    }
}

} // verus!
