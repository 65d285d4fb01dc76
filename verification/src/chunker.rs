use vstd::prelude::*;
use crate::error::ProtocolError;
use crate::header::{datagram_of, ChunkHeader, HEADER_SIZE};

verus! {

/// Largest datagram that the sender puts on the wire, header included.
pub const MAX_DATAGRAM_PAYLOAD: usize = 1400;

/// Largest number of frame bytes that one chunk carries.
pub const CHUNK_DATA_SIZE: usize = MAX_DATAGRAM_PAYLOAD - HEADER_SIZE;

/// Largest chunk count that the header can hold.
pub const MAX_CHUNKS: usize = 65535;

/// Number of chunks that the sender emits before it pauses briefly.
pub const BATCH_SIZE: u16 = 6;

/// The number of chunks of `chunk_data_size` bytes needed to cover `len`
/// bytes: `len / chunk_data_size`, rounded up.
pub open spec fn chunks_needed(len: nat, chunk_data_size: nat) -> nat
    recommends
        chunk_data_size > 0,
{
    ((len + chunk_data_size - 1) / (chunk_data_size as int)) as nat
}

/// Where the payload of chunk `index` ends in a frame of `len` bytes.
pub open spec fn chunk_end(len: nat, chunk_data_size: nat, index: nat) -> nat {
    if (index + 1) * chunk_data_size < len {
        (index + 1) * chunk_data_size
    } else {
        len
    }
}

/// The bytes of the frame that chunk `index` carries.
pub open spec fn chunk_payload(frame: Seq<u8>, chunk_data_size: nat, index: nat) -> Seq<u8>
    recommends
        chunk_data_size > 0,
        index < chunks_needed(frame.len(), chunk_data_size),
{
    frame.subrange(
        (index * chunk_data_size) as int,
        chunk_end(frame.len(), chunk_data_size, index) as int,
    )
}

/// The header of chunk `index` of a frame.
pub open spec fn chunk_header(
    frame: Seq<u8>,
    frame_id: u32,
    chunk_data_size: nat,
    index: nat,
) -> ChunkHeader
    recommends
        chunk_data_size > 0,
        chunks_needed(frame.len(), chunk_data_size) <= MAX_CHUNKS,
        index < chunks_needed(frame.len(), chunk_data_size),
{
    ChunkHeader {
        frame_id,
        total_chunks: chunks_needed(frame.len(), chunk_data_size) as u16,
        chunk_index: index as u16,
    }
}

/// The datagram that carries chunk `index` of a frame.
pub open spec fn chunk_datagram(
    frame: Seq<u8>,
    frame_id: u32,
    chunk_data_size: nat,
    index: nat,
) -> Seq<u8>
    recommends
        chunk_data_size > 0,
        chunks_needed(frame.len(), chunk_data_size) <= MAX_CHUNKS,
        index < chunks_needed(frame.len(), chunk_data_size),
{
    datagram_of(
        chunk_header(frame, frame_id, chunk_data_size, index),
        chunk_payload(frame, chunk_data_size, index),
    )
}

/// The payloads of the first `upto` chunks of a frame, one after the other.
pub open spec fn joined_payloads(frame: Seq<u8>, chunk_data_size: nat, upto: nat) -> Seq<u8>
    decreases upto,
{
    if upto == 0 {
        Seq::empty()
    } else {
        joined_payloads(frame, chunk_data_size, (upto - 1) as nat) + chunk_payload(
            frame,
            chunk_data_size,
            (upto - 1) as nat,
        )
    }
}

/// The chunk count is the least number of chunks that covers the frame:
/// that many chunks hold at least `len` bytes, one fewer would not.
pub proof fn chunk_count_is_ceiling(len: nat, chunk_data_size: nat)
    requires
        chunk_data_size > 0,
    ensures
        chunks_needed(len, chunk_data_size) * chunk_data_size >= len,
        (chunks_needed(len, chunk_data_size) - 1) * chunk_data_size < len,
        len == 0 <==> chunks_needed(len, chunk_data_size) == 0,
{
    let c = chunk_data_size as int;
    let x = len + c - 1;
    let q = x / c;
    vstd::arithmetic::div_mod::lemma_fundamental_div_mod(x, c);
    vstd::arithmetic::div_mod::lemma_mod_bound(x, c);
    vstd::arithmetic::div_mod::lemma_div_pos_is_pos(x, c);
    assert(c * q >= len && (q - 1) * c < len && q * c == c * q) by (nonlinear_arith)
        requires
            x == c * q + x % c,
            0 <= x % c < c,
            x == len + c - 1,
    ;
    assert(len > 0 ==> q > 0) by (nonlinear_arith)
        requires
            (q - 1) * c < len,
            c * q >= len,
            c > 0,
    ;
    assert(len == 0 ==> q == 0) by (nonlinear_arith)
        requires
            (q - 1) * c < len,
            q >= 0,
            c > 0,
    ;
}

/// Only one number is the least that covers the frame.
pub proof fn chunk_count_is_unique(len: nat, chunk_data_size: nat, n: int)
    requires
        chunk_data_size > 0,
        n * chunk_data_size >= len,
        (n - 1) * chunk_data_size < len,
    ensures
        n == chunks_needed(len, chunk_data_size),
{
    chunk_count_is_ceiling(len, chunk_data_size);
    let m = chunks_needed(len, chunk_data_size) as int;
    let c = chunk_data_size as int;
    assert(n == m) by (nonlinear_arith)
        requires
            c > 0,
            n * c >= len,
            (n - 1) * c < len,
            m * c >= len,
            (m - 1) * c < len,
    ;
}

/// Every chunk of a frame starts inside the frame and carries between one
/// and `chunk_data_size` bytes.
pub proof fn chunk_lies_in_frame(len: nat, chunk_data_size: nat, index: nat)
    requires
        chunk_data_size > 0,
        index < chunks_needed(len, chunk_data_size),
    ensures
        index * chunk_data_size < len,
        index * chunk_data_size < chunk_end(len, chunk_data_size, index) <= len,
        chunk_end(len, chunk_data_size, index) - index * chunk_data_size <= chunk_data_size,
        index + 1 < chunks_needed(len, chunk_data_size) ==> chunk_end(
            len,
            chunk_data_size,
            index,
        ) == (index + 1) * chunk_data_size,
        index + 1 == chunks_needed(len, chunk_data_size) ==> chunk_end(
            len,
            chunk_data_size,
            index,
        ) == len,
{
    chunk_count_is_ceiling(len, chunk_data_size);
    let n = chunks_needed(len, chunk_data_size) as int;
    let c = chunk_data_size as int;
    let i = index as int;
    assert(i * c < len && (i + 1) * c == i * c + c) by (nonlinear_arith)
        requires
            c > 0,
            0 <= i < n,
            (n - 1) * c < len,
    ;
    assert(i + 1 < n ==> (i + 1) * c < len) by (nonlinear_arith)
        requires
            c > 0,
            0 <= i < n,
            (n - 1) * c < len,
    ;
    assert(i + 1 == n ==> (i + 1) * c >= len) by (nonlinear_arith)
        requires
            n * c >= len,
    ;
}

/// Every chunk datagram holds the header and at least one byte of the
/// frame, and is no longer than the header and a full chunk.
pub proof fn chunk_datagram_size(
    frame: Seq<u8>,
    frame_id: u32,
    chunk_data_size: nat,
    index: nat,
)
    requires
        chunk_data_size > 0,
        index < chunks_needed(frame.len(), chunk_data_size),
    ensures
        chunk_payload(frame, chunk_data_size, index).len() == chunk_end(
            frame.len(),
            chunk_data_size,
            index,
        ) - index * chunk_data_size,
        HEADER_SIZE < chunk_datagram(frame, frame_id, chunk_data_size, index).len()
            <= HEADER_SIZE + chunk_data_size,
{
    chunk_lies_in_frame(frame.len(), chunk_data_size, index);
    crate::header::header_round_trip(
        chunk_header(frame, frame_id, chunk_data_size, index),
        chunk_payload(frame, chunk_data_size, index),
    );
}

/// The payloads of the first `upto` chunks are the frame's first bytes.
pub proof fn joined_payloads_are_prefix(frame: Seq<u8>, chunk_data_size: nat, upto: nat)
    requires
        chunk_data_size > 0,
        upto <= chunks_needed(frame.len(), chunk_data_size),
    ensures
        upto == 0 ==> joined_payloads(frame, chunk_data_size, upto) == Seq::<u8>::empty(),
        upto > 0 ==> joined_payloads(frame, chunk_data_size, upto) == frame.subrange(
            0,
            chunk_end(frame.len(), chunk_data_size, (upto - 1) as nat) as int,
        ),
    decreases upto,
{
    if upto > 0 {
        let last = (upto - 1) as nat;
        joined_payloads_are_prefix(frame, chunk_data_size, last);
        chunk_lies_in_frame(frame.len(), chunk_data_size, last);
        if last > 0 {
            chunk_lies_in_frame(frame.len(), chunk_data_size, (last - 1) as nat);
        }
        assert(joined_payloads(frame, chunk_data_size, upto) =~= frame.subrange(
            0,
            chunk_end(frame.len(), chunk_data_size, last) as int,
        ));
    }
}

/// The chunks cover the frame with no gap and no overlap: their payloads,
/// joined in index order, are the frame.
pub proof fn payloads_cover_frame(frame: Seq<u8>, chunk_data_size: nat)
    requires
        chunk_data_size > 0,
    ensures
        joined_payloads(frame, chunk_data_size, chunks_needed(frame.len(), chunk_data_size))
            == frame,
{
    let n = chunks_needed(frame.len(), chunk_data_size);
    chunk_count_is_ceiling(frame.len(), chunk_data_size);
    joined_payloads_are_prefix(frame, chunk_data_size, n);
    if n > 0 {
        chunk_lies_in_frame(frame.len(), chunk_data_size, (n - 1) as nat);
        assert(frame.subrange(0, frame.len() as int) =~= frame);
    } else {
        assert(frame =~= Seq::<u8>::empty());
    }
}

/// Counts the chunks that a frame of `len` bytes needs.
///
/// Fails with `FrameTooLarge` exactly when the count does not fit the
/// header's 16-bit field.
pub fn total_chunks(len: usize, chunk_data_size: usize) -> (count: Result<u16, ProtocolError>)
    requires
        chunk_data_size > 0,
    ensures
        chunks_needed(len as nat, chunk_data_size as nat) > MAX_CHUNKS <==> count is Err,
        count is Err ==> count == Err::<u16, ProtocolError>(ProtocolError::FrameTooLarge),
        count is Ok ==> count->Ok_0 == chunks_needed(len as nat, chunk_data_size as nat),
{
    let whole: usize = len / chunk_data_size;
    let rest: usize = len % chunk_data_size;
    proof {
        let c = chunk_data_size as int;
        let q = whole as int;
        let n = if rest == 0 { q } else { q + 1 };
        vstd::arithmetic::div_mod::lemma_fundamental_div_mod(len as int, c);
        assert(n * c >= len && (n - 1) * c < len) by (nonlinear_arith)
            requires
                len == c * q + rest,
                0 <= rest < c,
                n == if rest == 0 { q } else { q + 1 },
        ;
        chunk_count_is_unique(len as nat, chunk_data_size as nat, n);
    }
    if whole > MAX_CHUNKS || (whole == MAX_CHUNKS && rest != 0) {
        Err(ProtocolError::FrameTooLarge)
    } else if rest != 0 {
        Ok((whole + 1) as u16)
    } else {
        Ok(whole as u16)
    }
}

/// Builds the datagram of one chunk: the header's bytes, then the payload.
pub fn build_datagram(header: &ChunkHeader, payload: &[u8]) -> (datagram: Vec<u8>)
    ensures
        datagram@ == datagram_of(*header, payload@),
{
    let bytes = header.encode();
    let mut datagram: Vec<u8> = Vec::new();
    datagram.extend_from_slice(bytes.as_slice());
    datagram.extend_from_slice(payload);
    datagram
}

/// Splits a frame into its chunk datagrams, in index order.
///
/// Fails with `FrameTooLarge` exactly when the frame needs more chunks than
/// the header can count. Otherwise datagram `i` carries the header of chunk
/// `i` and the frame's bytes from `i * chunk_data_size` up to the next
/// chunk's start or the frame's end.
pub fn split_frame(frame: &[u8], frame_id: u32, chunk_data_size: usize) -> (chunks: Result<
    Vec<Vec<u8>>,
    ProtocolError,
>)
    requires
        chunk_data_size > 0,
    ensures
        chunks_needed(frame@.len(), chunk_data_size as nat) > MAX_CHUNKS <==> chunks is Err,
        chunks is Err ==> chunks == Err::<Vec<Vec<u8>>, ProtocolError>(
            ProtocolError::FrameTooLarge,
        ),
        chunks is Ok ==> {
            &&& chunks->Ok_0@.len() == chunks_needed(frame@.len(), chunk_data_size as nat)
            &&& forall|i: int|
                0 <= i < chunks->Ok_0@.len() ==> (#[trigger] chunks->Ok_0@[i])@ == chunk_datagram(
                    frame@,
                    frame_id,
                    chunk_data_size as nat,
                    i as nat,
                )
        },
{
    let total: u16 = match total_chunks(frame.len(), chunk_data_size) {
        Ok(n) => n,
        Err(e) => {
            return Err(e);
        },
    };
    let mut datagrams: Vec<Vec<u8>> = Vec::new();
    let mut index: u16 = 0;
    while index < total
        invariant
            chunk_data_size > 0,
            index <= total,
            total == chunks_needed(frame@.len(), chunk_data_size as nat),
            datagrams@.len() == index,
            forall|i: int|
                0 <= i < index ==> (#[trigger] datagrams@[i])@ == chunk_datagram(
                    frame@,
                    frame_id,
                    chunk_data_size as nat,
                    i as nat,
                ),
        decreases total - index,
    {
        proof {
            chunk_lies_in_frame(frame@.len(), chunk_data_size as nat, index as nat);
            assert((index as nat) * (chunk_data_size as nat) == (index as int) * (chunk_data_size as int));
            assert((index as int) * (chunk_data_size as int) < frame@.len());
        }
        let len: usize = frame.len();
        let start: usize = (index as usize) * chunk_data_size;
        let end: usize = if len - start > chunk_data_size {
            start + chunk_data_size
        } else {
            len
        };
        assert(end == chunk_end(frame@.len(), chunk_data_size as nat, index as nat)) by {
            assert((index + 1) * chunk_data_size == index * chunk_data_size + chunk_data_size)
                by (nonlinear_arith);
        }
        let header = ChunkHeader { frame_id, total_chunks: total, chunk_index: index };
        let payload = vstd::slice::slice_subrange(frame, start, end);
        let datagram = build_datagram(&header, payload);
        datagrams.push(datagram);
        index = index + 1;
    }
    Ok(datagrams)
}

/// Whether the sender pauses after the chunk at `index` of `total`: after
/// every full batch, and after the frame's last chunk.
pub fn ends_batch(index: u16, total: u16) -> (pause: bool)
    requires
        index < total,
    ensures
        pause == ((index + 1) % (BATCH_SIZE as int) == 0 || index + 1 == total),
{
    (index % BATCH_SIZE) == BATCH_SIZE - 1 || index == total - 1
}

} // verus!
