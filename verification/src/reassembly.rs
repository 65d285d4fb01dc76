use vstd::prelude::*;
use std::collections::HashMap;
use crate::error::ProtocolError;
use crate::header::{parse_header, payload_of, ChunkHeader, HEADER_SIZE};

verus! {

broadcast use vstd::std_specs::hash::group_hash_axioms;

/// What a reassembly entry holds: the chunk count that its first chunk
/// announced, one slot per chunk, and the number of chunks counted so far.
pub struct EntryModel {
    pub expected: u16,
    pub slots: Seq<Option<Seq<u8>>>,
    pub received: nat,
}

/// The number of slots that hold a payload.
pub open spec fn filled(slots: Seq<Option<Seq<u8>>>) -> nat
    decreases slots.len(),
{
    if slots.len() == 0 {
        0
    } else {
        filled(slots.drop_last()) + if slots.last() is Some {
            1nat
        } else {
            0nat
        }
    }
}

/// The payloads of the filled slots, joined in index order.
pub open spec fn assemble(slots: Seq<Option<Seq<u8>>>) -> Seq<u8>
    decreases slots.len(),
{
    if slots.len() == 0 {
        Seq::empty()
    } else {
        assemble(slots.drop_last()) + match slots.last() {
            Some(payload) => payload,
            None => Seq::empty(),
        }
    }
}

impl EntryModel {
    /// The entry made for a frame of `total` chunks of which none has arrived.
    pub open spec fn fresh(total: u16) -> EntryModel {
        EntryModel {
            expected: total,
            slots: Seq::new(total as nat, |i: int| None::<Seq<u8>>),
            received: 0,
        }
    }

    /// The entry after the chunk at `index` has arrived.
    pub open spec fn fill(self, index: int, payload: Seq<u8>) -> EntryModel {
        EntryModel {
            expected: self.expected,
            slots: self.slots.update(index, Some(payload)),
            received: self.received + 1,
        }
    }

    /// An entry in the table has one slot per expected chunk, counts exactly
    /// its filled slots, and still misses a chunk.
    pub open spec fn wf(self) -> bool {
        &&& self.slots.len() == self.expected
        &&& self.received == filled(self.slots)
        &&& self.received < self.expected
    }
}

/// What became of a datagram.
pub enum ReceiptModel {
    Rejected(ProtocolError),
    Duplicate,
    Stored,
    Delivered(u32, Seq<u8>),
}

/// The entry that a chunk of frame `frame_id` goes to: the one in the
/// table, or a fresh one sized by the chunk's own count.
pub open spec fn entry_for(table: Map<u32, EntryModel>, header: ChunkHeader) -> EntryModel {
    if table.contains_key(header.frame_id) {
        table[header.frame_id]
    } else {
        EntryModel::fresh(header.total_chunks)
    }
}

/// One step of reassembly: the table after a datagram, and what became of
/// the datagram. `frame_len` is the configured length of a frame.
pub open spec fn accept_model(table: Map<u32, EntryModel>, frame_len: int, datagram: Seq<u8>) -> (
    Map<u32, EntryModel>,
    ReceiptModel,
) {
    if datagram.len() < HEADER_SIZE {
        (table, ReceiptModel::Rejected(ProtocolError::MalformedPacket))
    } else {
        let header = parse_header(datagram);
        let entry = entry_for(table, header);
        if header.chunk_index >= header.total_chunks || header.chunk_index >= entry.expected {
            (table, ReceiptModel::Rejected(ProtocolError::InvalidChunkIndex))
        } else if entry.slots[header.chunk_index as int] is Some {
            (table, ReceiptModel::Duplicate)
        } else {
            let grown = entry.fill(header.chunk_index as int, payload_of(datagram));
            if grown.received != grown.expected {
                (table.insert(header.frame_id, grown), ReceiptModel::Stored)
            } else if assemble(grown.slots).len() == frame_len {
                (
                    table.remove(header.frame_id),
                    ReceiptModel::Delivered(header.frame_id, assemble(grown.slots)),
                )
            } else {
                (
                    table.remove(header.frame_id),
                    ReceiptModel::Rejected(ProtocolError::ReassembledSizeMismatch),
                )
            }
        }
    }
}

/// The table and the receipts after a run of datagrams, handled one after
/// the other.
pub open spec fn feed(table: Map<u32, EntryModel>, frame_len: int, datagrams: Seq<Seq<u8>>) -> (
    Map<u32, EntryModel>,
    Seq<ReceiptModel>,
)
    decreases datagrams.len(),
{
    if datagrams.len() == 0 {
        (table, Seq::empty())
    } else {
        let before = feed(table, frame_len, datagrams.drop_last());
        let step = accept_model(before.0, frame_len, datagrams.last());
        (step.0, before.1.push(step.1))
    }
}

/// Every entry of the table is well formed.
pub open spec fn table_wf(table: Map<u32, EntryModel>) -> bool {
    forall|frame_id: u32| #[trigger] table.contains_key(frame_id) ==> table[frame_id].wf()
}

/// No more slots are filled than there are slots.
pub proof fn filled_is_bounded(slots: Seq<Option<Seq<u8>>>)
    ensures
        filled(slots) <= slots.len(),
    decreases slots.len(),
{
    if slots.len() > 0 {
        filled_is_bounded(slots.drop_last());
    }
}

/// While a slot is empty, fewer slots are filled than there are slots.
pub proof fn empty_slot_keeps_count_short(slots: Seq<Option<Seq<u8>>>, index: int)
    requires
        0 <= index < slots.len(),
        slots[index] is None,
    ensures
        filled(slots) < slots.len(),
    decreases slots.len(),
{
    if index == slots.len() - 1 {
        filled_is_bounded(slots.drop_last());
    } else {
        empty_slot_keeps_count_short(slots.drop_last(), index);
    }
}

/// Once as many slots are filled as there are slots, no slot is empty:
/// a frame whose count is complete has every chunk.
pub proof fn full_count_leaves_no_gap(slots: Seq<Option<Seq<u8>>>)
    requires
        filled(slots) == slots.len(),
    ensures
        forall|index: int| 0 <= index < slots.len() ==> (#[trigger] slots[index]) is Some,
{
    assert forall|index: int| 0 <= index < slots.len() implies (#[trigger] slots[index])
        is Some by {
        if slots[index] is None {
            empty_slot_keeps_count_short(slots, index);
        }
    }
}

/// Filling an empty slot raises the number of filled slots by one.
pub proof fn filling_counts_once(slots: Seq<Option<Seq<u8>>>, index: int, payload: Seq<u8>)
    requires
        0 <= index < slots.len(),
        slots[index] is None,
    ensures
        filled(slots.update(index, Some(payload))) == filled(slots) + 1,
    decreases slots.len(),
{
    let after = slots.update(index, Some(payload));
    if index == slots.len() - 1 {
        assert(after.drop_last() =~= slots.drop_last());
    } else {
        filling_counts_once(slots.drop_last(), index, payload);
        assert(after.drop_last() =~= slots.drop_last().update(index, Some(payload)));
    }
}

/// No slot of a fresh entry is filled.
pub proof fn fresh_is_empty(total: u16)
    ensures
        filled(EntryModel::fresh(total).slots) == 0,
    decreases total,
{
    let slots = EntryModel::fresh(total).slots;
    if total > 0 {
        fresh_is_empty((total - 1) as u16);
        assert(slots.drop_last() =~= EntryModel::fresh((total - 1) as u16).slots);
    }
}

/// A step keeps every entry of the table well formed.
pub proof fn accept_keeps_table_wf(table: Map<u32, EntryModel>, frame_len: int, datagram: Seq<u8>)
    requires
        table_wf(table),
    ensures
        table_wf(accept_model(table, frame_len, datagram).0),
{
    if datagram.len() >= HEADER_SIZE {
        let header = parse_header(datagram);
        let entry = entry_for(table, header);
        fresh_is_empty(header.total_chunks);
        if header.chunk_index < header.total_chunks && header.chunk_index < entry.expected
            && entry.slots[header.chunk_index as int] is None {
            filling_counts_once(entry.slots, header.chunk_index as int, payload_of(datagram));
            filled_is_bounded(entry.fill(header.chunk_index as int, payload_of(datagram)).slots);
        }
    }
}

/// A frame is delivered whole or not at all: what is delivered has the
/// configured length, comes from an entry whose every slot is filled, and
/// its entry has left the table.
pub proof fn delivered_frame_is_whole(
    table: Map<u32, EntryModel>,
    frame_len: int,
    datagram: Seq<u8>,
)
    requires
        table_wf(table),
        accept_model(table, frame_len, datagram).1 is Delivered,
    ensures
        datagram.len() >= HEADER_SIZE,
        accept_model(table, frame_len, datagram).1->Delivered_0 == parse_header(
            datagram,
        ).frame_id,
        accept_model(table, frame_len, datagram).1->Delivered_1.len() == frame_len,
        !accept_model(table, frame_len, datagram).0.contains_key(parse_header(datagram).frame_id),
        forall|index: int|
            0 <= index < entry_for(table, parse_header(datagram)).expected ==> (
            #[trigger] entry_for(table, parse_header(datagram)).fill(
                parse_header(datagram).chunk_index as int,
                payload_of(datagram),
            ).slots[index]) is Some,
{
    let header = parse_header(datagram);
    let entry = entry_for(table, header);
    let grown = entry.fill(header.chunk_index as int, payload_of(datagram));
    fresh_is_empty(header.total_chunks);
    filling_counts_once(entry.slots, header.chunk_index as int, payload_of(datagram));
    full_count_leaves_no_gap(grown.slots);
}

/// The state kept for one frame whose chunks are still arriving.
pub struct ReassemblyEntry {
    expected_total_chunks: u16,
    slots: Vec<Option<Vec<u8>>>,
    received_count: u16,
}

impl View for ReassemblyEntry {
    type V = EntryModel;

    closed spec fn view(&self) -> EntryModel {
        EntryModel {
            expected: self.expected_total_chunks,
            slots: Seq::new(
                self.slots@.len(),
                |i: int|
                    match self.slots@[i] {
                        Some(payload) => Some(payload@),
                        None => None,
                    },
            ),
            received: self.received_count as nat,
        }
    }
}

impl ReassemblyEntry {
    /// An entry for a frame of `total` chunks, with every slot empty.
    pub fn new(total: u16) -> (entry: ReassemblyEntry)
        ensures
            entry@ == EntryModel::fresh(total),
    {
        let mut slots: Vec<Option<Vec<u8>>> = Vec::new();
        let mut made: u16 = 0;
        while made < total
            invariant
                made <= total,
                slots@.len() == made,
                forall|i: int| 0 <= i < made ==> slots@[i] is None,
            decreases total - made,
        {
            slots.push(None);
            made = made + 1;
        }
        let entry = ReassemblyEntry { expected_total_chunks: total, slots, received_count: 0 };
        assert(entry@.slots =~= EntryModel::fresh(total).slots);
        entry
    }

    /// The chunk count that the entry was made with.
    pub fn expected_total_chunks(&self) -> (total: u16)
        ensures
            total == self@.expected,
    {
        self.expected_total_chunks
    }

    /// The number of distinct chunks that have arrived.
    pub fn received_count(&self) -> (count: u16)
        ensures
            count == self@.received,
    {
        self.received_count
    }

    /// Whether the chunk at `index` has arrived.
    pub fn is_filled(&self, index: u16) -> (present: bool)
        requires
            index < self@.slots.len(),
        ensures
            present == (self@.slots[index as int] is Some),
    {
        self.slots[index as usize].is_some()
    }

    /// Whether every expected chunk has been counted.
    pub fn is_complete(&self) -> (complete: bool)
        ensures
            complete == (self@.received == self@.expected),
    {
        self.received_count == self.expected_total_chunks
    }

    /// Stores the payload of the chunk at `index`, which has not arrived
    /// before, and counts it.
    pub fn fill(&mut self, index: u16, payload: Vec<u8>)
        requires
            index < old(self)@.slots.len(),
            old(self)@.received < old(self)@.expected,
        ensures
            final(self)@ == old(self)@.fill(index as int, payload@),
    {
        self.slots[index as usize] = Some(payload);
        self.received_count = self.received_count + 1;
        assert(self@.slots =~= old(self)@.slots.update(index as int, Some(payload@)));
    }

    /// Joins the payloads of the filled slots in index order.
    pub fn assemble(&self) -> (data: Vec<u8>)
        ensures
            data@ == assemble(self@.slots),
    {
        let mut data: Vec<u8> = Vec::new();
        let mut index: usize = 0;
        while index < self.slots.len()
            invariant
                index <= self.slots@.len(),
                data@ == assemble(self@.slots.take(index as int)),
            decreases self.slots@.len() - index,
        {
            proof {
                assert(self@.slots.take(index + 1).drop_last() =~= self@.slots.take(index as int));
            }
            match &self.slots[index] {
                Some(payload) => {
                    data.extend_from_slice(payload.as_slice());
                },
                None => {},
            }
            index = index + 1;
        }
        assert(self@.slots.take(index as int) =~= self@.slots);
        data
    }
}

/// What became of a datagram handed to the reassembler.
#[derive(Debug)]
pub enum Receipt {
    /// The datagram was dropped, for the reason given.
    Rejected(ProtocolError),
    /// The chunk had arrived before; nothing changed.
    Duplicate,
    /// The chunk was stored; its frame still misses chunks.
    Stored,
    /// The chunk completed the frame with this identifier and these bytes.
    Delivered(u32, Vec<u8>),
}

impl View for Receipt {
    type V = ReceiptModel;

    open spec fn view(&self) -> ReceiptModel {
        match self {
            Receipt::Rejected(e) => ReceiptModel::Rejected(*e),
            Receipt::Duplicate => ReceiptModel::Duplicate,
            Receipt::Stored => ReceiptModel::Stored,
            Receipt::Delivered(frame_id, data) => ReceiptModel::Delivered(*frame_id, data@),
        }
    }
}

/// What the receipts of a run say, one after the other.
pub open spec fn receipt_views(receipts: Seq<Receipt>) -> Seq<ReceiptModel> {
    Seq::new(receipts.len(), |i: int| receipts[i]@)
}

/// The receiver's table of frames in progress, keyed by frame identifier,
/// together with the dimensions that a whole frame must have.
pub struct Reassembler {
    width: usize,
    height: usize,
    channel_count: usize,
    table: HashMap<u32, ReassemblyEntry>,
}

impl Reassembler {
    /// The table as a map from frame identifier to entry.
    pub closed spec fn model(&self) -> Map<u32, EntryModel> {
        Map::new(
            |frame_id: u32| self.table@.contains_key(frame_id),
            |frame_id: u32| self.table@[frame_id]@,
        )
    }

    /// The configured width of a frame.
    pub closed spec fn width(&self) -> nat {
        self.width as nat
    }

    /// The configured height of a frame.
    pub closed spec fn height(&self) -> nat {
        self.height as nat
    }

    /// The configured number of bytes per pixel.
    pub closed spec fn channel_count(&self) -> nat {
        self.channel_count as nat
    }

    /// The length that a whole frame must have.
    pub open spec fn frame_len(&self) -> nat {
        self.width() * self.height() * self.channel_count()
    }

    /// Every entry of the table is well formed.
    pub open spec fn wf(&self) -> bool {
        table_wf(self.model())
    }

    /// A reassembler with an empty table for frames of the given dimensions.
    pub fn new(width: usize, height: usize, channel_count: usize) -> (reassembler: Reassembler)
        ensures
            reassembler.wf(),
            reassembler.model() == Map::<u32, EntryModel>::empty(),
            reassembler.width() == width,
            reassembler.height() == height,
            reassembler.channel_count() == channel_count,
    {
        let reassembler = Reassembler { width, height, channel_count, table: HashMap::new() };
        assert(reassembler.model() =~= Map::<u32, EntryModel>::empty());
        reassembler
    }

    /// Whether `len` is the configured length of a frame.
    pub fn is_frame_len(&self, len: usize) -> (same: bool)
        ensures
            same == (len == self.frame_len()),
    {
        if self.width == 0 || self.height == 0 || self.channel_count == 0 {
            assert(self.frame_len() == 0) by (nonlinear_arith)
                requires
                    self.width() == 0 || self.height() == 0 || self.channel_count() == 0,
            ;
            return len == 0;
        }
        let ghost w = self.width as int;
        let ghost h = self.height as int;
        let ghost c = self.channel_count as int;
        match self.width.checked_mul(self.height) {
            None => {
                assert(w * h * c > usize::MAX) by (nonlinear_arith)
                    requires
                        w * h > usize::MAX,
                        c >= 1,
                ;
                false
            },
            Some(area) => match area.checked_mul(self.channel_count) {
                None => false,
                Some(total) => len == total,
            },
        }
    }

    /// Whether a frame with this identifier is in progress.
    pub fn is_pending(&self, frame_id: u32) -> (pending: bool)
        ensures
            pending == self.model().contains_key(frame_id),
    {
        self.table.contains_key(&frame_id)
    }

    /// The number of frames in progress.
    pub fn pending_frames(&self) -> (count: usize)
        ensures
            count == self.model().dom().len(),
    {
        assert(self.model().dom() =~= self.table@.dom());
        self.table.len()
    }

    /// Whether a chunk with this header disagrees with the chunk count
    /// that the frame's entry was made with. Such a chunk is still
    /// handled, against the entry's own count.
    pub fn conflicts(&self, header: &ChunkHeader) -> (conflict: bool)
        ensures
            conflict == (self.model().contains_key(header.frame_id) && self.model()[header.frame_id].expected
                != header.total_chunks),
    {
        match self.table.get(&header.frame_id) {
            Some(entry) => entry.expected_total_chunks != header.total_chunks,
            None => false,
        }
    }

    /// Handles one chunk datagram.
    ///
    /// The table afterwards and the receipt are those of `accept_model`: a
    /// datagram shorter than a header, or with an index outside its own
    /// chunk count or the entry's, is rejected and changes nothing; a chunk
    /// that arrived before changes nothing; any other chunk is stored, and
    /// if it was the last one missing, the entry leaves the table and the
    /// frame is delivered when its length is the configured one, rejected
    /// with `ReassembledSizeMismatch` when it is not.
    pub fn accept(&mut self, datagram: &[u8]) -> (receipt: Receipt)
        requires
            old(self).wf(),
        ensures
            final(self).wf(),
            final(self).width() == old(self).width(),
            final(self).height() == old(self).height(),
            final(self).channel_count() == old(self).channel_count(),
            (final(self).model(), receipt@) == accept_model(
                old(self).model(),
                old(self).frame_len() as int,
                datagram@,
            ),
    {
        proof {
            accept_keeps_table_wf(self.model(), self.frame_len() as int, datagram@);
        }
        let header = match ChunkHeader::decode(datagram) {
            Ok(h) => h,
            Err(e) => {
                return Receipt::Rejected(e);
            },
        };
        if header.chunk_index >= header.total_chunks {
            return Receipt::Rejected(ProtocolError::InvalidChunkIndex);
        }
        match self.table.get(&header.frame_id) {
            Some(entry) => {
                if header.chunk_index >= entry.expected_total_chunks {
                    return Receipt::Rejected(ProtocolError::InvalidChunkIndex);
                }
                if entry.is_filled(header.chunk_index) {
                    return Receipt::Duplicate;
                }
            },
            None => {},
        }
        let mut entry = match self.table.remove(&header.frame_id) {
            Some(known) => known,
            None => ReassemblyEntry::new(header.total_chunks),
        };
        assert(entry@ == entry_for(old(self).model(), header));
        proof {
            fresh_is_empty(header.total_chunks);
        }
        let payload = vstd::slice::slice_to_vec(
            vstd::slice::slice_subrange(datagram, HEADER_SIZE, datagram.len()),
        );
        entry.fill(header.chunk_index, payload);
        if entry.is_complete() {
            let data = entry.assemble();
            assert(self.model() =~= old(self).model().remove(header.frame_id));
            if self.is_frame_len(data.len()) {
                Receipt::Delivered(header.frame_id, data)
            } else {
                Receipt::Rejected(ProtocolError::ReassembledSizeMismatch)
            }
        } else {
            self.table.insert(header.frame_id, entry);
            assert(self.model() =~= old(self).model().insert(header.frame_id, entry@));
            Receipt::Stored
        }
    }

    /// Handles a run of chunk datagrams, one after the other, and gives
    /// the receipt of each.
    pub fn accept_all(&mut self, datagrams: &Vec<Vec<u8>>) -> (receipts: Vec<Receipt>)
        requires
            old(self).wf(),
        ensures
            final(self).wf(),
            final(self).width() == old(self).width(),
            final(self).height() == old(self).height(),
            final(self).channel_count() == old(self).channel_count(),
            (final(self).model(), receipt_views(receipts@)) == feed(
                old(self).model(),
                old(self).frame_len() as int,
                datagram_views(datagrams@),
            ),
    {
        let ghost run = datagram_views(datagrams@);
        let mut receipts: Vec<Receipt> = Vec::new();
        let mut at: usize = 0;
        assert(receipt_views(receipts@) =~= feed(
            self.model(),
            self.frame_len() as int,
            run.take(0),
        ).1);
        while at < datagrams.len()
            invariant
                at <= datagrams@.len(),
                run == datagram_views(datagrams@),
                self.wf(),
                self.width() == old(self).width(),
                self.height() == old(self).height(),
                self.channel_count() == old(self).channel_count(),
                (self.model(), receipt_views(receipts@)) == feed(
                    old(self).model(),
                    old(self).frame_len() as int,
                    run.take(at as int),
                ),
            decreases datagrams@.len() - at,
        {
            let ghost before = receipt_views(receipts@);
            let receipt = self.accept(datagrams[at].as_slice());
            receipts.push(receipt);
            proof {
                assert(run.take(at + 1).drop_last() =~= run.take(at as int));
                assert(run.take(at + 1).last() == datagrams@[at as int]@);
                assert(receipt_views(receipts@) =~= before.push(receipt@));
            }
            at = at + 1;
        }
        assert(run.take(at as int) =~= run);
        receipts
    }
}

/// What the datagrams of a run hold, one after the other.
pub open spec fn datagram_views(datagrams: Seq<Vec<u8>>) -> Seq<Seq<u8>> {
    Seq::new(datagrams.len(), |i: int| datagrams[i]@)
}

} // verus!
