use vstd::prelude::*;
use crate::chunker::{
    chunk_datagram, chunk_header, chunk_payload, chunks_needed,
    joined_payloads, payloads_cover_frame, MAX_CHUNKS,
};
use crate::header::{header_round_trip, parse_header, payload_of, HEADER_SIZE};
use crate::reassembly::{
    accept_model, assemble, empty_slot_keeps_count_short, entry_for, feed, filled,
    filling_counts_once, fresh_is_empty, table_wf, EntryModel, ReceiptModel,
};

verus! {

/// Every datagram of a run gets one receipt.
pub proof fn feed_gives_one_receipt_each(
    table: Map<u32, EntryModel>,
    frame_len: int,
    datagrams: Seq<Seq<u8>>,
)
    ensures
        feed(table, frame_len, datagrams).1.len() == datagrams.len(),
    decreases datagrams.len(),
{
    if datagrams.len() > 0 {
        feed_gives_one_receipt_each(table, frame_len, datagrams.drop_last());
    }
}

/// `order` names each of the chunk indices below `count` once.
pub open spec fn is_permutation(order: Seq<nat>, count: nat) -> bool {
    &&& order.len() == count
    &&& forall|k: int| 0 <= k < count ==> #[trigger] order[k] < count
    &&& forall|j: int, k: int| 0 <= j < k < count ==> order[j] != order[k]
}

/// The chunk datagrams of a frame, sent in the given order of indices.
pub open spec fn chunks_in_order(
    frame: Seq<u8>,
    frame_id: u32,
    chunk_data_size: nat,
    order: Seq<nat>,
) -> Seq<Seq<u8>> {
    Seq::new(order.len(), |k: int| chunk_datagram(frame, frame_id, chunk_data_size, order[k]))
}

/// Whether chunk `index` is among the first `sent` of `order`.
pub open spec fn arrived(order: Seq<nat>, sent: nat, index: nat) -> bool
    decreases sent,
{
    sent > 0 && (order[sent - 1] == index || arrived(order, (sent - 1) as nat, index))
}

/// Whether each of the chunks below `count` is among the first `sent` of
/// `order`.
pub open spec fn all_arrived(order: Seq<nat>, sent: nat, count: nat) -> bool {
    forall|index: nat| index < count ==> arrived(order, sent, index)
}

/// The entry of a frame after the first `sent` chunks of `order` arrived,
/// some of them perhaps more than once.
pub open spec fn gathered(
    frame: Seq<u8>,
    chunk_data_size: nat,
    order: Seq<nat>,
    sent: nat,
) -> EntryModel {
    let slots = Seq::new(
        chunks_needed(frame.len(), chunk_data_size),
        |i: int|
            if arrived(order, sent, i as nat) {
                Some(chunk_payload(frame, chunk_data_size, i as nat))
            } else {
                None
            },
    );
    EntryModel {
        expected: chunks_needed(frame.len(), chunk_data_size) as u16,
        slots,
        received: filled(slots),
    }
}

/// The receipt for the chunk sent at place `at` of `order` while the frame
/// is not yet whole: a duplicate if the chunk arrived before, stored if not.
pub open spec fn receipt_in_progress(order: Seq<nat>, at: int) -> ReceiptModel {
    if arrived(order, at as nat, order[at]) {
        ReceiptModel::Duplicate
    } else {
        ReceiptModel::Stored
    }
}

proof fn later_chunk_has_not_arrived(order: Seq<nat>, count: nat, sent: nat, later: int)
    requires
        is_permutation(order, count),
        sent <= later < count,
    ensures
        !arrived(order, sent, order[later]),
    decreases sent,
{
    if sent > 0 {
        later_chunk_has_not_arrived(order, count, (sent - 1) as nat, later);
    }
}

proof fn assemble_of_payloads(frame: Seq<u8>, chunk_data_size: nat, slots: Seq<Option<Seq<u8>>>)
    requires
        forall|i: int|
            0 <= i < slots.len() ==> #[trigger] slots[i] == Some(
                chunk_payload(frame, chunk_data_size, i as nat),
            ),
    ensures
        assemble(slots) == joined_payloads(frame, chunk_data_size, slots.len()),
        filled(slots) == slots.len(),
    decreases slots.len(),
{
    if slots.len() > 0 {
        assemble_of_payloads(frame, chunk_data_size, slots.drop_last());
    }
}

proof fn gathered_grows(frame: Seq<u8>, chunk_data_size: nat, order: Seq<nat>, sent: nat)
    requires
        chunk_data_size > 0,
        chunks_needed(frame.len(), chunk_data_size) <= MAX_CHUNKS,
        sent < order.len(),
        order[sent as int] < chunks_needed(frame.len(), chunk_data_size),
    ensures
        gathered(frame, chunk_data_size, order, 0) == EntryModel::fresh(
            chunks_needed(frame.len(), chunk_data_size) as u16,
        ),
        arrived(order, sent, order[sent as int]) ==> gathered(
            frame,
            chunk_data_size,
            order,
            sent + 1,
        ) == gathered(frame, chunk_data_size, order, sent),
        !arrived(order, sent, order[sent as int]) ==> gathered(
            frame,
            chunk_data_size,
            order,
            sent + 1,
        ) == gathered(frame, chunk_data_size, order, sent).fill(
            order[sent as int] as int,
            chunk_payload(frame, chunk_data_size, order[sent as int]),
        ),
{
    let count = chunks_needed(frame.len(), chunk_data_size);
    let before = gathered(frame, chunk_data_size, order, sent);
    let after = gathered(frame, chunk_data_size, order, sent + 1);
    let index = order[sent as int];
    let payload = chunk_payload(frame, chunk_data_size, index);
    fresh_is_empty(count as u16);
    assert(gathered(frame, chunk_data_size, order, 0).slots =~= EntryModel::fresh(
        count as u16,
    ).slots);
    if arrived(order, sent, index) {
        assert(after.slots =~= before.slots);
    } else {
        assert(after.slots =~= before.slots.update(index as int, Some(payload)));
        filling_counts_once(before.slots, index as int, payload);
    }
}

proof fn feed_in_progress(
    table: Map<u32, EntryModel>,
    frame: Seq<u8>,
    frame_id: u32,
    chunk_data_size: nat,
    order: Seq<nat>,
    sent: nat,
)
    requires
        !table.contains_key(frame_id),
        chunk_data_size > 0,
        chunks_needed(frame.len(), chunk_data_size) <= MAX_CHUNKS,
        sent <= order.len(),
        forall|k: int| 0 <= k < sent ==> order[k] < chunks_needed(frame.len(), chunk_data_size),
        !all_arrived(order, sent, chunks_needed(frame.len(), chunk_data_size)),
    ensures
        feed(
            table,
            frame.len() as int,
            chunks_in_order(frame, frame_id, chunk_data_size, order).take(sent as int),
        ) == (
            if sent == 0 {
                table
            } else {
                table.insert(frame_id, gathered(frame, chunk_data_size, order, sent))
            },
            Seq::new(sent, |k: int| receipt_in_progress(order, k)),
        ),
    decreases sent,
{
    let count = chunks_needed(frame.len(), chunk_data_size);
    let all = chunks_in_order(frame, frame_id, chunk_data_size, order);
    let run = all.take(sent as int);
    if sent == 0 {
        assert(feed(table, frame.len() as int, run).1 =~= Seq::new(
            0,
            |k: int| receipt_in_progress(order, k),
        ));
    } else {
        let earlier = (sent - 1) as nat;
        let missing = choose|index: nat| index < count && !arrived(order, sent, index);
        assert(!arrived(order, earlier, missing));
        feed_in_progress(table, frame, frame_id, chunk_data_size, order, earlier);
        assert(run.drop_last() =~= all.take(earlier as int));
        let before = feed(table, frame.len() as int, run.drop_last());
        let index = order[earlier as int];
        let payload = chunk_payload(frame, chunk_data_size, index);
        let header = chunk_header(frame, frame_id, chunk_data_size, index);
        assert(run.last() == chunk_datagram(frame, frame_id, chunk_data_size, index));
        header_round_trip(header, payload);
        gathered_grows(frame, chunk_data_size, order, earlier);
        let entry = entry_for(before.0, header);
        assert(entry == gathered(frame, chunk_data_size, order, earlier));
        let grown = gathered(frame, chunk_data_size, order, sent);
        assert(grown.slots[missing as int] is None);
        empty_slot_keeps_count_short(grown.slots, missing as int);
        let step = accept_model(before.0, frame.len() as int, run.last());
        assert(step.1 == receipt_in_progress(order, earlier as int));
        assert(step.0 =~= table.insert(frame_id, grown));
        assert(before.1.push(step.1) =~= Seq::new(sent, |k: int| receipt_in_progress(order, k)));
    }
}

/// Delivery despite duplicates: let the chunks of a frame arrive in any
/// order, any of them any number of times. The chunk that is the first to
/// make the set whole delivers exactly the frame that was split, and
/// leaves no entry for the frame in the table. Before it, a chunk is stored
/// when it arrives first and is a duplicate every time after.
pub proof fn delivery_despite_duplicates(
    table: Map<u32, EntryModel>,
    frame: Seq<u8>,
    frame_id: u32,
    chunk_data_size: nat,
    order: Seq<nat>,
    last: nat,
)
    requires
        !table.contains_key(frame_id),
        chunk_data_size > 0,
        0 < chunks_needed(frame.len(), chunk_data_size) <= MAX_CHUNKS,
        last < order.len(),
        forall|k: int| 0 <= k <= last ==> order[k] < chunks_needed(frame.len(), chunk_data_size),
        all_arrived(order, last + 1, chunks_needed(frame.len(), chunk_data_size)),
        !all_arrived(order, last, chunks_needed(frame.len(), chunk_data_size)),
    ensures
        feed(
            table,
            frame.len() as int,
            chunks_in_order(frame, frame_id, chunk_data_size, order).take((last + 1) as int),
        ) == (
            table,
            Seq::new(last, |k: int| receipt_in_progress(order, k)).push(
                ReceiptModel::Delivered(frame_id, frame),
            ),
        ),
{
    let count = chunks_needed(frame.len(), chunk_data_size);
    let all = chunks_in_order(frame, frame_id, chunk_data_size, order);
    let run = all.take((last + 1) as int);
    feed_in_progress(table, frame, frame_id, chunk_data_size, order, last);
    assert(run.drop_last() =~= all.take(last as int));
    let before = feed(table, frame.len() as int, run.drop_last());
    let index = order[last as int];
    let payload = chunk_payload(frame, chunk_data_size, index);
    let header = chunk_header(frame, frame_id, chunk_data_size, index);
    assert(run.last() == chunk_datagram(frame, frame_id, chunk_data_size, index));
    header_round_trip(header, payload);
    gathered_grows(frame, chunk_data_size, order, last);
    let missing = choose|index: nat| index < count && !arrived(order, last, index);
    assert(arrived(order, last + 1, missing));
    assert(!arrived(order, last, index));
    let entry = entry_for(before.0, header);
    assert(entry == gathered(frame, chunk_data_size, order, last));
    let whole = gathered(frame, chunk_data_size, order, last + 1);
    assert forall|i: int| 0 <= i < whole.slots.len() implies #[trigger] whole.slots[i] == Some(
        chunk_payload(frame, chunk_data_size, i as nat),
    ) by {
        assert(arrived(order, last + 1, i as nat));
    }
    assemble_of_payloads(frame, chunk_data_size, whole.slots);
    payloads_cover_frame(frame, chunk_data_size);
    let step = accept_model(before.0, frame.len() as int, run.last());
    assert(step.1 == ReceiptModel::Delivered(frame_id, frame));
    assert(step.0 =~= table);
}

proof fn permutation_fills_one_by_one(
    frame: Seq<u8>,
    chunk_data_size: nat,
    order: Seq<nat>,
    sent: nat,
)
    requires
        chunk_data_size > 0,
        chunks_needed(frame.len(), chunk_data_size) <= MAX_CHUNKS,
        is_permutation(order, chunks_needed(frame.len(), chunk_data_size)),
        sent <= chunks_needed(frame.len(), chunk_data_size),
    ensures
        gathered(frame, chunk_data_size, order, sent).received == sent,
    decreases sent,
{
    let count = chunks_needed(frame.len(), chunk_data_size);
    if sent == 0 {
        fresh_is_empty(count as u16);
        assert(gathered(frame, chunk_data_size, order, 0).slots =~= EntryModel::fresh(
            count as u16,
        ).slots);
    } else {
        let earlier = (sent - 1) as nat;
        permutation_fills_one_by_one(frame, chunk_data_size, order, earlier);
        later_chunk_has_not_arrived(order, count, earlier, earlier as int);
        gathered_grows(frame, chunk_data_size, order, earlier);
    }
}

/// Reorder invariance: whatever the order in which the chunks of a frame
/// arrive, each once, the chunks before the last are stored, the last one
/// delivers exactly the frame that was split, and no entry for the frame is
/// left in the table. So every order yields the buffer that the index order
/// yields.
pub proof fn reorder_invariance(
    table: Map<u32, EntryModel>,
    frame: Seq<u8>,
    frame_id: u32,
    chunk_data_size: nat,
    order: Seq<nat>,
)
    requires
        !table.contains_key(frame_id),
        chunk_data_size > 0,
        0 < chunks_needed(frame.len(), chunk_data_size) <= MAX_CHUNKS,
        is_permutation(order, chunks_needed(frame.len(), chunk_data_size)),
    ensures
        feed(
            table,
            frame.len() as int,
            chunks_in_order(frame, frame_id, chunk_data_size, order),
        ) == (
            table,
            Seq::new(
                (chunks_needed(frame.len(), chunk_data_size) - 1) as nat,
                |k: int| ReceiptModel::Stored,
            ).push(ReceiptModel::Delivered(frame_id, frame)),
        ),
{
    let count = chunks_needed(frame.len(), chunk_data_size);
    let all = chunks_in_order(frame, frame_id, chunk_data_size, order);
    let last = (count - 1) as nat;
    later_chunk_has_not_arrived(order, count, last, last as int);
    assert(!all_arrived(order, last, count));
    permutation_fills_one_by_one(frame, chunk_data_size, order, count);
    let whole = gathered(frame, chunk_data_size, order, count);
    assert forall|index: nat| index < count implies arrived(order, count, index) by {
        if !arrived(order, count, index) {
            assert(whole.slots[index as int] is None);
            empty_slot_keeps_count_short(whole.slots, index as int);
        }
    }
    delivery_despite_duplicates(table, frame, frame_id, chunk_data_size, order, last);
    assert(all.take(count as int) =~= all);
    assert forall|k: int| 0 <= k < last implies receipt_in_progress(order, k)
        == ReceiptModel::Stored by {
        later_chunk_has_not_arrived(order, count, k as nat, k);
    }
    assert(Seq::new(last, |k: int| receipt_in_progress(order, k)) =~= Seq::new(
        last,
        |k: int| ReceiptModel::Stored,
    ));
}

/// Duplicate idempotence: a chunk whose slot is already filled leaves the
/// table as it was, the count of received chunks and the stored payloads
/// included.
pub proof fn duplicate_changes_nothing(
    table: Map<u32, EntryModel>,
    frame_len: int,
    datagram: Seq<u8>,
)
    requires
        datagram.len() >= HEADER_SIZE,
        table.contains_key(parse_header(datagram).frame_id),
        parse_header(datagram).chunk_index < parse_header(datagram).total_chunks,
        parse_header(datagram).chunk_index < table[parse_header(datagram).frame_id].expected,
        table[parse_header(datagram).frame_id].slots[parse_header(datagram).chunk_index as int]
            is Some,
    ensures
        accept_model(table, frame_len, datagram) == (table, ReceiptModel::Duplicate),
{
}

/// A chunk that was stored is a duplicate when it arrives again at once.
pub proof fn redelivery_is_duplicate(
    table: Map<u32, EntryModel>,
    frame_len: int,
    datagram: Seq<u8>,
)
    requires
        table_wf(table),
        accept_model(table, frame_len, datagram).1 == ReceiptModel::Stored,
    ensures
        accept_model(accept_model(table, frame_len, datagram).0, frame_len, datagram) == (
            accept_model(table, frame_len, datagram).0,
            ReceiptModel::Duplicate,
        ),
{
}

/// The entry of frame `frame_id`, if the table has one, has a slot for the
/// chunk at `missing` and has not received that chunk.
pub open spec fn misses_chunk(table: Map<u32, EntryModel>, frame_id: u32, missing: u16) -> bool {
    table.contains_key(frame_id) ==> {
        &&& table[frame_id].wf()
        &&& table[frame_id].expected > missing
        &&& table[frame_id].slots[missing as int] is None
    }
}

/// Every datagram of the run that belongs to frame `frame_id` announces
/// enough chunks for the frame to have one at `missing`, and none of them
/// carries that chunk.
pub open spec fn never_carries(datagrams: Seq<Seq<u8>>, frame_id: u32, missing: u16) -> bool {
    forall|k: int|
        0 <= k < datagrams.len() && (#[trigger] datagrams[k]).len() >= HEADER_SIZE && parse_header(
            datagrams[k],
        ).frame_id == frame_id ==> parse_header(datagrams[k]).total_chunks > missing
            && parse_header(datagrams[k]).chunk_index != missing
}

/// Whether a receipt hands out the frame with this identifier.
pub open spec fn delivers(receipt: ReceiptModel, frame_id: u32) -> bool {
    match receipt {
        ReceiptModel::Delivered(delivered, _) => delivered == frame_id,
        _ => false,
    }
}

/// Partial-loss non-completion: as long as one chunk of a frame never
/// arrives, no datagram of the run delivers that frame, whatever else
/// arrives, in whatever order and however often.
pub proof fn lost_chunk_blocks_delivery(
    table: Map<u32, EntryModel>,
    frame_len: int,
    datagrams: Seq<Seq<u8>>,
    frame_id: u32,
    missing: u16,
)
    requires
        misses_chunk(table, frame_id, missing),
        never_carries(datagrams, frame_id, missing),
    ensures
        misses_chunk(feed(table, frame_len, datagrams).0, frame_id, missing),
        feed(table, frame_len, datagrams).1.len() == datagrams.len(),
        forall|k: int|
            0 <= k < datagrams.len() ==> !delivers(
                #[trigger] feed(table, frame_len, datagrams).1[k],
                frame_id,
            ),
    decreases datagrams.len(),
{
    feed_gives_one_receipt_each(table, frame_len, datagrams);
    if datagrams.len() > 0 {
        let earlier = datagrams.drop_last();
        lost_chunk_blocks_delivery(table, frame_len, earlier, frame_id, missing);
        feed_gives_one_receipt_each(table, frame_len, earlier);
        let before = feed(table, frame_len, earlier);
        let datagram = datagrams.last();
        assert(datagram == datagrams[datagrams.len() - 1]);
        let step = accept_model(before.0, frame_len, datagram);
        if datagram.len() >= HEADER_SIZE {
            let header = parse_header(datagram);
            if header.frame_id == frame_id {
                let entry = entry_for(before.0, header);
                fresh_is_empty(header.total_chunks);
                if header.chunk_index < entry.expected && entry.slots[header.chunk_index as int]
                    is None {
                    let grown = entry.fill(header.chunk_index as int, payload_of(datagram));
                    filling_counts_once(
                        entry.slots,
                        header.chunk_index as int,
                        payload_of(datagram),
                    );
                    empty_slot_keeps_count_short(grown.slots, missing as int);
                }
            }
        }
        assert(misses_chunk(step.0, frame_id, missing));
        assert forall|k: int| 0 <= k < datagrams.len() implies !delivers(
            #[trigger] feed(table, frame_len, datagrams).1[k],
            frame_id,
        ) by {
            if k < datagrams.len() - 1 {
                assert(feed(table, frame_len, datagrams).1[k] == before.1[k]);
            }
        }
    }
}

} // verus!
