//! Transfer records, and the descriptors that they own.

use crate::layout;
use crate::layout::{TDS_PER_EP, TRANSFER_MAX_BYTES};
use crate::pool;
use crate::td::Td;
use vstd::prelude::*;

verus! {

broadcast use crate::pool::lemma_td_at_range;

/// What the driver remembers of a queued transfer.
#[derive(Clone, Copy, Debug, PartialEq, Eq, Structural)]
pub struct TransferRecord {
    /// The first descriptor of the transfer.
    pub first_td: u8,
    /// The number of descriptors of the transfer.
    pub td_count: u8,
    /// The bytes that were asked for.
    pub len: usize,
    /// The staging buffer of the transfer, or `None` where the caller owns the memory.
    pub staging_slot: Option<u8>,
}

impl TransferRecord {
    /// What stands in the ring where no transfer is queued.
    pub open spec fn spec_empty() -> TransferRecord {
        TransferRecord { first_td: 0, td_count: 0, len: 0, staging_slot: None }
    }

    /// What stands in the ring where no transfer is queued.
    pub fn empty() -> (record: TransferRecord)
        ensures
            record == TransferRecord::spec_empty(),
    {
        TransferRecord { first_td: 0, td_count: 0, len: 0, staging_slot: None }
    }
}

/// The descriptors that a sequence of transfers owns together.
pub open spec fn td_sum(records: Seq<TransferRecord>) -> int
    decreases records.len(),
{
    if records.len() == 0 {
        0
    } else {
        td_sum(records.drop_last()) + records.last().td_count
    }
}

/// Queued transfers own consecutive descriptors of the circular pool, in the order in
/// which they were queued, starting at `oldest`.
pub open spec fn consecutive(records: Seq<TransferRecord>, oldest: int) -> bool {
    forall|k: int|
        0 <= k < records.len() ==> #[trigger] records[k].first_td == pool::td_at(
            oldest,
            td_sum(records.take(k)),
        )
}

/// A record as a submission makes it.
pub open spec fn record_wf(record: TransferRecord) -> bool {
    &&& record.len <= TRANSFER_MAX_BYTES
    &&& record.td_count == layout::chain_count(record.len as int)
    &&& record.first_td < TDS_PER_EP
}

pub open spec fn records_wf(records: Seq<TransferRecord>) -> bool {
    forall|k: int| 0 <= k < records.len() ==> record_wf(#[trigger] records[k])
}

/// A record owns at least one descriptor, and no more than the pool holds.
pub proof fn lemma_record_count(record: TransferRecord)
    requires
        record_wf(record),
    ensures
        1 <= record.td_count <= TDS_PER_EP,
{
}

/// Transfers own at least as many descriptors as there are transfers.
pub proof fn lemma_sum_at_least_len(records: Seq<TransferRecord>)
    requires
        records_wf(records),
    ensures
        td_sum(records) >= records.len(),
    decreases records.len(),
{
    if records.len() > 0 {
        assert(records_wf(records.drop_last()));
        lemma_sum_at_least_len(records.drop_last());
        lemma_record_count(records.last());
    }
}

pub proof fn lemma_sum_push(records: Seq<TransferRecord>, record: TransferRecord)
    ensures
        td_sum(records.push(record)) == td_sum(records) + record.td_count,
{
    assert(records.push(record).drop_last() =~= records);
}

/// The sum of the front, one record further.
pub proof fn lemma_sum_take(records: Seq<TransferRecord>, k: int)
    requires
        0 <= k < records.len(),
    ensures
        td_sum(records.take(k + 1)) == td_sum(records.take(k)) + records[k].td_count,
{
    assert(records.take(k + 1).drop_last() =~= records.take(k));
}

/// The front never owns more than the whole.
pub proof fn lemma_sum_take_bound(records: Seq<TransferRecord>, k: int)
    requires
        0 <= k <= records.len(),
    ensures
        0 <= td_sum(records.take(k)) <= td_sum(records),
    decreases records.len() - k, k,
{
    if k == records.len() {
        assert(records.take(k) =~= records);
    } else {
        lemma_sum_take(records, k);
        lemma_sum_take_bound(records, k + 1);
    }
    lemma_sum_nonnegative(records.take(k));
}

pub proof fn lemma_sum_nonnegative(records: Seq<TransferRecord>)
    ensures
        td_sum(records) >= 0,
    decreases records.len(),
{
    if records.len() > 0 {
        lemma_sum_nonnegative(records.drop_last());
    }
}

/// Dropping the oldest record takes its descriptors off every sum.
pub proof fn lemma_sum_drop_first(records: Seq<TransferRecord>)
    requires
        records.len() > 0,
    ensures
        td_sum(records.drop_first()) == td_sum(records) - records[0].td_count,
    decreases records.len(),
{
    if records.len() == 1 {
        assert(records.drop_first() =~= Seq::<TransferRecord>::empty());
        assert(records.drop_last() =~= Seq::<TransferRecord>::empty());
    } else {
        assert(records.drop_first().drop_last() =~= records.drop_last().drop_first());
        lemma_sum_drop_first(records.drop_last());
    }
}

/// Where the pool starts only matters up to its size.
pub proof fn lemma_consecutive_wraps(records: Seq<TransferRecord>, oldest: int, other: int)
    requires
        consecutive(records, oldest),
        oldest % TDS_PER_EP as int == other % TDS_PER_EP as int,
    ensures
        consecutive(records, other),
{
    assert forall|k: int| 0 <= k < records.len() implies #[trigger] records[k].first_td == pool::td_at(
        other,
        td_sum(records.take(k)),
    ) by {
        assert(records[k].first_td == pool::td_at(oldest, td_sum(records.take(k))));
        pool::lemma_td_at_wraps(oldest, other, td_sum(records.take(k)));
    }
}

/// Queueing a record behind the others keeps them consecutive.
pub proof fn lemma_push_consecutive(
    records: Seq<TransferRecord>,
    oldest: int,
    record: TransferRecord,
)
    requires
        consecutive(records, oldest),
        record.first_td == pool::td_at(oldest, td_sum(records)),
    ensures
        consecutive(records.push(record), oldest),
{
    let all = records.push(record);
    assert forall|k: int| 0 <= k < all.len() implies #[trigger] all[k].first_td == pool::td_at(
        oldest,
        td_sum(all.take(k)),
    ) by {
        assert(all.take(k) =~= records.take(k));
        if k == records.len() {
            assert(records.take(k) =~= records);
        }
    }
}

/// Retiring the oldest record leaves the others consecutive, behind its descriptors.
pub proof fn lemma_drop_first_consecutive(records: Seq<TransferRecord>, oldest: int)
    requires
        records.len() > 0,
        consecutive(records, oldest),
    ensures
        consecutive(records.drop_first(), oldest + records[0].td_count),
{
    let rest = records.drop_first();
    assert forall|k: int| 0 <= k < rest.len() implies #[trigger] rest[k].first_td == pool::td_at(
        oldest + records[0].td_count,
        td_sum(rest.take(k)),
    ) by {
        assert(rest.take(k) =~= records.take(k + 1).drop_first());
        lemma_sum_drop_first(records.take(k + 1));
        let in_front = td_sum(records.take(k + 1));
        assert(records[k + 1].first_td == pool::td_at(oldest, in_front));
        pool::lemma_td_at_sum(
            oldest,
            in_front,
            oldest + records[0].td_count,
            in_front - records[0].td_count,
        );
    }
}

/// The live records of a ring, oldest first.
pub open spec fn ring(slots: Seq<TransferRecord>, head: int, len: int) -> Seq<TransferRecord> {
    Seq::new(len as nat, |k: int| slots[pool::td_at(head, k)])
}

/// Filling the slot behind the live records queues a record.
pub proof fn lemma_ring_push(
    slots: Seq<TransferRecord>,
    head: int,
    len: int,
    record: TransferRecord,
)
    requires
        slots.len() == TDS_PER_EP,
        0 <= len < TDS_PER_EP,
    ensures
        ring(slots.update(pool::td_at(head, len), record), head, len + 1) == ring(slots, head, len).push(
            record,
        ),
{
    let after = ring(slots.update(pool::td_at(head, len), record), head, len + 1);
    assert forall|k: int| 0 <= k < len implies #[trigger] after[k] == ring(slots, head, len)[k] by {
        pool::lemma_td_at_distinct(head, k, len);
    }
    assert(after =~= ring(slots, head, len).push(record));
}

/// Moving the head forward retires the oldest record.
pub proof fn lemma_ring_pop(slots: Seq<TransferRecord>, head: int, len: int)
    requires
        slots.len() == TDS_PER_EP,
        0 < len <= TDS_PER_EP,
    ensures
        ring(slots, pool::td_at(head, 1), len - 1) == ring(slots, head, len).drop_first(),
{
    let after = ring(slots, pool::td_at(head, 1), len - 1);
    assert forall|k: int| 0 <= k < len - 1 implies #[trigger] after[k] == ring(
        slots,
        head,
        len,
    )[k + 1] by {
        pool::lemma_td_at_twice(head, 1, k);
    }
    assert(after =~= ring(slots, head, len).drop_first());
}

/// The last descriptor of the newest record is the one in front of the next free one.
pub proof fn lemma_last_td(records: Seq<TransferRecord>, head: int)
    requires
        records.len() > 0,
        records_wf(records),
        consecutive(records, head - td_sum(records)),
    ensures
        1 <= records.last().td_count <= TDS_PER_EP,
        records.last().first_td < TDS_PER_EP,
        pool::td_at(records.last().first_td as int, records.last().td_count - 1) == pool::td_at(
            head,
            -1,
        ),
{
    let n = records.len() - 1;
    let newest = records[n];
    let oldest = head - td_sum(records);
    let in_front = td_sum(records.take(n));
    lemma_record_count(newest);
    lemma_sum_take(records, n);
    assert(records.take(n + 1) =~= records);
    assert(newest.first_td == pool::td_at(oldest, in_front));
    pool::lemma_td_at_twice(oldest, in_front, newest.td_count - 1);
    pool::lemma_td_at_sum(oldest, in_front + newest.td_count - 1, head, -1);
}

/// Retiring the oldest record keeps the others well-formed.
pub proof fn lemma_pop(records: Seq<TransferRecord>, head: int, in_use: int)
    requires
        records.len() > 0,
        records_wf(records),
        consecutive(records, head - in_use),
        td_sum(records) == in_use,
    ensures
        1 <= records[0].td_count <= in_use,
        records_wf(records.drop_first()),
        td_sum(records.drop_first()) == in_use - records[0].td_count,
        consecutive(records.drop_first(), head - (in_use - records[0].td_count)),
{
    assert(record_wf(records[0]));
    lemma_record_count(records[0]);
    lemma_sum_drop_first(records);
    lemma_sum_nonnegative(records.drop_first());
    lemma_drop_first_consecutive(records, head - in_use);
    lemma_drop_first_wf(records);
}

proof fn lemma_drop_first_wf(records: Seq<TransferRecord>)
    requires
        records.len() > 0,
        records_wf(records),
    ensures
        records_wf(records.drop_first()),
{
    let rest = records.drop_first();
    assert forall|k: int| 0 <= k < rest.len() implies record_wf(#[trigger] rest[k]) by {
        assert(rest[k] == records[k + 1]);
    }
}

/// A descriptor that a live record owns lies behind every free one, seen from the end
/// of the pool.
pub proof fn lemma_owned_place(records: Seq<TransferRecord>, head: int, in_use: int, k: int, i: int)
    requires
        consecutive(records, head - in_use),
        td_sum(records) == in_use <= TDS_PER_EP,
        0 <= k < records.len(),
        0 <= i < records[k].td_count,
    ensures
        pool::td_place(head, pool::td_at(records[k].first_td as int, i)) >= TDS_PER_EP - in_use,
        pool::td_place(head, pool::td_at(records[k].first_td as int, i)) == TDS_PER_EP - in_use + td_sum(
            records.take(k),
        ) + i,
        0 <= pool::td_at(records[k].first_td as int, i) < TDS_PER_EP,
{
    let in_front = td_sum(records.take(k));
    assert(records[k].first_td == pool::td_at(head - in_use, in_front));
    lemma_sum_take(records, k);
    lemma_sum_take_bound(records, k);
    lemma_sum_take_bound(records, k + 1);
    pool::lemma_td_at_twice(head - in_use, in_front, i);
    let distance = in_use - in_front - i;
    pool::lemma_td_at_sum(head - in_use, in_front + i, head, -distance);
    pool::lemma_place_in_front(head, distance);
}

/// The payload of every descriptor of a record is the one that the record's length
/// asks for.
pub open spec fn chain_programmed(tds: Seq<Td>, record: TransferRecord) -> bool {
    forall|i: int|
        0 <= i < record.td_count ==> (#[trigger] tds[pool::td_at(
            record.first_td as int,
            i,
        )]).last_transfer_size == layout::chain_size(record.len as int, i)
}

/// Only the sizes count.
pub proof fn lemma_same_sizes_same_chain(before: Seq<Td>, after: Seq<Td>, record: TransferRecord)
    requires
        before.len() == TDS_PER_EP,
        forall|j: int|
            0 <= j < before.len() ==> (#[trigger] after[j]).last_transfer_size
                == before[j].last_transfer_size,
        chain_programmed(before, record),
    ensures
        chain_programmed(after, record),
{
    assert forall|i: int| 0 <= i < record.td_count implies (#[trigger] after[pool::td_at(
        record.first_td as int,
        i,
    )]).last_transfer_size == layout::chain_size(record.len as int, i) by {
        let j = pool::td_at(record.first_td as int, i);
        assert(before[j].last_transfer_size == layout::chain_size(record.len as int, i));
    }
}

/// Some descriptor of the record still belongs to the controller.
pub open spec fn in_flight(tds: Seq<Td>, record: TransferRecord) -> bool {
    exists|i: int|
        0 <= i < record.td_count && (#[trigger] tds[pool::td_at(record.first_td as int, i)]).is_active()
}

/// Some descriptor of the record reports an error.
pub open spec fn failed(tds: Seq<Td>, record: TransferRecord) -> bool {
    exists|i: int|
        0 <= i < record.td_count && (#[trigger] tds[pool::td_at(
            record.first_td as int,
            i,
        )]).spec_status().has_error()
}

/// The bytes that the first `n` descriptors from `first` on have transferred.
pub open spec fn transferred_sum(tds: Seq<Td>, first: int, n: int) -> int
    decreases n,
{
    if n <= 0 {
        0
    } else {
        transferred_sum(tds, first, n - 1) + tds[pool::td_at(first, n - 1)].transferred()
    }
}

/// The payload of the first `n` descriptors of a chain for `size` bytes.
pub open spec fn layout_sum(size: int, n: int) -> int
    decreases n,
{
    if n <= 0 {
        0
    } else {
        layout_sum(size, n - 1) + layout::chain_size(size, n - 1)
    }
}

} // verus!
