//! What holds of chains, queues and buses as a whole.

use crate::bus::BusAdapter;
use crate::endpoint;
use crate::endpoint::Endpoint;
use crate::handoff::{Handoff, Phase};
use crate::layout;
use crate::layout::{TDS_PER_EP, TRANSFER_DTD_MAX, TRANSFER_MAX_BYTES};
use crate::pool;
use crate::queue;
use crate::queue::TransferRecord;
use crate::registers::ENDPOINTS;
use crate::td;
use crate::td::{Td, PAGE_SIZE};
use crate::usb::{EndpointAddress, UsbDirection, UsbError};
use vstd::prelude::*;

verus! {

broadcast use crate::pool::lemma_td_at_range;

/// The payloads of a chain add up: `n` descriptors carry `n` full payloads, or all that
/// there is.
pub proof fn law_layout_sum(size: int, n: int)
    requires
        0 <= size,
        0 <= n <= layout::chain_count(size),
    ensures
        queue::layout_sum(size, n) == layout::min(size, n * TRANSFER_DTD_MAX),
    decreases n,
{
    if n > 0 {
        law_layout_sum(size, n - 1);
    }
}

/// A chain carries the whole transfer, or as much of it as the pool can carry.
pub proof fn law_chain_carries_everything(size: int)
    requires
        0 <= size,
    ensures
        queue::layout_sum(size, layout::chain_count(size)) == layout::min(
            size,
            TRANSFER_MAX_BYTES as int,
        ),
{
    law_layout_sum(size, layout::chain_count(size));
}

/// Every descriptor of a chain but the last carries a full payload, and the last one
/// carries something, unless the transfer is empty.
pub proof fn law_only_the_last_is_short(size: int, i: int)
    requires
        0 <= size,
        0 <= i < layout::chain_count(size),
    ensures
        1 <= layout::chain_count(size) <= TDS_PER_EP,
        i + 1 < layout::chain_count(size) ==> layout::chain_size(size, i) == TRANSFER_DTD_MAX,
        size > 0 ==> 0 < layout::chain_size(size, i) <= TRANSFER_DTD_MAX,
{
}

/// Wherever a payload starts in its first page, the five buffer pointers of a descriptor
/// reach its end.
pub proof fn law_payload_fits_buffer_pointers(buffer: u32, size: int, i: int)
    requires
        0 <= size,
    ensures
        buffer as int % PAGE_SIZE as int + layout::chain_size(size, i) <= 5 * PAGE_SIZE,
{
}

/// Queued transfers never own a descriptor in common.
pub proof fn law_transfers_own_different_tds(ep: Endpoint, k: int, i: int, l: int, j: int)
    requires
        ep.wf(),
        0 <= k < ep.pending().len(),
        0 <= l < ep.pending().len(),
        0 <= i < ep.pending()[k].td_count,
        0 <= j < ep.pending()[l].td_count,
        k != l || i != j,
    ensures
        pool::td_at(ep.pending()[k].first_td as int, i) != pool::td_at(
            ep.pending()[l].first_td as int,
            j,
        ),
{
    let records = ep.pending();
    queue::lemma_owned_place(records, ep.td_head as int, ep.tds_in_use as int, k, i);
    queue::lemma_owned_place(records, ep.td_head as int, ep.tds_in_use as int, l, j);
    lemma_sum_grows(records, k, l);
    lemma_sum_grows(records, l, k);
}

/// The records in front of a later record include the earlier record.
proof fn lemma_sum_grows(records: Seq<TransferRecord>, k: int, l: int)
    requires
        0 <= k < records.len(),
        0 <= l < records.len(),
    ensures
        k < l ==> queue::td_sum(records.take(k)) + records[k].td_count <= queue::td_sum(
            records.take(l),
        ),
    decreases l,
{
    if k < l {
        queue::lemma_sum_take(records, k);
        assert(records.take(l).take(k + 1) =~= records.take(k + 1));
        queue::lemma_sum_take_bound(records.take(l), k + 1);
    }
}

/// The descriptors of queued transfers and the free ones make up the pool, and there are
/// never more transfers than descriptors.
pub proof fn law_td_budget(ep: Endpoint)
    requires
        ep.wf(),
    ensures
        queue::td_sum(ep.pending()) == ep.tds_in_use,
        ep.tds_in_use <= TDS_PER_EP,
        ep.pending().len() <= ep.tds_in_use,
{
    queue::lemma_sum_at_least_len(ep.pending());
}

/// A submission leaves the descriptors of all transfers alone that were queued before.
pub proof fn law_submission_spares_queued_transfers(
    ep: Endpoint,
    after: Endpoint,
    ptr: u32,
    len: usize,
    slot: Option<u8>,
    result: Result<Handoff, UsbError>,
    k: int,
    i: int,
)
    requires
        ep.wf(),
        ep.tds@.len() == TDS_PER_EP,
        ep.submitted(after, ptr, len, slot, result),
        0 <= k < ep.pending().len(),
        0 <= i < ep.pending()[k].td_count,
    ensures
        ({
            let j = pool::td_at(ep.pending()[k].first_td as int, i);
            after.tds@[j] == ep.tds@[j]
        }),
{
    if result is Ok {
        endpoint::lemma_chain_keeps_owned(ep, ptr, len, k, i);
    }
}

/// The chain of a transfer is whole: each descriptor carries its part of the payload,
/// right behind the part of the one before; each one but the last links to the next; and
/// the last one ends the chain, and alone raises an interrupt.
pub proof fn law_submitted_chain_is_whole(
    ep: Endpoint,
    after: Endpoint,
    ptr: u32,
    len: usize,
    slot: Option<u8>,
    result: Result<Handoff, UsbError>,
    i: int,
)
    requires
        ep.wf(),
        ep.tds@.len() == TDS_PER_EP,
        ptr + len <= 0x1_0000_0000,
        ep.submitted(after, ptr, len, slot, result),
        result is Ok,
        0 <= i < after.pending().last().td_count,
    ensures
        ({
            let record = after.pending().last();
            let this = after.tds@[pool::td_at(record.first_td as int, i)];
            let next = after.tds@[pool::td_at(record.first_td as int, i + 1)];
            let last = i + 1 == record.td_count;
            &&& td::token_total(this.token) == layout::chain_size(len as int, i)
            &&& this.buffer == ptr + i * TRANSFER_DTD_MAX
            &&& td::token_ioc(this.token) == last
            &&& last ==> this.next == td::TERMINATE
            &&& !last ==> this.next == next.address && this.next != td::TERMINATE
            &&& !last ==> this.buffer + td::token_total(this.token) == next.buffer
        }),
{
    let first = ep.td_head as int;
    let count = layout::chain_count(len as int);
    lemma_chain_td(ep, ptr, len, i);
    if i + 1 < count {
        lemma_chain_td(ep, ptr, len, i + 1);
        pool::lemma_td_at_twice(first, i, 1);
        assert(ep.tds@[pool::td_at(first, i + 1)].wf());
    }
}

/// Descriptor `i` of a new chain.
proof fn lemma_chain_td(ep: Endpoint, ptr: u32, len: usize, i: int)
    requires
        ep.wf(),
        ep.tds@.len() == TDS_PER_EP,
        len <= TRANSFER_MAX_BYTES,
        ptr + len <= 0x1_0000_0000,
        0 <= i < layout::chain_count(len as int),
    ensures
        ({
            let j = pool::td_at(ep.td_head as int, i);
            let t = endpoint::chain_in_pool(ep.tds@, ep.td_head as int, ptr, len as int)[j];
            let count = layout::chain_count(len as int);
            &&& t.address == ep.tds@[j].address
            &&& t.buffer == ptr + i * TRANSFER_DTD_MAX
            &&& t.next == (if i + 1 < count {
                ep.tds@[pool::td_at(j, 1)].address
            } else {
                td::TERMINATE
            })
            &&& td::token_total(t.token) == layout::chain_size(len as int, i)
            &&& td::token_ioc(t.token) == (i + 1 == count)
        }),
{
    let first = ep.td_head as int;
    let j = pool::td_at(first, i);
    pool::lemma_place(first, j, i);
    let size = layout::chain_size(len as int, i);
    let ioc = i + 1 == layout::chain_count(len as int);
    let sized = td::with_total(ep.tds@[j].token, size);
    td::lemma_with_total(ep.tds@[j].token, size);
    td::lemma_with_ioc(sized, ioc);
    td::lemma_with_status(td::with_ioc(sized, ioc), 0x80);
}

/// A poll retires nothing while the controller owns a descriptor of the oldest transfer,
/// and what it does retire, the controller has given back.
pub proof fn law_nothing_retires_in_flight(
    ep: Endpoint,
    after: Endpoint,
    result: Option<Result<usize, UsbError>>,
    i: int,
)
    requires
        ep.polled(after, result),
        ep.pending().len() > 0,
        0 <= i < ep.pending()[0].td_count,
    ensures
        ({
            let t = ep.tds@[pool::td_at(ep.pending()[0].first_td as int, i)];
            &&& t.is_active() ==> result is None && after == ep
            &&& result is Some ==> !t.is_active()
            &&& result matches Some(Ok(_)) ==> !t.spec_status().has_error()
        }),
{
}

/// A fresh transfer is in flight: polling does not retire it before the controller has
/// written its descriptors back.
pub proof fn law_submitted_is_in_flight(
    ep: Endpoint,
    after: Endpoint,
    ptr: u32,
    len: usize,
    slot: Option<u8>,
    result: Result<Handoff, UsbError>,
)
    requires
        ep.wf(),
        ep.tds@.len() == TDS_PER_EP,
        ep.submitted(after, ptr, len, slot, result),
        result is Ok,
    ensures
        after.pending().len() == ep.pending().len() + 1,
        forall|i: int|
            0 <= i < after.pending().last().td_count ==> (#[trigger] after.tds@[pool::td_at(
                after.pending().last().first_td as int,
                i,
            )]).is_active(),
        queue::in_flight(after.tds@, after.pending().last()),
        !queue::failed(after.tds@, after.pending().last()),
{
    let record = after.pending().last();
    assert(1 <= layout::chain_count(len as int) <= TDS_PER_EP);
    assert forall|i: int| 0 <= i < record.td_count implies {
        let t = #[trigger] after.tds@[pool::td_at(record.first_td as int, i)];
        t.is_active() && !t.spec_status().has_error()
    } by {
        lemma_chain_td_is_active(ep, ptr, len, i);
    }
    assert(after.tds@[pool::td_at(record.first_td as int, 0)].is_active());
}

/// Descriptor `i` of a new chain belongs to the controller, and reports no error.
proof fn lemma_chain_td_is_active(ep: Endpoint, ptr: u32, len: usize, i: int)
    requires
        ep.wf(),
        ep.tds@.len() == TDS_PER_EP,
        len <= TRANSFER_MAX_BYTES,
        0 <= i < layout::chain_count(len as int),
    ensures
        ({
            let j = pool::td_at(ep.td_head as int, i);
            let t = endpoint::chain_in_pool(ep.tds@, ep.td_head as int, ptr, len as int)[j];
            t.is_active() && !t.spec_status().has_error()
        }),
{
    let first = ep.td_head as int;
    let j = pool::td_at(first, i);
    pool::lemma_place(first, j, i);
    let token = td::with_ioc(
        td::with_total(ep.tds@[j].token, layout::chain_size(len as int, i)),
        i + 1 == layout::chain_count(len as int),
    );
    td::lemma_with_status(token, 0x80);
}

/// A transfer moves every byte if the controller leaves none in any of its descriptors.
pub proof fn law_nothing_left_means_everything_moved(ep: Endpoint, k: int)
    requires
        ep.wf(),
        ep.chains_programmed(),
        0 <= k < ep.pending().len(),
        forall|i: int|
            0 <= i < ep.pending()[k].td_count ==> td::token_total(
                (#[trigger] ep.tds@[pool::td_at(ep.pending()[k].first_td as int, i)]).token,
            ) == 0,
    ensures
        queue::transferred_sum(
            ep.tds@,
            ep.pending()[k].first_td as int,
            ep.pending()[k].td_count as int,
        ) == ep.pending()[k].len,
{
    let record = ep.pending()[k];
    assert(queue::chain_programmed(ep.tds@, record));
    lemma_all_moved(ep.tds@, record, record.td_count as int);
    law_chain_carries_everything(record.len as int);
}

proof fn lemma_all_moved(tds: Seq<Td>, record: TransferRecord, n: int)
    requires
        0 <= n <= record.td_count,
        queue::chain_programmed(tds, record),
        forall|i: int|
            0 <= i < record.td_count ==> td::token_total(
                (#[trigger] tds[pool::td_at(record.first_td as int, i)]).token,
            ) == 0,
    ensures
        queue::transferred_sum(tds, record.first_td as int, n) == queue::layout_sum(
            record.len as int,
            n,
        ),
    decreases n,
{
    if n > 0 {
        lemma_all_moved(tds, record, n - 1);
        let t = tds[pool::td_at(record.first_td as int, n - 1)];
        assert(t.last_transfer_size == layout::chain_size(record.len as int, n - 1));
    }
}

/// Once the queue is dropped, every transfer that a chain can carry is accepted, and it
/// starts at the first descriptor.
pub proof fn law_dropped_queue_accepts_transfers(
    before: Endpoint,
    ep: Endpoint,
    after: Endpoint,
    ptr: u32,
    len: usize,
    slot: Option<u8>,
    result: Result<Handoff, UsbError>,
)
    requires
        ep.queue_dropped(before),
        ep.submitted(after, ptr, len, slot, result),
        len <= TRANSFER_MAX_BYTES,
    ensures
        result matches Ok(handoff) && handoff.head == 0 && handoff.prev_tail is None
            && handoff.phase == Phase::StoreChain(0),
        after.pending().len() == 1,
{
}

/// A descriptor that is cleared ends its chain, has an empty STATUS field, so that it is
/// neither active nor failed, and still says how many bytes went over the wire.
pub proof fn law_cleared_td_is_idle(t: Td)
    ensures
        t.cleared().next == td::TERMINATE,
        t.cleared().spec_status().bits == 0,
        !t.cleared().is_active(),
        !t.cleared().spec_status().has_error(),
        t.cleared().transferred() == t.transferred(),
        t.cleared().buffer == t.buffer,
        t.cleared().address == t.address,
{
    td::lemma_with_status(t.token, 0);
}

/// What happens to a queue.
pub enum QueueEvent {
    /// A submission queued this record.
    Submitted(TransferRecord),
    /// A poll retired the oldest record.
    Retired,
}

/// The queue after some events.
pub open spec fn queue_after(queue: Seq<TransferRecord>, events: Seq<QueueEvent>) -> Seq<
    TransferRecord,
>
    decreases events.len(),
{
    if events.len() == 0 {
        queue
    } else {
        let before = queue_after(queue, events.drop_last());
        match events.last() {
            QueueEvent::Submitted(record) => before.push(record),
            QueueEvent::Retired => before.drop_first(),
        }
    }
}

/// The records that some events retire, in order.
pub open spec fn retired_by(queue: Seq<TransferRecord>, events: Seq<QueueEvent>) -> Seq<
    TransferRecord,
>
    decreases events.len(),
{
    if events.len() == 0 {
        Seq::empty()
    } else {
        let before = retired_by(queue, events.drop_last());
        match events.last() {
            QueueEvent::Submitted(_) => before,
            QueueEvent::Retired => before.push(queue_after(queue, events.drop_last())[0]),
        }
    }
}

/// The records that some events submit, in order.
pub open spec fn submitted_by(events: Seq<QueueEvent>) -> Seq<TransferRecord>
    decreases events.len(),
{
    if events.len() == 0 {
        Seq::empty()
    } else {
        let before = submitted_by(events.drop_last());
        match events.last() {
            QueueEvent::Submitted(record) => before.push(record),
            QueueEvent::Retired => before,
        }
    }
}

/// No event retires a record of an empty queue.
pub open spec fn events_possible(queue: Seq<TransferRecord>, events: Seq<QueueEvent>) -> bool
    decreases events.len(),
{
    events.len() > 0 ==> {
        &&& events_possible(queue, events.drop_last())
        &&& events.last() is Retired ==> queue_after(queue, events.drop_last()).len() > 0
    }
}

/// Transfers retire in the order in which they were submitted, and none gets lost: what
/// was retired, followed by what is still queued, is what was queued at first, followed
/// by what was submitted.
pub proof fn law_first_in_first_out(queue: Seq<TransferRecord>, events: Seq<QueueEvent>)
    requires
        events_possible(queue, events),
    ensures
        retired_by(queue, events) + queue_after(queue, events) == queue + submitted_by(events),
    decreases events.len(),
{
    if events.len() > 0 {
        let front = events.drop_last();
        law_first_in_first_out(queue, front);
        let retired = retired_by(queue, front);
        let live = queue_after(queue, front);
        match events.last() {
            QueueEvent::Submitted(record) => {
                assert(retired + live.push(record) =~= (retired + live).push(record));
                assert(queue + submitted_by(front).push(record) =~= (queue + submitted_by(
                    front,
                )).push(record));
            },
            QueueEvent::Retired => {
                assert(retired.push(live[0]) + live.drop_first() =~= retired + live);
            },
        }
    } else {
        assert(retired_by(queue, events) + queue =~= queue);
        assert(queue + submitted_by(events) =~= queue);
    }
}

/// A submission that succeeds is a `Submitted` event, and a poll that answers is a
/// `Retired` event of a queue that is not empty.
pub proof fn law_queue_events(
    ep: Endpoint,
    submitted: Endpoint,
    polled: Endpoint,
    ptr: u32,
    len: usize,
    slot: Option<u8>,
    submission: Result<Handoff, UsbError>,
    poll: Option<Result<usize, UsbError>>,
)
    requires
        ep.submitted(submitted, ptr, len, slot, submission),
        ep.polled(polled, poll),
    ensures
        submission is Ok ==> submitted.pending() == queue_after(
            ep.pending(),
            seq![QueueEvent::Submitted(submitted.pending().last())],
        ),
        submission is Err ==> submitted.pending() == ep.pending(),
        poll is Some ==> ep.pending().len() > 0 && polled.pending() == queue_after(
            ep.pending(),
            seq![QueueEvent::Retired],
        ),
        poll is None ==> polled.pending() == ep.pending(),
{
    let none = Seq::<QueueEvent>::empty();
    let one = seq![QueueEvent::Submitted(submitted.pending().last())];
    assert(one.drop_last() =~= none);
    assert(seq![QueueEvent::Retired].drop_last() =~= none);
    assert(queue_after(ep.pending(), none) == ep.pending());
    reveal_with_fuel(queue_after, 2);
}

/// A read gives back what a write put into the staging buffer, as long as nothing else
/// changed the buffer in between, and the read takes no more than the write put there.
pub proof fn law_read_returns_what_was_written(
    ep: Endpoint,
    written: Endpoint,
    data: Seq<u8>,
    n: int,
    later: Endpoint,
    before: Seq<u8>,
    after: Seq<u8>,
    m: int,
)
    requires
        ep.wf(),
        later.wf(),
        later.tds@.len() > 0,
        ep.wrote(written, data, n),
        later.staged() == written.staged(),
        later.read_out(before, after, m),
        m <= n,
    ensures
        after == data.take(m) + before.skip(m),
        written.staged().len() == ep.staged().len(),
{
    assert(written.staged().take(m) =~= data.take(m));
}

/// An endpoint is never allocated twice: once an address is taken, it is not chosen again,
/// with a wish or without.
pub proof fn law_taken_address_is_not_chosen(
    bus: BusAdapter,
    taken: EndpointAddress,
    ep_dir: UsbDirection,
    ep_addr: Option<EndpointAddress>,
    result: Result<EndpointAddress, UsbError>,
)
    requires
        bus.allocated(taken),
        bus.address_chosen(ep_dir, ep_addr, result),
    ensures
        result != Ok::<EndpointAddress, UsbError>(taken),
{
}

/// Without a wish, an address is found if and only if one of the indices from 1 on is
/// free in that direction. Index 0 is never chosen.
pub proof fn law_free_index_is_found(
    bus: BusAdapter,
    ep_dir: UsbDirection,
    result: Result<EndpointAddress, UsbError>,
)
    requires
        bus.wf(),
        bus.address_chosen(ep_dir, None, result),
    ensures
        result is Ok <==> exists|i: int| 1 <= i < ENDPOINTS && !#[trigger] bus.index_taken(i, ep_dir),
        result matches Ok(address) ==> address.spec_index() != 0,
{
    if let Ok(address) = result {
        assert(!bus.index_taken(address.spec_index(), ep_dir));
    }
}

} // verus!
