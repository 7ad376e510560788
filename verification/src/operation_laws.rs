//! What the operations are for, said of the words and slots that they read and change.

use crate::bus::{BusAdapter, Route};
use crate::endpoint::Endpoint;
use crate::flush::FlushPhase;
use crate::handoff::{Handoff, Phase};
use crate::layout;
use crate::laws;
use crate::pool;
use crate::qh::{Buffer, Qh};
use crate::queue;
use crate::queue::TransferRecord;
use crate::registers::{
    Action, Register, ENDPTCTRL_RXE, ENDPTCTRL_RXR, ENDPTCTRL_RXS, ENDPTCTRL_RXT, ENDPTCTRL_TXE,
    ENDPTCTRL_TXR, ENDPTCTRL_TXS, ENDPTCTRL_TXT,
};
use crate::td::Td;
use crate::usb::{EndpointAddress, EndpointType, UsbDirection, UsbError};
use crate::word_laws;
use vstd::prelude::*;

verus! {

/// Descriptor `i` of a record, in the pool.
pub open spec fn td_of(tds: Seq<Td>, record: TransferRecord, i: int) -> Td {
    tds[(record.first_td + i) % 8]
}

/// The controller still owns descriptor `i` of a record.
pub open spec fn is_busy(tds: Seq<Td>, record: TransferRecord, i: int) -> bool {
    0 <= i < record.td_count && td_of(tds, record, i).token & 0x80 != 0
}

/// Descriptor `i` of a record reports a transaction error, a data buffer error or a halt.
pub open spec fn is_broken(tds: Seq<Td>, record: TransferRecord, i: int) -> bool {
    0 <= i < record.td_count && td_of(tds, record, i).token & 0x68 != 0
}

/// The bytes that the first `n` descriptors of a record have left.
pub open spec fn left_sum(tds: Seq<Td>, record: TransferRecord, n: int) -> int
    decreases n,
{
    if n <= 0 {
        0
    } else {
        left_sum(tds, record, n - 1) + word_laws::bytes_left(td_of(tds, record, n - 1).token)
    }
}

/// The bytes that the first `n` descriptors of a record were programmed with.
pub open spec fn size_sum(tds: Seq<Td>, record: TransferRecord, n: int) -> int
    decreases n,
{
    if n <= 0 {
        0
    } else {
        size_sum(tds, record, n - 1) + td_of(tds, record, n - 1).last_transfer_size
    }
}

proof fn lemma_sums(tds: Seq<Td>, record: TransferRecord, n: int)
    requires
        0 <= n <= record.td_count,
        tds.len() == 8,
        forall|i: int| 0 <= i < tds.len() ==> (#[trigger] tds[i]).wf(),
    ensures
        queue::transferred_sum(tds, record.first_td as int, n) + left_sum(tds, record, n)
            == size_sum(tds, record, n),
        0 <= queue::transferred_sum(tds, record.first_td as int, n) <= n * 0x7FFF,
        queue::chain_programmed(tds, record) ==> size_sum(tds, record, n) == queue::layout_sum(
            record.len as int,
            n,
        ),
    decreases n,
{
    if n > 0 {
        lemma_sums(tds, record, n - 1);
        word_laws::law_pool_is_circular(record.first_td as int, n - 1);
        let t = td_of(tds, record, n - 1);
        assert(t == tds[pool::td_at(record.first_td as int, n - 1)]);
        assert(t.wf());
        word_laws::law_td_bits(t);
    }
}

/// A transfer retires once none of its descriptors is active any more, and not before. It
/// retires with an error exactly if one of them reports an error.
pub proof fn law_poll_answer(
    ep: Endpoint,
    after: Endpoint,
    result: Option<Result<usize, UsbError>>,
)
    requires
        ep.wf(),
        ep.polled(after, result),
    ensures
        ({
            let oldest = ep.queue[ep.q_head as int];
            &&& result is None <==> ep.q_len == 0 || exists|i: int|
                #[trigger] is_busy(ep.tds@, oldest, i)
            &&& result matches Some(Err(error)) ==> error == UsbError::InvalidState
            &&& result is Some ==> (result->0 is Err <==> exists|i: int|
                #[trigger] is_broken(ep.tds@, oldest, i))
        }),
{
    if ep.q_len > 0 {
        word_laws::law_ring(ep, 0);
        let oldest = ep.queue[ep.q_head as int];
        assert(oldest == ep.pending()[0]);
        assert forall|i: int| 0 <= i < oldest.td_count implies td_of(ep.tds@, oldest, i)
            == #[trigger] ep.tds@[pool::td_at(oldest.first_td as int, i)] && (is_busy(
            ep.tds@,
            oldest,
            i,
        ) <==> td_of(ep.tds@, oldest, i).is_active()) && (is_broken(ep.tds@, oldest, i)
            <==> td_of(ep.tds@, oldest, i).spec_status().has_error()) by {
            word_laws::law_pool_is_circular(oldest.first_td as int, i);
            word_laws::law_td_bits(td_of(ep.tds@, oldest, i));
        }
        if queue::in_flight(ep.tds@, oldest) {
            let i = choose|i: int|
                0 <= i < oldest.td_count && (#[trigger] ep.tds@[pool::td_at(
                    oldest.first_td as int,
                    i,
                )]).is_active();
            assert(is_busy(ep.tds@, oldest, i));
        }
        if exists|i: int| is_busy(ep.tds@, oldest, i) {
            let i = choose|i: int| is_busy(ep.tds@, oldest, i);
            assert(ep.tds@[pool::td_at(oldest.first_td as int, i)].is_active());
        }
        if queue::failed(ep.tds@, oldest) {
            let i = choose|i: int|
                0 <= i < oldest.td_count && (#[trigger] ep.tds@[pool::td_at(
                    oldest.first_td as int,
                    i,
                )]).spec_status().has_error();
            assert(is_broken(ep.tds@, oldest, i));
        }
        if exists|i: int| is_broken(ep.tds@, oldest, i) {
            let i = choose|i: int| is_broken(ep.tds@, oldest, i);
            assert(ep.tds@[pool::td_at(oldest.first_td as int, i)].spec_status().has_error());
        }
    }
}

/// A poll accounts for every byte: what it says was transferred, and what the controller
/// left in the descriptors of the transfer, are together what the descriptors were
/// programmed with. Where these carry what the transfer asked for, that is its length.
pub proof fn law_poll_accounts_for_every_byte(ep: Endpoint, after: Endpoint, n: usize)
    requires
        ep.wf(),
        ep.polled(after, Some(Ok(n))),
    ensures
        ({
            let oldest = ep.queue[ep.q_head as int];
            let count = oldest.td_count as int;
            &&& n + left_sum(ep.tds@, oldest, count) == size_sum(ep.tds@, oldest, count)
            &&& ep.chains_programmed() ==> n + left_sum(ep.tds@, oldest, count) == oldest.len
            &&& ep.chains_programmed() ==> n <= oldest.len
        }),
{
    word_laws::law_ring(ep, 0);
    let oldest = ep.queue[ep.q_head as int];
    let count = oldest.td_count as int;
    assert(oldest == ep.pending()[0]);
    queue::lemma_record_count(oldest);
    lemma_sums(ep.tds@, oldest, count);
    lemma_left_sum_is_not_negative(ep.tds@, oldest, count);
    if ep.chains_programmed() {
        assert(queue::chain_programmed(ep.tds@, ep.pending()[0]));
        laws::law_layout_sum(oldest.len as int, count);
    }
}

proof fn lemma_left_sum_is_not_negative(tds: Seq<Td>, record: TransferRecord, n: int)
    ensures
        left_sum(tds, record, n) >= 0,
    decreases n,
{
    if n > 0 {
        lemma_left_sum_is_not_negative(tds, record, n - 1);
    }
}

/// From submission to poll: a transfer that was submitted to an empty queue, and that the
/// controller has worked on, retires with all the bytes that it asked for, less those that
/// the controller left.
pub proof fn law_submitted_bytes_are_accounted_for(
    ep: Endpoint,
    submitted: Endpoint,
    ptr: u32,
    len: usize,
    slot: Option<u8>,
    handoff: Handoff,
    done: Endpoint,
    polled: Endpoint,
    n: usize,
)
    requires
        ep.wf(),
        ep.q_len == 0,
        ep.submittable(ptr, len),
        ep.submitted(submitted, ptr, len, slot, Ok(handoff)),
        done.wf(),
        done == (Endpoint { tds: done.tds, qh: done.qh, ..submitted }),
        done.tds@.len() == 8,
        forall|j: int|
            0 <= j < 8 ==> (#[trigger] done.tds@[j]).last_transfer_size
                == submitted.tds@[j].last_transfer_size,
        done.polled(polled, Some(Ok(n))),
    ensures
        n + left_sum(done.tds@, done.queue[done.q_head as int], handoff.count as int) == len,
{
    let record = done.queue[done.q_head as int];
    assert(done.pending() == submitted.pending());
    assert(submitted.pending()[0] == submitted.pending().last());
    word_laws::law_ring(done, 0);
    assert forall|i: int| 0 <= i < record.td_count implies (#[trigger] done.tds@[pool::td_at(
        record.first_td as int,
        i,
    )]).last_transfer_size == layout::chain_size(record.len as int, i) by {
        let j = pool::td_at(record.first_td as int, i);
        pool::lemma_td_at_range(record.first_td as int, i);
        pool::lemma_place(record.first_td as int, j, i);
        word_laws::law_pool_is_circular(record.first_td as int, j);
        word_laws::law_chain_is_tight(record.len as int, i);
        law_submission_chain(ep, submitted, ptr, len, slot, handoff, j);
        assert(done.tds@[j].last_transfer_size == submitted.tds@[j].last_transfer_size);
    }
    assert(queue::chain_programmed(done.tds@, done.pending()[0]));
    assert(done.chains_programmed());
    law_poll_accounts_for_every_byte(done, polled, n);
}

/// A poll that answers takes the oldest record off the ring and frees its descriptors. The
/// other records move up, and nothing else changes. A poll that does not answer changes
/// nothing.
pub proof fn law_poll_effect(
    ep: Endpoint,
    after: Endpoint,
    result: Option<Result<usize, UsbError>>,
    k: int,
)
    requires
        ep.wf(),
        ep.polled(after, result),
    ensures
        result is None ==> after == ep,
        result is Some ==> {
            &&& after.q_len == ep.q_len - 1
            &&& after.tds_in_use == ep.tds_in_use - ep.queue[ep.q_head as int].td_count
            &&& after.td_head == ep.td_head
            &&& after.tds == ep.tds
            &&& after.queue == ep.queue
            &&& after.qh == ep.qh
            &&& after.buffers == ep.buffers
            &&& after.address == ep.address
            &&& after.kind == ep.kind
            &&& 0 <= k < after.q_len ==> after.queue[(after.q_head + k) % 8] == ep.queue[(
            ep.q_head + k + 1) % 8]
        },
{
    if result is Some {
        word_laws::law_ring(ep, 0);
        assert(ep.queue[ep.q_head as int] == ep.pending()[0]);
        lemma_records_move_up(ep, after, k);
    }
}

proof fn lemma_records_move_up(ep: Endpoint, after: Endpoint, k: int)
    requires
        after.pending() == ep.pending().drop_first(),
        ep.q_len > 0,
    ensures
        after.q_len == ep.q_len - 1,
        0 <= k < after.q_len ==> after.queue[(after.q_head + k) % 8] == ep.queue[(ep.q_head + k
            + 1) % 8],
{
    word_laws::law_ring(after, k);
    word_laws::law_ring(ep, k + 1);
    if 0 <= k < after.q_len {
        assert(after.pending()[k] == ep.pending()[k + 1]);
    }
}

/// A submission is refused as invalid exactly if the transfer is larger than 128 KiB, and
/// put off exactly if the free descriptors of 16 KiB cannot carry it. A submission that is
/// not accepted changes nothing.
pub proof fn law_submission_answer(
    ep: Endpoint,
    after: Endpoint,
    ptr: u32,
    len: usize,
    slot: Option<u8>,
    result: Result<Handoff, UsbError>,
)
    requires
        ep.wf(),
        ep.submitted(after, ptr, len, slot, result),
    ensures
        result == Err::<Handoff, UsbError>(UsbError::InvalidState) <==> len > 131072,
        result is Ok <==> ep.tds_in_use < 8 && len <= (8 - ep.tds_in_use) * 16384,
        result matches Err(error) ==> after == ep && (error == UsbError::InvalidState || error
            == UsbError::WouldBlock),
{
    let count = layout::chain_count(len as int);
    word_laws::law_chain_is_tight(len as int, 0);
    if ep.tds_in_use < 8 {
        let free = 8 - ep.tds_in_use;
        if count <= free {
            assert(count * 16384 <= free * 16384);
        } else {
            assert(free * 16384 <= (count - 1) * 16384);
        }
    }
}

/// Any memory within 32-bit addresses can be submitted to an endpoint with a full pool,
/// unless it is a control endpoint.
pub proof fn law_submission_is_possible(ep: Endpoint, ptr: u32, len: usize)
    requires
        ep.kind != EndpointType::Control,
        ep.tds@.len() == 8,
        ptr + len <= 0x1_0000_0000,
    ensures
        ep.submittable(ptr, len),
{
}

/// A submission that is accepted queues one record behind the others, with what was asked
/// for, and leaves the other records, the queue head and the staging buffers alone.
pub proof fn law_submission_queues_one_record(
    ep: Endpoint,
    after: Endpoint,
    ptr: u32,
    len: usize,
    slot: Option<u8>,
    handoff: Handoff,
    k: int,
)
    requires
        ep.wf(),
        ep.submitted(after, ptr, len, slot, Ok(handoff)),
    ensures
        after.q_len == ep.q_len + 1,
        0 <= k < ep.q_len ==> after.queue[(after.q_head + k) % 8] == ep.queue[(ep.q_head + k) % 8],
        after.queue[(after.q_head + ep.q_len) % 8] == (TransferRecord {
            first_td: ep.td_head as u8,
            td_count: handoff.count as u8,
            len,
            staging_slot: slot,
        }),
        after.address == ep.address,
        after.kind == ep.kind,
        after.buffers == ep.buffers,
        after.qh == ep.qh,
{
    assert(after.pending().len() == ep.pending().len() + 1);
    word_laws::law_ring(after, ep.q_len as int);
    assert(after.pending()[ep.q_len as int] == after.pending().last());
    if 0 <= k < ep.q_len {
        word_laws::law_ring(after, k);
        word_laws::law_ring(ep, k);
        assert(after.pending()[k] == ep.pending()[k]);
    }
}

/// A submission that is accepted takes the next free descriptors, as few as can carry the
/// transfer, and its hand-off names them.
pub proof fn law_submission_takes_few_tds(
    ep: Endpoint,
    after: Endpoint,
    ptr: u32,
    len: usize,
    slot: Option<u8>,
    handoff: Handoff,
)
    requires
        ep.wf(),
        ep.submitted(after, ptr, len, slot, Ok(handoff)),
    ensures
        1 <= handoff.count <= 8 - ep.tds_in_use,
        len <= handoff.count * 16384,
        handoff.count == 1 || (handoff.count - 1) * 16384 < len,
        handoff.head == ep.td_head,
        !handoff.clean,
        handoff.phase == Phase::StoreChain(0),
        after.tds_in_use == ep.tds_in_use + handoff.count,
        after.td_head == (ep.td_head + handoff.count) % 8,
{
    word_laws::law_chain_is_tight(len as int, 0);
    word_laws::law_pool_is_circular(ep.td_head as int, layout::chain_count(len as int));
}

/// The hand-off of a submission names the last descriptor of the transfer that was queued
/// before, which is the one in front of the new chain. Without such a transfer it names
/// none.
pub proof fn law_submission_names_the_previous_tail(
    ep: Endpoint,
    after: Endpoint,
    ptr: u32,
    len: usize,
    slot: Option<u8>,
    handoff: Handoff,
)
    requires
        ep.wf(),
        ep.submitted(after, ptr, len, slot, Ok(handoff)),
    ensures
        handoff.prev_tail is None <==> ep.q_len == 0,
        ep.q_len > 0 ==> {
            let newest = ep.queue[(ep.q_head + ep.q_len - 1) % 8];
            &&& handoff.prev_tail == Some(((newest.first_td + newest.td_count - 1) % 8) as usize)
            &&& handoff.prev_tail == Some(((ep.td_head + 7) % 8) as usize)
        },
{
    if ep.q_len > 0 {
        lemma_newest_tail(ep);
        lemma_one_back(ep.td_head as int);
    }
}

/// The descriptor in front of another one, counted either way round the pool.
proof fn lemma_one_back(j: int)
    ensures
        pool::td_at(j, -1) == (j + 7) % 8,
{
    word_laws::law_pool_is_circular(j, -1);
}

proof fn lemma_newest_tail(ep: Endpoint)
    requires
        ep.queue_wf(),
        ep.q_len > 0,
    ensures
        ({
            let newest = ep.queue[(ep.q_head + ep.q_len - 1) % 8];
            (newest.first_td + newest.td_count - 1) % 8 == pool::td_at(ep.td_head as int, -1)
        }),
{
    let newest = ep.pending().last();
    assert(newest == ep.queue[(ep.q_head + ep.q_len - 1) % 8]) by {
        word_laws::law_ring(ep, ep.q_len - 1);
    }
    queue::lemma_last_td(ep.pending(), ep.td_head as int);
    word_laws::law_pool_is_circular(newest.first_td as int, newest.td_count - 1);
}

/// What a submission that is accepted does to descriptor `j` of the pool. If it is one of
/// the new chain, it carries its part of the memory, is active, links to the one behind it
/// or ends the chain, and raises an interrupt only if it is the last one. If not, it is as
/// before.
pub proof fn law_submission_chain(
    ep: Endpoint,
    after: Endpoint,
    ptr: u32,
    len: usize,
    slot: Option<u8>,
    handoff: Handoff,
    j: int,
)
    requires
        ep.wf(),
        ep.submittable(ptr, len),
        ep.submitted(after, ptr, len, slot, Ok(handoff)),
        0 <= j < 8,
    ensures
        ({
            let i = (j - ep.td_head) % 8;
            let last = i + 1 == handoff.count;
            let size = if last {
                len - i * 16384
            } else {
                16384
            };
            let t = after.tds@[j];
            &&& after.tds@.len() == 8
            &&& i >= handoff.count ==> t == ep.tds@[j]
            &&& i < handoff.count ==> {
                &&& t.address == ep.tds@[j].address
                &&& t.buffer == ptr + i * 16384
                &&& t.last_transfer_size == size
                &&& word_laws::bytes_left(t.token) == size
                &&& t.token & 0xFF == 0x80
                &&& t.token & 0x8000 != 0 <==> last
                &&& t.token & 0x8000_7F00 == ep.tds@[j].token & 0x8000_7F00
                &&& last ==> t.next == 1
                &&& !last ==> t.next == ep.tds@[(j + 1) % 8].address
            }
        }),
{
    let first = ep.td_head as int;
    let i = (j - first) % 8;
    let count = layout::chain_count(len as int);
    word_laws::law_pool_is_circular(first, j);
    word_laws::law_pool_is_circular(j, 1);
    word_laws::law_chain_is_tight(len as int, i);
    assert(i == pool::td_place(first, j));
    assert(0 <= i < 8);
    if i < count {
        let size = layout::chain_size(len as int, i);
        assert(0 <= size <= 16384);
        assert(i * 16384 <= len);
        word_laws::law_programmed_td(
            ep.tds@[j],
            (ptr + i * 16384) as u32,
            size,
            i + 1 == count,
        );
    }
}

/// Taking over a token changes that token and nothing else, unless the token has more bytes
/// left than were programmed; then nothing changes at all.
pub proof fn law_taken_token(ep: Endpoint, after: Endpoint, index: int, token: u32, j: int)
    requires
        ep.wf(),
        ep.token_taken(after, index, token),
        0 <= index < ep.tds@.len(),
        0 <= j < ep.tds@.len(),
    ensures
        after.tds@.len() == ep.tds@.len(),
        j != index ==> after.tds@[j] == ep.tds@[j],
        word_laws::bytes_left(token) <= ep.tds@[index].last_transfer_size ==> after.tds@[index]
            == (Td { token, ..ep.tds@[index] }),
        word_laws::bytes_left(token) > ep.tds@[index].last_transfer_size ==> after.tds@[index]
            == ep.tds@[index],
        after == (Endpoint { tds: after.tds, ..ep }),
{
    assert(ep.tds@[index].wf());
    word_laws::law_returned_td(ep.tds@[index], token);
}

/// A new endpoint: it takes packets as large as its buffer, does not end transfers by
/// itself, and asks for setup interrupts exactly if it is a control OUT endpoint. Its
/// descriptors are terminated and have an empty STATUS field, and nothing is queued.
pub proof fn law_new_endpoint(
    ep: Endpoint,
    address: EndpointAddress,
    qh: Qh,
    tds: Seq<Td>,
    buffer: Buffer,
    kind: EndpointType,
    j: int,
)
    requires
        ep.created(address, qh, tds, buffer, kind),
    ensures
        ep.address == address,
        ep.kind == kind,
        ep.qh.max_packet_len == buffer.data.len(),
        !ep.qh.zero_length_termination,
        ep.qh.interrupt_on_setup <==> kind == EndpointType::Control && address.raw < 128,
        ep.qh.setup == qh.setup,
        ep.qh.overlay == qh.overlay,
        ep.q_len == 0,
        ep.td_head == 0,
        ep.tds_in_use == 0,
        ep.buffers[0] == Some(buffer),
        1 <= j < 8 ==> ep.buffers[j] is None,
        ep.tds@.len() == tds.len(),
        0 <= j < tds.len() ==> {
            &&& ep.tds@[j].next == 1
            &&& ep.tds@[j].token == tds[j].token & 0xFFFF_FF00
            &&& ep.tds@[j].address == tds[j].address
            &&& ep.tds@[j].buffer == tds[j].buffer
            &&& ep.tds@[j].last_transfer_size == tds[j].last_transfer_size
        },
{
    assert(ep.pending().len() == 0);
    if 0 <= j < tds.len() {
        word_laws::law_cleared_td(tds[j]);
    }
}

/// A read takes everything that arrived and fits: never more than a packet, than the
/// caller's buffer, or than the controller received, and as much as the smallest of these.
/// The bytes are those at the front of the staging buffer, and the rest of the caller's
/// buffer stays.
pub proof fn law_read_takes_all_that_fits(
    ep: Endpoint,
    before: Seq<u8>,
    after: Seq<u8>,
    n: int,
    k: int,
)
    requires
        ep.wf(),
        ep.tds@.len() > 0,
        ep.read_out(before, after, n),
    ensures
        ({
            let arrived = ep.tds@[0].last_transfer_size - word_laws::bytes_left(ep.tds@[0].token);
            let packet = ep.qh.max_packet_len;
            &&& n <= arrived && n <= packet && n <= before.len()
            &&& n == arrived || n == packet || n == before.len()
            &&& arrived <= packet && arrived <= before.len() ==> n == arrived
            &&& before.len() <= arrived && before.len() <= packet ==> n == before.len()
            &&& after.len() == before.len()
            &&& 0 <= k < n ==> after[k] == ep.buffers[0]->0.data@[k]
            &&& n <= k < before.len() ==> after[k] == before[k]
        }),
{
    assert(ep.tds@[0].wf());
    word_laws::law_td_bits(ep.tds@[0]);
}

/// A write takes as much as fits a packet, and puts it at the front of the staging buffer.
/// The rest of the staging buffer stays.
pub proof fn law_write_takes_all_that_fits(
    ep: Endpoint,
    after: Endpoint,
    data: Seq<u8>,
    n: int,
    k: int,
)
    requires
        ep.wf(),
        ep.wrote(after, data, n),
    ensures
        n <= data.len() && n <= ep.qh.max_packet_len,
        n == data.len() || n == ep.qh.max_packet_len,
        after.buffers[0]->0.data@.len() == ep.buffers[0]->0.data@.len(),
        0 <= k < n ==> after.buffers[0]->0.data@[k] == data[k],
        n <= k < ep.qh.max_packet_len ==> after.buffers[0]->0.data@[k]
            == ep.buffers[0]->0.data@[k],
{
}

/// The stall bit of a direction.
pub open spec fn stall_bit(raw: u8) -> u32 {
    if raw >= 128 {
        ENDPTCTRL_TXS
    } else {
        ENDPTCTRL_RXS
    }
}

/// The enable bit of a direction.
pub open spec fn enable_bit(raw: u8) -> u32 {
    if raw >= 128 {
        ENDPTCTRL_TXE
    } else {
        ENDPTCTRL_RXE
    }
}

/// The bit that resets the data toggle of a direction.
pub open spec fn toggle_bit(raw: u8) -> u32 {
    if raw >= 128 {
        ENDPTCTRL_TXR
    } else {
        ENDPTCTRL_RXR
    }
}

/// The type field of a direction.
pub open spec fn type_bits(raw: u8) -> u32 {
    if raw >= 128 {
        ENDPTCTRL_TXT
    } else {
        ENDPTCTRL_RXT
    }
}

/// An endpoint type, in the type field of a direction.
pub open spec fn type_value(raw: u8, kind: EndpointType) -> u32 {
    let number = match kind {
        EndpointType::Control => 0u32,
        EndpointType::Isochronous { .. } => 1u32,
        EndpointType::Bulk => 2u32,
        EndpointType::Interrupt => 3u32,
    };
    if raw >= 128 {
        number << 18
    } else {
        number << 2
    }
}

/// Stalling changes the stall bit of the endpoint's direction, in the endpoint's own control
/// register, and no other bit. The endpoint is stalled exactly if that bit is set.
pub proof fn law_stalling_bits(ep: Endpoint, stall: bool, v: u32)
    ensures
        ep.stalling(stall) matches Action::Modify(register, mask, value) && {
            let s = stall_bit(ep.address.raw);
            let w = (v & !mask) | value;
            &&& register == Register::EndptCtrl((ep.address.raw & 0x7F) as usize)
            &&& w & s == (if stall {
                s
            } else {
                0u32
            })
            &&& w & !s == v & !s
        },
        ep.stalled(v) <==> v & stall_bit(ep.address.raw) != 0,
{
    word_laws::law_address_bits(ep.address);
    assert({
        &&& ((v & !1u32) | 1u32) & 1u32 == 1
        &&& ((v & !1u32) | 0u32) & 1u32 == 0
        &&& ((v & !1u32) | 1u32) & !1u32 == v & !1u32
        &&& ((v & !1u32) | 0u32) & !1u32 == v & !1u32
        &&& (v & 1u32 != 0) == ((v / 1) % 2 == 1)
        &&& ((v & !0x1_0000u32) | 0x1_0000u32) & 0x1_0000u32 == 0x1_0000
        &&& ((v & !0x1_0000u32) | 0u32) & 0x1_0000u32 == 0
        &&& ((v & !0x1_0000u32) | 0x1_0000u32) & !0x1_0000u32 == v & !0x1_0000u32
        &&& ((v & !0x1_0000u32) | 0u32) & !0x1_0000u32 == v & !0x1_0000u32
        &&& (v & 0x1_0000u32 != 0) == ((v / 0x1_0000) % 2 == 1)
    }) by (bit_vector);
}

/// Enabling sets the enable bit, resets the data toggle and sets the type of the endpoint's
/// direction, in the endpoint's own control register, and changes no other bit. The
/// endpoint is enabled exactly if the enable bit is set, or if it is the control endpoint,
/// which no access enables.
pub proof fn law_enabling_bits(ep: Endpoint, v: u32)
    ensures
        ep.address.raw & 0x7F == 0 ==> ep.enabling() is None,
        ep.address.raw & 0x7F != 0 ==> (ep.enabling() matches Some(
            Action::Modify(register, mask, value),
        ) && {
            let raw = ep.address.raw;
            let w = (v & !mask) | value;
            let all = enable_bit(raw) | toggle_bit(raw) | type_bits(raw);
            &&& register == Register::EndptCtrl((raw & 0x7F) as usize)
            &&& w & enable_bit(raw) == enable_bit(raw)
            &&& w & toggle_bit(raw) == toggle_bit(raw)
            &&& w & type_bits(raw) == type_value(raw, ep.kind)
            &&& w & !all == v & !all
        }),
        ep.enabled(v) <==> ep.address.raw & 0x7F == 0 || v & enable_bit(ep.address.raw) != 0,
{
    word_laws::law_address_bits(ep.address);
    let k: u32 = crate::usb::raw_endpoint_type(ep.kind);
    let tx: u32 = (0xC0_0000 + k * 0x4_0000) as u32;
    let rx: u32 = (0xC0 + k * 4) as u32;
    assert({
        let w = (v & !0xCC_0000u32) | tx;
        let x = (v & !0xCCu32) | rx;
        &&& (v & 0x80u32 != 0) == ((v / 0x80) % 2 == 1)
        &&& (v & 0x80_0000u32 != 0) == ((v / 0x80_0000) % 2 == 1)
        &&& w & 0x80_0000u32 == 0x80_0000
        &&& w & 0x40_0000u32 == 0x40_0000
        &&& w & 0xC_0000u32 == k << 18
        &&& w & !(0x80_0000u32 | 0x40_0000u32 | 0xC_0000u32) == v & !(0x80_0000u32 | 0x40_0000u32
            | 0xC_0000u32)
        &&& x & 0x80u32 == 0x80
        &&& x & 0x40u32 == 0x40
        &&& x & 0xCu32 == k << 2
        &&& x & !(0x80u32 | 0x40u32 | 0xCu32) == v & !(0x80u32 | 0x40u32 | 0xCu32)
    }) by (bit_vector)
        requires
            k <= 3,
            tx == 0xC0_0000 + k * 0x4_0000,
            rx == 0xC0 + k * 4,
    ;
}

/// Initializing clears the enable bit and sets the bulk type of the endpoint's direction, in
/// the endpoint's own control register, and changes no other bit. The control endpoint is
/// left alone.
pub proof fn law_initializing_bits(ep: Endpoint, v: u32)
    ensures
        ep.address.raw & 0x7F == 0 ==> ep.initializing() is None,
        ep.address.raw & 0x7F != 0 ==> (ep.initializing() matches Some(
            Action::Modify(register, mask, value),
        ) && {
            let raw = ep.address.raw;
            let w = (v & !mask) | value;
            let all = enable_bit(raw) | type_bits(raw);
            &&& register == Register::EndptCtrl((raw & 0x7F) as usize)
            &&& w & enable_bit(raw) == 0
            &&& w & type_bits(raw) == type_value(raw, EndpointType::Bulk)
            &&& w & !all == v & !all
        }),
{
    word_laws::law_address_bits(ep.address);
    assert({
        let w = (v & !0x8C_0000u32) | 0x8_0000u32;
        let x = (v & !0x8Cu32) | 0x8u32;
        &&& w & 0x80_0000u32 == 0
        &&& w & 0xC_0000u32 == 2u32 << 18
        &&& w & !(0x80_0000u32 | 0xC_0000u32) == v & !(0x80_0000u32 | 0xC_0000u32)
        &&& x & 0x80u32 == 0
        &&& x & 0xCu32 == 2u32 << 2
        &&& x & !(0x80u32 | 0xCu32) == v & !(0x80u32 | 0xCu32)
    }) by (bit_vector);
}

/// The slot of a raw address: two for each index, OUT first.
pub open spec fn raw_slot(raw: u8) -> int {
    if raw >= 128 {
        (raw - 128) * 2 + 1
    } else {
        raw * 2
    }
}

/// The controller has an endpoint with this raw address.
pub open spec fn in_range(raw: u8) -> bool {
    raw & 0x7F < 8
}

/// An endpoint is allocated exactly if its own slot is filled. It does not matter what the
/// other direction of the same index holds.
pub proof fn law_allocated_is_own_slot(bus: BusAdapter, address: EndpointAddress)
    ensures
        bus.endpoint(address) == (if in_range(address.raw) {
            bus.endpoints@[raw_slot(address.raw)]
        } else {
            None
        }),
        bus.allocated(address) <==> in_range(address.raw) && bus.endpoints@[raw_slot(
            address.raw,
        )] is Some,
{
    word_laws::law_address_bits(address);
}

/// A wish for an address is granted exactly if that very address is free, whatever else is
/// allocated, and refused as an invalid endpoint otherwise.
pub proof fn law_wish_is_granted_exactly_if_free(
    bus: BusAdapter,
    dir: UsbDirection,
    wish: EndpointAddress,
    result: Result<EndpointAddress, UsbError>,
)
    requires
        bus.address_chosen(dir, Some(wish), result),
    ensures
        ({
            let taken = in_range(wish.raw) && bus.endpoints@[raw_slot(wish.raw)] is Some;
            &&& !taken <==> result == Ok::<EndpointAddress, UsbError>(wish)
            &&& taken <==> result == Err::<EndpointAddress, UsbError>(UsbError::InvalidEndpoint)
            &&& !bus.allocated(wish) ==> result == Ok::<EndpointAddress, UsbError>(wish)
        }),
{
    law_allocated_is_own_slot(bus, wish);
}

/// Endpoints can be allocated one after the other: once one is there, every other address
/// that was free is still granted. In particular, so is the other direction of its index.
pub proof fn law_allocations_do_not_block_each_other(
    bus: BusAdapter,
    after: BusAdapter,
    taken: EndpointAddress,
    dir: UsbDirection,
    wish: EndpointAddress,
    result: Result<EndpointAddress, UsbError>,
)
    requires
        after.others_unchanged(bus, taken),
        wish != taken,
        !bus.allocated(wish),
        after.address_chosen(dir, Some(wish), result),
    ensures
        result == Ok::<EndpointAddress, UsbError>(wish),
{
    assert(after.endpoint(wish) == bus.endpoint(wish));
}

/// Without a wish, the choice is the free address of the direction with the lowest index
/// from 1 to 7, and it fails exactly if there is none.
pub proof fn law_choice_is_the_lowest_free(
    bus: BusAdapter,
    dir: UsbDirection,
    result: Result<EndpointAddress, UsbError>,
    j: int,
)
    requires
        bus.address_chosen(dir, None, result),
        1 <= j < 8,
    ensures
        ({
            let side = if dir == UsbDirection::In {
                1int
            } else {
                0
            };
            &&& result matches Ok(address) ==> {
                let index = address.raw - 128 * side;
                &&& 1 <= index < 8
                &&& bus.endpoints@[index * 2 + side] is None
                &&& j < index ==> bus.endpoints@[j * 2 + side] is Some
            }
            &&& result matches Err(error) ==> error == UsbError::EndpointOverflow
                && bus.endpoints@[j * 2 + side] is Some
        }),
{
    if let Ok(address) = result {
        assert(address.raw == address.spec_index() + (if dir == UsbDirection::In {
            128int
        } else {
            0
        }));
        if j < address.spec_index() {
            assert(bus.index_taken(j, dir));
        }
    } else {
        assert(bus.index_taken(j, dir));
    }
}

/// Where only one address may change, every other slot of the bus is as before.
pub proof fn law_other_slots_stay(
    before: BusAdapter,
    after: BusAdapter,
    address: EndpointAddress,
    s: int,
)
    requires
        after.others_unchanged(before, address),
        0 <= s < 16,
        s != raw_slot(address.raw),
    ensures
        after.endpoints@[s] == before.endpoints@[s],
{
    let raw = (s / 2 + 128 * (s % 2)) as u8;
    let other = EndpointAddress { raw };
    word_laws::law_address_bits(other);
    assert(raw_slot(raw) == s);
    assert(after.endpoint(other) == before.endpoint(other));
    law_allocated_is_own_slot(after, other);
    law_allocated_is_own_slot(before, other);
}

/// A request for an address that is not allocated is refused as an invalid endpoint. The
/// control endpoint answers for index 0, and every other endpoint for itself.
pub proof fn law_requests_are_routed(bus: BusAdapter, address: EndpointAddress)
    ensures
        ({
            let there = in_range(address.raw) && bus.endpoints@[raw_slot(address.raw)] is Some;
            &&& !there <==> bus.routed(address) == Err::<Route, UsbError>(
                UsbError::InvalidEndpoint,
            )
            &&& there && address.raw & 0x7F == 0 <==> bus.routed(address) == Ok::<Route, UsbError>(
                Route::Control,
            )
            &&& there && address.raw & 0x7F != 0 <==> bus.routed(address) == Ok::<Route, UsbError>(
                Route::Endpoint,
            )
        }),
{
    law_allocated_is_own_slot(bus, address);
    word_laws::law_address_bits(address);
}

/// Any memory within 32-bit addresses can be submitted to an address without an endpoint,
/// or with one that has a full pool and is not a control endpoint.
pub proof fn law_bus_submission_is_possible(
    bus: BusAdapter,
    address: EndpointAddress,
    ptr: u32,
    len: usize,
)
    requires
        in_range(address.raw) && bus.endpoints@[raw_slot(address.raw)] is Some ==> {
            let ep = bus.endpoints@[raw_slot(address.raw)]->0;
            ep.kind != EndpointType::Control && ep.tds@.len() == 8
        },
        ptr + len <= 0x1_0000_0000,
    ensures
        bus.submittable(address, ptr, len),
{
    law_allocated_is_own_slot(bus, address);
}

/// A submission to the bus goes to the endpoint in the slot of the address, as a zero-copy
/// transfer, and to no other. It is refused exactly if there is none, or as that endpoint
/// refuses it.
pub proof fn law_bus_submission(
    bus: BusAdapter,
    after: BusAdapter,
    address: EndpointAddress,
    ptr: u32,
    len: usize,
    result: Result<Handoff, UsbError>,
    s: int,
)
    requires
        bus.wf(),
        bus.submitted(after, address, ptr, len, result),
        0 <= s < 16,
    ensures
        ({
            let there = in_range(address.raw) && bus.endpoints@[raw_slot(address.raw)] is Some;
            let slot = raw_slot(address.raw);
            &&& !there ==> result == Err::<Handoff, UsbError>(UsbError::InvalidEndpoint) && after
                == bus
            &&& there ==> {
                &&& after.endpoints@[slot] is Some
                &&& bus.endpoints@[slot]->0.submitted(
                    after.endpoints@[slot]->0,
                    ptr,
                    len,
                    None,
                    result,
                )
                &&& s != slot ==> after.endpoints@[s] == bus.endpoints@[s]
            }
        }),
{
    law_allocated_is_own_slot(bus, address);
    law_allocated_is_own_slot(after, address);
    if bus.allocated(address) && s != raw_slot(address.raw) {
        law_other_slots_stay(bus, after, address, s);
    }
}

/// Scheduling a packet programs the first descriptor for that many bytes of the first
/// staging buffer, with an interrupt, and leaves everything else alone. The hand-off that
/// it starts is that of a single packet.
pub proof fn law_scheduled_packet(
    ep: Endpoint,
    after: Endpoint,
    size: int,
    handoff: Handoff,
    j: int,
)
    requires
        ep.wf(),
        ep.tds@.len() > 0,
        0 <= size <= 0x7FFF,
        ep.scheduled(after, size, handoff),
    ensures
        ({
            let t = after.tds@[0];
            &&& t.address == ep.tds@[0].address
            &&& t.next == 1
            &&& t.buffer == ep.buffers[0]->0.address
            &&& t.last_transfer_size == size
            &&& word_laws::bytes_left(t.token) == size
            &&& t.token & 0xFF == 0x80
            &&& t.token & 0x8000 != 0
            &&& t.token & 0x8000_7F00 == ep.tds@[0].token & 0x8000_7F00
        }),
        after.tds@.len() == ep.tds@.len(),
        1 <= j < ep.tds@.len() ==> after.tds@[j] == ep.tds@[j],
        after == (Endpoint { tds: after.tds, ..ep }),
        handoff.head == 0,
        handoff.prev_tail is None,
        handoff.clean,
        handoff.phase == Phase::StorePacket,
{
    word_laws::law_programmed_td(ep.tds@[0], ep.buffers[0]->0.address, size, true);
}

/// An allocation succeeds exactly if an address can be chosen and there is memory. Then the
/// slot of the address holds an endpoint with that address, that type and that buffer, and
/// every other slot is as before. A failed allocation changes nothing.
pub proof fn law_allocation(
    bus: BusAdapter,
    after: BusAdapter,
    dir: UsbDirection,
    wish: Option<EndpointAddress>,
    kind: EndpointType,
    buffer: Option<Buffer>,
    qh: Qh,
    tds: Seq<Td>,
    result: Result<EndpointAddress, UsbError>,
    s: int,
)
    requires
        bus.allocation(after, dir, wish, kind, buffer, qh, tds, result),
        wish matches Some(address) ==> in_range(address.raw),
        0 <= s < 16,
    ensures
        result matches Ok(address) ==> {
            let slot = raw_slot(address.raw);
            &&& buffer is Some
            &&& in_range(address.raw)
            &&& wish is Some ==> address == wish->0
            &&& bus.endpoints@[slot] is None
            &&& after.endpoints@[slot] is Some
            &&& after.endpoints@[slot]->0.address == address
            &&& after.endpoints@[slot]->0.kind == kind
            &&& after.endpoints@[slot]->0.buffers[0] == buffer
            &&& after.endpoints@[slot]->0.tds@.len() == tds.len()
            &&& s != slot ==> after.endpoints@[s] == bus.endpoints@[s]
        },
        result matches Err(error) ==> {
            &&& after == bus
            &&& error == UsbError::EndpointMemoryOverflow ==> buffer is None
            &&& error == UsbError::InvalidEndpoint ==> wish is Some && bus.endpoints@[raw_slot(
                wish->0.raw,
            )] is Some
            &&& error == UsbError::EndpointOverflow ==> wish is None && (s >= 2 && (s % 2 == 1
                <==> dir == UsbDirection::In) ==> bus.endpoints@[s] is Some)
            &&& error == UsbError::EndpointMemoryOverflow || error == UsbError::InvalidEndpoint
                || error == UsbError::EndpointOverflow
        },
        (wish matches Some(address) && bus.endpoints@[raw_slot(address.raw)] is None
            && buffer is Some) ==> result is Ok,
{
    if let Some(address) = wish {
        law_allocated_is_own_slot(bus, address);
    }
    if let Ok(address) = result {
        law_allocated_is_own_slot(bus, address);
        law_allocated_is_own_slot(after, address);
        word_laws::law_address_bits(address);
        if s != raw_slot(address.raw) {
            law_other_slots_stay(bus, after, address, s);
        }
    } else if result->Err_0 == UsbError::EndpointOverflow && s >= 2 {
        law_choice_is_the_lowest_free(bus, dir, result, s / 2);
    }
}

/// A poll of the bus is a poll of the endpoint in the slot of the address, and touches no
/// other slot. Where there is none, there is no answer.
pub proof fn law_bus_poll(
    bus: BusAdapter,
    after: BusAdapter,
    address: EndpointAddress,
    result: Option<Result<usize, UsbError>>,
    s: int,
)
    requires
        bus.polled(after, address, result),
        0 <= s < 16,
    ensures
        ({
            let there = in_range(address.raw) && bus.endpoints@[raw_slot(address.raw)] is Some;
            let slot = raw_slot(address.raw);
            &&& !there ==> result is None && after == bus
            &&& there ==> after.endpoints@[slot] is Some && bus.endpoints@[slot]->0.polled(
                after.endpoints@[slot]->0,
                result,
            )
            &&& s != slot ==> after.endpoints@[s] == bus.endpoints@[s]
        }),
{
    law_allocated_is_own_slot(bus, address);
    law_allocated_is_own_slot(after, address);
    if s != raw_slot(address.raw) {
        law_other_slots_stay(bus, after, address, s);
    }
}

/// Cancelling flushes the endpoint in the slot of the address, and touches no other slot.
/// It does nothing at all to the control endpoint, or where there is no endpoint.
pub proof fn law_cancelling(
    bus: BusAdapter,
    after: BusAdapter,
    address: EndpointAddress,
    phase: FlushPhase,
    next: FlushPhase,
    input: u32,
    action: Action,
    s: int,
)
    requires
        bus.cancelling(after, address, phase, next, input, action),
        0 <= s < 16,
    ensures
        ({
            let slot = raw_slot(address.raw);
            let there = in_range(address.raw) && bus.endpoints@[slot] is Some;
            &&& !there || address.raw & 0x7F == 0 ==> action is Done && after == bus && next
                == phase
            &&& there && address.raw & 0x7F != 0 ==> after.endpoints@[slot] is Some
                && phase.stepped(
                next,
                bus.endpoints@[slot]->0,
                after.endpoints@[slot]->0,
                input,
                action,
            )
            &&& s != slot ==> after.endpoints@[s] == bus.endpoints@[s]
        }),
{
    law_allocated_is_own_slot(bus, address);
    law_allocated_is_own_slot(after, address);
    word_laws::law_address_bits(address);
    if s != raw_slot(address.raw) {
        law_other_slots_stay(bus, after, address, s);
    }
}

/// Exactly the allocated OUT endpoints that are not control endpoints can read ahead. All
/// others are refused as invalid endpoints.
pub proof fn law_only_out_endpoints_read_ahead(bus: BusAdapter, address: EndpointAddress)
    ensures
        ({
            let slot = raw_slot(address.raw);
            let there = in_range(address.raw) && bus.endpoints@[slot] is Some;
            let able = there && address.raw < 128 && bus.endpoints@[slot]->0.kind
                != EndpointType::Control;
            &&& able <==> bus.packet_queue(address) is Ok
            &&& !able <==> bus.packet_queue(address) == Err::<(), UsbError>(
                UsbError::InvalidEndpoint,
            )
        }),
{
    law_allocated_is_own_slot(bus, address);
}

} // verus!
