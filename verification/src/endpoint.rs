//! USB endpoints.
//!
//! An endpoint owns a queue head, a pool of transfer descriptors and its staging
//! buffers. Single packets go through the first descriptor and the first staging buffer.
//! Queued transfers take chains of descriptors out of the circular pool.

use crate::handoff::{Handoff, Phase};
use crate::layout;
use crate::layout::{chain_layout, TDS_PER_EP, TRANSFER_DTD_MAX, TRANSFER_MAX_BYTES};
use crate::pool;
use crate::pool::td_index;
use crate::qh::{Buffer, Qh};
use crate::queue;
use crate::queue::TransferRecord;
use crate::registers;
use crate::registers::ENDPOINTS;
use crate::td;
use crate::td::{StatusFlag, Td, TERMINATE, TOTAL_BYTES_MAX};
use crate::usb::{EndpointAddress, EndpointType, UsbDirection, UsbError};
use vstd::prelude::*;

verus! {

broadcast use crate::pool::lemma_td_at_range;

/// A USB endpoint.
pub struct Endpoint {
    pub address: EndpointAddress,
    pub qh: Qh,
    /// The pool of descriptors. Single packets use the first one.
    pub tds: Vec<Td>,
    /// Staging buffers. The first one is always there.
    pub buffers: [Option<Buffer>; 8],
    pub kind: EndpointType,
    /// Ring of transfer records.
    pub queue: [TransferRecord; 8],
    /// The oldest live record of the ring.
    pub q_head: usize,
    /// The number of live records.
    pub q_len: usize,
    /// The next free descriptor.
    pub td_head: usize,
    /// The number of descriptors that queued transfers own.
    pub tds_in_use: usize,
}

impl Endpoint {
    /// The queued transfers, oldest first.
    pub open spec fn pending(self) -> Seq<TransferRecord> {
        queue::ring(self.queue@, self.q_head as int, self.q_len as int)
    }

    /// The ring and the pool agree: the live records own consecutive descriptors, up to
    /// the next free one, and `tds_in_use` counts them.
    pub open spec fn queue_wf(self) -> bool {
        &&& self.q_head < TDS_PER_EP
        &&& self.td_head < TDS_PER_EP
        &&& self.q_len <= TDS_PER_EP
        &&& self.tds_in_use <= TDS_PER_EP
        &&& self.q_len > 0 ==> self.tds@.len() == TDS_PER_EP
        &&& queue::records_wf(self.pending())
        &&& self.tds_in_use == queue::td_sum(self.pending())
        &&& queue::consecutive(self.pending(), self.td_head - self.tds_in_use)
    }

    pub open spec fn tds_wf(self) -> bool {
        forall|i: int| 0 <= i < self.tds@.len() ==> (#[trigger] self.tds@[i]).wf()
    }

    /// The bytes of the first staging buffer.
    pub open spec fn staged(self) -> Seq<u8> {
        self.buffers[0]->0.data@
    }

    pub open spec fn wf(self) -> bool {
        &&& self.address.spec_index() < ENDPOINTS
        &&& self.buffers[0] is Some
        &&& self.qh.max_packet_len == self.staged().len()
        &&& self.tds_wf()
        &&& self.queue_wf()
    }

    /// The descriptors of every queued transfer carry the payload that it asked for.
    pub open spec fn chains_programmed(self) -> bool {
        forall|k: int|
            0 <= k < self.pending().len() ==> queue::chain_programmed(
                self.tds@,
                #[trigger] self.pending()[k],
            )
    }

    /// The endpoint's bit in the registers that hold one bit for each endpoint.
    pub open spec fn position(self) -> int {
        registers::endpoint_position(self.address)
    }

    /// An endpoint as it is made: its capabilities are set, every descriptor is
    /// terminated and cleared, the buffer is the first staging buffer, and nothing is
    /// queued.
    pub open spec fn created(
        self,
        address: EndpointAddress,
        qh: Qh,
        tds: Seq<Td>,
        buffer: Buffer,
        kind: EndpointType,
    ) -> bool {
        &&& self.address == address
        &&& self.kind == kind
        &&& self.qh == (Qh {
            zero_length_termination: false,
            max_packet_len: buffer.data@.len() as usize,
            interrupt_on_setup: kind == EndpointType::Control && address.spec_direction()
                == UsbDirection::Out,
            ..qh
        })
        &&& self.tds@ == tds.map_values(|t: Td| t.cleared())
        &&& self.buffers[0] == Some(buffer)
        &&& forall|i: int| 1 <= i < TDS_PER_EP ==> #[trigger] self.buffers[i] is None
        &&& self.pending() == Seq::<TransferRecord>::empty()
        &&& self.td_head == 0
        &&& self.tds_in_use == 0
    }

    /// An endpoint without queued transfers.
    ///
    /// The buffer becomes the first staging buffer, and its size the largest packet.
    pub fn new(
        address: EndpointAddress,
        qh: Qh,
        tds: Vec<Td>,
        buffer: Buffer,
        kind: EndpointType,
    ) -> (ep: Endpoint)
        requires
            address.spec_index() < ENDPOINTS,
            forall|i: int| 0 <= i < tds@.len() ==> (#[trigger] tds@[i]).wf(),
        ensures
            ep.created(address, qh, tds@, buffer, kind),
            ep.wf(),
            ep.chains_programmed(),
    {
        let mut qh: Qh = qh;
        qh.zero_length_termination = false;
        qh.max_packet_len = buffer.len();
        qh.interrupt_on_setup = match kind {
            EndpointType::Control => address.direction() == UsbDirection::Out,
            _ => false,
        };
        let mut tds: Vec<Td> = tds;
        clear_all(&mut tds);
        let ep: Endpoint = Endpoint {
            address,
            qh,
            tds,
            buffers: [Some(buffer), None, None, None, None, None, None, None],
            kind,
            queue: [TransferRecord::empty(); 8],
            q_head: 0,
            q_len: 0,
            td_head: 0,
            tds_in_use: 0,
        };
        assert(ep.pending() =~= Seq::<TransferRecord>::empty());
        ep
    }
}

/// End the chain at every descriptor, and clear every STATUS field.
fn clear_all(tds: &mut Vec<Td>)
    ensures
        final(tds)@ == old(tds)@.map_values(|t: Td| t.cleared()),
{
    let ghost before: Seq<Td> = tds@;
    let mut i: usize = 0;
    while i < tds.len()
        invariant
            i <= tds@.len(),
            tds@.len() == before.len(),
            forall|j: int| 0 <= j < i ==> #[trigger] tds@[j] == before[j].cleared(),
            forall|j: int| i <= j < before.len() ==> #[trigger] tds@[j] == before[j],
        decreases tds@.len() - i,
    {
        tds[i].set_terminate();
        tds[i].clear_status();
        i += 1;
    }
    assert(tds@ =~= before.map_values(|t: Td| t.cleared()));
}

/// The pool with a chain for `len` bytes at `ptr` in it, from descriptor `first` on.
///
/// Each descriptor of the chain carries its part of the payload, is active, and links to
/// the next one. The last one ends the chain, and alone raises an interrupt.
pub open spec fn chain_in_pool(tds: Seq<Td>, first: int, ptr: u32, len: int) -> Seq<Td> {
    Seq::new(
        tds.len(),
        |j: int|
            {
                let i = pool::td_place(first, j);
                let count = layout::chain_count(len);
                if i < count {
                    Td {
                        next: if i + 1 < count {
                            tds[pool::td_at(j, 1)].address
                        } else {
                            TERMINATE
                        },
                        ..tds[j].programmed(
                            (ptr + i * TRANSFER_DTD_MAX) as u32,
                            layout::chain_size(len, i),
                            i + 1 == count,
                        )
                    }
                } else {
                    tds[j]
                }
            },
    )
}

/// Descriptor `j` of the pool, once the first `n` places of a chain are programmed.
spec fn programmed_at(
    tds: Seq<Td>,
    first: int,
    ptr: u32,
    len: int,
    n: int,
    j: int,
) -> Td {
    let i = pool::td_place(first, j);
    if i < n {
        tds[j].programmed(
            (ptr + i * TRANSFER_DTD_MAX) as u32,
            layout::chain_size(len, i),
            i + 1 == layout::chain_count(len),
        )
    } else {
        tds[j]
    }
}

/// Program the descriptors of a chain, without their links.
fn program_chain(
    tds: &mut Vec<Td>,
    first: usize,
    sizes: &[usize; 8],
    count: usize,
    ptr: u32,
    len: usize,
)
    requires
        old(tds)@.len() == TDS_PER_EP,
        first < TDS_PER_EP,
        len <= TRANSFER_MAX_BYTES,
        count == layout::chain_count(len as int),
        ptr + len <= 0x1_0000_0000,
        forall|k: int|
            0 <= k < TDS_PER_EP ==> #[trigger] sizes[k] == layout::chain_size(len as int, k),
    ensures
        final(tds)@.len() == TDS_PER_EP,
        forall|j: int|
            0 <= j < TDS_PER_EP ==> #[trigger] final(tds)@[j] == programmed_at(
                old(tds)@,
                first as int,
                ptr,
                len as int,
                count as int,
                j,
            ),
{
    let ghost before: Seq<Td> = tds@;
    let mut offset: usize = 0;
    let mut i: usize = 0;
    proof {
        assert forall|j: int| 0 <= j < TDS_PER_EP implies #[trigger] before[j] == programmed_at(
            before,
            first as int,
            ptr,
            len as int,
            0,
            j,
        ) by {
            pool::lemma_place(first as int, j, 0);
        }
    }
    while i < count
        invariant
            tds@.len() == TDS_PER_EP,
            before.len() == TDS_PER_EP,
            i <= count <= TDS_PER_EP,
            first < TDS_PER_EP,
            len <= TRANSFER_MAX_BYTES,
            count == layout::chain_count(len as int),
            ptr + len <= 0x1_0000_0000,
            offset == layout::min(len as int, i * TRANSFER_DTD_MAX),
            forall|k: int|
                0 <= k < TDS_PER_EP ==> #[trigger] sizes[k] == layout::chain_size(len as int, k),
            forall|j: int|
                0 <= j < TDS_PER_EP ==> #[trigger] tds@[j] == programmed_at(
                    before,
                    first as int,
                    ptr,
                    len as int,
                    i as int,
                    j,
                ),
        decreases count - i,
    {
        let idx: usize = td_index(first, i);
        let td_size: usize = sizes[i];
        let chunk: u32 = ptr + offset as u32;
        proof {
            pool::lemma_place(first as int, idx as int, i as int);
            assert(td_size == layout::chain_size(len as int, i as int));
        }
        let ghost now: Seq<Td> = tds@;
        tds[idx].set_terminate();
        tds[idx].set_buffer(chunk, td_size);
        tds[idx].set_interrupt_on_complete(i + 1 == count);
        tds[idx].set_active();
        offset += td_size;
        i += 1;
        proof {
            assert forall|j: int| 0 <= j < TDS_PER_EP implies #[trigger] tds@[j]
                == programmed_at(before, first as int, ptr, len as int, i as int, j) by {
                pool::lemma_place(first as int, j, i - 1);
                assert(now[j] == programmed_at(
                    before,
                    first as int,
                    ptr,
                    len as int,
                    i - 1,
                    j,
                ));
            }
        }
    }
}

/// Link each descriptor of a chain to the next one. The last one is left alone.
fn link_chain(tds: &mut Vec<Td>, first: usize, count: usize)
    requires
        old(tds)@.len() == TDS_PER_EP,
        first < TDS_PER_EP,
        1 <= count <= TDS_PER_EP,
    ensures
        final(tds)@.len() == TDS_PER_EP,
        forall|j: int|
            0 <= j < TDS_PER_EP ==> #[trigger] final(tds)@[j] == linked_at(
                old(tds)@,
                first as int,
                count - 1,
                j,
            ),
{
    let ghost before: Seq<Td> = tds@;
    let mut i: usize = 0;
    proof {
        assert forall|j: int| 0 <= j < TDS_PER_EP implies #[trigger] before[j] == linked_at(
            before,
            first as int,
            0,
            j,
        ) by {
            pool::lemma_place(first as int, j, 0);
        }
    }
    while i + 1 < count
        invariant
            tds@.len() == TDS_PER_EP,
            before.len() == TDS_PER_EP,
            0 <= i < count <= TDS_PER_EP,
            first < TDS_PER_EP,
            forall|j: int|
                0 <= j < TDS_PER_EP ==> #[trigger] tds@[j] == linked_at(
                    before,
                    first as int,
                    i as int,
                    j,
                ),
        decreases count - i,
    {
        let idx: usize = td_index(first, i);
        let next_idx: usize = td_index(first, i + 1);
        proof {
            pool::lemma_place(first as int, idx as int, i as int);
            pool::lemma_td_at_twice(first as int, i as int, 1);
            assert(tds@[next_idx as int].address == before[next_idx as int].address);
        }
        let ghost now: Seq<Td> = tds@;
        let next: u32 = tds[next_idx].address;
        tds[idx].set_next(next);
        i += 1;
        proof {
            assert forall|j: int| 0 <= j < TDS_PER_EP implies #[trigger] tds@[j] == linked_at(
                before,
                first as int,
                i as int,
                j,
            ) by {
                pool::lemma_place(first as int, j, i - 1);
                assert(now[j] == linked_at(before, first as int, i - 1, j));
            }
        }
    }
}

/// Descriptor `j` of the pool, once the first `n` places of a chain are linked.
spec fn linked_at(tds: Seq<Td>, first: int, n: int, j: int) -> Td {
    if pool::td_place(first, j) < n {
        Td { next: tds[pool::td_at(j, 1)].address, ..tds[j] }
    } else {
        tds[j]
    }
}

/// Put a chain for `len` bytes at `ptr` into the pool.
fn build_chain(
    tds: &mut Vec<Td>,
    first: usize,
    sizes: &[usize; 8],
    count: usize,
    ptr: u32,
    len: usize,
)
    requires
        old(tds)@.len() == TDS_PER_EP,
        first < TDS_PER_EP,
        len <= TRANSFER_MAX_BYTES,
        count == layout::chain_count(len as int),
        ptr + len <= 0x1_0000_0000,
        forall|k: int|
            0 <= k < TDS_PER_EP ==> #[trigger] sizes[k] == layout::chain_size(len as int, k),
    ensures
        final(tds)@ == chain_in_pool(old(tds)@, first as int, ptr, len as int),
{
    let ghost before: Seq<Td> = tds@;
    program_chain(tds, first, sizes, count, ptr, len);
    let ghost programmed: Seq<Td> = tds@;
    link_chain(tds, first, count);
    proof {
        assert forall|j: int| 0 <= j < TDS_PER_EP implies #[trigger] tds@[j] == chain_in_pool(
            before,
            first as int,
            ptr,
            len as int,
        )[j] by {
            pool::lemma_place(first as int, j, 0);
            let next = pool::td_at(j, 1);
            assert(programmed[next].address == before[next].address);
            assert(programmed[j] == programmed_at(
                before,
                first as int,
                ptr,
                len as int,
                count as int,
                j,
            ));
        }
        assert(tds@ =~= chain_in_pool(before, first as int, ptr, len as int));
    }
}

/// A pool with a chain in it is as well-formed as before.
proof fn lemma_chain_keeps_tds_wf(tds: Seq<Td>, first: int, ptr: u32, len: int)
    requires
        tds.len() == TDS_PER_EP,
        0 <= first < TDS_PER_EP,
        0 <= len <= TRANSFER_MAX_BYTES,
        forall|i: int| 0 <= i < tds.len() ==> (#[trigger] tds[i]).wf(),
    ensures
        forall|i: int|
            0 <= i < tds.len() ==> (#[trigger] chain_in_pool(tds, first, ptr, len)[i]).wf(),
{
    assert forall|j: int| 0 <= j < tds.len() implies (#[trigger] chain_in_pool(
        tds,
        first,
        ptr,
        len,
    )[j]).wf() by {
        pool::lemma_place(first, j, 0);
        let size = layout::chain_size(len, pool::td_place(first, j));
        assert(tds[j].wf());
        td::lemma_with_total(tds[j].token, size);
        let ioc = pool::td_place(first, j) + 1 == layout::chain_count(len);
        td::lemma_with_ioc(td::with_total(tds[j].token, size), ioc);
        td::lemma_with_status(td::with_ioc(td::with_total(tds[j].token, size), ioc), 0x80);
    }
}

/// The new chain carries the payload that its record asks for.
proof fn lemma_new_chain_is_programmed(tds: Seq<Td>, ptr: u32, record: TransferRecord)
    requires
        tds.len() == TDS_PER_EP,
        queue::record_wf(record),
    ensures
        queue::chain_programmed(
            chain_in_pool(tds, record.first_td as int, ptr, record.len as int),
            record,
        ),
{
    let first = record.first_td as int;
    let after = chain_in_pool(tds, first, ptr, record.len as int);
    assert forall|i: int| 0 <= i < record.td_count implies (#[trigger] after[pool::td_at(
        first,
        i,
    )]).last_transfer_size == layout::chain_size(record.len as int, i) by {
        queue::lemma_record_count(record);
        pool::lemma_place(first, pool::td_at(first, i), i);
    }
}

/// A new chain does not touch the descriptors of queued transfers.
pub proof fn lemma_chain_keeps_owned(ep: Endpoint, ptr: u32, len: usize, k: int, i: int)
    requires
        ep.queue_wf(),
        ep.tds@.len() == TDS_PER_EP,
        len <= TRANSFER_MAX_BYTES,
        layout::chain_count(len as int) <= TDS_PER_EP - ep.tds_in_use,
        0 <= k < ep.pending().len(),
        0 <= i < ep.pending()[k].td_count,
    ensures
        ({
            let j = pool::td_at(ep.pending()[k].first_td as int, i);
            &&& 0 <= j < TDS_PER_EP
            &&& chain_in_pool(ep.tds@, ep.td_head as int, ptr, len as int)[j] == ep.tds@[j]
        }),
{
    queue::lemma_owned_place(ep.pending(), ep.td_head as int, ep.tds_in_use as int, k, i);
}

proof fn lemma_chain_keeps_chains(ep: Endpoint, ptr: u32, len: usize)
    requires
        ep.queue_wf(),
        ep.chains_programmed(),
        ep.tds@.len() == TDS_PER_EP,
        len <= TRANSFER_MAX_BYTES,
        layout::chain_count(len as int) <= TDS_PER_EP - ep.tds_in_use,
    ensures
        forall|k: int|
            0 <= k < ep.pending().len() ==> queue::chain_programmed(
                chain_in_pool(ep.tds@, ep.td_head as int, ptr, len as int),
                #[trigger] ep.pending()[k],
            ),
{
    let after = chain_in_pool(ep.tds@, ep.td_head as int, ptr, len as int);
    assert forall|k: int| 0 <= k < ep.pending().len() implies queue::chain_programmed(
        after,
        #[trigger] ep.pending()[k],
    ) by {
        let record = ep.pending()[k];
        assert(queue::chain_programmed(ep.tds@, record));
        assert forall|i: int| 0 <= i < record.td_count implies (#[trigger] after[pool::td_at(
            record.first_td as int,
            i,
        )]).last_transfer_size == layout::chain_size(record.len as int, i) by {
            lemma_chain_keeps_owned(ep, ptr, len, k, i);
        }
    }
}

impl Endpoint {
    /// The descriptors that are free for new transfers.
    pub fn tds_free(&self) -> (n: usize)
        requires
            self.wf(),
        ensures
            n == TDS_PER_EP - self.tds_in_use,
    {
        TDS_PER_EP - self.tds_in_use
    }

    /// The number of queued transfers.
    pub fn pending_transfers(&self) -> (n: usize)
        ensures
            n == self.pending().len(),
    {
        self.q_len
    }

    /// The endpoint after the controller wrote `token` back to descriptor `index`.
    pub open spec fn token_taken(self, after: Endpoint, index: int, token: u32) -> bool {
        &&& after.tds@ == self.tds@.update(index, self.tds@[index].returned(token))
        &&& after == (Endpoint { tds: after.tds, ..self })
    }

    /// Take over the token that the controller wrote back to descriptor `index`.
    ///
    /// Returns `false`, and leaves the descriptor as it was, where the controller claims to
    /// have more bytes left than it was given.
    pub fn take_token(&mut self, index: usize, token: u32) -> (taken: bool)
        requires
            old(self).wf(),
            index < old(self).tds@.len(),
        ensures
            old(self).token_taken(*final(self), index as int, token),
            taken == (Td { token, ..old(self).tds@[index as int] }).wf(),
            final(self).pending() == old(self).pending(),
            final(self).wf(),
            old(self).chains_programmed() ==> final(self).chains_programmed(),
    {
        let mut td: Td = self.tds[index];
        td.write_back(token);
        let taken: bool = td.is_consistent();
        if taken {
            self.tds.set(index, td);
        }
        proof {
            assert(old(self).tds@[index as int].wf());
            assert(self.tds@ =~= old(self).tds@.update(
                index as int,
                old(self).tds@[index as int].returned(token),
            ));
            assert forall|i: int| 0 <= i < self.tds@.len() implies (#[trigger] self.tds@[i]).wf()
                by {
                assert(old(self).tds@[i].wf());
            }
            lemma_same_sizes_same_chains(*old(self), *self);
        }
        taken
    }

    /// The last descriptor of the transfer that was queued last.
    fn last_td(&self) -> (last: Option<usize>)
        requires
            self.queue_wf(),
        ensures
            last == (if self.q_len > 0 {
                Some(pool::td_at(self.td_head as int, -1) as usize)
            } else {
                None
            }),
    {
        if self.q_len == 0 {
            return None;
        }
        let last: usize = td_index(self.q_head, self.q_len - 1);
        let last_rec: TransferRecord = self.queue[last];
        proof {
            assert(last_rec == self.pending().last());
            queue::lemma_last_td(self.pending(), self.td_head as int);
        }
        Some(td_index(last_rec.first_td as usize, last_rec.td_count as usize - 1))
    }

    /// Queue a record behind the others. Its descriptors are the next free ones.
    fn push_record(&mut self, record: TransferRecord)
        requires
            old(self).queue_wf(),
            old(self).tds@.len() == TDS_PER_EP,
            queue::record_wf(record),
            record.first_td == old(self).td_head,
            record.td_count <= TDS_PER_EP - old(self).tds_in_use,
        ensures
            final(self).queue_wf(),
            final(self).pending() == old(self).pending().push(record),
            final(self).td_head == pool::td_at(old(self).td_head as int, record.td_count as int),
            final(self).tds_in_use == old(self).tds_in_use + record.td_count,
            *final(self) == (Endpoint {
                queue: final(self).queue,
                q_len: final(self).q_len,
                td_head: final(self).td_head,
                tds_in_use: final(self).tds_in_use,
                ..*old(self)
            }),
    {
        let ghost records: Seq<TransferRecord> = self.pending();
        let ghost oldest: int = self.td_head - self.tds_in_use;
        proof {
            queue::lemma_sum_at_least_len(records);
            queue::lemma_record_count(record);
        }
        let slot: usize = td_index(self.q_head, self.q_len);
        self.queue[slot] = record;
        self.q_len += 1;
        self.td_head = td_index(self.td_head, record.td_count as usize);
        self.tds_in_use += record.td_count as usize;
        proof {
            queue::lemma_ring_push(
                old(self).queue@,
                old(self).q_head as int,
                old(self).q_len as int,
                record,
            );
            assert(self.queue@ =~= old(self).queue@.update(slot as int, record));
            queue::lemma_sum_push(records, record);
            pool::lemma_td_at_sum(
                oldest,
                queue::td_sum(records),
                old(self).td_head as int,
                0,
            );
            pool::lemma_td_at_zero(old(self).td_head as int);
            queue::lemma_push_consecutive(records, oldest, record);
            pool::lemma_start_stays(
                old(self).td_head as int,
                old(self).tds_in_use as int,
                record.td_count as int,
            );
            queue::lemma_consecutive_wraps(
                self.pending(),
                oldest,
                self.td_head - self.tds_in_use,
            );
        }
    }

    /// A chain can carry `len` bytes, and its descriptors are free.
    pub open spec fn accepts(self, len: usize) -> bool {
        &&& len <= TRANSFER_MAX_BYTES
        &&& layout::chain_count(len as int) <= TDS_PER_EP - self.tds_in_use
    }

    /// What a caller has to see to before a submission: the endpoint is not a control
    /// endpoint, and where the submission is going to be accepted, the pool is a full one
    /// and the memory is within the controller's 32-bit addresses.
    pub open spec fn submittable(self, ptr: u32, len: usize) -> bool {
        &&& self.kind != EndpointType::Control
        &&& self.accepts(len) ==> self.tds@.len() == TDS_PER_EP && ptr + len <= 0x1_0000_0000
    }

    /// What a submission answers, and what it leaves of the endpoint.
    pub open spec fn submitted(
        self,
        after: Endpoint,
        ptr: u32,
        len: usize,
        staging_slot: Option<u8>,
        result: Result<Handoff, UsbError>,
    ) -> bool {
        let count = layout::chain_count(len as int);
        if len > TRANSFER_MAX_BYTES {
            result == Err::<Handoff, UsbError>(UsbError::InvalidState) && after == self
        } else if count > TDS_PER_EP - self.tds_in_use {
            result == Err::<Handoff, UsbError>(UsbError::WouldBlock) && after == self
        } else {
            &&& result == Ok::<Handoff, UsbError>(
                Handoff {
                    head: self.td_head,
                    count: count as usize,
                    prev_tail: if self.q_len > 0 {
                        Some(pool::td_at(self.td_head as int, -1) as usize)
                    } else {
                        None
                    },
                    clean: false,
                    phase: Phase::StoreChain(0),
                },
            )
            &&& after.pending() == self.pending().push(
                TransferRecord {
                    first_td: self.td_head as u8,
                    td_count: count as u8,
                    len,
                    staging_slot,
                },
            )
            &&& after.td_head == pool::td_at(self.td_head as int, count)
            &&& after.tds_in_use == self.tds_in_use + count
            &&& after.tds@ == chain_in_pool(self.tds@, self.td_head as int, ptr, len as int)
            &&& after.address == self.address
            &&& after.qh == self.qh
            &&& after.buffers == self.buffers
            &&& after.kind == self.kind
        }
    }

    /// Queue a transfer of `len` bytes at `ptr` (IN: read from, OUT: written to).
    ///
    /// The memory belongs to the controller until the transfer retires. Fails with
    /// `InvalidState` where no chain can carry `len` bytes, and with `WouldBlock` where
    /// the free descriptors do not suffice; nothing changes then. Otherwise the caller
    /// steps the hand-off with [`Endpoint::prime_or_append`] until it is done.
    ///
    /// Control endpoints have no queue.
    pub fn submit_transfer(&mut self, ptr: u32, len: usize) -> (result: Result<Handoff, UsbError>)
        requires
            old(self).wf(),
            old(self).submittable(ptr, len),
        ensures
            old(self).submitted(*final(self), ptr, len, None, result),
            final(self).wf(),
            result matches Ok(handoff) ==> handoff.wf(*final(self)),
            old(self).chains_programmed() ==> final(self).chains_programmed(),
    {
        self.submit_inner(ptr, len, None)
    }

    /// Queue a transfer, with the staging buffer that it uses, if any.
    pub fn submit_inner(&mut self, ptr: u32, len: usize, staging_slot: Option<u8>) -> (result:
        Result<Handoff, UsbError>)
        requires
            old(self).wf(),
            old(self).submittable(ptr, len),
        ensures
            old(self).submitted(*final(self), ptr, len, staging_slot, result),
            final(self).wf(),
            result matches Ok(handoff) ==> handoff.wf(*final(self)),
            old(self).chains_programmed() ==> final(self).chains_programmed(),
    {
        if len > TRANSFER_MAX_BYTES {
            return Err(UsbError::InvalidState);
        }
        let (sizes, count) = chain_layout(len);
        if count > self.tds_free() {
            return Err(UsbError::WouldBlock);
        }
        let first: usize = self.td_head;
        let prev_tail: Option<usize> = self.last_td();
        build_chain(&mut self.tds, first, &sizes, count, ptr, len);
        proof {
            lemma_chain_keeps_tds_wf(old(self).tds@, first as int, ptr, len as int);
            if old(self).chains_programmed() {
                lemma_chain_keeps_chains(*old(self), ptr, len);
            }
        }
        self.push_record(
            TransferRecord {
                first_td: first as u8,
                td_count: count as u8,
                len,
                staging_slot,
            },
        );
        proof {
            if old(self).chains_programmed() {
                lemma_new_chain_is_programmed(
                    old(self).tds@,
                    ptr,
                    self.pending().last(),
                );
            }
        }
        Ok(Handoff { head: first, count, prev_tail, clean: false, phase: Phase::StoreChain(0) })
    }

    /// What a poll answers, and what it leaves of the endpoint.
    pub open spec fn polled(
        self,
        after: Endpoint,
        result: Option<Result<usize, UsbError>>,
    ) -> bool {
        let oldest = self.pending()[0];
        if self.pending().len() == 0 || queue::in_flight(self.tds@, oldest) {
            result is None && after == self
        } else {
            &&& result == Some(
                if queue::failed(self.tds@, oldest) {
                    Err::<usize, UsbError>(UsbError::InvalidState)
                } else {
                    Ok::<usize, UsbError>(
                        queue::transferred_sum(
                            self.tds@,
                            oldest.first_td as int,
                            oldest.td_count as int,
                        ) as usize,
                    )
                },
            )
            &&& after.pending() == self.pending().drop_first()
            &&& after.tds_in_use == self.tds_in_use - oldest.td_count
            &&& after == (Endpoint {
                q_head: after.q_head,
                q_len: after.q_len,
                tds_in_use: after.tds_in_use,
                ..self
            })
        }
    }

    /// Retire the oldest transfer if the controller is done with all of its descriptors.
    ///
    /// - `Some(Ok(n))`: `n` bytes were transferred.
    /// - `Some(Err(InvalidState))`: a descriptor reports an error. The transfer is
    ///   retired all the same.
    /// - `None`: nothing is queued, or the oldest transfer is still in flight.
    pub fn poll_transfer(&mut self) -> (result: Option<Result<usize, UsbError>>)
        requires
            old(self).wf(),
        ensures
            old(self).polled(*final(self), result),
            final(self).wf(),
            old(self).chains_programmed() ==> final(self).chains_programmed(),
            old(self).chains_programmed() ==> (result matches Some(Ok(n)) ==> n
                <= old(self).pending()[0].len),
    {
        if self.q_len == 0 {
            return None;
        }
        let rec: TransferRecord = self.queue[self.q_head];
        proof {
            pool::lemma_td_at_zero(self.q_head as int);
            assert(rec == self.pending()[0]);
            queue::lemma_record_count(rec);
        }
        if any_active(&self.tds, rec) {
            return None;
        }
        let failed: bool = any_failed(&self.tds, rec);
        if failed {
            self.pop_record();
            return Some(Err(UsbError::InvalidState));
        }
        let total: usize = sum_transferred(&self.tds, rec);
        proof {
            if self.chains_programmed() {
                lemma_transferred_at_most_len(self.tds@, rec);
            }
        }
        self.pop_record();
        Some(Ok(total))
    }

    /// Retire the oldest record, and free its descriptors.
    fn pop_record(&mut self)
        requires
            old(self).wf(),
            old(self).q_len > 0,
        ensures
            final(self).wf(),
            final(self).pending() == old(self).pending().drop_first(),
            final(self).tds_in_use == old(self).tds_in_use - old(self).pending()[0].td_count,
            *final(self) == (Endpoint {
                q_head: final(self).q_head,
                q_len: final(self).q_len,
                tds_in_use: final(self).tds_in_use,
                ..*old(self)
            }),
            old(self).chains_programmed() ==> final(self).chains_programmed(),
    {
        let rec: TransferRecord = self.queue[self.q_head];
        proof {
            pool::lemma_td_at_zero(self.q_head as int);
            assert(rec == self.pending()[0]);
            queue::lemma_pop(self.pending(), self.td_head as int, self.tds_in_use as int);
            queue::lemma_ring_pop(self.queue@, self.q_head as int, self.q_len as int);
        }
        self.q_head = td_index(self.q_head, 1);
        self.q_len -= 1;
        self.tds_in_use -= rec.td_count as usize;
        proof {
            let records = old(self).pending();
            assert(self.pending() == records.drop_first());
            assert forall|k: int| 0 <= k < self.pending().len() implies #[trigger] self.pending()[k]
                == records[k + 1] by {}
        }
    }
}

/// Chains carry what they were programmed with as long as nobody programs them anew.
pub(crate) proof fn lemma_same_sizes_same_chains(before: Endpoint, after: Endpoint)
    requires
        before.wf(),
        after.pending() == before.pending(),
        after.tds@.len() == before.tds@.len(),
        forall|i: int|
            0 <= i < before.tds@.len() ==> (#[trigger] after.tds@[i]).last_transfer_size
                == before.tds@[i].last_transfer_size,
    ensures
        before.chains_programmed() ==> after.chains_programmed(),
{
    if before.chains_programmed() {
        assert forall|k: int| 0 <= k < after.pending().len() implies queue::chain_programmed(
            after.tds@,
            #[trigger] after.pending()[k],
        ) by {
            queue::lemma_same_sizes_same_chain(before.tds@, after.tds@, before.pending()[k]);
        }
    }
}

/// Indicates if a descriptor of the record still belongs to the controller.
fn any_active(tds: &Vec<Td>, rec: TransferRecord) -> (r: bool)
    requires
        tds@.len() == TDS_PER_EP,
        rec.first_td < TDS_PER_EP,
    ensures
        r == queue::in_flight(tds@, rec),
{
    let mut i: usize = 0;
    while i < rec.td_count as usize
        invariant
            tds@.len() == TDS_PER_EP,
            rec.first_td < TDS_PER_EP,
            i <= rec.td_count,
            forall|k: int|
                0 <= k < i ==> !(#[trigger] tds@[pool::td_at(
                    rec.first_td as int,
                    k,
                )]).is_active(),
        decreases rec.td_count - i,
    {
        let idx: usize = td_index(rec.first_td as usize, i);
        assert(idx == pool::td_at(rec.first_td as int, i as int));
        if tds[idx].status().contains(StatusFlag::Active) {
            assert(tds@[pool::td_at(rec.first_td as int, i as int)].is_active());
            return true;
        }
        i += 1;
    }
    false
}

/// Indicates if a descriptor of the record reports an error.
fn any_failed(tds: &Vec<Td>, rec: TransferRecord) -> (r: bool)
    requires
        tds@.len() == TDS_PER_EP,
        rec.first_td < TDS_PER_EP,
    ensures
        r == queue::failed(tds@, rec),
{
    let mut i: usize = 0;
    while i < rec.td_count as usize
        invariant
            tds@.len() == TDS_PER_EP,
            rec.first_td < TDS_PER_EP,
            i <= rec.td_count,
            forall|k: int|
                0 <= k < i ==> !(#[trigger] tds@[pool::td_at(
                    rec.first_td as int,
                    k,
                )]).spec_status().has_error(),
        decreases rec.td_count - i,
    {
        let idx: usize = td_index(rec.first_td as usize, i);
        assert(idx == pool::td_at(rec.first_td as int, i as int));
        if tds[idx].status().is_error() {
            assert(tds@[pool::td_at(rec.first_td as int, i as int)].spec_status().has_error());
            return true;
        }
        i += 1;
    }
    false
}

/// The bytes that the descriptors of the record have transferred together.
fn sum_transferred(tds: &Vec<Td>, rec: TransferRecord) -> (total: usize)
    requires
        tds@.len() == TDS_PER_EP,
        rec.first_td < TDS_PER_EP,
        rec.td_count <= TDS_PER_EP,
        forall|i: int| 0 <= i < tds@.len() ==> (#[trigger] tds@[i]).wf(),
    ensures
        total == queue::transferred_sum(tds@, rec.first_td as int, rec.td_count as int),
{
    let mut total: usize = 0;
    let mut i: usize = 0;
    while i < rec.td_count as usize
        invariant
            tds@.len() == TDS_PER_EP,
            rec.first_td < TDS_PER_EP,
            i <= rec.td_count <= TDS_PER_EP,
            forall|i: int| 0 <= i < tds@.len() ==> (#[trigger] tds@[i]).wf(),
            total == queue::transferred_sum(tds@, rec.first_td as int, i as int),
            total <= i * TOTAL_BYTES_MAX,
        decreases rec.td_count - i,
    {
        let idx: usize = td_index(rec.first_td as usize, i);
        assert(idx == pool::td_at(rec.first_td as int, i as int));
        assert(tds@[idx as int].wf());
        total += tds[idx].bytes_transferred();
        i += 1;
    }
    total
}

/// A transfer never moves more bytes than it asked for.
proof fn lemma_transferred_at_most_len(tds: Seq<Td>, rec: TransferRecord)
    requires
        tds.len() == TDS_PER_EP,
        queue::record_wf(rec),
        queue::chain_programmed(tds, rec),
    ensures
        queue::transferred_sum(tds, rec.first_td as int, rec.td_count as int) <= rec.len,
{
    lemma_transferred_at_most_layout(tds, rec, rec.td_count as int);
    crate::laws::law_layout_sum(rec.len as int, rec.td_count as int);
}

proof fn lemma_transferred_at_most_layout(tds: Seq<Td>, rec: TransferRecord, n: int)
    requires
        0 <= n <= rec.td_count,
        queue::chain_programmed(tds, rec),
    ensures
        queue::transferred_sum(tds, rec.first_td as int, n) <= queue::layout_sum(
            rec.len as int,
            n,
        ),
    decreases n,
{
    if n > 0 {
        lemma_transferred_at_most_layout(tds, rec, n - 1);
        assert(tds[pool::td_at(rec.first_td as int, n - 1)].last_transfer_size
            == layout::chain_size(rec.len as int, n - 1));
    }
}

} // verus!
