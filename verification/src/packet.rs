//! Single packets through the first staging buffer.

use crate::endpoint::Endpoint;
use crate::handoff::{Handoff, Phase};
use crate::layout;
use crate::layout::TDS_PER_EP;
use crate::qh::{Buffer, Qh};
use crate::registers::Action;
use crate::td::TOTAL_BYTES_MAX;
use crate::usb::{EndpointAddress, UsbError};
use vstd::prelude::*;

verus! {

impl Endpoint {
    /// The staging buffer in `slot`.
    pub fn staging(&self, slot: usize) -> (buffer: &Buffer)
        requires
            slot < TDS_PER_EP,
            self.buffers[slot as int] is Some,
        ensures
            *buffer == self.buffers[slot as int]->0,
    {
        match &self.buffers[slot] {
            Some(buffer) => buffer,
            None => unreached(),
        }
    }

    /// The staging buffer in `slot`, to change it.
    pub fn staging_mut(&mut self, slot: usize) -> (buffer: &mut Buffer)
        requires
            slot < TDS_PER_EP,
            old(self).buffers[slot as int] is Some,
        ensures
            *buffer == old(self).buffers[slot as int]->0,
            final(self).buffers@ == old(self).buffers@.update(slot as int, Some(*final(buffer))),
            *final(self) == (Endpoint { buffers: final(self).buffers, ..*old(self) }),
    {
        match &mut self.buffers[slot] {
            Some(buffer) => buffer,
            None => unreached(),
        }
    }

    /// Let the controller end transfers with a zero-length packet by itself. Returns the
    /// access that tells it.
    pub fn enable_zlt(&mut self) -> (action: Action)
        ensures
            action == Action::StoreCapabilities,
            *final(self) == (Endpoint {
                qh: Qh { zero_length_termination: true, ..old(self).qh },
                ..*old(self)
            }),
            old(self).wf() ==> final(self).wf(),
            old(self).chains_programmed() ==> final(self).chains_programmed(),
    {
        self.qh.zero_length_termination = true;
        assert(self.pending() == old(self).pending());
        Action::StoreCapabilities
    }

    /// The endpoint's address.
    pub fn address(&self) -> (address: EndpointAddress)
        ensures
            address == self.address,
    {
        self.address
    }

    /// The largest packet of the endpoint.
    pub fn max_packet_len(&self) -> (len: usize)
        ensures
            len == self.qh.max_packet_len,
    {
        self.qh.max_packet_len
    }

    /// Fails with `InvalidState` where the descriptor of single packets reports an error.
    pub fn check_errors(&self) -> (result: Result<(), UsbError>)
        requires
            self.tds@.len() > 0,
        ensures
            result == (if self.tds@[0].spec_status().has_error() {
                Err::<(), UsbError>(UsbError::InvalidState)
            } else {
                Ok::<(), UsbError>(())
            }),
    {
        if self.tds[0].status().is_error() {
            Err(UsbError::InvalidState)
        } else {
            Ok(())
        }
    }

    /// The bytes that a read into a buffer of `len` bytes takes: no more than the largest
    /// packet, than the buffer holds, and than the last transfer brought.
    pub open spec fn read_size(self, len: int) -> int {
        layout::min(
            layout::min(self.qh.max_packet_len as int, len),
            self.tds@[0].transferred(),
        )
    }

    /// A read of `n` bytes turns `before` into `after`: the front of the staging buffer
    /// comes first, and the rest stays.
    pub open spec fn read_out(self, before: Seq<u8>, after: Seq<u8>, n: int) -> bool {
        &&& n == self.read_size(before.len() as int)
        &&& after == self.staged().take(n) + before.skip(n)
    }

    /// A write of `n` bytes of `data` puts them in front of the staging buffer.
    pub open spec fn wrote(self, after: Endpoint, data: Seq<u8>, n: int) -> bool {
        &&& n == layout::min(self.qh.max_packet_len as int, data.len() as int)
        &&& after.staged() == data.take(n) + self.staged().skip(n)
    }

    /// Copy the last packet out of the staging buffer. Returns its size.
    ///
    /// The caller has loaded what the controller put there.
    pub fn read(&mut self, buffer: &mut [u8]) -> (n: usize)
        requires
            old(self).wf(),
            old(self).tds@.len() > 0,
        ensures
            old(self).read_out(old(buffer)@, final(buffer)@, n as int),
            *final(self) == *old(self),
    {
        assert(self.tds@[0].wf());
        let mut size: usize = self.qh.max_packet_len;
        if buffer.len() < size {
            size = buffer.len();
        }
        let transferred: usize = self.tds[0].bytes_transferred();
        if transferred < size {
            size = transferred;
        }
        self.staging(0).read(buffer, size);
        size
    }

    /// Copy a packet into the staging buffer. Returns its size, which the largest packet
    /// bounds, and the access that shows it to the controller.
    pub fn write(&mut self, buffer: &[u8]) -> (result: (usize, Action))
        requires
            old(self).wf(),
        ensures
            old(self).wrote(*final(self), buffer@, result.0 as int),
            result.1 == Action::StoreStaging(result.0),
            final(self).buffers[0]->0.address == old(self).buffers[0]->0.address,
            forall|i: int|
                1 <= i < TDS_PER_EP ==> #[trigger] final(self).buffers[i] == old(self).buffers[i],
            *final(self) == (Endpoint { buffers: final(self).buffers, ..*old(self) }),
            final(self).wf(),
            old(self).chains_programmed() ==> final(self).chains_programmed(),
    {
        let mut size: usize = self.qh.max_packet_len;
        if buffer.len() < size {
            size = buffer.len();
        }
        self.staging_mut(0).write(buffer, size);
        (size, Action::StoreStaging(size))
    }

    /// What scheduling a packet of `size` bytes does to the endpoint, and the hand-off that
    /// it starts.
    pub open spec fn scheduled(self, after: Endpoint, size: int, handoff: Handoff) -> bool {
        &&& after.tds@ == self.tds@.update(
            0,
            self.tds@[0].programmed(self.buffers[0]->0.address, size, true),
        )
        &&& after == (Endpoint { tds: after.tds, ..self })
        &&& handoff == (Handoff {
            head: 0,
            count: 1,
            prev_tail: None,
            clean: true,
            phase: Phase::StorePacket,
        })
    }

    /// Program the descriptor of single packets for `size` bytes of the staging buffer.
    ///
    /// The caller steps the hand-off with [`Endpoint::prime_or_append`] until it is done.
    /// There should be no transfer in flight, nor a failed one.
    pub fn schedule_transfer(&mut self, size: usize) -> (handoff: Handoff)
        requires
            old(self).wf(),
            old(self).tds@.len() > 0,
            size <= TOTAL_BYTES_MAX,
        ensures
            old(self).scheduled(*final(self), size as int, handoff),
            final(self).wf(),
            handoff.wf(*final(self)),
            old(self).pending().len() == 0 ==> final(self).chains_programmed(),
    {
        let address: u32 = self.staging(0).address;
        self.tds[0].set_terminate();
        self.tds[0].set_buffer(address, size);
        self.tds[0].set_interrupt_on_complete(true);
        self.tds[0].set_active();
        proof {
            let token = old(self).tds@[0].token;
            crate::td::lemma_with_total(token, size as int);
            let sized = crate::td::with_total(token, size as int);
            crate::td::lemma_with_ioc(sized, true);
            crate::td::lemma_with_status(crate::td::with_ioc(sized, true), 0x80);
            assert(old(self).tds@[0].wf());
            assert(self.tds@ =~= old(self).tds@.update(
                0,
                old(self).tds@[0].programmed(address, size as int, true),
            ));
            assert forall|i: int| 0 <= i < self.tds@.len() implies (#[trigger] self.tds@[i]).wf()
                by {
                assert(old(self).tds@[i].wf());
            }
        }
        Handoff { head: 0, count: 1, prev_tail: None, clean: true, phase: Phase::StorePacket }
    }
}

} // verus!
