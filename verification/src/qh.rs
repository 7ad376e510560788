//! Queue heads and staging buffers.

use crate::td::Td;
use vstd::prelude::*;

verus! {

/// The driver's copy of an endpoint's queue head.
#[derive(Clone, Copy, Debug, PartialEq, Eq, Structural)]
pub struct Qh {
    /// The controller ends transfers with a zero-length packet by itself.
    pub zero_length_termination: bool,
    /// Largest packet of the endpoint.
    pub max_packet_len: usize,
    /// The controller raises an interrupt when a setup packet arrives.
    pub interrupt_on_setup: bool,
    /// The last setup packet.
    pub setup: u64,
    /// Where the controller keeps the descriptor that it works on.
    pub overlay: Td,
}

impl Qh {
    /// A queue head without any capability.
    pub fn new() -> (qh: Qh)
        ensures
            qh == (Qh {
                zero_length_termination: false,
                max_packet_len: 0,
                interrupt_on_setup: false,
                setup: 0,
                overlay: Td { address: 0, next: 0, token: 0, buffer: 0, last_transfer_size: 0 },
            }),
    {
        Qh {
            zero_length_termination: false,
            max_packet_len: 0,
            interrupt_on_setup: false,
            setup: 0,
            overlay: Td::new(0),
        }
    }

    /// Take over the setup packet that the controller received.
    pub fn receive_setup(&mut self, setup: u64)
        ensures
            *final(self) == (Qh { setup, ..*old(self) }),
    {
        self.setup = setup;
    }
}

/// The driver's copy of a staging buffer.
pub struct Buffer {
    /// Where the controller finds the buffer.
    pub address: u32,
    /// The bytes of the buffer.
    pub data: Vec<u8>,
}

impl Buffer {
    /// A buffer of `len` zeroes at `address`.
    pub fn new(address: u32, len: usize) -> (buffer: Buffer)
        ensures
            buffer.address == address,
            buffer.data@ == Seq::new(len as nat, |i: int| 0u8),
    {
        let mut data: Vec<u8> = Vec::new();
        let mut i: usize = 0;
        while i < len
            invariant
                i <= len,
                data@ =~= Seq::new(i as nat, |i: int| 0u8),
            decreases len - i,
        {
            data.push(0);
            i += 1;
        }
        Buffer { address, data }
    }

    /// The size of the buffer.
    pub fn len(&self) -> (len: usize)
        ensures
            len == self.data@.len(),
    {
        self.data.len()
    }

    /// Copy the first `size` bytes of the buffer to the front of `out`.
    pub fn read(&self, out: &mut [u8], size: usize)
        requires
            size <= self.data@.len(),
            size <= old(out)@.len(),
        ensures
            final(out)@ == self.data@.take(size as int) + old(out)@.skip(size as int),
    {
        let ghost before: Seq<u8> = out@;
        let mut i: usize = 0;
        while i < size
            invariant
                i <= size,
                size <= self.data@.len(),
                size <= before.len(),
                out@ =~= self.data@.take(i as int) + before.skip(i as int),
            decreases size - i,
        {
            out[i] = self.data[i];
            i += 1;
        }
    }

    /// Copy the first `size` bytes of `bytes` to the front of the buffer.
    pub fn write(&mut self, bytes: &[u8], size: usize)
        requires
            size <= old(self).data@.len(),
            size <= bytes@.len(),
        ensures
            final(self).address == old(self).address,
            final(self).data@ == bytes@.take(size as int) + old(self).data@.skip(size as int),
    {
        let ghost before: Seq<u8> = self.data@;
        let mut i: usize = 0;
        while i < size
            invariant
                i <= size,
                size <= bytes@.len(),
                size <= before.len(),
                self.address == old(self).address,
                self.data@ =~= bytes@.take(i as int) + before.skip(i as int),
            decreases size - i,
        {
            self.data[i] = bytes[i];
            i += 1;
        }
    }
}

} // verus!
