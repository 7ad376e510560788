//! Transfer descriptors.
//!
//! A [`Td`] is the driver's copy of a descriptor that the controller reads and writes
//! in memory. The driver stores its copy for the controller to see, and takes over the
//! token that the controller wrote back.

use vstd::prelude::*;

verus! {

/// The link word that ends a chain.
pub const TERMINATE: u32 = 1;

/// Largest payload that the TOTAL_BYTES field can hold.
pub const TOTAL_BYTES_MAX: usize = 0x7FFF;

/// Bytes that one buffer pointer of a descriptor covers.
pub const PAGE_SIZE: u32 = 4096;

/// The flags of the STATUS field that the driver looks at.
#[derive(Clone, Copy, Debug, PartialEq, Eq, Structural)]
pub enum StatusFlag {
    /// The controller owns the descriptor.
    Active,
    /// The endpoint halted.
    Halted,
    /// The controller could not keep up with the data.
    DataBufferError,
    /// The device did not get a valid response.
    TransactionError,
}

/// The weight of a flag in the STATUS field.
pub open spec fn flag_weight(flag: StatusFlag) -> int {
    match flag {
        StatusFlag::Active => 128,
        StatusFlag::Halted => 64,
        StatusFlag::DataBufferError => 32,
        StatusFlag::TransactionError => 8,
    }
}

/// The value of the STATUS field of a token: bits 0 to 7.
#[derive(Clone, Copy, Debug, PartialEq, Eq, Structural)]
pub struct Status {
    pub bits: u8,
}

impl Status {
    pub open spec fn has(self, flag: StatusFlag) -> bool {
        (self.bits as int / flag_weight(flag)) % 2 == 1
    }

    /// The descriptor reports a failed transfer.
    pub open spec fn has_error(self) -> bool {
        self.has(StatusFlag::TransactionError) || self.has(StatusFlag::DataBufferError) || self.has(
            StatusFlag::Halted,
        )
    }

    /// Indicates if a flag is set.
    pub fn contains(&self, flag: StatusFlag) -> (r: bool)
        ensures
            r == self.has(flag),
    {
        let bits: u8 = self.bits;
        match flag {
            StatusFlag::Active => {
                assert((bits & 0x80u8 != 0) == ((bits / 128) % 2 == 1)) by (bit_vector);
                bits & 0x80 != 0
            },
            StatusFlag::Halted => {
                assert((bits & 0x40u8 != 0) == ((bits / 64) % 2 == 1)) by (bit_vector);
                bits & 0x40 != 0
            },
            StatusFlag::DataBufferError => {
                assert((bits & 0x20u8 != 0) == ((bits / 32) % 2 == 1)) by (bit_vector);
                bits & 0x20 != 0
            },
            StatusFlag::TransactionError => {
                assert((bits & 0x08u8 != 0) == ((bits / 8) % 2 == 1)) by (bit_vector);
                bits & 0x08 != 0
            },
        }
    }

    /// Indicates if the descriptor reports a failed transfer.
    pub fn is_error(&self) -> (r: bool)
        ensures
            r == self.has_error(),
    {
        self.contains(StatusFlag::TransactionError) || self.contains(StatusFlag::DataBufferError)
            || self.contains(StatusFlag::Halted)
    }
}

/// The STATUS field of a token.
pub open spec fn token_status(token: u32) -> Status {
    Status { bits: (token % 256) as u8 }
}

/// The interrupt-on-complete bit of a token: bit 15.
pub open spec fn token_ioc(token: u32) -> bool {
    (token / 0x8000) % 2 == 1
}

/// The TOTAL_BYTES field of a token: bits 16 to 30.
pub open spec fn token_total(token: u32) -> int {
    (token as int / 0x10000) % 0x8000
}

/// The token with another STATUS field.
pub open spec fn with_status(token: u32, bits: u8) -> u32 {
    (token - token % 256 + bits) as u32
}

/// The token with another interrupt-on-complete bit.
pub open spec fn with_ioc(token: u32, ioc: bool) -> u32 {
    (token - (if token_ioc(token) {
        0x8000int
    } else {
        0
    }) + (if ioc {
        0x8000int
    } else {
        0
    })) as u32
}

/// The token with another TOTAL_BYTES field.
pub open spec fn with_total(token: u32, total: int) -> u32 {
    (token - token_total(token) * 0x10000 + total * 0x10000) as u32
}

/// The three fields are independent: setting one gives it its value and keeps the
/// others.
pub broadcast proof fn lemma_with_status(token: u32, bits: u8)
    ensures
        token_status(#[trigger] with_status(token, bits)).bits == bits,
        token_ioc(with_status(token, bits)) == token_ioc(token),
        token_total(with_status(token, bits)) == token_total(token),
{
}

pub broadcast proof fn lemma_with_ioc(token: u32, ioc: bool)
    ensures
        token_ioc(#[trigger] with_ioc(token, ioc)) == ioc,
        token_status(with_ioc(token, ioc)) == token_status(token),
        token_total(with_ioc(token, ioc)) == token_total(token),
{
}

pub broadcast proof fn lemma_with_total(token: u32, total: int)
    requires
        0 <= total < 0x8000,
    ensures
        token_total(#[trigger] with_total(token, total)) == total,
        token_status(with_total(token, total)) == token_status(token),
        token_ioc(with_total(token, total)) == token_ioc(token),
{
    let n: u32 = total as u32;
    let w: u32 = (token & 0x8000_FFFFu32) | (n << 16);
    assert({
        &&& w == token - ((token / 0x10000) % 0x8000) * 0x10000 + n * 0x10000
        &&& (w / 0x10000) % 0x8000 == n
        &&& w % 256 == token % 256
        &&& (w / 0x8000) % 2 == (token / 0x8000) % 2
    }) by (bit_vector)
        requires
            n < 0x8000,
            w == (token & 0x8000_FFFFu32) | (n << 16),
    ;
}

/// The driver's copy of a transfer descriptor.
#[derive(Clone, Copy, Debug, PartialEq, Eq, Structural)]
pub struct Td {
    /// Where the controller finds the descriptor.
    pub address: u32,
    /// The link to the next descriptor, or `TERMINATE`.
    pub next: u32,
    /// STATUS, interrupt-on-complete and TOTAL_BYTES.
    pub token: u32,
    /// Where the payload starts.
    pub buffer: u32,
    /// The payload that the driver programmed last. TOTAL_BYTES counts down from it.
    pub last_transfer_size: usize,
}

impl Td {
    /// The descriptor lies on a boundary of 32 bytes, as the controller demands, and
    /// the bytes left are no more than the bytes programmed, which fit the field.
    pub open spec fn wf(self) -> bool {
        &&& self.address % 32 == 0
        &&& token_total(self.token) <= self.last_transfer_size <= TOTAL_BYTES_MAX
    }

    pub open spec fn spec_status(self) -> Status {
        token_status(self.token)
    }

    /// The controller owns the descriptor.
    pub open spec fn is_active(self) -> bool {
        self.spec_status().has(StatusFlag::Active)
    }

    /// Bytes that went over the wire: what was programmed, less what is left.
    pub open spec fn transferred(self) -> int {
        self.last_transfer_size - token_total(self.token)
    }

    /// The descriptor ready for a payload of `size` bytes at `buffer`: active, without
    /// any error flag, and last of its chain.
    pub open spec fn programmed(self, buffer: u32, size: int, ioc: bool) -> Td {
        Td {
            address: self.address,
            next: TERMINATE,
            token: with_status(with_ioc(with_total(self.token, size), ioc), 0x80),
            buffer,
            last_transfer_size: size as usize,
        }
    }

    /// The descriptor without a successor and with an empty STATUS field.
    pub open spec fn cleared(self) -> Td {
        Td { next: TERMINATE, token: with_status(self.token, 0), ..self }
    }

    /// The descriptor after the controller wrote `token` back. A token with more bytes left
    /// than were programmed is not taken over.
    pub open spec fn returned(self, token: u32) -> Td {
        if (Td { token, ..self }).wf() {
            Td { token, ..self }
        } else {
            self
        }
    }

    /// A descriptor at `address`, without a payload and without a link.
    pub fn new(address: u32) -> (td: Td)
        requires
            address % 32 == 0,
        ensures
            td == (Td { address, next: 0, token: 0, buffer: 0, last_transfer_size: 0 }),
            td.wf(),
    {
        Td { address, next: 0, token: 0, buffer: 0, last_transfer_size: 0 }
    }

    /// End the chain at this descriptor.
    pub fn set_terminate(&mut self)
        ensures
            *final(self) == (Td { next: TERMINATE, ..*old(self) }),
    {
        self.next = TERMINATE;
    }

    /// Link this descriptor to the one at `next`.
    pub fn set_next(&mut self, next: u32)
        ensures
            *final(self) == (Td { next, ..*old(self) }),
    {
        self.next = next;
    }

    /// Set the payload.
    pub fn set_buffer(&mut self, buffer: u32, size: usize)
        requires
            size <= TOTAL_BYTES_MAX,
        ensures
            *final(self) == (Td {
                token: with_total(old(self).token, size as int),
                buffer,
                last_transfer_size: size,
                ..*old(self)
            }),
    {
        let t: u32 = self.token;
        let n: u32 = size as u32;
        assert((t & 0x8000_FFFFu32) | (n << 16) == t - ((t / 0x10000) % 0x8000) * 0x10000 + n
            * 0x10000) by (bit_vector)
            requires
                n <= 0x7FFF,
        ;
        self.token = (t & 0x8000_FFFF) | (n << 16);
        self.buffer = buffer;
        self.last_transfer_size = size;
    }

    /// Choose if the controller raises an interrupt when it is done.
    pub fn set_interrupt_on_complete(&mut self, ioc: bool)
        ensures
            *final(self) == (Td { token: with_ioc(old(self).token, ioc), ..*old(self) }),
    {
        let t: u32 = self.token;
        assert(t & 0xFFFF_7FFFu32 == t - ((t / 0x8000) % 2) * 0x8000) by (bit_vector);
        assert((t & 0xFFFF_7FFFu32) | 0x8000u32 == (t & 0xFFFF_7FFFu32) + 0x8000) by (bit_vector);
        if ioc {
            self.token = (t & 0xFFFF_7FFF) | 0x8000;
        } else {
            self.token = t & 0xFFFF_7FFF;
        }
    }

    /// Hand the descriptor over to the controller.
    pub fn set_active(&mut self)
        ensures
            *final(self) == (Td { token: with_status(old(self).token, 0x80), ..*old(self) }),
    {
        let t: u32 = self.token;
        assert((t & 0xFFFF_FF00u32) | 0x80u32 == t - t % 256 + 0x80) by (bit_vector);
        self.token = (t & 0xFFFF_FF00) | 0x80;
    }

    /// Clear the STATUS field.
    pub fn clear_status(&mut self)
        ensures
            *final(self) == (Td { token: with_status(old(self).token, 0), ..*old(self) }),
    {
        let t: u32 = self.token;
        assert(t & 0xFFFF_FF00u32 == t - t % 256) by (bit_vector);
        self.token = t & 0xFFFF_FF00;
    }

    /// The STATUS field.
    pub fn status(&self) -> (status: Status)
        ensures
            status == self.spec_status(),
    {
        Status { bits: (self.token % 256) as u8 }
    }

    /// Bytes that went over the wire in the last transfer.
    pub fn bytes_transferred(&self) -> (n: usize)
        requires
            self.wf(),
        ensures
            n == self.transferred(),
    {
        let left: u32 = (self.token / 0x10000) % 0x8000;
        self.last_transfer_size - left as usize
    }

    /// Take over the token that the controller wrote back, whatever it is. A descriptor of
    /// a pool need not be well-formed after that.
    pub fn write_back(&mut self, token: u32)
        ensures
            *final(self) == (Td { token, ..*old(self) }),
    {
        self.token = token;
    }

    /// Indicates if the descriptor is well-formed. It is not where the controller claims
    /// to have more bytes left than it was given.
    pub fn is_consistent(&self) -> (r: bool)
        ensures
            r == self.wf(),
    {
        let left: u32 = (self.token / 0x10000) % 0x8000;
        self.address % 32 == 0 && left as usize <= self.last_transfer_size
            && self.last_transfer_size <= TOTAL_BYTES_MAX
    }

    /// The buffer pointers that describe the payload: where it starts, and the four
    /// pages that follow its first page.
    pub fn buffer_pointers(&self) -> (pointers: [u32; 5])
        ensures
            pointers[0] == self.buffer,
            forall|i: int|
                1 <= i < 5 ==> #[trigger] pointers[i] == ((self.buffer as int / PAGE_SIZE as int
                    + i) * PAGE_SIZE) % 0x1_0000_0000,
    {
        let first: u32 = (self.buffer / PAGE_SIZE) * PAGE_SIZE;
        [
            self.buffer,
            first.wrapping_add(4096),
            first.wrapping_add(8192),
            first.wrapping_add(12288),
            first.wrapping_add(16384),
        ]
    }
}

} // verus!
