//! The controller's registers, and the accesses that the driver asks for.
//!
//! The driver never touches hardware by itself. An operation that has to hands out one
//! [`Action`] at a time; whoever owns the peripheral performs it, and hands back what a
//! read returned.

use crate::usb::{EndpointAddress, UsbDirection};
use vstd::prelude::*;

verus! {

/// The endpoints that the controller has in each direction.
pub const ENDPOINTS: usize = 8;

/// USBCMD, setup tripwire.
pub const USBCMD_SUTW: u32 = 0x2000;

/// USBCMD, tripwire for adding a transfer descriptor.
pub const USBCMD_ATDTW: u32 = 0x4000;

/// ENDPTCTRL, RX endpoint stall.
pub const ENDPTCTRL_RXS: u32 = 0x0000_0001;

/// ENDPTCTRL, RX endpoint type.
pub const ENDPTCTRL_RXT: u32 = 0x0000_000C;

/// ENDPTCTRL, RX data toggle reset.
pub const ENDPTCTRL_RXR: u32 = 0x0000_0040;

/// ENDPTCTRL, RX endpoint enable.
pub const ENDPTCTRL_RXE: u32 = 0x0000_0080;

/// ENDPTCTRL, TX endpoint stall.
pub const ENDPTCTRL_TXS: u32 = 0x0001_0000;

/// ENDPTCTRL, TX endpoint type.
pub const ENDPTCTRL_TXT: u32 = 0x000C_0000;

/// ENDPTCTRL, TX data toggle reset.
pub const ENDPTCTRL_TXR: u32 = 0x0040_0000;

/// ENDPTCTRL, TX endpoint enable.
pub const ENDPTCTRL_TXE: u32 = 0x0080_0000;

/// The registers that the endpoints use.
#[derive(Clone, Copy, Debug, PartialEq, Eq, Structural)]
pub enum Register {
    UsbCmd,
    EndptNak,
    EndptSetupStat,
    EndptPrime,
    EndptFlush,
    EndptStat,
    EndptComplete,
    /// The control register of the endpoint with this index.
    EndptCtrl(usize),
}

/// What an operation asks the owner of the peripheral to do next.
#[derive(Clone, Copy, Debug, PartialEq, Eq, Structural)]
pub enum Action {
    /// Store the driver's copy of this descriptor where the controller reads it.
    StoreTd(usize),
    /// Store the link word of this descriptor, and nothing else of it: the controller
    /// may own the rest.
    StoreLink(usize),
    /// Read the token of this descriptor, and hand it back.
    LoadToken(usize),
    /// End the chain at this descriptor, and clear the STATUS field of its token, where the
    /// controller reads them. The rest of the descriptor stays as the controller left it.
    ClearTd(usize),
    /// Store the link and the token of the driver's copy of the queue head's overlay, and
    /// nothing else of it.
    StoreOverlay,
    /// Store the capabilities of the driver's copy of the queue head.
    StoreCapabilities,
    /// Store this many bytes of the first staging buffer, and clean and invalidate their
    /// cache lines.
    StoreStaging(usize),
    /// Load the token of the queue head's overlay into the driver's copy.
    LoadOverlay,
    /// Load the setup buffer of the queue head into the driver's copy.
    LoadSetup,
    /// Clean and invalidate the cache lines of this descriptor.
    CleanTd(usize),
    /// Clean and invalidate the cache lines of the queue head.
    CleanQh,
    /// Wait until all earlier stores are visible to the controller.
    Barrier,
    /// Read a register, and hand its value back.
    Read(Register),
    /// Write a register.
    Write(Register, u32),
    /// Replace the bits of a register that the mask (first) selects by the value
    /// (second).
    Modify(Register, u32, u32),
    /// The operation is complete.
    Done,
}

/// Bit `position` of a register.
pub open spec fn bit_set(value: u32, position: int) -> bool {
    (value as int / vstd::arithmetic::power2::pow2(position as nat) as int) % 2 == 1
}

/// A register with nothing but bit `position` set.
pub open spec fn bit(position: int) -> u32 {
    vstd::arithmetic::power2::pow2(position as nat) as u32
}

/// The bit that belongs to an endpoint in the registers that hold one bit for each: OUT
/// endpoints start at bit 0, IN endpoints at bit 16.
pub open spec fn endpoint_position(address: EndpointAddress) -> int {
    address.spec_index() + (if address.spec_direction() == UsbDirection::In {
        16int
    } else {
        0
    })
}

/// The register after `Modify` with this mask and this value.
pub open spec fn modified(old: u32, mask: u32, value: u32) -> u32 {
    (old & !mask) | value
}

/// The value to write back for `Modify`.
pub fn modify(old: u32, mask: u32, value: u32) -> (new: u32)
    ensures
        new == modified(old, mask, value),
{
    (old & !mask) | value
}

/// The setup tripwire of USBCMD is still set.
pub open spec fn setup_tripwire(usbcmd: u32) -> bool {
    (usbcmd / USBCMD_SUTW) % 2 == 1
}

/// The tripwire of USBCMD for adding a descriptor is still set.
pub open spec fn add_td_tripwire(usbcmd: u32) -> bool {
    (usbcmd / USBCMD_ATDTW) % 2 == 1
}

/// Testing a register against a single bit.
pub proof fn lemma_mask_tests_bit(value: u32, position: int)
    requires
        0 <= position < 32,
    ensures
        (value & bit(position) != 0) == bit_set(value, position),
        bit(position) == 1u32 << (position as u32),
{
    let k: u32 = position as u32;
    vstd::bits::lemma_u32_pow2_no_overflow(k as nat);
    vstd::bits::lemma_u32_shl_is_mul(1, k);
    vstd::bits::lemma_u32_shr_is_div(value, k);
    assert((value & (1u32 << k) != 0) == ((value >> k) % 2 == 1)) by (bit_vector)
        requires
            k < 32,
    ;
}

/// The endpoint's bit.
pub fn endpoint_mask(address: EndpointAddress) -> (mask: u32)
    requires
        address.spec_index() < ENDPOINTS,
    ensures
        mask == bit(endpoint_position(address)),
{
    proof {
        lemma_mask_tests_bit(0, endpoint_position(address));
    }
    let position: u32 = match address.direction() {
        UsbDirection::In => address.index() as u32 + 16,
        UsbDirection::Out => address.index() as u32,
    };
    1u32 << position
}

/// Indicates if the endpoint's bit is set.
pub fn endpoint_bit_set(value: u32, address: EndpointAddress) -> (r: bool)
    requires
        address.spec_index() < ENDPOINTS,
    ensures
        r == bit_set(value, endpoint_position(address)),
{
    proof {
        lemma_mask_tests_bit(value, endpoint_position(address));
    }
    value & endpoint_mask(address) != 0
}

/// Decides if the wait for ENDPTPRIME is over: the controller has cleared the bit of
/// this endpoint, because it has fetched the transfer descriptor.
pub fn wait_endptprime(endptprime: u32, address: EndpointAddress) -> (over: bool)
    requires
        address.spec_index() < ENDPOINTS,
    ensures
        over == !bit_set(endptprime, endpoint_position(address)),
{
    !endpoint_bit_set(endptprime, address)
}

/// Decides if the wait for ENDPTFLUSH is over: the controller has cleared every bit of
/// the mask.
pub fn wait_endptflush(endptflush: u32, mask: u32) -> (over: bool)
    ensures
        over == (endptflush & mask == 0),
{
    endptflush & mask == 0
}

} // verus!
