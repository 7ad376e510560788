//! What the words of registers and descriptors mean, bit by bit.
//!
//! Contracts speak of fields and positions. Here stands what these are in the words that
//! the controller reads and writes.

use crate::endpoint::Endpoint;
use crate::layout;
use crate::layout::{TRANSFER_DTD_MAX, TRANSFER_MAX_BYTES};
use crate::pool;
use crate::registers;
use crate::registers::{USBCMD_ATDTW, USBCMD_SUTW};
use crate::td;
use crate::td::{Status, StatusFlag, Td};
use crate::usb::{EndpointAddress, UsbDirection};
use vstd::prelude::*;

verus! {

/// The bit of an endpoint with this raw address, in the registers that hold one bit for
/// each: the low half for OUT, the high half for IN.
pub open spec fn own_bit(raw: u8) -> u32 {
    if raw >= 128 {
        1u32 << ((raw - 112) as u32)
    } else {
        1u32 << (raw as u32)
    }
}

/// The bytes that a token says are left: bits 16 to 30.
pub open spec fn bytes_left(token: u32) -> u32 {
    (token >> 16) & 0x7FFF
}

/// An address is its index, with bit 7 for IN.
pub proof fn law_address_bits(address: EndpointAddress)
    ensures
        address.spec_index() == address.raw & 0x7F,
        address.spec_direction() == UsbDirection::In <==> address.raw & 0x80 != 0,
        address.spec_direction() == UsbDirection::Out <==> address.raw & 0x80 == 0,
{
    let raw: u8 = address.raw;
    assert(raw & 0x7Fu8 == raw % 128 && ((raw & 0x80u8 != 0) == (raw >= 128))) by (bit_vector);
}

/// Every endpoint of the controller has a bit of its own, which its address gives, and
/// testing for it is testing that bit alone.
pub proof fn law_endpoint_bit(address: EndpointAddress, value: u32)
    requires
        address.spec_index() < 8,
    ensures
        registers::bit(registers::endpoint_position(address)) == own_bit(address.raw),
        registers::bit_set(value, registers::endpoint_position(address)) <==> value & own_bit(
            address.raw,
        ) != 0,
        own_bit(address.raw) != 0,
{
    let position = registers::endpoint_position(address);
    registers::lemma_mask_tests_bit(value, position);
    registers::lemma_mask_tests_bit(own_bit(address.raw), position);
    let k: u32 = position as u32;
    assert((1u32 << k) != 0) by (bit_vector)
        requires
            k < 32,
    ;
}

/// Two endpoints never share a bit.
pub proof fn law_endpoint_bits_are_distinct(a: EndpointAddress, b: EndpointAddress)
    requires
        a.spec_index() < 8,
        b.spec_index() < 8,
        a != b,
    ensures
        own_bit(a.raw) & own_bit(b.raw) == 0,
{
    let j: u32 = registers::endpoint_position(a) as u32;
    let k: u32 = registers::endpoint_position(b) as u32;
    assert((1u32 << j) & (1u32 << k) == 0) by (bit_vector)
        requires
            j < 32,
            k < 32,
            j != k,
    ;
}

/// An endpoint's position is that of its address.
pub proof fn law_position(ep: Endpoint, value: u32)
    requires
        ep.address.spec_index() < 8,
    ensures
        registers::bit(ep.position()) == own_bit(ep.address.raw),
        registers::bit_set(value, ep.position()) <==> value & own_bit(ep.address.raw) != 0,
{
    law_endpoint_bit(ep.address, value);
}

/// The setup bit of an endpoint is the one that its index gives, in either direction.
pub proof fn law_setup_bit(address: EndpointAddress, value: u32)
    requires
        address.spec_index() < 8,
    ensures
        registers::bit(address.spec_index()) == 1u32 << ((address.raw & 0x7F) as u32),
        registers::bit_set(value, address.spec_index()) <==> value & (1u32 << ((address.raw
            & 0x7F) as u32)) != 0,
{
    law_address_bits(address);
    registers::lemma_mask_tests_bit(value, address.spec_index());
}

/// The tripwires are their bits of USBCMD.
pub proof fn law_tripwire_bits(usbcmd: u32)
    ensures
        registers::setup_tripwire(usbcmd) <==> usbcmd & USBCMD_SUTW != 0,
        registers::add_td_tripwire(usbcmd) <==> usbcmd & USBCMD_ATDTW != 0,
{
    assert({
        &&& (usbcmd & 0x2000u32 != 0) == ((usbcmd / 0x2000) % 2 == 1)
        &&& (usbcmd & 0x4000u32 != 0) == ((usbcmd / 0x4000) % 2 == 1)
    }) by (bit_vector);
}

/// Modifying a register gives the bits of the mask their new value, and keeps the others.
pub proof fn law_modified_bits(old: u32, mask: u32, value: u32)
    requires
        value & !mask == 0,
    ensures
        registers::modified(old, mask, value) & mask == value,
        registers::modified(old, mask, value) & !mask == old & !mask,
{
    let new: u32 = registers::modified(old, mask, value);
    assert(new & mask == value && new & !mask == old & !mask) by (bit_vector)
        requires
            value & !mask == 0,
            new == (old & !mask) | value,
    ;
}

/// The fields of a token: STATUS in bits 0 to 7, interrupt-on-complete in bit 15, and
/// TOTAL_BYTES in bits 16 to 30.
pub proof fn law_token_bits(token: u32)
    ensures
        td::token_status(token).bits == token & 0xFF,
        td::token_ioc(token) <==> token & 0x8000 != 0,
        td::token_total(token) == bytes_left(token),
        bytes_left(token) <= 0x7FFF,
{
    assert({
        &&& token & 0xFFu32 == token % 256
        &&& (token & 0x8000u32 != 0) == ((token / 0x8000) % 2 == 1)
        &&& (token >> 16) & 0x7FFFu32 == (token / 0x10000) % 0x8000
        &&& (token >> 16) & 0x7FFFu32 <= 0x7FFF
    }) by (bit_vector);
}

/// The flags of the STATUS field, and what counts as an error: a transaction error, a data
/// buffer error, or a halt, and nothing else.
pub proof fn law_status_bits(status: Status)
    ensures
        status.has(StatusFlag::Active) <==> status.bits & 0x80 != 0,
        status.has(StatusFlag::Halted) <==> status.bits & 0x40 != 0,
        status.has(StatusFlag::DataBufferError) <==> status.bits & 0x20 != 0,
        status.has(StatusFlag::TransactionError) <==> status.bits & 0x08 != 0,
        status.has_error() <==> status.bits & 0x68 != 0,
{
    let bits: u8 = status.bits;
    assert({
        &&& (bits & 0x80u8 != 0) == ((bits / 128) % 2 == 1)
        &&& (bits & 0x40u8 != 0) == ((bits / 64) % 2 == 1)
        &&& (bits & 0x20u8 != 0) == ((bits / 32) % 2 == 1)
        &&& (bits & 0x08u8 != 0) == ((bits / 8) % 2 == 1)
        &&& (bits & 0x68u8 != 0) == (bits & 0x40u8 != 0 || bits & 0x20u8 != 0 || bits & 0x08u8
            != 0)
    }) by (bit_vector);
}

/// What a descriptor says by its token: who owns it, if it failed, and how many bytes went
/// over the wire.
pub proof fn law_td_bits(t: Td)
    ensures
        t.is_active() <==> t.token & 0x80 != 0,
        t.spec_status().has_error() <==> t.token & 0x68 != 0,
        t.spec_status().bits == t.token & 0xFF,
        t.transferred() + bytes_left(t.token) == t.last_transfer_size,
        t.wf() <==> t.address % 32 == 0 && bytes_left(t.token) <= t.last_transfer_size
            && t.last_transfer_size <= 0x7FFF,
{
    law_token_bits(t.token);
    law_status_bits(t.spec_status());
    let token: u32 = t.token;
    let bits: u8 = t.spec_status().bits;
    assert((bits & 0x80u8 != 0) == (token & 0x80u32 != 0) && (bits & 0x68u8 != 0) == (token
        & 0x68u32 != 0)) by (bit_vector)
        requires
            bits == token & 0xFFu32,
    ;
}

/// A field of a token changes alone.
pub proof fn law_token_updates(token: u32, bits: u8, ioc: bool, total: int)
    requires
        0 <= total <= 0x7FFF,
    ensures
        td::with_status(token, bits) == (token & 0xFFFF_FF00) | (bits as u32),
        td::with_ioc(token, ioc) == (token & 0xFFFF_7FFF) | (if ioc {
            0x8000u32
        } else {
            0u32
        }),
        td::with_total(token, total) == (token & 0x8000_FFFF) | ((total as u32) << 16),
{
    let n: u32 = total as u32;
    let b: u32 = bits as u32;
    assert({
        &&& (token & 0xFFFF_FF00u32) | b == token - token % 256 + b
        &&& (token & 0xFFFF_7FFFu32) | 0x8000u32 == token - ((token / 0x8000) % 2) * 0x8000
            + 0x8000
        &&& (token & 0xFFFF_7FFFu32) | 0u32 == token - ((token / 0x8000) % 2) * 0x8000
        &&& (token & 0x8000_FFFFu32) | (n << 16) == token - ((token / 0x10000) % 0x8000) * 0x10000
            + n * 0x10000
    }) by (bit_vector)
        requires
            n <= 0x7FFF,
            b <= 0xFF,
    ;
}

/// A descriptor that is programmed ends its chain, is active without any error flag, has
/// the whole payload left, and raises an interrupt or not as told. The other bits of its
/// token, and its address, stay.
pub proof fn law_programmed_td(t: Td, buffer: u32, size: int, ioc: bool)
    requires
        0 <= size <= 0x7FFF,
    ensures
        ({
            let p = t.programmed(buffer, size, ioc);
            &&& p.address == t.address
            &&& p.next == 1
            &&& p.buffer == buffer
            &&& p.last_transfer_size == size
            &&& p.token & 0xFF == 0x80
            &&& p.token & 0x8000 != 0 <==> ioc
            &&& bytes_left(p.token) == size
            &&& p.token & 0x8000_7F00 == t.token & 0x8000_7F00
        }),
{
    let n: u32 = size as u32;
    let token: u32 = t.token;
    let sized = td::with_total(token, size);
    let flagged = td::with_ioc(sized, ioc);
    law_token_updates(token, 0, ioc, size);
    law_token_updates(sized, 0, ioc, size);
    law_token_updates(flagged, 0x80, ioc, size);
    let i: u32 = if ioc {
        0x8000
    } else {
        0
    };
    let p: u32 = t.programmed(buffer, size, ioc).token;
    assert(p == ((((((token & 0x8000_FFFF) | (n << 16)) & 0xFFFF_7FFF) | i) & 0xFFFF_FF00)
        | 0x80u32));
    assert({
        &&& p & 0xFFu32 == 0x80
        &&& (p & 0x8000u32 != 0) == (i != 0)
        &&& (p >> 16) & 0x7FFFu32 == n
        &&& p & 0x8000_7F00u32 == token & 0x8000_7F00u32
    }) by (bit_vector)
        requires
            n <= 0x7FFF,
            i == 0x8000 || i == 0,
            p == ((((((token & 0x8000_FFFF) | (n << 16)) & 0xFFFF_7FFF) | i) & 0xFFFF_FF00)
                | 0x80u32),
    ;
}

/// Clearing a descriptor ends its chain and empties its STATUS field. Every other bit stays.
pub proof fn law_cleared_td(t: Td)
    ensures
        t.cleared().next == 1,
        t.cleared().token == t.token & 0xFFFF_FF00,
        t.cleared().address == t.address,
        t.cleared().buffer == t.buffer,
        t.cleared().last_transfer_size == t.last_transfer_size,
{
    law_token_updates(t.token, 0, false, 0);
    let token: u32 = t.token;
    assert((token & 0xFFFF_FF00u32) | 0u32 == token & 0xFFFF_FF00u32) by (bit_vector);
}

/// A token that the controller wrote back is taken over as it is, unless it has more bytes
/// left than were programmed; then nothing changes.
pub proof fn law_returned_td(t: Td, token: u32)
    requires
        t.wf(),
    ensures
        bytes_left(token) <= t.last_transfer_size ==> t.returned(token) == (Td { token, ..t }),
        bytes_left(token) > t.last_transfer_size ==> t.returned(token) == t,
{
    law_td_bits(Td { token, ..t });
    law_td_bits(t);
}

/// The pool is circular, and has eight descriptors.
pub proof fn law_pool_is_circular(first: int, i: int)
    ensures
        pool::td_at(first, i) == (first + i) % 8,
        pool::td_place(first, i) == (i - first) % 8,
{
    reveal(pool::td_at);
    reveal(pool::td_place);
}

/// The ring has eight slots, and the live records follow the oldest one.
pub proof fn law_ring(ep: Endpoint, k: int)
    ensures
        ep.pending().len() == ep.q_len,
        0 <= k < ep.q_len ==> ep.pending()[k] == ep.queue[(ep.q_head + k) % 8],
{
    law_pool_is_circular(ep.q_head as int, k);
}

/// A transfer takes the fewest descriptors of 16 KiB that can carry it, and at least one.
/// All of them are full but the last, which carries the rest. A transfer that is too large
/// is cut off behind eight full descriptors.
pub proof fn law_chain_is_tight(size: int, i: int)
    requires
        0 <= size,
    ensures
        ({
            let count = layout::chain_count(size);
            &&& 1 <= count <= 8
            &&& count > 1 ==> (count - 1) * 16384 < size
            &&& size <= 131072 ==> size <= count * 16384
            &&& size > 131072 ==> count == 8
            &&& 0 <= i && i + 1 < count ==> layout::chain_size(size, i) == 16384
            &&& i + 1 == count && size <= 131072 ==> layout::chain_size(size, i) == size - i
                * 16384
            &&& i + 1 == count && size > 131072 ==> layout::chain_size(size, i) == 16384
            &&& i < 0 || i >= count ==> layout::chain_size(size, i) == 0
            &&& TRANSFER_DTD_MAX == 16384 && TRANSFER_MAX_BYTES == 131072
        }),
{
}

} // verus!
