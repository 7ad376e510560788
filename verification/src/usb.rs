//! USB vocabulary: directions, addresses, transfer types and errors.

use vstd::prelude::*;

verus! {

/// Direction of USB traffic, from the perspective of the host.
#[derive(Clone, Copy, Debug, PartialEq, Eq, Structural)]
pub enum UsbDirection {
    /// Host to device.
    Out,
    /// Device to host.
    In,
}

/// The errors that the driver reports.
#[derive(Clone, Copy, Debug, PartialEq, Eq, Structural)]
pub enum UsbError {
    /// The device is busy, or there is no room for the request now.
    WouldBlock,
    /// Every endpoint that could be chosen is taken.
    EndpointOverflow,
    /// There is not enough endpoint memory left.
    EndpointMemoryOverflow,
    /// The endpoint address is not allocated, or already taken.
    InvalidEndpoint,
    /// The request is not valid in the current state.
    InvalidState,
}

/// How an isochronous endpoint is synchronized.
#[derive(Clone, Copy, Debug, PartialEq, Eq, Structural)]
pub enum IsochronousSynchronizationType {
    NoSynchronization,
    Asynchronous,
    Adaptive,
    Synchronous,
}

/// What an isochronous endpoint is used for.
#[derive(Clone, Copy, Debug, PartialEq, Eq, Structural)]
pub enum IsochronousUsageType {
    Data,
    Feedback,
    ImplicitFeedbackData,
}

/// Transfer type of an endpoint.
#[derive(Clone, Copy, Debug, PartialEq, Eq, Structural)]
pub enum EndpointType {
    Control,
    Isochronous {
        synchronization: IsochronousSynchronizationType,
        usage: IsochronousUsageType,
    },
    Bulk,
    Interrupt,
}

/// An endpoint address as it stands in descriptors: bit 7 is the direction (set for
/// IN), and the lower bits are the endpoint's index.
#[derive(Clone, Copy, Debug, PartialEq, Eq, Structural)]
pub struct EndpointAddress {
    pub raw: u8,
}

impl EndpointAddress {
    pub open spec fn spec_index(self) -> int {
        self.raw as int % 128
    }

    pub open spec fn spec_direction(self) -> UsbDirection {
        if self.raw >= 128 {
            UsbDirection::In
        } else {
            UsbDirection::Out
        }
    }

    /// The address of the endpoint `index` in direction `dir`.
    pub fn from_parts(index: usize, dir: UsbDirection) -> (address: EndpointAddress)
        requires
            index < 128,
        ensures
            address.spec_index() == index,
            address.spec_direction() == dir,
    {
        EndpointAddress { raw: raw_address(index, dir) }
    }

    /// The endpoint's index.
    pub fn index(&self) -> (index: usize)
        ensures
            index == self.spec_index(),
    {
        raw_index(self.raw)
    }

    /// The endpoint's direction.
    pub fn direction(&self) -> (dir: UsbDirection)
        ensures
            dir == self.spec_direction(),
    {
        raw_direction(self.raw)
    }
}

/// Two addresses with the same index and the same direction are one address.
pub proof fn law_address_is_index_and_direction(a: EndpointAddress, b: EndpointAddress)
    requires
        a.spec_index() == b.spec_index(),
        a.spec_direction() == b.spec_direction(),
    ensures
        a == b,
{
}

/// Calls `usb_device::endpoint::EndpointAddress::from_parts`: the address is the index
/// with bit 7 set for IN. An index of 128 or more would run into the direction bit.
#[verifier::external_body]
fn raw_address(index: usize, dir: UsbDirection) -> (raw: u8)
    requires
        index < 128,
    ensures
        raw as int == index + (if dir == UsbDirection::In {
            128int
        } else {
            0int
        }),
{
    let dir = match dir {
        UsbDirection::Out => usb_device::UsbDirection::Out,
        UsbDirection::In => usb_device::UsbDirection::In,
    };
    usb_device::endpoint::EndpointAddress::from_parts(index, dir).into()
}

/// Calls `usb_device::endpoint::EndpointAddress::index`: the address without bit 7.
#[verifier::external_body]
fn raw_index(raw: u8) -> (index: usize)
    ensures
        index == raw as int % 128,
{
    usb_device::endpoint::EndpointAddress::from(raw).index()
}

/// Calls `usb_device::endpoint::EndpointAddress::direction`: IN exactly when bit 7 of
/// the address is set.
#[verifier::external_body]
fn raw_direction(raw: u8) -> (dir: UsbDirection)
    ensures
        dir == (if raw >= 128 {
            UsbDirection::In
        } else {
            UsbDirection::Out
        }),
{
    match usb_device::endpoint::EndpointAddress::from(raw).direction() {
        usb_device::UsbDirection::Out => UsbDirection::Out,
        usb_device::UsbDirection::In => UsbDirection::In,
    }
}

/// The synchronization field of `bmAttributes`.
pub open spec fn synchronization_bits(s: IsochronousSynchronizationType) -> int {
    match s {
        IsochronousSynchronizationType::NoSynchronization => 0,
        IsochronousSynchronizationType::Asynchronous => 1,
        IsochronousSynchronizationType::Adaptive => 2,
        IsochronousSynchronizationType::Synchronous => 3,
    }
}

/// The usage field of `bmAttributes`.
pub open spec fn usage_bits(u: IsochronousUsageType) -> int {
    match u {
        IsochronousUsageType::Data => 0,
        IsochronousUsageType::Feedback => 1,
        IsochronousUsageType::ImplicitFeedbackData => 2,
    }
}

/// `bmAttributes` of an endpoint descriptor: the transfer type in bits 0 and 1, and for
/// isochronous endpoints the synchronization from bit 2 and the usage from bit 4.
pub open spec fn bm_attributes(kind: EndpointType) -> int {
    match kind {
        EndpointType::Control => 0,
        EndpointType::Isochronous { synchronization, usage } => usage_bits(usage) * 16
            + synchronization_bits(synchronization) * 4 + 1,
        EndpointType::Bulk => 2,
        EndpointType::Interrupt => 3,
    }
}

impl EndpointType {
    /// The endpoint type as `bmAttributes` of an endpoint descriptor holds it.
    pub fn to_bm_attributes(&self) -> (attributes: u8)
        ensures
            attributes as int == bm_attributes(*self),
    {
        match self {
            EndpointType::Control => 0,
            EndpointType::Isochronous { synchronization, usage } => {
                let sync_bits: u8 = match synchronization {
                    IsochronousSynchronizationType::NoSynchronization => 0,
                    IsochronousSynchronizationType::Asynchronous => 1,
                    IsochronousSynchronizationType::Adaptive => 2,
                    IsochronousSynchronizationType::Synchronous => 3,
                };
                let usage_bits: u8 = match usage {
                    IsochronousUsageType::Data => 0,
                    IsochronousUsageType::Feedback => 1,
                    IsochronousUsageType::ImplicitFeedbackData => 2,
                };
                usage_bits * 16 + sync_bits * 4 + 1
            },
            EndpointType::Bulk => 2,
            EndpointType::Interrupt => 3,
        }
    }
}

/// The transfer type field of ENDPTCTRL for an endpoint type: zero for control, one for
/// isochronous, two for bulk and three for interrupt endpoints.
pub open spec fn raw_endpoint_type(kind: EndpointType) -> u32 {
    match kind {
        EndpointType::Control => 0,
        EndpointType::Isochronous { .. } => 1,
        EndpointType::Bulk => 2,
        EndpointType::Interrupt => 3,
    }
}

/// Converts the endpoint type into the enumeration that ENDPTCTRL uses.
pub fn into_raw_endpoint_type(ep_type: EndpointType) -> (raw: u32)
    ensures
        raw == raw_endpoint_type(ep_type),
{
    let attributes: u8 = ep_type.to_bm_attributes();
    assert(attributes & 0b11u8 == attributes % 4) by (bit_vector);
    (attributes & 0b11u8) as u32
}

} // verus!
