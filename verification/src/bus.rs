//! The bus: which endpoints there are, and where requests go.

use crate::endpoint::Endpoint;
use crate::flush::FlushPhase;
use crate::handoff::Handoff;
use crate::qh::{Buffer, Qh};
use crate::registers::{Action, ENDPOINTS};
use crate::td::Td;
use crate::usb;
use crate::usb::{EndpointAddress, EndpointType, UsbDirection, UsbError};
use vstd::prelude::*;

verus! {

/// Who answers a read or a write.
#[derive(Clone, Copy, Debug, PartialEq, Eq, Structural)]
pub enum Route {
    /// The control endpoint.
    Control,
    /// The endpoint itself.
    Endpoint,
}

/// The endpoints of a device.
pub struct BusAdapter {
    /// A slot for each address: the OUT and the IN endpoint of index 0, then those of
    /// index 1, and so on.
    pub endpoints: Vec<Option<Endpoint>>,
}

/// The slot of an address.
pub open spec fn slot(address: EndpointAddress) -> int {
    address.spec_index() * 2 + (if address.spec_direction() == UsbDirection::In {
        1int
    } else {
        0
    })
}

impl BusAdapter {
    /// The endpoint at an address, if it is allocated. The controller has no endpoints
    /// beyond its last index.
    pub open spec fn endpoint(self, address: EndpointAddress) -> Option<Endpoint> {
        if address.spec_index() < ENDPOINTS {
            self.endpoints@[slot(address)]
        } else {
            None
        }
    }

    pub open spec fn allocated(self, address: EndpointAddress) -> bool {
        self.endpoint(address) is Some
    }

    /// Every endpoint is well-formed, and sits in the slot of its address.
    pub open spec fn wf(self) -> bool {
        &&& self.endpoints@.len() == 2 * ENDPOINTS
        &&& forall|s: int|
            0 <= s < self.endpoints@.len() ==> (#[trigger] self.endpoints@[s] matches Some(ep)
                ==> ep.wf() && slot(ep.address) == s)
    }

    /// The descriptors of every queued transfer carry the payload that it asked for.
    pub open spec fn chains_programmed(self) -> bool {
        forall|address: EndpointAddress|
            #[trigger] self.endpoint(address) matches Some(ep) ==> ep.chains_programmed()
    }

    /// Every endpoint but the one at `address` is as before.
    pub open spec fn others_unchanged(self, before: BusAdapter, address: EndpointAddress) -> bool {
        forall|other: EndpointAddress|
            other != address ==> #[trigger] self.endpoint(other) == before.endpoint(other)
    }

    /// A bus without endpoints.
    pub fn new() -> (bus: BusAdapter)
        ensures
            bus.wf(),
            bus.chains_programmed(),
            forall|address: EndpointAddress| !#[trigger] bus.allocated(address),
    {
        let mut endpoints: Vec<Option<Endpoint>> = Vec::new();
        let mut s: usize = 0;
        while s < 2 * ENDPOINTS
            invariant
                s <= 2 * ENDPOINTS,
                endpoints@.len() == s,
                forall|i: int| 0 <= i < s ==> #[trigger] endpoints@[i] is None,
            decreases 2 * ENDPOINTS - s,
        {
            endpoints.push(None);
            s += 1;
        }
        BusAdapter { endpoints }
    }

    /// The slot of an address.
    fn slot_of(address: EndpointAddress) -> (s: usize)
        requires
            address.spec_index() < ENDPOINTS,
        ensures
            s == slot(address),
            s < 2 * ENDPOINTS,
    {
        match address.direction() {
            UsbDirection::Out => address.index() * 2,
            UsbDirection::In => address.index() * 2 + 1,
        }
    }

    /// Indicates if an endpoint is allocated.
    pub fn is_allocated(&self, address: EndpointAddress) -> (r: bool)
        requires
            self.wf(),
        ensures
            r == self.allocated(address),
    {
        address.index() < ENDPOINTS && self.endpoints[Self::slot_of(address)].is_some()
    }

    /// The endpoint at an address, to change it.
    pub fn endpoint_mut(&mut self, address: EndpointAddress) -> (r: Option<&mut Endpoint>)
        requires
            old(self).wf(),
        ensures
            match r {
                Some(ep) => {
                    &&& old(self).endpoint(address) == Some(*ep)
                    &&& final(self).endpoints@ == old(self).endpoints@.update(
                        slot(address),
                        Some(*final(ep)),
                    )
                },
                None => {
                    &&& old(self).endpoint(address) is None
                    &&& *final(self) == *old(self)
                },
            },
    {
        if address.index() >= ENDPOINTS {
            return None;
        }
        let s: usize = Self::slot_of(address);
        if self.endpoints[s].is_none() {
            return None;
        }
        match &mut self.endpoints[s] {
            Some(ep) => Some(ep),
            None => None,
        }
    }

    /// Index `index` of direction `dir` is taken.
    pub open spec fn index_taken(self, index: int, dir: UsbDirection) -> bool {
        self.endpoints@[index * 2 + (if dir == UsbDirection::In {
            1int
        } else {
            0
        })] is Some
    }

    /// What the choice of an address answers.
    ///
    /// A wish is granted if the address is free. Without a wish, the free address with
    /// the lowest index from 1 on is chosen.
    pub open spec fn address_chosen(
        self,
        ep_dir: UsbDirection,
        ep_addr: Option<EndpointAddress>,
        result: Result<EndpointAddress, UsbError>,
    ) -> bool {
        match ep_addr {
            Some(address) => result == (if self.allocated(address) {
                Err::<EndpointAddress, UsbError>(UsbError::InvalidEndpoint)
            } else {
                Ok::<EndpointAddress, UsbError>(address)
            }),
            None => match result {
                Ok(address) => {
                    &&& 1 <= address.spec_index() < ENDPOINTS
                    &&& address.spec_direction() == ep_dir
                    &&& !self.allocated(address)
                    &&& forall|i: int|
                        1 <= i < address.spec_index() ==> #[trigger] self.index_taken(i, ep_dir)
                },
                Err(error) => {
                    &&& error == UsbError::EndpointOverflow
                    &&& forall|i: int|
                        1 <= i < ENDPOINTS ==> #[trigger] self.index_taken(i, ep_dir)
                },
            },
        }
    }

    /// Choose the address of a new endpoint.
    pub fn choose_address(&self, ep_dir: UsbDirection, ep_addr: Option<EndpointAddress>) -> (result:
        Result<EndpointAddress, UsbError>)
        requires
            self.wf(),
        ensures
            self.address_chosen(ep_dir, ep_addr, result),
    {
        if let Some(address) = ep_addr {
            if self.is_allocated(address) {
                return Err(UsbError::InvalidEndpoint);
            }
            return Ok(address);
        }
        let mut index: usize = 1;
        while index < ENDPOINTS
            invariant
                self.wf(),
                ep_addr is None,
                1 <= index <= ENDPOINTS,
                forall|i: int| 1 <= i < index ==> #[trigger] self.index_taken(i, ep_dir),
            decreases ENDPOINTS - index,
        {
            let address: EndpointAddress = EndpointAddress::from_parts(index, ep_dir);
            if !self.is_allocated(address) {
                return Ok(address);
            }
            assert(self.index_taken(index as int, ep_dir));
            index += 1;
        }
        Err(UsbError::EndpointOverflow)
    }

    /// What an allocation answers, and what it leaves of the bus.
    pub open spec fn allocation(
        self,
        after: BusAdapter,
        ep_dir: UsbDirection,
        ep_addr: Option<EndpointAddress>,
        ep_type: EndpointType,
        buffer: Option<Buffer>,
        qh: Qh,
        tds: Seq<Td>,
        result: Result<EndpointAddress, UsbError>,
    ) -> bool {
        match result {
            Ok(address) => {
                &&& self.address_chosen(ep_dir, ep_addr, result)
                &&& buffer is Some
                &&& after.endpoint(address) matches Some(ep)
                &&& ep.created(address, qh, tds, buffer->0, ep_type)
                &&& after.others_unchanged(self, address)
            },
            Err(error) => {
                &&& after == self
                &&& if error == UsbError::EndpointMemoryOverflow {
                    &&& buffer is None
                    &&& exists|address: EndpointAddress|
                        #[trigger] self.address_chosen(ep_dir, ep_addr, Ok(address))
                } else {
                    self.address_chosen(ep_dir, ep_addr, result)
                }
            },
        }
    }

    /// Allocate an endpoint.
    ///
    /// `qh` and `tds` belong to the address that [`BusAdapter::choose_address`] gives, and
    /// `buffer` is what could be had of the endpoint memory for it. Fails as that choice
    /// does, and with `EndpointMemoryOverflow` where there is no buffer; nothing changes
    /// then.
    pub fn alloc_ep(
        &mut self,
        ep_dir: UsbDirection,
        ep_addr: Option<EndpointAddress>,
        ep_type: EndpointType,
        max_packet_size: u16,
        buffer: Option<Buffer>,
        qh: Qh,
        tds: Vec<Td>,
    ) -> (result: Result<EndpointAddress, UsbError>)
        requires
            old(self).wf(),
            ep_addr matches Some(address) ==> address.spec_index() < ENDPOINTS,
            buffer matches Some(b) ==> b.data@.len() == max_packet_size,
            forall|i: int| 0 <= i < tds@.len() ==> (#[trigger] tds@[i]).wf(),
        ensures
            old(self).allocation(
                *final(self),
                ep_dir,
                ep_addr,
                ep_type,
                buffer,
                qh,
                tds@,
                result,
            ),
            final(self).wf(),
            old(self).chains_programmed() ==> final(self).chains_programmed(),
    {
        let address: EndpointAddress = match self.choose_address(ep_dir, ep_addr) {
            Ok(address) => address,
            Err(error) => {
                return Err(error);
            },
        };
        let buffer: Buffer = match buffer {
            Some(buffer) => buffer,
            None => {
                assert(old(self).address_chosen(ep_dir, ep_addr, Ok(address)));
                return Err(UsbError::EndpointMemoryOverflow);
            },
        };
        let s: usize = Self::slot_of(address);
        self.endpoints.set(s, Some(Endpoint::new(address, qh, tds, buffer, ep_type)));
        proof {
            lemma_slots_are_addresses(*old(self), *self, address);
        }
        Ok(address)
    }

    /// Let the controller end the transfers of an endpoint with a zero-length packet by
    /// itself. Returns the access that tells it. Does nothing if the endpoint is not
    /// allocated.
    pub fn enable_zlt(&mut self, ep_addr: EndpointAddress) -> (action: Option<Action>)
        requires
            old(self).wf(),
        ensures
            action == (if old(self).allocated(ep_addr) {
                Some(Action::StoreCapabilities)
            } else {
                None
            }),
            final(self).endpoint(ep_addr) == (match old(self).endpoint(ep_addr) {
                Some(ep) => Some(
                    Endpoint { qh: Qh { zero_length_termination: true, ..ep.qh }, ..ep },
                ),
                None => None,
            }),
            final(self).others_unchanged(*old(self), ep_addr),
            final(self).wf(),
            old(self).chains_programmed() ==> final(self).chains_programmed(),
    {
        let action: Option<Action> = match self.endpoint_mut(ep_addr) {
            Some(ep) => Some(ep.enable_zlt()),
            None => None,
        };
        proof {
            if old(self).allocated(ep_addr) {
                lemma_slots_are_addresses(*old(self), *self, ep_addr);
            }
        }
        action
    }

    /// What a submission to an endpoint answers, and what it leaves of the bus.
    pub open spec fn submitted(
        self,
        after: BusAdapter,
        ep_addr: EndpointAddress,
        ptr: u32,
        len: usize,
        result: Result<Handoff, UsbError>,
    ) -> bool {
        match self.endpoint(ep_addr) {
            Some(ep) => {
                &&& after.endpoint(ep_addr) matches Some(ep_after)
                &&& ep.submitted(ep_after, ptr, len, None, result)
                &&& result matches Ok(handoff) ==> handoff.wf(ep_after)
                &&& after.others_unchanged(self, ep_addr)
            },
            None => {
                &&& result == Err::<Handoff, UsbError>(UsbError::InvalidEndpoint)
                &&& after == self
            },
        }
    }

    /// What a caller has to see to before a submission to an endpoint.
    pub open spec fn submittable(self, ep_addr: EndpointAddress, ptr: u32, len: usize) -> bool {
        self.endpoint(ep_addr) matches Some(ep) ==> ep.submittable(ptr, len)
    }

    /// Queue an IN transfer (device to host) of the `len` bytes at `ptr`.
    ///
    /// The memory has to stay valid and unchanged until [`BusAdapter::poll_transfer`]
    /// retires the transfer.
    pub fn submit_write(&mut self, ep_addr: EndpointAddress, ptr: u32, len: usize) -> (result:
        Result<Handoff, UsbError>)
        requires
            old(self).wf(),
            old(self).submittable(ep_addr, ptr, len),
        ensures
            old(self).submitted(*final(self), ep_addr, ptr, len, result),
            final(self).wf(),
            old(self).chains_programmed() ==> final(self).chains_programmed(),
    {
        self.submit(ep_addr, ptr, len)
    }

    /// Queue an OUT transfer (host to device) into the `len` bytes at `ptr`.
    ///
    /// The memory has to stay valid and untouched until [`BusAdapter::poll_transfer`]
    /// retires the transfer.
    pub fn submit_read(&mut self, ep_addr: EndpointAddress, ptr: u32, len: usize) -> (result:
        Result<Handoff, UsbError>)
        requires
            old(self).wf(),
            old(self).submittable(ep_addr, ptr, len),
        ensures
            old(self).submitted(*final(self), ep_addr, ptr, len, result),
            final(self).wf(),
            old(self).chains_programmed() ==> final(self).chains_programmed(),
    {
        self.submit(ep_addr, ptr, len)
    }

    fn submit(&mut self, ep_addr: EndpointAddress, ptr: u32, len: usize) -> (result: Result<
        Handoff,
        UsbError,
    >)
        requires
            old(self).wf(),
            old(self).submittable(ep_addr, ptr, len),
        ensures
            old(self).submitted(*final(self), ep_addr, ptr, len, result),
            final(self).wf(),
            old(self).chains_programmed() ==> final(self).chains_programmed(),
    {
        let result: Result<Handoff, UsbError> = match self.endpoint_mut(ep_addr) {
            Some(ep) => ep.submit_transfer(ptr, len),
            None => Err(UsbError::InvalidEndpoint),
        };
        proof {
            if old(self).allocated(ep_addr) {
                lemma_slots_are_addresses(*old(self), *self, ep_addr);
            }
        }
        result
    }

    /// What a poll of an endpoint answers, and what it leaves of the bus.
    pub open spec fn polled(
        self,
        after: BusAdapter,
        ep_addr: EndpointAddress,
        result: Option<Result<usize, UsbError>>,
    ) -> bool {
        &&& match self.endpoint(ep_addr) {
            Some(ep) => {
                &&& after.endpoint(ep_addr) matches Some(ep_after)
                &&& ep.polled(ep_after, result)
                &&& ep.chains_programmed() ==> (result matches Some(Ok(n)) ==> n
                    <= ep.pending()[0].len)
            },
            None => result is None && after == self,
        }
        &&& after.others_unchanged(self, ep_addr)
    }

    /// Retire the oldest transfer of an endpoint, if it is complete.
    pub fn poll_transfer(&mut self, ep_addr: EndpointAddress) -> (result: Option<
        Result<usize, UsbError>,
    >)
        requires
            old(self).wf(),
        ensures
            old(self).polled(*final(self), ep_addr, result),
            final(self).wf(),
            old(self).chains_programmed() ==> final(self).chains_programmed(),
    {
        let result: Option<Result<usize, UsbError>> = match self.endpoint_mut(ep_addr) {
            Some(ep) => ep.poll_transfer(),
            None => None,
        };
        proof {
            if old(self).allocated(ep_addr) {
                lemma_slots_are_addresses(*old(self), *self, ep_addr);
            }
        }
        result
    }

    /// The number of queued transfers of an endpoint.
    pub fn pending_transfers(&self, ep_addr: EndpointAddress) -> (n: usize)
        requires
            self.wf(),
        ensures
            n == (match self.endpoint(ep_addr) {
                Some(ep) => ep.pending().len(),
                None => 0,
            }),
    {
        if ep_addr.index() >= ENDPOINTS {
            return 0;
        }
        match &self.endpoints[Self::slot_of(ep_addr)] {
            Some(ep) => ep.pending_transfers(),
            None => 0,
        }
    }

    /// What one step of cancelling does: to the bus, to the phase, and what it asks for.
    pub open spec fn cancelling(
        self,
        after: BusAdapter,
        ep_addr: EndpointAddress,
        phase: FlushPhase,
        next: FlushPhase,
        input: u32,
        action: Action,
    ) -> bool {
        &&& match self.endpoint(ep_addr) {
            Some(ep) if ep_addr.spec_index() != 0 => {
                &&& after.endpoint(ep_addr) matches Some(ep_after)
                &&& phase.stepped(next, ep, ep_after, input, action)
            },
            _ => {
                &&& action == Action::Done
                &&& next == phase
                &&& after == self
            },
        }
        &&& after.others_unchanged(self, ep_addr)
    }

    /// One step of cancelling every queued transfer of an endpoint, as
    /// [`Endpoint::clear_transfers`] does it. Does nothing on the control endpoint, nor if
    /// the endpoint is not allocated.
    pub fn cancel_transfers(
        &mut self,
        ep_addr: EndpointAddress,
        phase: &mut FlushPhase,
        input: u32,
    ) -> (action: Action)
        requires
            old(self).wf(),
        ensures
            old(self).cancelling(
                *final(self),
                ep_addr,
                *old(phase),
                *final(phase),
                input,
                action,
            ),
            final(self).wf(),
            old(self).chains_programmed() ==> final(self).chains_programmed(),
    {
        if ep_addr.index() == 0 {
            return Action::Done;
        }
        let action: Action = match self.endpoint_mut(ep_addr) {
            Some(ep) => ep.clear_transfers(phase, input),
            None => Action::Done,
        };
        proof {
            if old(self).allocated(ep_addr) {
                lemma_slots_are_addresses(*old(self), *self, ep_addr);
            }
        }
        action
    }

    /// If an endpoint can read packets ahead.
    pub open spec fn packet_queue(self, ep_addr: EndpointAddress) -> Result<(), UsbError> {
        match self.endpoint(ep_addr) {
            Some(ep) if ep_addr.spec_direction() == UsbDirection::Out && ep.kind
                != EndpointType::Control => Ok(()),
            _ => Err(UsbError::InvalidEndpoint),
        }
    }

    /// Decides if an endpoint can read packets ahead. Fails with `InvalidEndpoint` for IN
    /// and control endpoints, and if the endpoint is not allocated.
    pub fn check_packet_queue(&self, ep_addr: EndpointAddress) -> (result: Result<(), UsbError>)
        requires
            self.wf(),
        ensures
            result == self.packet_queue(ep_addr),
    {
        if ep_addr.index() >= ENDPOINTS {
            return Err(UsbError::InvalidEndpoint);
        }
        match &self.endpoints[Self::slot_of(ep_addr)] {
            Some(ep) => match (ep_addr.direction(), ep.kind) {
                (UsbDirection::In, _) => Err(UsbError::InvalidEndpoint),
                (_, EndpointType::Control) => Err(UsbError::InvalidEndpoint),
                _ => Ok(()),
            },
            None => Err(UsbError::InvalidEndpoint),
        }
    }

    /// The access that stalls or unstalls an endpoint, if it is allocated.
    pub fn set_stalled(&self, ep_addr: EndpointAddress, stalled: bool) -> (action: Option<Action>)
        requires
            self.wf(),
        ensures
            action == (match self.endpoint(ep_addr) {
                Some(ep) => Some(ep.stalling(stalled)),
                None => None,
            }),
    {
        if ep_addr.index() >= ENDPOINTS {
            return None;
        }
        match &self.endpoints[Self::slot_of(ep_addr)] {
            Some(ep) => Some(ep.set_stalled(stalled)),
            None => None,
        }
    }

    /// Indicates if an endpoint is allocated and stalled, given its control register.
    pub fn is_stalled(&self, ep_addr: EndpointAddress, endptctrl: u32) -> (r: bool)
        requires
            self.wf(),
        ensures
            r == (self.endpoint(ep_addr) matches Some(ep) && ep.stalled(endptctrl)),
    {
        if ep_addr.index() >= ENDPOINTS {
            return false;
        }
        match &self.endpoints[Self::slot_of(ep_addr)] {
            Some(ep) => ep.is_stalled(endptctrl),
            None => false,
        }
    }

    /// Who answers a request for an endpoint.
    pub open spec fn routed(self, ep_addr: EndpointAddress) -> Result<Route, UsbError> {
        if !self.allocated(ep_addr) {
            Err(UsbError::InvalidEndpoint)
        } else if ep_addr.spec_index() == 0 {
            Ok(Route::Control)
        } else {
            Ok(Route::Endpoint)
        }
    }

    /// Decides who answers a write. Fails with `InvalidEndpoint` if the endpoint is not
    /// allocated.
    pub fn write(&self, ep_addr: EndpointAddress) -> (route: Result<Route, UsbError>)
        requires
            self.wf(),
        ensures
            route == self.routed(ep_addr),
    {
        self.route(ep_addr)
    }

    /// Decides who answers a read. Fails with `InvalidEndpoint` if the endpoint is not
    /// allocated.
    pub fn read(&self, ep_addr: EndpointAddress) -> (route: Result<Route, UsbError>)
        requires
            self.wf(),
        ensures
            route == self.routed(ep_addr),
    {
        self.route(ep_addr)
    }

    fn route(&self, ep_addr: EndpointAddress) -> (route: Result<Route, UsbError>)
        requires
            self.wf(),
        ensures
            route == self.routed(ep_addr),
    {
        if !self.is_allocated(ep_addr) {
            Err(UsbError::InvalidEndpoint)
        } else if ep_addr.index() == 0 {
            Ok(Route::Control)
        } else {
            Ok(Route::Endpoint)
        }
    }
}

/// A change in the slot of one address leaves the endpoints at all other addresses alone.
proof fn lemma_slots_are_addresses(before: BusAdapter, after: BusAdapter, address: EndpointAddress)
    requires
        before.wf(),
        address.spec_index() < ENDPOINTS,
        exists|ep: Option<Endpoint>|
            after.endpoints@ == #[trigger] before.endpoints@.update(slot(address), ep),
    ensures
        after.others_unchanged(before, address),
{
    assert forall|other: EndpointAddress| other != address implies #[trigger] after.endpoint(other)
        == before.endpoint(other) by {
        if other.spec_index() < ENDPOINTS && slot(other) == slot(address) {
            usb::law_address_is_index_and_direction(other, address);
        }
    }
}

} // verus!
