//! How a chain of descriptors gets to the controller.

use crate::endpoint;
use crate::endpoint::Endpoint;
use crate::layout::TDS_PER_EP;
use crate::pool;
use crate::pool::td_index;
use crate::qh::Qh;
use crate::registers;
use crate::registers::{endpoint_bit_set, endpoint_mask, Action, Register, USBCMD_ATDTW};
use crate::td;
use crate::td::{StatusFlag, Td};
use vstd::prelude::*;

verus! {

/// What a hand-off does when it is stepped next.
#[derive(Clone, Copy, Debug, PartialEq, Eq, Structural)]
pub enum Phase {
    /// Store descriptor number so-and-so of the chain.
    StoreChain(usize),
    /// Ask if the endpoint is primed.
    ReadStat,
    /// Take in ENDPTSTAT.
    CheckStat,
    /// Take in the overlay.
    CheckOverlay,
    /// Link the previous tail to the chain.
    LinkTail,
    /// Ask if the controller is priming.
    ReadPrime,
    /// Take in ENDPTPRIME.
    CheckPrime,
    /// The tripwire is set: sample ENDPTSTAT.
    TripRead,
    /// Take in the sample.
    TripCheck,
    /// Take in USBCMD, to see if the sample can be trusted.
    TripConfirm(u32),
    /// The tripwire is off: the endpoint was active, or not.
    TripDone(bool),
    /// Store the descriptor of a single packet.
    StorePacket,
    /// Clean its cache lines.
    CleanPacket,
    /// Load the overlay.
    LoadOverlay,
    /// Take in the overlay, and point it to the chain.
    SetOverlay,
    /// Clean the cache lines of the queue head.
    CleanQh,
    /// Make every store visible.
    PrimeBarrier,
    /// Prime the endpoint.
    Prime,
    /// Ask if the controller has fetched the chain.
    PrimeWait,
    /// Take in ENDPTPRIME.
    PrimeCheck,
    /// The controller has the chain.
    Finished,
}

/// A chain of descriptors on its way to the controller.
#[derive(Clone, Copy, Debug, PartialEq, Eq, Structural)]
pub struct Handoff {
    /// The first descriptor of the chain.
    pub head: usize,
    /// The number of descriptors of the chain.
    pub count: usize,
    /// The last descriptor of the transfer that was queued before.
    pub prev_tail: Option<usize>,
    /// The cache lines are cleaned. Only single packets ask for that.
    pub clean: bool,
    pub phase: Phase,
}

impl Handoff {
    /// The descriptors that the hand-off names are there.
    pub open spec fn wf(self, ep: Endpoint) -> bool {
        &&& self.head < ep.tds@.len()
        &&& self.prev_tail matches Some(tail) ==> tail < ep.tds@.len()
        &&& self.phase matches Phase::StoreChain(i) ==> {
            &&& i < self.count <= TDS_PER_EP
            &&& ep.tds@.len() == TDS_PER_EP
        }
    }

    /// The next phase and the action to perform, given what the last read returned.
    pub open spec fn next(self, ep: Endpoint, input: u32) -> (Phase, Action) {
        self.next_at(ep.position(), ep.qh.overlay.is_active(), input)
    }

    /// The next phase and the action to perform: `position` is the endpoint's bit,
    /// `overlay_active` what the overlay says, and `input` what the last read returned.
    pub open spec fn next_at(self, position: int, overlay_active: bool, input: u32) -> (
        Phase,
        Action,
    ) {
        let bit_is_set = registers::bit_set(input, position);
        match self.phase {
            Phase::StoreChain(i) => (
                if i + 1 < self.count {
                    Phase::StoreChain((i + 1) as usize)
                } else {
                    Phase::ReadStat
                },
                Action::StoreTd(pool::td_at(self.head as int, i as int) as usize),
            ),
            Phase::ReadStat => (Phase::CheckStat, Action::Read(Register::EndptStat)),
            Phase::CheckStat => if bit_is_set {
                (Phase::LinkTail, Action::Barrier)
            } else {
                (Phase::CheckOverlay, Action::LoadOverlay)
            },
            Phase::CheckOverlay => if overlay_active {
                (Phase::LinkTail, Action::Barrier)
            } else {
                (Phase::PrimeBarrier, Action::StoreOverlay)
            },
            Phase::LinkTail => match self.prev_tail {
                Some(tail) => (Phase::ReadPrime, Action::StoreLink(tail)),
                None => (Phase::CheckPrime, Action::Read(Register::EndptPrime)),
            },
            Phase::ReadPrime => (Phase::CheckPrime, Action::Read(Register::EndptPrime)),
            Phase::CheckPrime => if bit_is_set {
                (Phase::Finished, Action::Done)
            } else {
                (Phase::TripRead, Action::Modify(Register::UsbCmd, USBCMD_ATDTW, USBCMD_ATDTW))
            },
            Phase::TripRead => (Phase::TripCheck, Action::Read(Register::EndptStat)),
            Phase::TripCheck => (Phase::TripConfirm(input), Action::Read(Register::UsbCmd)),
            Phase::TripConfirm(endptstat) => if registers::add_td_tripwire(input) {
                (
                    Phase::TripDone(registers::bit_set(endptstat, position)),
                    Action::Modify(Register::UsbCmd, USBCMD_ATDTW, 0),
                )
            } else {
                (Phase::TripRead, Action::Modify(Register::UsbCmd, USBCMD_ATDTW, USBCMD_ATDTW))
            },
            Phase::TripDone(active) => if active {
                (Phase::Finished, Action::Done)
            } else {
                (Phase::SetOverlay, Action::LoadOverlay)
            },
            Phase::StorePacket => (Phase::CleanPacket, Action::StoreTd(self.head)),
            Phase::CleanPacket => (Phase::LoadOverlay, Action::CleanTd(self.head)),
            Phase::LoadOverlay => (Phase::SetOverlay, Action::LoadOverlay),
            Phase::SetOverlay => (
                if self.clean {
                    Phase::CleanQh
                } else {
                    Phase::PrimeBarrier
                },
                Action::StoreOverlay,
            ),
            Phase::CleanQh => (Phase::PrimeBarrier, Action::CleanQh),
            Phase::PrimeBarrier => (Phase::Prime, Action::Barrier),
            Phase::Prime => (
                Phase::PrimeWait,
                Action::Write(Register::EndptPrime, registers::bit(position)),
            ),
            Phase::PrimeWait => (Phase::PrimeCheck, Action::Read(Register::EndptPrime)),
            Phase::PrimeCheck => if bit_is_set {
                (Phase::PrimeCheck, Action::Read(Register::EndptPrime))
            } else {
                (Phase::Finished, Action::Done)
            },
            Phase::Finished => (Phase::Finished, Action::Done),
        }
    }

    /// This step points the overlay to the chain.
    pub open spec fn sets_overlay(self, ep: Endpoint) -> bool {
        self.phase is SetOverlay || (self.phase is CheckOverlay && !ep.qh.overlay.is_active())
    }

    /// The overlay after this step: it links to the chain, with an empty STATUS field,
    /// or it stays as it is.
    pub open spec fn overlay_after(self, ep: Endpoint) -> Td {
        if self.sets_overlay(ep) {
            Td {
                next: ep.tds@[self.head as int].address,
                token: td::with_status(ep.qh.overlay.token, 0),
                ..ep.qh.overlay
            }
        } else {
            ep.qh.overlay
        }
    }

    /// The pool after this step: the previous tail links to the chain, or it stays as it
    /// is.
    pub open spec fn tds_after(self, ep: Endpoint) -> Seq<Td> {
        match self.prev_tail {
            Some(tail) if self.phase is LinkTail => ep.tds@.update(
                tail as int,
                Td { next: ep.tds@[self.head as int].address, ..ep.tds@[tail as int] },
            ),
            _ => ep.tds@,
        }
    }

    /// What one step does: to the hand-off, to the endpoint, and what it asks for.
    pub open spec fn stepped(
        self,
        after: Handoff,
        ep: Endpoint,
        ep_after: Endpoint,
        input: u32,
        action: Action,
    ) -> bool {
        &&& (after.phase, action) == self.next(ep, input)
        &&& after == (Handoff { phase: after.phase, ..self })
        &&& ep_after.qh == (Qh { overlay: self.overlay_after(ep), ..ep.qh })
        &&& ep_after.tds@ == self.tds_after(ep)
        &&& ep_after == (Endpoint { qh: ep_after.qh, tds: ep_after.tds, ..ep })
    }
}

impl Endpoint {
    /// Indicates if the endpoint is primed, given ENDPTSTAT.
    pub fn is_primed(&self, endptstat: u32) -> (r: bool)
        requires
            self.wf(),
        ensures
            r == registers::bit_set(endptstat, self.position()),
    {
        endpoint_bit_set(endptstat, self.address)
    }

    /// Indicates if the controller is about to prime the endpoint, given ENDPTPRIME. It
    /// then follows the links that it finds by itself.
    pub fn endpoint_priming(&self, endptprime: u32) -> (r: bool)
        requires
            self.wf(),
        ensures
            r == registers::bit_set(endptprime, self.position()),
    {
        endpoint_bit_set(endptprime, self.address)
    }

    /// Indicates if the endpoint's queue was active, given ENDPTSTAT as it was read
    /// behind the tripwire, and USBCMD as it was read after that. `None` where the
    /// tripwire went off, so that the sample cannot be trusted.
    pub fn endpoint_active(&self, endptstat: u32, usbcmd: u32) -> (r: Option<bool>)
        requires
            self.wf(),
        ensures
            r == (if registers::add_td_tripwire(usbcmd) {
                Some(registers::bit_set(endptstat, self.position()))
            } else {
                None
            }),
    {
        assert((usbcmd & 0x4000u32 != 0) == ((usbcmd / 0x4000) % 2 == 1)) by (bit_vector);
        if usbcmd & USBCMD_ATDTW != 0 {
            Some(endpoint_bit_set(endptstat, self.address))
        } else {
            None
        }
    }

    /// The write that primes the endpoint. A barrier has to come first.
    pub fn prime(&self) -> (action: Action)
        requires
            self.wf(),
        ensures
            action == Action::Write(Register::EndptPrime, registers::bit(self.position())),
    {
        Action::Write(Register::EndptPrime, endpoint_mask(self.address))
    }

    /// One step of handing a chain to the controller.
    ///
    /// Where the endpoint is idle, the overlay takes the chain, and the endpoint is
    /// primed. Where it is active, the previous tail is linked to the chain, and the
    /// tripwire tells if the controller will still see the link; where it will not, the
    /// endpoint is primed after all.
    ///
    /// `input` is what the last action read. The caller performs the action that is
    /// returned, and steps again, until it is `Done`.
    pub fn prime_or_append(&mut self, handoff: &mut Handoff, input: u32) -> (action: Action)
        requires
            old(self).wf(),
            old(handoff).wf(*old(self)),
        ensures
            old(handoff).stepped(*final(handoff), *old(self), *final(self), input, action),
            final(self).wf(),
            final(handoff).wf(*final(self)),
            old(self).chains_programmed() ==> final(self).chains_programmed(),
    {
        match handoff.phase {
            Phase::StoreChain(i) => {
                handoff.phase = if i + 1 < handoff.count {
                    Phase::StoreChain(i + 1)
                } else {
                    Phase::ReadStat
                };
                Action::StoreTd(td_index(handoff.head, i))
            },
            Phase::ReadStat => {
                handoff.phase = Phase::CheckStat;
                Action::Read(Register::EndptStat)
            },
            Phase::CheckStat => {
                if self.is_primed(input) {
                    handoff.phase = Phase::LinkTail;
                    Action::Barrier
                } else {
                    handoff.phase = Phase::CheckOverlay;
                    Action::LoadOverlay
                }
            },
            Phase::CheckOverlay => {
                if self.qh.overlay.status().contains(StatusFlag::Active) {
                    handoff.phase = Phase::LinkTail;
                    Action::Barrier
                } else {
                    self.set_overlay(handoff.head);
                    handoff.phase = Phase::PrimeBarrier;
                    Action::StoreOverlay
                }
            },
            Phase::LinkTail => {
                match handoff.prev_tail {
                    Some(tail) => {
                        self.link_tail(tail, handoff.head);
                        handoff.phase = Phase::ReadPrime;
                        Action::StoreLink(tail)
                    },
                    None => {
                        handoff.phase = Phase::CheckPrime;
                        Action::Read(Register::EndptPrime)
                    },
                }
            },
            Phase::ReadPrime => {
                handoff.phase = Phase::CheckPrime;
                Action::Read(Register::EndptPrime)
            },
            Phase::CheckPrime => {
                if self.endpoint_priming(input) {
                    handoff.phase = Phase::Finished;
                    Action::Done
                } else {
                    handoff.phase = Phase::TripRead;
                    Action::Modify(Register::UsbCmd, USBCMD_ATDTW, USBCMD_ATDTW)
                }
            },
            Phase::TripRead => {
                handoff.phase = Phase::TripCheck;
                Action::Read(Register::EndptStat)
            },
            Phase::TripCheck => {
                handoff.phase = Phase::TripConfirm(input);
                Action::Read(Register::UsbCmd)
            },
            Phase::TripConfirm(endptstat) => {
                match self.endpoint_active(endptstat, input) {
                    Some(active) => {
                        handoff.phase = Phase::TripDone(active);
                        Action::Modify(Register::UsbCmd, USBCMD_ATDTW, 0)
                    },
                    None => {
                        handoff.phase = Phase::TripRead;
                        Action::Modify(Register::UsbCmd, USBCMD_ATDTW, USBCMD_ATDTW)
                    },
                }
            },
            Phase::TripDone(active) => {
                if active {
                    handoff.phase = Phase::Finished;
                    Action::Done
                } else {
                    handoff.phase = Phase::SetOverlay;
                    Action::LoadOverlay
                }
            },
            Phase::StorePacket => {
                handoff.phase = Phase::CleanPacket;
                Action::StoreTd(handoff.head)
            },
            Phase::CleanPacket => {
                handoff.phase = Phase::LoadOverlay;
                Action::CleanTd(handoff.head)
            },
            Phase::LoadOverlay => {
                handoff.phase = Phase::SetOverlay;
                Action::LoadOverlay
            },
            Phase::SetOverlay => {
                self.set_overlay(handoff.head);
                handoff.phase = if handoff.clean {
                    Phase::CleanQh
                } else {
                    Phase::PrimeBarrier
                };
                Action::StoreOverlay
            },
            Phase::CleanQh => {
                handoff.phase = Phase::PrimeBarrier;
                Action::CleanQh
            },
            Phase::PrimeBarrier => {
                handoff.phase = Phase::Prime;
                Action::Barrier
            },
            Phase::Prime => {
                handoff.phase = Phase::PrimeWait;
                self.prime()
            },
            Phase::PrimeWait => {
                handoff.phase = Phase::PrimeCheck;
                Action::Read(Register::EndptPrime)
            },
            Phase::PrimeCheck => {
                if registers::wait_endptprime(input, self.address) {
                    handoff.phase = Phase::Finished;
                    Action::Done
                } else {
                    Action::Read(Register::EndptPrime)
                }
            },
            Phase::Finished => Action::Done,
        }
    }

    /// Point the overlay to a descriptor, and clear its STATUS field.
    fn set_overlay(&mut self, head: usize)
        requires
            head < old(self).tds@.len(),
        ensures
            final(self).qh == (Qh {
                overlay: Td {
                    next: old(self).tds@[head as int].address,
                    token: td::with_status(old(self).qh.overlay.token, 0),
                    ..old(self).qh.overlay
                },
                ..old(self).qh
            }),
            *final(self) == (Endpoint { qh: final(self).qh, ..*old(self) }),
    {
        let next: u32 = self.tds[head].address;
        self.qh.overlay.set_next(next);
        self.qh.overlay.clear_status();
    }

    /// Link the tail of a chain to the head of the next one.
    fn link_tail(&mut self, tail: usize, head: usize)
        requires
            old(self).wf(),
            tail < old(self).tds@.len(),
            head < old(self).tds@.len(),
        ensures
            final(self).tds@ == old(self).tds@.update(
                tail as int,
                Td {
                    next: old(self).tds@[head as int].address,
                    ..old(self).tds@[tail as int]
                },
            ),
            *final(self) == (Endpoint { tds: final(self).tds, ..*old(self) }),
            final(self).wf(),
            old(self).chains_programmed() ==> final(self).chains_programmed(),
    {
        let next: u32 = self.tds[head].address;
        self.tds[tail].set_next(next);
        proof {
            assert forall|i: int| 0 <= i < self.tds@.len() implies (#[trigger] self.tds@[i]).wf()
                by {
                assert(old(self).tds@[i].wf());
            }
            endpoint::lemma_same_sizes_same_chains(*old(self), *self);
        }
    }
}

} // verus!
