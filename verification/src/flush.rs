//! Dropping every queued transfer of an endpoint.

use crate::endpoint;
use crate::endpoint::Endpoint;
use crate::qh::Qh;
use crate::queue::TransferRecord;
use crate::registers;
use crate::registers::{endpoint_mask, wait_endptflush, Action, Register};
use crate::td;
use vstd::prelude::*;

verus! {

/// What a flush does when it is stepped next.
#[derive(Clone, Copy, Debug, PartialEq, Eq, Structural)]
pub enum FlushPhase {
    /// Flush the endpoint.
    Start,
    /// Ask if the controller is done.
    Wait,
    /// Take in ENDPTFLUSH. Once the controller is done, drop the queue.
    Check,
    /// Load the token of this descriptor, or turn to the overlay behind the last one.
    Load(usize),
    /// Take in the token of this descriptor, and clear the descriptor.
    Clear(usize),
    /// Take in the overlay, and clear it.
    ClearOverlay,
    /// The endpoint has no queued transfers.
    Finished,
}

impl FlushPhase {
    /// Clearing the descriptors from `i` on, out of `count`, and then the overlay.
    pub open spec fn clear_from(count: int, i: int) -> (FlushPhase, Action) {
        if i < count {
            (FlushPhase::Clear(i as usize), Action::LoadToken(i as usize))
        } else {
            (FlushPhase::ClearOverlay, Action::LoadOverlay)
        }
    }

    /// This step drops the queue: the controller has cleared the endpoint's bit.
    pub open spec fn drops_queue(self, ep: Endpoint, input: u32) -> bool {
        self is Check && !registers::bit_set(input, ep.position())
    }

    /// This step clears a descriptor.
    pub open spec fn clears_td(self, ep: Endpoint) -> bool {
        self is Clear && self->Clear_0 < ep.tds@.len()
    }

    /// The next phase and the action to perform, given what the last read returned.
    pub open spec fn next(self, ep: Endpoint, input: u32) -> (FlushPhase, Action) {
        self.next_at(ep.position(), ep.tds@.len() as int, input)
    }

    /// The next phase and the action to perform: `position` is the endpoint's bit, `count`
    /// the size of its pool, and `input` what the last read returned.
    pub open spec fn next_at(self, position: int, count: int, input: u32) -> (FlushPhase, Action) {
        match self {
            FlushPhase::Start => (
                FlushPhase::Wait,
                Action::Write(Register::EndptFlush, registers::bit(position)),
            ),
            FlushPhase::Wait => (FlushPhase::Check, Action::Read(Register::EndptFlush)),
            FlushPhase::Check => if registers::bit_set(input, position) {
                (FlushPhase::Check, Action::Read(Register::EndptFlush))
            } else {
                FlushPhase::clear_from(count, 0)
            },
            FlushPhase::Load(i) => FlushPhase::clear_from(count, i as int),
            FlushPhase::Clear(i) => if i < count {
                (FlushPhase::Load((i + 1) as usize), Action::ClearTd(i))
            } else {
                FlushPhase::clear_from(count, i as int)
            },
            FlushPhase::ClearOverlay => (FlushPhase::Finished, Action::StoreOverlay),
            FlushPhase::Finished => (FlushPhase::Finished, Action::Done),
        }
    }

    /// What one step does: to the phase, to the endpoint, and what it asks for.
    pub open spec fn stepped(
        self,
        after: FlushPhase,
        ep: Endpoint,
        ep_after: Endpoint,
        input: u32,
        action: Action,
    ) -> bool {
        &&& (after, action) == self.next(ep, input)
        &&& if self.drops_queue(ep, input) {
            ep_after.queue_dropped(ep)
        } else if self is ClearOverlay {
            ep_after == (Endpoint {
                qh: Qh { overlay: ep.qh.overlay.cleared(), ..ep.qh },
                ..ep
            })
        } else if self.clears_td(ep) {
            ep_after.td_cleared(ep, self->Clear_0 as int, input)
        } else {
            ep_after == ep
        }
    }
}

impl Endpoint {
    /// The endpoint without queued transfers: the ring is as in a new one. The pool stays
    /// as it was.
    pub open spec fn queue_dropped(self, before: Endpoint) -> bool {
        &&& self.pending() == Seq::<TransferRecord>::empty()
        &&& self.queue@ == Seq::new(8, |i: int| TransferRecord::spec_empty())
        &&& self == (Endpoint {
            queue: self.queue,
            q_head: 0,
            q_len: 0,
            td_head: 0,
            tds_in_use: 0,
            ..before
        })
    }

    /// The endpoint with descriptor `i` cleared: it takes over the token that the
    /// controller wrote back, ends the chain, and has an empty STATUS field. What the
    /// controller counted stays.
    pub open spec fn td_cleared(self, before: Endpoint, i: int, token: u32) -> bool {
        &&& self.tds@ == before.tds@.update(i, before.tds@[i].returned(token).cleared())
        &&& self == (Endpoint { tds: self.tds, ..before })
    }

    /// One step of flushing the endpoint and dropping every queued transfer.
    ///
    /// The controller first gives up what it was primed with. Then the queue is emptied,
    /// every descriptor is terminated and cleared, and at last the overlay. The bytes that
    /// the controller counted in a descriptor stay.
    ///
    /// `input` is what the last action read. The caller performs the action that is
    /// returned, and steps again, until it is `Done`.
    pub fn clear_transfers(&mut self, phase: &mut FlushPhase, input: u32) -> (action: Action)
        requires
            old(self).wf(),
        ensures
            old(phase).stepped(*final(phase), *old(self), *final(self), input, action),
            final(self).wf(),
            old(self).chains_programmed() ==> final(self).chains_programmed(),
    {
        match *phase {
            FlushPhase::Start => {
                *phase = FlushPhase::Wait;
                Action::Write(Register::EndptFlush, endpoint_mask(self.address))
            },
            FlushPhase::Wait => {
                *phase = FlushPhase::Check;
                Action::Read(Register::EndptFlush)
            },
            FlushPhase::Check => {
                proof {
                    registers::lemma_mask_tests_bit(input, self.position());
                }
                if wait_endptflush(input, endpoint_mask(self.address)) {
                    self.drop_queue();
                    self.clear_from(phase, 0)
                } else {
                    Action::Read(Register::EndptFlush)
                }
            },
            FlushPhase::Load(i) => self.clear_from(phase, i),
            FlushPhase::Clear(i) => {
                if i >= self.tds.len() {
                    return self.clear_from(phase, i);
                }
                self.clear_td(i, input);
                *phase = FlushPhase::Load(i + 1);
                Action::ClearTd(i)
            },
            FlushPhase::ClearOverlay => {
                self.qh.overlay.set_terminate();
                self.qh.overlay.clear_status();
                *phase = FlushPhase::Finished;
                Action::StoreOverlay
            },
            FlushPhase::Finished => Action::Done,
        }
    }

    fn clear_from(&self, phase: &mut FlushPhase, i: usize) -> (action: Action)
        ensures
            (*final(phase), action) == FlushPhase::clear_from(
                self.tds@.len() as int,
                i as int,
            ),
    {
        if i < self.tds.len() {
            *phase = FlushPhase::Clear(i);
            Action::LoadToken(i)
        } else {
            *phase = FlushPhase::ClearOverlay;
            Action::LoadOverlay
        }
    }

    /// Take over a descriptor's token, end the chain there, and clear its STATUS field.
    fn clear_td(&mut self, i: usize, token: u32)
        requires
            old(self).wf(),
            i < old(self).tds@.len(),
        ensures
            final(self).td_cleared(*old(self), i as int, token),
            final(self).wf(),
            old(self).chains_programmed() ==> final(self).chains_programmed(),
    {
        self.take_token(i, token);
        let ghost taken: Endpoint = *self;
        self.tds[i].set_terminate();
        self.tds[i].clear_status();
        proof {
            assert(self.tds@ =~= old(self).tds@.update(
                i as int,
                old(self).tds@[i as int].returned(token).cleared(),
            ));
            assert forall|j: int| 0 <= j < self.tds@.len() implies (#[trigger] self.tds@[j]).wf()
                by {
                assert(taken.tds@[j].wf());
                td::lemma_with_status(taken.tds@[j].token, 0);
            }
            endpoint::lemma_same_sizes_same_chains(taken, *self);
        }
    }

    /// Empty the ring.
    fn drop_queue(&mut self)
        requires
            old(self).wf(),
        ensures
            final(self).queue_dropped(*old(self)),
            final(self).wf(),
            final(self).chains_programmed(),
    {
        self.q_head = 0;
        self.q_len = 0;
        self.td_head = 0;
        self.tds_in_use = 0;
        self.queue = [TransferRecord::empty(); 8];
        proof {
            assert(self.pending() =~= Seq::<TransferRecord>::empty());
            assert(self.queue@ =~= Seq::new(8, |i: int| TransferRecord::spec_empty()));
        }
    }
}

} // verus!
