//! What holds of every hand-off, setup read and control access, whatever the controller
//! answers.

use crate::control::SetupPhase;
use crate::endpoint::Endpoint;
use crate::flush::FlushPhase;
use crate::handoff::{Handoff, Phase};
use crate::layout::TDS_PER_EP;
use crate::pool;
use crate::qh::Qh;
use crate::queue;
use crate::queue::TransferRecord;
use crate::registers;
use crate::registers::{Action, Register, USBCMD_ATDTW, USBCMD_SUTW};
use crate::td;
use crate::td::Td;
use crate::usb;
use crate::usb::{EndpointType, UsbDirection};
use vstd::prelude::*;

verus! {

broadcast use crate::pool::lemma_td_at_range;

/// What a hand-off gets to see at a step: if the overlay is active, and what the last
/// read returned.
pub struct Answer {
    pub overlay_active: bool,
    pub input: u32,
}

/// The hand-off after it was stepped with these answers.
pub open spec fn handoff_after(start: Handoff, position: int, answers: Seq<Answer>) -> Handoff
    decreases answers.len(),
{
    if answers.len() == 0 {
        start
    } else {
        let before = handoff_after(start, position, answers.drop_last());
        let answer = answers.last();
        Handoff {
            phase: before.next_at(position, answer.overlay_active, answer.input).0,
            ..before
        }
    }
}

/// The actions that a hand-off asks for when it is stepped with these answers.
pub open spec fn handoff_actions(start: Handoff, position: int, answers: Seq<Answer>) -> Seq<Action>
    decreases answers.len(),
{
    if answers.len() == 0 {
        Seq::empty()
    } else {
        let before = handoff_after(start, position, answers.drop_last());
        let answer = answers.last();
        handoff_actions(start, position, answers.drop_last()).push(
            before.next_at(position, answer.overlay_active, answer.input).1,
        )
    }
}

/// A hand-off as a submission or a single packet starts it.
pub open spec fn is_start(handoff: Handoff) -> bool {
    handoff.phase == Phase::StoreChain(0) || handoff.phase == Phase::StorePacket
}

pub proof fn lemma_actions_len(start: Handoff, position: int, answers: Seq<Answer>)
    ensures
        handoff_actions(start, position, answers).len() == answers.len(),
    decreases answers.len(),
{
    if answers.len() > 0 {
        lemma_actions_len(start, position, answers.drop_last());
    }
}

/// A step that publishes a chain: it links the chain to the previous tail, or primes the
/// endpoint with it.
pub open spec fn publishes(action: Action) -> bool {
    ||| action is StoreLink
    ||| action matches Action::Write(Register::EndptPrime, _)
}

/// Right before a chain is published there is always a barrier, so that the controller
/// never follows a link to a descriptor that it cannot see yet.
pub proof fn law_barrier_before_publication(
    start: Handoff,
    position: int,
    answers: Seq<Answer>,
    i: int,
)
    requires
        is_start(start),
        0 <= i < answers.len(),
        publishes(handoff_actions(start, position, answers)[i]),
    ensures
        i > 0,
        handoff_actions(start, position, answers)[i - 1] is Barrier,
    decreases answers.len(),
{
    let front = answers.drop_last();
    lemma_actions_len(start, position, answers);
    lemma_actions_len(start, position, front);
    if i + 1 < answers.len() {
        law_barrier_before_publication(start, position, front, i);
    } else {
        lemma_publishing_phase_after_barrier(start, position, front);
    }
}

proof fn lemma_publishing_phase_after_barrier(
    start: Handoff,
    position: int,
    answers: Seq<Answer>,
)
    requires
        is_start(start),
        handoff_after(start, position, answers).phase is LinkTail || handoff_after(
            start,
            position,
            answers,
        ).phase is Prime,
    ensures
        answers.len() > 0,
        handoff_actions(start, position, answers).last() is Barrier,
{
    lemma_actions_len(start, position, answers);
}

/// The whole chain is stored before anything else happens: the first actions of a
/// submission's hand-off store the descriptors of its chain, in order.
pub proof fn law_chain_is_stored_first(
    start: Handoff,
    position: int,
    answers: Seq<Answer>,
    i: int,
)
    requires
        start.phase == Phase::StoreChain(0),
        1 <= start.count,
        0 <= i < answers.len(),
        i < start.count,
    ensures
        handoff_actions(start, position, answers)[i] == Action::StoreTd(
            pool::td_at(start.head as int, i) as usize,
        ),
    decreases answers.len(),
{
    let front = answers.drop_last();
    lemma_actions_len(start, position, answers);
    lemma_actions_len(start, position, front);
    if i + 1 < answers.len() {
        law_chain_is_stored_first(start, position, front, i);
    } else {
        lemma_storing_phase(start, position, front);
    }
}

proof fn lemma_storing_phase(start: Handoff, position: int, answers: Seq<Answer>)
    requires
        start.phase == Phase::StoreChain(0),
        answers.len() < start.count,
    ensures
        handoff_after(start, position, answers) == (Handoff {
            phase: Phase::StoreChain(answers.len() as usize),
            ..start
        }),
    decreases answers.len(),
{
    if answers.len() > 0 {
        lemma_storing_phase(start, position, answers.drop_last());
    }
}

/// Apart from its own chain, a hand-off stores no descriptor as a whole.
pub proof fn law_only_the_chain_is_stored(
    start: Handoff,
    position: int,
    answers: Seq<Answer>,
    i: int,
)
    requires
        start.phase == Phase::StoreChain(0),
        1 <= start.count,
        0 <= i < answers.len(),
        handoff_actions(start, position, answers)[i] is StoreTd,
    ensures
        i < start.count,
        handoff_actions(start, position, answers)[i] == Action::StoreTd(
            pool::td_at(start.head as int, i) as usize,
        ),
    decreases answers.len(),
{
    let front = answers.drop_last();
    lemma_actions_len(start, position, answers);
    lemma_actions_len(start, position, front);
    if i + 1 < answers.len() {
        law_only_the_chain_is_stored(start, position, front, i);
    } else {
        if front.len() >= start.count {
            lemma_stored_phase(start, position, front);
        }
        law_chain_is_stored_first(start, position, answers, i);
    }
}

proof fn lemma_stored_phase(start: Handoff, position: int, answers: Seq<Answer>)
    requires
        start.phase == Phase::StoreChain(0),
        1 <= start.count <= answers.len(),
    ensures
        !(handoff_after(start, position, answers).phase is StoreChain),
        !(handoff_after(start, position, answers).phase is StorePacket),
    decreases answers.len(),
{
    let front = answers.drop_last();
    if front.len() >= start.count {
        lemma_stored_phase(start, position, front);
    } else {
        lemma_storing_phase(start, position, front);
    }
}

/// Queueing a transfer never writes to a descriptor of a transfer that was queued before,
/// except for its link: the controller may own it.
pub proof fn law_queued_tds_are_not_overwritten(
    ep: Endpoint,
    after: Endpoint,
    ptr: u32,
    len: usize,
    slot: Option<u8>,
    start: Handoff,
    position: int,
    answers: Seq<Answer>,
    i: int,
    k: int,
    m: int,
)
    requires
        ep.wf(),
        ep.tds@.len() == TDS_PER_EP,
        ep.submitted(after, ptr, len, slot, Ok(start)),
        0 <= i < answers.len(),
        0 <= k < ep.pending().len(),
        0 <= m < ep.pending()[k].td_count,
    ensures
        handoff_actions(start, position, answers)[i] != Action::StoreTd(
            pool::td_at(ep.pending()[k].first_td as int, m) as usize,
        ),
{
    if handoff_actions(start, position, answers)[i] is StoreTd {
        law_only_the_chain_is_stored(start, position, answers, i);
        let j = pool::td_at(ep.pending()[k].first_td as int, m);
        queue::lemma_owned_place(
            ep.pending(),
            ep.td_head as int,
            ep.tds_in_use as int,
            k,
            m,
        );
        pool::lemma_place(ep.td_head as int, j, i);
    }
}

/// The tripwire is set at this point of a run: the last change to it set it.
pub open spec fn tripwire_set(actions: Seq<Action>) -> bool
    decreases actions.len(),
{
    if actions.len() == 0 {
        false
    } else {
        match actions.last() {
            Action::Modify(Register::UsbCmd, _, value) => value == USBCMD_ATDTW,
            _ => tripwire_set(actions.drop_last()),
        }
    }
}

/// The tripwire is set while the endpoint is sampled, and at no other time. In particular,
/// it is off when the hand-off is done.
pub proof fn law_tripwire_only_while_sampling(start: Handoff, position: int, answers: Seq<Answer>)
    requires
        is_start(start),
    ensures
        ({
            let phase = handoff_after(start, position, answers).phase;
            tripwire_set(handoff_actions(start, position, answers)) <==> (phase is TripRead
                || phase is TripCheck || phase is TripConfirm)
        }),
    decreases answers.len(),
{
    if answers.len() > 0 {
        let front = answers.drop_last();
        law_tripwire_only_while_sampling(start, position, front);
        let all = handoff_actions(start, position, answers);
        assert(all.drop_last() =~= handoff_actions(start, position, front));
    }
}

/// A hand-off is done for one of three reasons only: the controller has fetched the chain,
/// because it cleared the bit that primed the endpoint; or it was priming when the link
/// was there; or a sample that can be trusted has shown that it was still at work when
/// the link was there.
pub proof fn law_done_means_taken_over(handoff: Handoff, position: int, answer: Answer)
    requires
        !(handoff.phase is Finished),
        handoff.next_at(position, answer.overlay_active, answer.input).1 is Done,
    ensures
        ({
            ||| handoff.phase is PrimeCheck && !registers::bit_set(answer.input, position)
            ||| handoff.phase is CheckPrime && registers::bit_set(answer.input, position)
            ||| handoff.phase == Phase::TripDone(true)
        }),
{
}

/// A sample is trusted only if the tripwire survived it.
pub proof fn law_only_trusted_samples_count(
    handoff: Handoff,
    position: int,
    answer: Answer,
    active: bool,
)
    requires
        !(handoff.phase is TripDone),
        handoff.next_at(position, answer.overlay_active, answer.input).0 == Phase::TripDone(active),
    ensures
        handoff.phase matches Phase::TripConfirm(endptstat) && active == registers::bit_set(
            endptstat,
            position,
        ) && registers::add_td_tripwire(answer.input),
{
}

/// How many steps are left at most, if nothing has to be tried again.
pub open spec fn steps_left(handoff: Handoff) -> int {
    match handoff.phase {
        Phase::StoreChain(i) => 16 + handoff.count - i,
        Phase::ReadStat => 16,
        Phase::CheckStat => 15,
        Phase::CheckOverlay => 14,
        Phase::LinkTail => 13,
        Phase::ReadPrime => 12,
        Phase::CheckPrime => 11,
        Phase::TripRead => 10,
        Phase::TripCheck => 9,
        Phase::TripConfirm(_) => 8,
        Phase::TripDone(_) => 7,
        Phase::StorePacket => 9,
        Phase::CleanPacket => 8,
        Phase::LoadOverlay => 7,
        Phase::SetOverlay => 6,
        Phase::CleanQh => 5,
        Phase::PrimeBarrier => 4,
        Phase::Prime => 3,
        Phase::PrimeWait => 2,
        Phase::PrimeCheck => 1,
        Phase::Finished => 0,
    }
}

/// A hand-off makes progress with every step, except while it waits for the controller to
/// fetch the chain, and when a sample has to be taken again.
pub proof fn law_handoff_makes_progress(handoff: Handoff, position: int, answer: Answer)
    requires
        !(handoff.phase is Finished),
        handoff.phase matches Phase::StoreChain(i) ==> i < handoff.count,
        handoff.phase is PrimeCheck ==> !registers::bit_set(answer.input, position),
        handoff.phase is TripConfirm ==> registers::add_td_tripwire(answer.input),
    ensures
        0 <= steps_left(
            Handoff {
                phase: handoff.next_at(position, answer.overlay_active, answer.input).0,
                ..handoff
            },
        ) < steps_left(handoff),
{
}

/// On an endpoint that was flushed, a hand-off takes the idle path: nothing is primed, and
/// the overlay is not active, so the overlay takes the chain and the endpoint is primed.
pub proof fn law_flushed_endpoint_is_idle(
    before: Endpoint,
    after: Endpoint,
    phase: FlushPhase,
    input: u32,
    action: Action,
    start: Handoff,
    position: int,
    endptstat: u32,
)
    requires
        phase is ClearOverlay,
        phase.stepped(FlushPhase::Finished, before, after, input, action),
        start.phase is CheckStat,
        !registers::bit_set(endptstat, position),
    ensures
        ({
            let loaded = start.next_at(position, after.qh.overlay.is_active(), endptstat);
            let checked = Handoff { phase: loaded.0, ..start }.next_at(
                position,
                after.qh.overlay.is_active(),
                0,
            );
            &&& loaded == (Phase::CheckOverlay, Action::LoadOverlay)
            &&& checked == (Phase::PrimeBarrier, Action::StoreOverlay)
        }),
{
    td::lemma_with_status(before.qh.overlay.token, 0);
}

/// The phase after a flush was stepped with these inputs.
pub open spec fn flush_after(position: int, count: int, inputs: Seq<u32>) -> FlushPhase
    decreases inputs.len(),
{
    if inputs.len() == 0 {
        FlushPhase::Start
    } else {
        flush_after(position, count, inputs.drop_last()).next_at(position, count, inputs.last()).0
    }
}

/// The actions that a flush asks for when it is stepped with these inputs.
pub open spec fn flush_actions(position: int, count: int, inputs: Seq<u32>) -> Seq<Action>
    decreases inputs.len(),
{
    if inputs.len() == 0 {
        Seq::empty()
    } else {
        flush_actions(position, count, inputs.drop_last()).push(
            flush_after(position, count, inputs.drop_last()).next_at(
                position,
                count,
                inputs.last(),
            ).1,
        )
    }
}

/// A step of a flush at which the queue is dropped.
pub open spec fn drop_step(position: int, count: int, inputs: Seq<u32>, i: int) -> bool {
    &&& 0 <= i < inputs.len()
    &&& flush_after(position, count, inputs.take(i)) is Check
    &&& !registers::bit_set(inputs[i], position)
}

/// A flush writes the endpoint's bit to ENDPTFLUSH first, and does not go on to the
/// descriptors, let alone end, before the controller has cleared it.
pub proof fn law_flush_waits_for_the_controller(position: int, count: int, inputs: Seq<u32>)
    requires
        inputs.len() > 0,
    ensures
        flush_actions(position, count, inputs).len() == inputs.len(),
        flush_actions(position, count, inputs)[0] == Action::Write(
            Register::EndptFlush,
            registers::bit(position),
        ),
        ({
            let phase = flush_after(position, count, inputs);
            is_dropped(phase) ==> exists|i: int| drop_step(position, count, inputs, i)
        }),
    decreases inputs.len(),
{
    let front = inputs.drop_last();
    let n = front.len() as int;
    assert(inputs.take(n) =~= front);
    if front.len() > 0 {
        law_flush_waits_for_the_controller(position, count, front);
        let before = flush_after(position, count, front);
        if is_dropped(before) {
            let i = choose|i: int| drop_step(position, count, front, i);
            assert(front.take(i) =~= inputs.take(i));
            assert(drop_step(position, count, inputs, i));
        } else if before is Check && !registers::bit_set(inputs.last(), position) {
            assert(drop_step(position, count, inputs, n));
        }
    } else {
        assert(flush_actions(position, count, front) =~= Seq::<Action>::empty());
    }
}

/// From `start` on, the actions load the token of descriptor `j` and clear it, when it is
/// its turn.
pub open spec fn cleared_at(actions: Seq<Action>, start: int, j: int) -> bool {
    &&& actions[start + 2 * j] == Action::LoadToken(j as usize)
    &&& actions[start + 2 * j + 1] == Action::ClearTd(j as usize)
}

/// A flush loads the token of every descriptor of the pool and clears the descriptor, in
/// order, before it turns to the overlay.
pub proof fn law_flush_clears_every_td(position: int, count: int, inputs: Seq<u32>, j: int)
    requires
        0 <= count <= usize::MAX,
        flush_after(position, count, inputs) is ClearOverlay,
        0 <= j < count,
    ensures
        inputs.len() > 2 * count,
        flush_actions(position, count, inputs).len() == inputs.len(),
        cleared_at(flush_actions(position, count, inputs), inputs.len() - 1 - 2 * count, j),
        flush_actions(position, count, inputs).last() is LoadOverlay,
{
    let front = inputs.drop_last();
    lemma_flush_cleared(position, count, front);
    lemma_flush_cleared(position, count, inputs);
    assert(cleared_at(flush_actions(position, count, front), front.len() - 2 * count, j));
}

proof fn lemma_flush_cleared(position: int, count: int, inputs: Seq<u32>)
    requires
        0 <= count <= usize::MAX,
    ensures
        flush_actions(position, count, inputs).len() == inputs.len(),
        flush_after(position, count, inputs) matches FlushPhase::Load(i) ==> {
            &&& 0 < i <= count
            &&& inputs.len() >= 2 * i
            &&& forall|j: int|
                0 <= j < i ==> #[trigger] cleared_at(
                    flush_actions(position, count, inputs),
                    inputs.len() - 2 * i,
                    j,
                )
        },
        flush_after(position, count, inputs) matches FlushPhase::Clear(i) ==> {
            &&& i < count
            &&& inputs.len() >= 2 * i + 1
            &&& flush_actions(position, count, inputs).last() == Action::LoadToken(i)
            &&& forall|j: int|
                0 <= j < i ==> #[trigger] cleared_at(
                    flush_actions(position, count, inputs),
                    inputs.len() - 2 * i - 1,
                    j,
                )
        },
    decreases inputs.len(),
{
    if inputs.len() > 0 {
        let front = inputs.drop_last();
        lemma_flush_cleared(position, count, front);
        let all = flush_actions(position, count, inputs);
        let before = flush_actions(position, count, front);
        match flush_after(position, count, inputs) {
            FlushPhase::Load(i) => {
                let start = inputs.len() - 2 * i;
                let k = (i - 1) as usize;
                assert(flush_after(position, count, front) == FlushPhase::Clear(k));
                assert forall|j: int| 0 <= j < i implies #[trigger] cleared_at(all, start, j) by {
                    if j < k {
                        assert(cleared_at(before, front.len() - 2 * k - 1, j));
                    }
                }
            },
            FlushPhase::Clear(i) => {
                let start = inputs.len() - 2 * i - 1;
                assert forall|j: int| 0 <= j < i implies #[trigger] cleared_at(all, start, j) by {
                    assert(flush_after(position, count, front) == FlushPhase::Load(i));
                    assert(cleared_at(before, front.len() - 2 * i, j));
                }
            },
            _ => {},
        }
    }
}

/// What reading a setup packet gets to see at a step: the setup buffer as it was loaded
/// last, and what the last read returned.
pub struct SetupAnswer {
    pub loaded: u64,
    pub input: u32,
}

/// The phase after reading a setup packet was stepped with these answers.
pub open spec fn setup_after(index: int, answers: Seq<SetupAnswer>) -> SetupPhase
    decreases answers.len(),
{
    if answers.len() == 0 {
        SetupPhase::Start
    } else {
        let answer = answers.last();
        setup_after(index, answers.drop_last()).next_at(index, answer.loaded, answer.input).0
    }
}

/// The actions that reading a setup packet asks for when it is stepped with these answers.
pub open spec fn setup_actions(index: int, answers: Seq<SetupAnswer>) -> Seq<Action>
    decreases answers.len(),
{
    if answers.len() == 0 {
        Seq::empty()
    } else {
        let answer = answers.last();
        setup_actions(index, answers.drop_last()).push(
            setup_after(index, answers.drop_last()).next_at(index, answer.loaded, answer.input).1,
        )
    }
}

/// A round of the run that reads the setup buffer in one piece: the tripwire was set, the
/// buffer was loaded and held `setup`, and the tripwire was still set after that.
pub open spec fn untorn_round(
    index: int,
    answers: Seq<SetupAnswer>,
    setup: u64,
    i: int,
) -> bool {
    let actions = setup_actions(index, answers);
    &&& 0 <= i && i + 3 < answers.len()
    &&& actions[i] == Action::Modify(Register::UsbCmd, USBCMD_SUTW, USBCMD_SUTW)
    &&& actions[i + 1] is LoadSetup
    &&& answers[i + 2].loaded == setup
    &&& actions[i + 2] == Action::Read(Register::UsbCmd)
    &&& registers::setup_tripwire(answers[i + 3].input)
}

proof fn lemma_setup_actions_len(index: int, answers: Seq<SetupAnswer>)
    ensures
        setup_actions(index, answers).len() == answers.len(),
    decreases answers.len(),
{
    if answers.len() > 0 {
        lemma_setup_actions_len(index, answers.drop_last());
    }
}

/// The setup packet that is handed out was read in one piece: it is what the setup buffer
/// held while the tripwire was set.
pub proof fn law_setup_packet_is_untorn(index: int, answers: Seq<SetupAnswer>, setup: u64)
    requires
        setup_after(index, answers) == SetupPhase::Finished(setup),
    ensures
        exists|i: int| untorn_round(index, answers, setup, i),
    decreases answers.len(),
{
    let n = answers.len() as int;
    let front = answers.drop_last();
    lemma_setup_actions_len(index, answers);
    lemma_setup_actions_len(index, front);
    if setup_after(index, front) == SetupPhase::Finished(setup) {
        law_setup_packet_is_untorn(index, front, setup);
        let i = choose|i: int| untorn_round(index, front, setup, i);
        assert(untorn_round(index, answers, setup, i));
    } else {
        let two = front.drop_last();
        let three = two.drop_last();
        lemma_setup_actions_len(index, two);
        lemma_setup_actions_len(index, three);
        assert(setup_after(index, front) == SetupPhase::Confirm(setup));
        assert(setup_after(index, two) is Sample);
        assert(setup_after(index, three) is Load);
        assert(three.len() > 0);
        let i = n - 4;
        assert(setup_actions(index, three).last() == Action::Modify(
            Register::UsbCmd,
            USBCMD_SUTW,
            USBCMD_SUTW,
        ));
        assert(untorn_round(index, answers, setup, i));
    }
}

/// The endpoint between two steps: the controller's owner performs the action, which
/// changes the driver's copies only where something is loaded.
pub open spec fn performed(action: Action, before: Endpoint, after: Endpoint) -> bool {
    if action is LoadOverlay {
        after == (Endpoint {
            qh: Qh {
                overlay: Td { token: after.qh.overlay.token, ..before.qh.overlay },
                ..before.qh
            },
            ..before
        })
    } else {
        after == before
    }
}

/// A run of a flush: the endpoint before each step and after it, the phases, and what was
/// asked and answered.
pub struct FlushRun {
    pub before: Seq<Endpoint>,
    pub after: Seq<Endpoint>,
    pub phases: Seq<FlushPhase>,
    pub inputs: Seq<u32>,
    pub actions: Seq<Action>,
}

impl FlushRun {
    pub open spec fn possible(self) -> bool {
        let n = self.inputs.len();
        &&& self.before.len() == n
        &&& self.after.len() == n
        &&& self.actions.len() == n
        &&& self.phases.len() == n + 1
        &&& self.phases[0] is Start
        &&& forall|i: int|
            0 <= i < n ==> (#[trigger] self.phases[i]).stepped(
                self.phases[i + 1],
                self.before[i],
                self.after[i],
                self.inputs[i],
                self.actions[i],
            )
        &&& forall|i: int|
            0 < i < n ==> performed(
                self.actions[i - 1],
                self.after[i - 1],
                #[trigger] self.before[i],
            )
    }
}

/// A descriptor that ends its chain, with an empty STATUS field.
pub open spec fn td_is_idle(t: Td) -> bool {
    t.next == td::TERMINATE && t.spec_status().bits == 0
}

/// The ring holds no record, and the next chain starts at the first descriptor.
pub open spec fn ring_is_empty(ep: Endpoint) -> bool {
    &&& ep.pending().len() == 0
    &&& ep.queue@ == Seq::new(TDS_PER_EP as nat, |i: int| TransferRecord::spec_empty())
    &&& ep.q_head == 0
    &&& ep.q_len == 0
    &&& ep.td_head == 0
    &&& ep.tds_in_use == 0
}

/// The endpoint has no queued transfers, and idle descriptors only.
pub open spec fn queue_is_idle(ep: Endpoint) -> bool {
    &&& ring_is_empty(ep)
    &&& forall|i: int| 0 <= i < ep.tds@.len() ==> td_is_idle(#[trigger] ep.tds@[i])
}

/// The overlay ends its chain, with an empty STATUS field.
pub open spec fn overlay_is_idle(ep: Endpoint) -> bool {
    td_is_idle(ep.qh.overlay)
}

/// What neither a hand-off nor a flush changes: the address, the kind and the staging
/// buffers of an endpoint, the size of its pool, and its queue head, apart from the link
/// and the token of the overlay.
pub open spec fn identity_kept(start: Endpoint, now: Endpoint) -> bool {
    &&& now.address == start.address
    &&& now.kind == start.kind
    &&& now.buffers == start.buffers
    &&& now.tds@.len() == start.tds@.len()
    &&& now.qh == (Qh {
        overlay: Td {
            next: now.qh.overlay.next,
            token: now.qh.overlay.token,
            ..start.qh.overlay
        },
        ..start.qh
    })
}

/// The phases of a flush in which the queue is dropped already.
pub open spec fn is_dropped(phase: FlushPhase) -> bool {
    phase is Load || phase is Clear || phase is ClearOverlay || phase is Finished
}

/// The descriptors that a flush has cleared by a phase, out of `count`.
pub open spec fn cleared_by(phase: FlushPhase, count: int) -> int {
    match phase {
        FlushPhase::Load(i) => i as int,
        FlushPhase::Clear(i) => i as int,
        FlushPhase::ClearOverlay => count,
        FlushPhase::Finished => count,
        _ => 0,
    }
}

/// By step `n` of the run, descriptor `j` is cleared, and apart from that it is as the
/// controller left it: its token is the one that the load at step `m` returned.
pub open spec fn td_flushed(run: FlushRun, n: int, j: int, m: int) -> bool {
    &&& 0 <= m && m + 1 < n
    &&& run.actions[m] == Action::LoadToken(j as usize)
    &&& run.after[n - 1].tds@[j] == run.before[0].tds@[j].returned(run.inputs[m + 1]).cleared()
}

spec fn is_flushed(run: FlushRun, n: int, j: int) -> bool {
    exists|m: int| td_flushed(run, n, j, m)
}

/// Where a flush stands after `n` steps.
spec fn flush_progress(run: FlushRun, n: int) -> bool {
    let start = run.before[0];
    let now = run.after[n - 1];
    let phase = run.phases[n];
    let done = cleared_by(phase, start.tds@.len() as int);
    &&& identity_kept(start, now)
    &&& 0 <= done <= start.tds@.len()
    &&& phase matches FlushPhase::Clear(i) ==> i < start.tds@.len() && run.actions[n - 1]
        == Action::LoadToken(i)
    &&& forall|j: int| 0 <= j < done ==> #[trigger] is_flushed(run, n, j)
    &&& forall|j: int| done <= j < start.tds@.len() ==> #[trigger] now.tds@[j] == start.tds@[j]
    &&& is_dropped(phase) ==> ring_is_empty(now)
    &&& phase is Finished ==> overlay_is_idle(now)
}

proof fn lemma_flush_progress(run: FlushRun, n: int)
    requires
        run.possible(),
        0 < n <= run.inputs.len(),
    ensures
        flush_progress(run, n),
    decreases n,
{
    let i = n - 1;
    assert(run.phases[i].stepped(
        run.phases[i + 1],
        run.before[i],
        run.after[i],
        run.inputs[i],
        run.actions[i],
    ));
    if i > 0 {
        lemma_flush_progress(run, i);
        assert(performed(run.actions[i - 1], run.after[i - 1], run.before[i]));
        assert(run.phases[i - 1].stepped(
            run.phases[i],
            run.before[i - 1],
            run.after[i - 1],
            run.inputs[i - 1],
            run.actions[i - 1],
        ));
        lemma_flush_step(run, n);
    }
}

proof fn lemma_flush_step(run: FlushRun, n: int)
    requires
        1 < n <= run.inputs.len(),
        run.phases[n - 1].stepped(
            run.phases[n],
            run.before[n - 1],
            run.after[n - 1],
            run.inputs[n - 1],
            run.actions[n - 1],
        ),
        flush_progress(run, n - 1),
        performed(run.actions[n - 2], run.after[n - 2], run.before[n - 1]),
        run.phases[n - 1] is Finished ==> run.before[n - 1].qh == run.after[n - 2].qh,
    ensures
        flush_progress(run, n),
{
    let phase = run.phases[n - 1];
    let before = run.before[n - 1];
    let after = run.after[n - 1];
    let count = run.before[0].tds@.len() as int;
    assert(before.tds.len() == count);
    assert(before.pending() == run.after[n - 2].pending());
    if phase is ClearOverlay {
        td::lemma_with_status(before.qh.overlay.token, 0);
    }
    if !phase.drops_queue(before, run.inputs[n - 1]) {
        assert(after.pending() == before.pending());
    }
    assert forall|j: int| cleared_by(run.phases[n], count) <= j < count implies
        #[trigger] after.tds@[j] == run.before[0].tds@[j] by {
        assert(run.after[n - 2].tds@[j] == run.before[0].tds@[j]);
        assert(after.tds@[j] == before.tds@[j]);
    }
    assert forall|j: int| 0 <= j < cleared_by(run.phases[n], count) implies
        #[trigger] is_flushed(run, n, j) by {
        if j < cleared_by(phase, count) {
            assert(is_flushed(run, n - 1, j));
            let i = n - 1;
            let m = choose|m: int| td_flushed(run, i, j, m);
            assert(after.tds@[j] == run.after[n - 2].tds@[j]);
            assert(td_flushed(run, n, j, m));
        } else {
            assert(phase == FlushPhase::Clear(j as usize));
            assert(td_flushed(run, n, j, n - 2));
        }
    }
}

/// Once a flush is done, nothing is queued, every descriptor is terminated and has an empty
/// STATUS field, and so has the overlay. The address, the kind, the staging buffers and the
/// rest of the queue head are those that the flush began with.
pub proof fn law_flush_leaves_nothing(run: FlushRun, n: int)
    requires
        run.possible(),
        0 < n <= run.inputs.len(),
        run.phases[n] is Finished,
    ensures
        queue_is_idle(run.after[n - 1]),
        overlay_is_idle(run.after[n - 1]),
        identity_kept(run.before[0], run.after[n - 1]),
{
    lemma_flush_progress(run, n);
    let now = run.after[n - 1];
    assert forall|j: int| 0 <= j < now.tds@.len() implies td_is_idle(#[trigger] now.tds@[j]) by {
        assert(is_flushed(run, n, j));
        let m = choose|m: int| td_flushed(run, n, j, m);
        td::lemma_with_status(run.before[0].tds@[j].returned(run.inputs[m + 1]).token, 0);
    }
}

/// A flush keeps what the controller counted: once it is done, every descriptor is the one
/// that the flush began with, with the token that the controller had written back, and
/// cleared. So it says as many bytes went over the wire as the controller said.
pub proof fn law_flush_keeps_byte_counts(run: FlushRun, n: int, j: int)
    requires
        run.possible(),
        0 < n <= run.inputs.len(),
        run.phases[n] is Finished,
        0 <= j < run.before[0].tds@.len(),
    ensures
        exists|m: int|
            {
                let t = run.before[0].tds@[j];
                let token = run.inputs[m + 1];
                &&& #[trigger] td_flushed(run, n, j, m)
                &&& Td { token, ..t }.wf() ==> run.after[n - 1].tds@[j].transferred()
                    == t.last_transfer_size - td::token_total(token)
            },
{
    lemma_flush_progress(run, n);
    assert(is_flushed(run, n, j));
    let m = choose|m: int| td_flushed(run, n, j, m);
    td::lemma_with_status(run.before[0].tds@[j].returned(run.inputs[m + 1]).token, 0);
    assert(td_flushed(run, n, j, m));
}

/// A run of a hand-off: the endpoint before each step and after it, the hand-off, and what
/// was asked and answered.
pub struct HandoffRun {
    pub before: Seq<Endpoint>,
    pub after: Seq<Endpoint>,
    pub handoffs: Seq<Handoff>,
    pub inputs: Seq<u32>,
    pub actions: Seq<Action>,
}

impl HandoffRun {
    pub open spec fn possible(self) -> bool {
        let n = self.inputs.len();
        &&& self.before.len() == n
        &&& self.after.len() == n
        &&& self.actions.len() == n
        &&& self.handoffs.len() == n + 1
        &&& is_start(self.handoffs[0])
        &&& forall|i: int|
            0 <= i < n ==> (#[trigger] self.handoffs[i]).stepped(
                self.handoffs[i + 1],
                self.before[i],
                self.after[i],
                self.inputs[i],
                self.actions[i],
            )
        &&& forall|i: int|
            0 <= i < n ==> (#[trigger] self.handoffs[i]).wf(self.before[i])
        &&& forall|i: int|
            0 < i < n ==> performed(
                self.actions[i - 1],
                self.after[i - 1],
                #[trigger] self.before[i],
            )
    }
}

/// The overlay links to the chain, with an empty STATUS field.
pub open spec fn overlay_has_chain(handoff: Handoff, ep: Endpoint) -> bool {
    &&& ep.qh.overlay.next == ep.tds@[handoff.head as int].address
    &&& ep.qh.overlay.spec_status().bits == 0
}

/// The previous tail links to the chain.
pub open spec fn tail_has_chain(handoff: Handoff, ep: Endpoint) -> bool {
    handoff.prev_tail matches Some(tail) && ep.tds@[tail as int].next
        == ep.tds@[handoff.head as int].address
}

/// Once a hand-off is done, the controller can get to the chain: through the overlay, with
/// which the endpoint was primed, or through the link of the previous tail. This needs a
/// previous tail wherever the endpoint was found active.
pub proof fn law_handoff_publishes_the_chain(run: HandoffRun, n: int)
    requires
        run.possible(),
        0 < n <= run.inputs.len(),
        forall|i: int|
            0 <= i < n && (#[trigger] run.handoffs[i]).phase is LinkTail
                ==> run.handoffs[i].prev_tail is Some,
    ensures
        ({
            let handoff = run.handoffs[n];
            let ep = run.after[n - 1];
            let phase = handoff.phase;
            &&& phase is CleanQh || phase is PrimeBarrier || phase is Prime || phase is PrimeWait
                || phase is PrimeCheck ==> overlay_has_chain(handoff, ep)
            &&& phase is ReadPrime || phase is CheckPrime || phase is TripRead || phase is TripCheck
                || phase is TripConfirm || phase is TripDone ==> tail_has_chain(handoff, ep)
            &&& phase is Finished ==> overlay_has_chain(handoff, ep) || tail_has_chain(handoff, ep)
        }),
    decreases n,
{
    let i = n - 1;
    assert(run.handoffs[i].stepped(
        run.handoffs[i + 1],
        run.before[i],
        run.after[i],
        run.inputs[i],
        run.actions[i],
    ));
    assert(run.handoffs[i].wf(run.before[i]));
    if i > 0 {
        law_handoff_publishes_the_chain(run, i);
        assert(performed(run.actions[i - 1], run.after[i - 1], run.before[i]));
        assert(run.handoffs[i - 1].stepped(
            run.handoffs[i],
            run.before[i - 1],
            run.after[i - 1],
            run.inputs[i - 1],
            run.actions[i - 1],
        ));
    }
    td::lemma_with_status(run.before[i].qh.overlay.token, 0);
}

/// A hand-off changes nothing but the link and the token of the overlay, and the link of
/// the previous tail. The queue, and every other descriptor, stay as they are.
pub proof fn law_handoff_keeps_the_rest(run: HandoffRun, n: int, j: int)
    requires
        run.possible(),
        0 < n <= run.inputs.len(),
        0 <= j < run.before[0].tds@.len(),
    ensures
        ({
            let start = run.before[0];
            let now = run.after[n - 1];
            &&& identity_kept(start, now)
            &&& now == (Endpoint { qh: now.qh, tds: now.tds, ..start })
            &&& now.tds@[j] == (Td { next: now.tds@[j].next, ..start.tds@[j] })
            &&& run.handoffs[0].prev_tail != Some(j as usize) ==> now.tds@[j] == start.tds@[j]
            &&& run.handoffs[n] == (Handoff { phase: run.handoffs[n].phase, ..run.handoffs[0] })
        }),
    decreases n,
{
    let i = n - 1;
    assert(run.handoffs[i].stepped(
        run.handoffs[i + 1],
        run.before[i],
        run.after[i],
        run.inputs[i],
        run.actions[i],
    ));
    assert(run.handoffs[i].wf(run.before[i]));
    if i > 0 {
        law_handoff_keeps_the_rest(run, i, j);
        assert(performed(run.actions[i - 1], run.after[i - 1], run.before[i]));
    }
}

/// What a control register holds after an access to it.
pub open spec fn register_after(endptctrl: u32, action: Action) -> u32 {
    match action {
        Action::Modify(_, mask, value) => registers::modified(endptctrl, mask, value),
        _ => endptctrl,
    }
}

/// The half of a control register that belongs to a direction.
pub open spec fn half(endptctrl: u32, dir: UsbDirection) -> int {
    match dir {
        UsbDirection::Out => endptctrl as int % 0x1_0000,
        UsbDirection::In => endptctrl as int / 0x1_0000,
    }
}

/// The type field of a direction.
pub open spec fn type_of(endptctrl: u32, dir: UsbDirection) -> int {
    (half(endptctrl, dir) / 4) % 4
}

/// An endpoint is stalled after it was stalled, and not stalled after it was unstalled. It
/// stays enabled or disabled, and the endpoint of the other direction is left alone.
pub proof fn law_stalling_takes_effect(
    ep: Endpoint,
    endptctrl: u32,
    stall: bool,
    other: UsbDirection,
)
    requires
        other != ep.address.spec_direction(),
    ensures
        ({
            let after = register_after(endptctrl, ep.stalling(stall));
            &&& ep.stalled(after) == stall
            &&& ep.enabled(after) == ep.enabled(endptctrl)
            &&& half(after, other) == half(endptctrl, other)
        }),
{
    let v: u32 = endptctrl;
    assert({
        &&& (((v & !0x1_0000u32) | 0x1_0000u32) / 0x1_0000) % 2 == 1
        &&& (((v & !0x1_0000u32) | 0u32) / 0x1_0000) % 2 == 0
        &&& (((v & !0x1_0000u32) | 0x1_0000u32) / 0x80_0000) % 2 == (v / 0x80_0000) % 2
        &&& (((v & !0x1_0000u32) | 0u32) / 0x80_0000) % 2 == (v / 0x80_0000) % 2
        &&& ((v & !0x1_0000u32) | 0x1_0000u32) % 0x1_0000 == v % 0x1_0000
        &&& ((v & !0x1_0000u32) | 0u32) % 0x1_0000 == v % 0x1_0000
    }) by (bit_vector);
    assert({
        &&& (((v & !1u32) | 1u32) / 1) % 2 == 1
        &&& (((v & !1u32) | 0u32) / 1) % 2 == 0
        &&& (((v & !1u32) | 1u32) / 0x80) % 2 == (v / 0x80) % 2
        &&& (((v & !1u32) | 0u32) / 0x80) % 2 == (v / 0x80) % 2
        &&& ((v & !1u32) | 1u32) / 0x1_0000 == v / 0x1_0000
        &&& ((v & !1u32) | 0u32) / 0x1_0000 == v / 0x1_0000
    }) by (bit_vector);
}

/// An endpoint is enabled after it was enabled, with its type, and stalled or not as
/// before. The endpoint of the other direction is left alone.
pub proof fn law_enabling_takes_effect(ep: Endpoint, endptctrl: u32, other: UsbDirection)
    requires
        ep.address.spec_index() != 0,
        other != ep.address.spec_direction(),
    ensures
        ep.enabling() matches Some(action) && {
            let after = register_after(endptctrl, action);
            &&& ep.enabled(after)
            &&& type_of(after, ep.address.spec_direction()) == usb::raw_endpoint_type(ep.kind)
            &&& ep.stalled(after) == ep.stalled(endptctrl)
            &&& half(after, other) == half(endptctrl, other)
        },
{
    let v: u32 = endptctrl;
    let k: u32 = usb::raw_endpoint_type(ep.kind);
    let tx: u32 = (0xC0_0000 + k * 0x4_0000) as u32;
    let rx: u32 = (0xC0 + k * 4) as u32;
    assert({
        &&& (((v & !0xCC_0000u32) | tx) / 0x80_0000) % 2 == 1
        &&& ((((v & !0xCC_0000u32) | tx) / 0x1_0000) / 4) % 4 == k
        &&& (((v & !0xCC_0000u32) | tx) / 0x1_0000) % 2 == (v / 0x1_0000) % 2
        &&& ((v & !0xCC_0000u32) | tx) % 0x1_0000 == v % 0x1_0000
    }) by (bit_vector)
        requires
            k <= 3,
            tx == 0xC0_0000 + k * 0x4_0000,
    ;
    assert({
        &&& (((v & !0xCCu32) | rx) / 0x80) % 2 == 1
        &&& ((((v & !0xCCu32) | rx) % 0x1_0000) / 4) % 4 == k
        &&& (((v & !0xCCu32) | rx) / 1) % 2 == (v / 1) % 2
        &&& ((v & !0xCCu32) | rx) / 0x1_0000 == v / 0x1_0000
    }) by (bit_vector)
        requires
            k <= 3,
            rx == 0xC0 + k * 4,
    ;
}

/// An endpoint is disabled after it was initialized, with the bulk type, and stalled or not
/// as before. The endpoint of the other direction is left alone.
pub proof fn law_initializing_takes_effect(ep: Endpoint, endptctrl: u32, other: UsbDirection)
    requires
        ep.address.spec_index() != 0,
        other != ep.address.spec_direction(),
    ensures
        ep.initializing() matches Some(action) && {
            let after = register_after(endptctrl, action);
            &&& !ep.enabled(after)
            &&& type_of(after, ep.address.spec_direction()) == usb::raw_endpoint_type(
                EndpointType::Bulk,
            )
            &&& ep.stalled(after) == ep.stalled(endptctrl)
            &&& half(after, other) == half(endptctrl, other)
        },
{
    let v: u32 = endptctrl;
    assert({
        &&& (((v & !0x8C_0000u32) | 0x8_0000u32) / 0x80_0000) % 2 == 0
        &&& ((((v & !0x8C_0000u32) | 0x8_0000u32) / 0x1_0000) / 4) % 4 == 2
        &&& (((v & !0x8C_0000u32) | 0x8_0000u32) / 0x1_0000) % 2 == (v / 0x1_0000) % 2
        &&& ((v & !0x8C_0000u32) | 0x8_0000u32) % 0x1_0000 == v % 0x1_0000
    }) by (bit_vector);
    assert({
        &&& (((v & !0x8Cu32) | 0x8u32) / 0x80) % 2 == 0
        &&& ((((v & !0x8Cu32) | 0x8u32) % 0x1_0000) / 4) % 4 == 2
        &&& (((v & !0x8Cu32) | 0x8u32) / 1) % 2 == (v / 1) % 2
        &&& ((v & !0x8Cu32) | 0x8u32) / 0x1_0000 == v / 0x1_0000
    }) by (bit_vector);
}

/// The control endpoint needs no access to be enabled, and is enabled whatever its control
/// register holds.
pub proof fn law_control_endpoint_is_enabled(ep: Endpoint, endptctrl: u32)
    requires
        ep.address.spec_index() == 0,
    ensures
        ep.enabled(endptctrl),
        ep.enabling() is None,
        ep.initializing() is None,
{
}

} // verus!
