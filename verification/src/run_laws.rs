//! What the controller sees of a hand-off, a flush or a setup read: which action follows
//! which, given what was read.

use crate::control::SetupPhase;
use crate::controller_laws;
use crate::controller_laws::{Answer, FlushRun, HandoffRun};
use crate::endpoint::Endpoint;
use crate::handoff::{Handoff, Phase};
use crate::registers;
use crate::registers::{Action, Register, USBCMD_ATDTW, USBCMD_SUTW};
use crate::td::Td;
use crate::word_laws;
use vstd::prelude::*;

verus! {

/// Setting the tripwire for adding a descriptor.
pub open spec fn arm() -> Action {
    Action::Modify(Register::UsbCmd, USBCMD_ATDTW, USBCMD_ATDTW)
}

/// Resetting it.
pub open spec fn disarm() -> Action {
    Action::Modify(Register::UsbCmd, USBCMD_ATDTW, 0)
}

/// Whatever a hand-off writes to a register is the endpoint's own bit, and goes to
/// ENDPTPRIME.
pub proof fn law_prime_is_the_endpoints_bit(
    start: Handoff,
    position: int,
    answers: Seq<Answer>,
    i: int,
)
    requires
        0 <= position < 32,
        0 <= i < answers.len(),
    ensures
        controller_laws::handoff_actions(start, position, answers)[i] matches Action::Write(
            register,
            value,
        ) ==> {
            &&& register == Register::EndptPrime
            &&& value == registers::bit(position)
            &&& value == 1u32 << (position as u32)
        },
    decreases answers.len(),
{
    let front = answers.drop_last();
    controller_laws::lemma_actions_len(start, position, front);
    registers::lemma_mask_tests_bit(0, position);
    if i + 1 < answers.len() {
        law_prime_is_the_endpoints_bit(start, position, front, i);
    }
}

/// A run of an endpoint that the controller has.
pub open spec fn handoff_run(run: HandoffRun) -> bool {
    &&& run.possible()
    &&& run.inputs.len() > 0
    &&& run.before[0].address.raw & 0x7F < 8
}

/// A run that hands over the chain of a submission.
pub open spec fn chain_run(run: HandoffRun) -> bool {
    &&& handoff_run(run)
    &&& run.handoffs[0].phase == Phase::StoreChain(0)
    &&& !run.handoffs[0].clean
}

/// A run that hands over a single packet.
pub open spec fn packet_run(run: HandoffRun) -> bool {
    &&& handoff_run(run)
    &&& run.handoffs[0].phase == Phase::StorePacket
    &&& run.handoffs[0].clean
}

/// The endpoint's own bit.
pub open spec fn run_bit(run: HandoffRun) -> u32 {
    word_laws::own_bit(run.before[0].address.raw)
}

/// A step of a run, with the bits that it looks at.
proof fn lemma_handoff_step(run: HandoffRun, i: int)
    requires
        handoff_run(run),
        0 <= i < run.inputs.len(),
    ensures
        run.before[i].address == run.before[0].address,
        run.handoffs[i] == (Handoff { phase: run.handoffs[i].phase, ..run.handoffs[0] }),
        run.handoffs[i + 1] == (Handoff { phase: run.handoffs[i + 1].phase, ..run.handoffs[0] }),
        (run.handoffs[i + 1].phase, run.actions[i]) == run.handoffs[i].next_at(
            run.before[0].position(),
            run.before[i].qh.overlay.is_active(),
            run.inputs[i],
        ),
        run.handoffs[i].stepped(
            run.handoffs[i + 1],
            run.before[i],
            run.after[i],
            run.inputs[i],
            run.actions[i],
        ),
        run.handoffs[i].wf(run.before[i]),
        registers::bit(run.before[0].position()) == run_bit(run),
        registers::bit_set(run.inputs[i], run.before[0].position()) <==> run.inputs[i] & run_bit(
            run,
        ) != 0,
        registers::add_td_tripwire(run.inputs[i]) <==> run.inputs[i] & USBCMD_ATDTW != 0,
        run.before[i].qh.overlay.is_active() <==> run.before[i].qh.overlay.token & 0x80 != 0,
        run_bit(run) != 0,
    decreases i,
{
    if i > 0 {
        lemma_handoff_step(run, i - 1);
        assert(controller_laws::performed(run.actions[i - 1], run.after[i - 1], run.before[i]));
    }
    assert(run.handoffs[i].stepped(
        run.handoffs[i + 1],
        run.before[i],
        run.after[i],
        run.inputs[i],
        run.actions[i],
    ));
    assert(run.handoffs[i].wf(run.before[i]));
    word_laws::law_address_bits(run.before[0].address);
    word_laws::law_position(run.before[0], run.inputs[i]);
    word_laws::law_endpoint_bit(run.before[0].address, 0);
    word_laws::law_tripwire_bits(run.inputs[i]);
    word_laws::law_td_bits(run.before[i].qh.overlay);
}

/// An action that is a hand-off's business: it primes the endpoint with `own`, changes
/// nothing of USBCMD but the tripwire, stores descriptors, the overlay or the link of the
/// previous tail, and reads three registers.
pub open spec fn is_own_business(start: Handoff, own: u32, action: Action) -> bool {
    match action {
        Action::Write(register, value) => register == Register::EndptPrime && value == own,
        Action::Modify(register, mask, value) => register == Register::UsbCmd && mask
            == USBCMD_ATDTW && (value == USBCMD_ATDTW || value == 0),
        Action::Read(register) => register == Register::EndptStat || register
            == Register::EndptPrime || register == Register::UsbCmd,
        Action::StoreLink(t) => start.prev_tail == Some(t),
        Action::CleanTd(t) => t == start.head,
        Action::CleanQh => start.clean,
        Action::StoreTd(_) => true,
        Action::StoreOverlay => true,
        Action::LoadOverlay => true,
        Action::Barrier => true,
        Action::Done => true,
        _ => false,
    }
}

proof fn lemma_own_business(handoff: Handoff, position: int, active: bool, input: u32)
    requires
        handoff.phase is CleanQh ==> handoff.clean,
    ensures
        is_own_business(
            handoff,
            registers::bit(position),
            handoff.next_at(position, active, input).1,
        ),
{
}

/// A hand-off touches nothing that is not its business.
pub proof fn law_handoff_minds_its_own_business(run: HandoffRun, i: int)
    requires
        handoff_run(run),
        0 <= i < run.inputs.len(),
    ensures
        is_own_business(run.handoffs[0], run_bit(run), run.actions[i]),
{
    lemma_handoff_step(run, i);
    if i > 0 {
        lemma_handoff_step(run, i - 1);
    }
    let active = run.before[i].qh.overlay.is_active();
    let position = run.before[0].position();
    assert(run.handoffs[i].phase is CleanQh ==> run.handoffs[i].clean);
    lemma_own_business(run.handoffs[i], position, active, run.inputs[i]);
}

proof fn lemma_storing(run: HandoffRun, i: int)
    requires
        chain_run(run),
        0 <= i < run.inputs.len(),
        i <= run.handoffs[0].count,
    ensures
        1 <= run.handoffs[0].count <= 8,
        i < run.handoffs[0].count ==> run.handoffs[i].phase == Phase::StoreChain(i as usize),
        i == run.handoffs[0].count ==> run.handoffs[i].phase == Phase::ReadStat,
    decreases i,
{
    lemma_handoff_step(run, 0);
    if i > 0 {
        lemma_storing(run, i - 1);
        lemma_handoff_step(run, i - 1);
    }
}

/// A chain is stored first, descriptor by descriptor round the pool. Then ENDPTSTAT is
/// read.
pub proof fn law_chain_comes_first(run: HandoffRun, i: int)
    requires
        chain_run(run),
        0 <= i < run.inputs.len(),
        i <= run.handoffs[0].count,
    ensures
        i < run.handoffs[0].count ==> run.actions[i] == Action::StoreTd(
            ((run.handoffs[0].head + i) % 8) as usize,
        ),
        i == run.handoffs[0].count ==> run.actions[i] == Action::Read(Register::EndptStat),
{
    lemma_storing(run, i);
    lemma_handoff_step(run, i);
    word_laws::law_pool_is_circular(run.handoffs[0].head as int, i);
}

/// What follows once ENDPTSTAT was read. If the endpoint's bit is clear, the overlay is
/// loaded; if that is not active either, the endpoint is idle, and the overlay is pointed
/// to the chain. If either says that the endpoint is active, a barrier comes, and the
/// previous tail is linked to the chain.
pub proof fn law_idle_is_primed_and_active_is_linked(run: HandoffRun)
    requires
        chain_run(run),
    ensures
        ({
            let c = run.handoffs[0].count as int;
            let n = run.inputs.len();
            let primed = run.inputs[c + 1] & run_bit(run) != 0;
            let busy = run.before[c + 2].qh.overlay.token & 0x80 != 0;
            let link = match run.handoffs[0].prev_tail {
                Some(tail) => Action::StoreLink(tail),
                None => Action::Read(Register::EndptPrime),
            };
            &&& c + 1 < n && primed ==> run.actions[c + 1] is Barrier
            &&& c + 2 < n && primed ==> run.actions[c + 2] == link
            &&& c + 1 < n && !primed ==> run.actions[c + 1] is LoadOverlay
            &&& c + 2 < n && !primed && busy ==> run.actions[c + 2] is Barrier
            &&& c + 3 < n && !primed && busy ==> run.actions[c + 3] == link
            &&& c + 2 < n && !primed && !busy ==> run.actions[c + 2] is StoreOverlay
        }),
{
    let c = run.handoffs[0].count as int;
    let n = run.inputs.len();
    if c + 1 < n {
        lemma_storing(run, c);
        lemma_handoff_step(run, c);
        lemma_handoff_step(run, c + 1);
    }
    if c + 2 < n {
        lemma_handoff_step(run, c + 2);
    }
    if c + 3 < n {
        lemma_handoff_step(run, c + 3);
    }
}

proof fn lemma_packet_phase(run: HandoffRun, i: int)
    requires
        packet_run(run),
        0 <= i < run.inputs.len(),
    ensures
        ({
            let phase = run.handoffs[i].phase;
            &&& i == 0 ==> phase is StorePacket
            &&& i == 1 ==> phase is CleanPacket
            &&& i == 2 ==> phase is LoadOverlay
            &&& i == 3 ==> phase is SetOverlay
            &&& i == 4 ==> phase is CleanQh
            &&& i == 5 ==> phase is PrimeBarrier
            &&& i == 6 ==> phase is Prime
            &&& i == 7 ==> phase is PrimeWait
            &&& i > 7 ==> phase is PrimeCheck || phase is Finished
        }),
    decreases i,
{
    if i > 0 {
        lemma_packet_phase(run, i - 1);
        lemma_handoff_step(run, i - 1);
    }
}

/// The hand-off of a single packet: its descriptor is stored and cleaned, the overlay is
/// loaded and pointed to it, the queue head is cleaned, and behind a barrier the endpoint
/// is primed.
pub proof fn law_packet_is_primed(run: HandoffRun, i: int)
    requires
        packet_run(run),
        0 <= i < run.inputs.len(),
    ensures
        i == 0 ==> run.actions[i] == Action::StoreTd(run.handoffs[0].head),
        i == 1 ==> run.actions[i] == Action::CleanTd(run.handoffs[0].head),
        i == 2 ==> run.actions[i] is LoadOverlay,
        i == 3 ==> run.actions[i] is StoreOverlay,
        i == 4 ==> run.actions[i] is CleanQh,
        i == 5 ==> run.actions[i] is Barrier,
        i == 6 ==> run.actions[i] == Action::Write(Register::EndptPrime, run_bit(run)),
        i == 7 ==> run.actions[i] == Action::Read(Register::EndptPrime),
        i > 7 ==> run.actions[i] == Action::Read(Register::EndptPrime) || run.actions[i] is Done,
{
    lemma_packet_phase(run, i);
    lemma_handoff_step(run, i);
}

/// Whenever the overlay is stored, it links to the head of the chain and has an empty
/// STATUS field, with all other bits of its token as they were. It changes at no other
/// step.
pub proof fn law_overlay_takes_the_chain(run: HandoffRun, i: int)
    requires
        handoff_run(run),
        0 <= i < run.inputs.len(),
    ensures
        run.actions[i] is StoreOverlay ==> {
            let head = run.before[i].tds@[run.handoffs[0].head as int];
            let overlay = run.before[i].qh.overlay;
            run.after[i].qh.overlay == (Td {
                next: head.address,
                token: overlay.token & 0xFFFF_FF00,
                ..overlay
            })
        },
        !(run.actions[i] is StoreOverlay) ==> run.after[i].qh == run.before[i].qh,
{
    lemma_handoff_step(run, i);
    word_laws::law_cleared_td(run.before[i].qh.overlay);
}

/// Whenever the link of the previous tail is stored, the tail links to the head of the
/// chain, and nothing else of the pool has changed. The pool changes at no other step.
pub proof fn law_tail_takes_the_chain(run: HandoffRun, i: int)
    requires
        handoff_run(run),
        0 <= i < run.inputs.len(),
    ensures
        run.actions[i] matches Action::StoreLink(t) ==> {
            let head = run.before[i].tds@[run.handoffs[0].head as int];
            &&& t < run.before[i].tds@.len()
            &&& run.after[i].tds@ == run.before[i].tds@.update(
                t as int,
                Td { next: head.address, ..run.before[i].tds@[t as int] },
            )
        },
        !(run.actions[i] is StoreLink) ==> run.after[i].tds@ == run.before[i].tds@,
{
    lemma_handoff_step(run, i);
}

/// Once the overlay of a chain is stored, a barrier comes, then the write that primes the
/// endpoint, and then ENDPTPRIME is read. So a hand-off that is done has primed the
/// endpoint, if it has pointed the overlay to the chain.
pub proof fn law_stored_overlay_is_primed(run: HandoffRun, i: int, j: int)
    requires
        chain_run(run),
        0 <= i < run.inputs.len(),
        run.actions[i] is StoreOverlay,
        i < j < run.inputs.len(),
    ensures
        j == i + 1 ==> run.actions[j] is Barrier,
        j == i + 2 ==> run.actions[j] == Action::Write(Register::EndptPrime, run_bit(run)),
        j == i + 3 ==> run.actions[j] == Action::Read(Register::EndptPrime),
        run.actions[j] is Done ==> i + 2 < j && run.actions[i + 2] == Action::Write(
            Register::EndptPrime,
            run_bit(run),
        ),
{
    lemma_handoff_step(run, i);
    lemma_handoff_step(run, i + 1);
    if i + 2 < run.inputs.len() {
        lemma_handoff_step(run, i + 2);
    }
    if i + 3 < run.inputs.len() {
        lemma_handoff_step(run, i + 3);
    }
}

proof fn lemma_waiting(run: HandoffRun, k: int, j: int)
    requires
        handoff_run(run),
        0 <= k < j < run.inputs.len(),
        run.actions[k] is Write,
    ensures
        ({
            let phase = run.handoffs[j].phase;
            &&& j == k + 1 ==> phase is PrimeWait
            &&& j > k + 1 ==> phase is PrimeCheck || phase is Finished
            &&& j > k + 1 ==> (phase is PrimeCheck <==> run.actions[j - 1] == Action::Read(
                Register::EndptPrime,
            ))
            &&& j > k + 1 ==> (phase is Finished <==> run.actions[j - 1] is Done)
        }),
    decreases j,
{
    lemma_handoff_step(run, j - 1);
    if j > k + 1 {
        lemma_waiting(run, k, j - 1);
    }
}

/// Once the endpoint is primed, ENDPTPRIME is read until the endpoint's own bit is clear,
/// and then the hand-off is done. Other bits of the register do not matter.
pub proof fn law_primed_until_fetched(run: HandoffRun, k: int, j: int)
    requires
        handoff_run(run),
        0 <= k < j < run.inputs.len(),
        run.actions[k] is Write,
    ensures
        j == k + 1 ==> run.actions[j] == Action::Read(Register::EndptPrime),
        j > k + 1 && run.actions[j - 1] == Action::Read(Register::EndptPrime) && run.inputs[j]
            & run_bit(run) != 0 ==> run.actions[j] == Action::Read(Register::EndptPrime),
        j > k + 1 && run.actions[j - 1] == Action::Read(Register::EndptPrime) && run.inputs[j]
            & run_bit(run) == 0 ==> run.actions[j] is Done,
        j > k + 1 && run.actions[j - 1] is Done ==> run.actions[j] is Done,
{
    lemma_waiting(run, k, j);
    lemma_handoff_step(run, j);
}

/// What follows once the previous tail links to the chain: ENDPTPRIME is read. If the
/// controller is about to prime this endpoint, the hand-off is done. If not, the tripwire
/// is set.
pub proof fn law_link_is_checked(run: HandoffRun, i: int)
    requires
        handoff_run(run),
        0 <= i < run.inputs.len(),
        run.actions[i] is StoreLink,
    ensures
        i > 0 && run.actions[i - 1] is Barrier,
        i + 1 < run.inputs.len() ==> run.actions[i + 1] == Action::Read(Register::EndptPrime),
        i + 2 < run.inputs.len() && run.inputs[i + 2] & run_bit(run) != 0
            ==> run.actions[i + 2] is Done,
        i + 2 < run.inputs.len() && run.inputs[i + 2] & run_bit(run) == 0 ==> run.actions[i + 2]
            == arm(),
{
    lemma_handoff_step(run, 0);
    lemma_handoff_step(run, i);
    if i > 0 {
        lemma_handoff_step(run, i - 1);
    }
    if i + 1 < run.inputs.len() {
        lemma_handoff_step(run, i + 1);
    }
    if i + 2 < run.inputs.len() {
        lemma_handoff_step(run, i + 2);
    }
}

/// What follows once ENDPTPRIME is read on the way of an active endpoint, which is right
/// behind the barrier or the link: if the controller is about to prime this endpoint, the
/// hand-off is done. If not, the tripwire is set.
pub proof fn law_priming_controller_suffices(run: HandoffRun, i: int)
    requires
        handoff_run(run),
        0 < i && i + 1 < run.inputs.len(),
        run.actions[i] == Action::Read(Register::EndptPrime),
        run.actions[i - 1] is Barrier || run.actions[i - 1] is StoreLink,
    ensures
        run.inputs[i + 1] & run_bit(run) != 0 ==> run.actions[i + 1] is Done,
        run.inputs[i + 1] & run_bit(run) == 0 ==> run.actions[i + 1] == arm(),
{
    lemma_handoff_step(run, i - 1);
    lemma_handoff_step(run, i);
    lemma_handoff_step(run, i + 1);
}

/// A hand-off that is done stays done, and changes nothing any more.
pub proof fn law_done_is_done(run: HandoffRun, i: int)
    requires
        handoff_run(run),
        0 <= i && i + 1 < run.inputs.len(),
        run.actions[i] is Done,
    ensures
        run.handoffs[i + 1].phase is Finished,
        run.actions[i + 1] is Done,
        run.after[i + 1].qh == run.before[i + 1].qh,
        run.after[i + 1].tds@ == run.before[i + 1].tds@,
{
    lemma_handoff_step(run, i);
    lemma_handoff_step(run, i + 1);
}

/// What follows once the tripwire is set: ENDPTSTAT is sampled, and USBCMD is read. If the
/// tripwire is gone, it is set again, and the sample counts for nothing. If it is still
/// there, it is reset.
pub proof fn law_sample_behind_the_tripwire(run: HandoffRun, i: int)
    requires
        chain_run(run),
        0 <= i < run.inputs.len(),
        run.actions[i] == arm(),
    ensures
        i + 1 < run.inputs.len() ==> run.actions[i + 1] == Action::Read(Register::EndptStat),
        i + 2 < run.inputs.len() ==> run.actions[i + 2] == Action::Read(Register::UsbCmd),
        i + 3 < run.inputs.len() && run.inputs[i + 3] & USBCMD_ATDTW == 0 ==> run.actions[i + 3]
            == arm(),
        i + 3 < run.inputs.len() && run.inputs[i + 3] & USBCMD_ATDTW != 0 ==> run.actions[i + 3]
            == disarm(),
{
    lemma_handoff_step(run, i);
    if i + 1 < run.inputs.len() {
        lemma_handoff_step(run, i + 1);
    }
    if i + 2 < run.inputs.len() {
        lemma_handoff_step(run, i + 2);
    }
    if i + 3 < run.inputs.len() {
        lemma_handoff_step(run, i + 3);
    }
}

/// What follows once the tripwire is reset: if the sample showed this endpoint at work, the
/// hand-off is done, because the controller will see the link. If not, the overlay is
/// loaded and pointed to the chain after all.
pub proof fn law_sample_decides(run: HandoffRun, i: int)
    requires
        chain_run(run),
        0 <= i < run.inputs.len(),
        run.actions[i] == disarm(),
    ensures
        i > 2,
        run.actions[i - 3] == arm(),
        run.actions[i - 2] == Action::Read(Register::EndptStat),
        run.actions[i - 1] == Action::Read(Register::UsbCmd),
        i + 1 < run.inputs.len() && run.inputs[i - 1] & run_bit(run) != 0
            ==> run.actions[i + 1] is Done,
        i + 1 < run.inputs.len() && run.inputs[i - 1] & run_bit(run) == 0
            ==> run.actions[i + 1] is LoadOverlay,
        i + 2 < run.inputs.len() && run.inputs[i - 1] & run_bit(run) == 0
            ==> run.actions[i + 2] is StoreOverlay,
        i + 2 < run.inputs.len() && run.inputs[i - 1] & run_bit(run) != 0
            ==> run.actions[i + 2] is Done,
{
    lemma_sample_came_first(run, i);
    lemma_sample_is_followed(run, i);
}

proof fn lemma_sample_came_first(run: HandoffRun, i: int)
    requires
        chain_run(run),
        0 <= i < run.inputs.len(),
        run.actions[i] == disarm(),
    ensures
        i > 2,
        run.actions[i - 3] == arm(),
        run.actions[i - 2] == Action::Read(Register::EndptStat),
        run.actions[i - 1] == Action::Read(Register::UsbCmd),
        run.handoffs[i].phase == Phase::TripConfirm(run.inputs[i - 1]),
        registers::bit_set(run.inputs[i - 1], run.before[0].position()) <==> run.inputs[i - 1]
            & run_bit(run) != 0,
{
    lemma_handoff_step(run, i);
    assert(run.handoffs[i].phase is TripConfirm);
    assert(i > 0);
    lemma_handoff_step(run, i - 1);
    assert(run.handoffs[i - 1].phase is TripCheck);
    assert(i > 1);
    lemma_handoff_step(run, i - 2);
    assert(run.handoffs[i - 2].phase is TripRead);
    assert(i > 2);
    lemma_handoff_step(run, i - 3);
}

proof fn lemma_sample_is_followed(run: HandoffRun, i: int)
    requires
        chain_run(run),
        0 < i < run.inputs.len(),
        run.actions[i] == disarm(),
        run.handoffs[i].phase == Phase::TripConfirm(run.inputs[i - 1]),
        registers::bit_set(run.inputs[i - 1], run.before[0].position()) <==> run.inputs[i - 1]
            & run_bit(run) != 0,
    ensures
        ({
            let active = run.inputs[i - 1] & run_bit(run) != 0;
            &&& i + 1 < run.inputs.len() && active ==> run.actions[i + 1] is Done
            &&& i + 1 < run.inputs.len() && !active ==> run.actions[i + 1] is LoadOverlay
            &&& i + 2 < run.inputs.len() && active ==> run.actions[i + 2] is Done
            &&& i + 2 < run.inputs.len() && !active ==> run.actions[i + 2] is StoreOverlay
        }),
{
    lemma_handoff_step(run, i);
    if i + 1 < run.inputs.len() {
        lemma_handoff_step(run, i + 1);
    }
    if i + 2 < run.inputs.len() {
        lemma_handoff_step(run, i + 2);
    }
}

/// A run of a flush of an endpoint that the controller has.
pub open spec fn flush_run(run: FlushRun) -> bool {
    &&& run.possible()
    &&& run.inputs.len() > 0
    &&& run.before[0].address.raw & 0x7F < 8
}

proof fn lemma_flush_run_step(run: FlushRun, i: int)
    requires
        flush_run(run),
        0 <= i < run.inputs.len(),
    ensures
        run.before[i].address == run.before[0].address,
        run.before[i].tds@.len() == run.before[0].tds@.len(),
        run.phases[i].stepped(
            run.phases[i + 1],
            run.before[i],
            run.after[i],
            run.inputs[i],
            run.actions[i],
        ),
        run.before[0].tds@.len() <= usize::MAX,
        registers::bit(run.before[i].position()) == word_laws::own_bit(
            run.before[0].address.raw,
        ),
        registers::bit_set(run.inputs[i], run.before[i].position()) <==> run.inputs[i]
            & word_laws::own_bit(run.before[0].address.raw) != 0,
    decreases i,
{
    assert(run.before[0].tds.len() == run.before[0].tds@.len());
    if i > 0 {
        lemma_flush_run_step(run, i - 1);
        assert(controller_laws::performed(run.actions[i - 1], run.after[i - 1], run.before[i]));
    }
    assert(run.phases[i].stepped(
        run.phases[i + 1],
        run.before[i],
        run.after[i],
        run.inputs[i],
        run.actions[i],
    ));
    word_laws::law_address_bits(run.before[0].address);
    word_laws::law_position(run.before[0], run.inputs[i]);
}

/// A flush begins with the endpoint's own bit in ENDPTFLUSH, and reads the register until
/// that bit is clear. Until then nothing of the endpoint changes. Then the queue is empty,
/// and the flush turns to the descriptors.
pub proof fn law_flush_waits_for_its_own_bit(run: FlushRun, i: int)
    requires
        flush_run(run),
        0 <= i < run.inputs.len(),
    ensures
        ({
            let own = word_laws::own_bit(run.before[0].address.raw);
            let waiting = i > 0 && run.actions[i - 1] == Action::Read(Register::EndptFlush);
            &&& i == 0 ==> run.actions[i] == Action::Write(Register::EndptFlush, own)
                && run.after[i] == run.before[i]
            &&& i == 1 ==> run.actions[i] == Action::Read(Register::EndptFlush) && run.after[i]
                == run.before[i]
            &&& waiting && run.inputs[i] & own != 0 ==> run.actions[i] == Action::Read(
                Register::EndptFlush,
            ) && run.after[i] == run.before[i]
            &&& waiting && run.inputs[i] & own == 0 ==> {
                &&& run.after[i].q_len == 0
                &&& run.after[i].tds_in_use == 0
                &&& run.after[i].td_head == 0
                &&& run.after[i].q_head == 0
                &&& run.after[i].tds == run.before[i].tds
                &&& run.after[i].qh == run.before[i].qh
                &&& run.before[0].tds@.len() > 0 ==> run.actions[i] == Action::LoadToken(0)
                &&& run.before[0].tds@.len() == 0 ==> run.actions[i] is LoadOverlay
            }
            &&& i > 0 ==> !(run.actions[i] is Write)
        }),
{
    lemma_flush_run_step(run, 0);
    lemma_flush_run_step(run, i);
    if i > 0 {
        lemma_flush_run_step(run, i - 1);
        lemma_flush_starts_once(run, i);
    }
}

proof fn lemma_flush_starts_once(run: FlushRun, i: int)
    requires
        flush_run(run),
        0 < i < run.inputs.len(),
    ensures
        !(run.phases[i] is Start),
        run.phases[i] is Wait <==> i == 1,
    decreases i,
{
    lemma_flush_run_step(run, i - 1);
    if i > 1 {
        lemma_flush_starts_once(run, i - 1);
    }
}

/// For each descriptor a flush loads the token, clears the descriptor, and goes on to the
/// next one. Behind the last one it loads the overlay, stores it cleared, and is done.
pub proof fn law_flush_goes_through_the_pool(run: FlushRun, i: int)
    requires
        flush_run(run),
        0 < i < run.inputs.len(),
    ensures
        run.actions[i - 1] matches Action::LoadToken(t) ==> {
            &&& t < run.before[0].tds@.len()
            &&& run.actions[i] == Action::ClearTd(t)
            &&& run.after[i].tds@ == run.before[i].tds@.update(
                t as int,
                run.before[i].tds@[t as int].returned(run.inputs[i]).cleared(),
            )
        },
        run.actions[i - 1] matches Action::ClearTd(t) ==> {
            &&& t + 1 < run.before[0].tds@.len() ==> run.actions[i] == Action::LoadToken(
                (t + 1) as usize,
            )
            &&& t + 1 >= run.before[0].tds@.len() ==> run.actions[i] is LoadOverlay
        },
        run.actions[i - 1] is LoadOverlay ==> {
            let overlay = run.before[i].qh.overlay;
            &&& run.actions[i] is StoreOverlay
            &&& run.after[i].qh.overlay == (Td {
                next: 1,
                token: overlay.token & 0xFFFF_FF00,
                ..overlay
            })
        },
        run.actions[i - 1] is StoreOverlay ==> run.actions[i] is Done,
        run.actions[i - 1] is Done ==> run.actions[i] is Done && run.after[i] == run.before[i],
        !(run.actions[i] is ClearTd) ==> run.after[i].tds@ == run.before[i].tds@,
        !(run.actions[i] is StoreOverlay) ==> run.after[i].qh == run.before[i].qh,
{
    lemma_flush_run_step(run, i - 1);
    lemma_flush_run_step(run, i);
    word_laws::law_cleared_td(run.before[i].qh.overlay);
}

/// A run of reading a setup packet: the endpoint at each step, the phases, and what was
/// asked and answered.
pub struct SetupRun {
    pub endpoints: Seq<Endpoint>,
    pub phases: Seq<SetupPhase>,
    pub inputs: Seq<u32>,
    pub actions: Seq<Action>,
}

impl SetupRun {
    pub open spec fn possible(self) -> bool {
        let n = self.inputs.len();
        &&& n > 0
        &&& self.endpoints.len() == n
        &&& self.actions.len() == n
        &&& self.phases.len() == n + 1
        &&& self.phases[0] is Start
        &&& self.endpoints[0].address.raw & 0x7F < 8
        &&& forall|i: int|
            0 <= i < n ==> #[trigger] self.endpoints[i].address == self.endpoints[0].address
        &&& forall|i: int|
            0 <= i < n ==> (self.phases[i + 1], self.actions[i]) == (#[trigger] self.phases[i]).next(
                self.endpoints[i],
                self.inputs[i],
            )
    }
}

/// Setting the setup tripwire.
pub open spec fn setup_arm() -> Action {
    Action::Modify(Register::UsbCmd, USBCMD_SUTW, USBCMD_SUTW)
}

proof fn lemma_setup_step(run: SetupRun, i: int)
    requires
        run.possible(),
        0 <= i < run.inputs.len(),
    ensures
        (run.phases[i + 1], run.actions[i]) == run.phases[i].next(
            run.endpoints[i],
            run.inputs[i],
        ),
        registers::bit(run.endpoints[i].address.spec_index()) == 1u32 << ((
        run.endpoints[0].address.raw & 0x7F) as u32),
        registers::setup_tripwire(run.inputs[i]) <==> run.inputs[i] & USBCMD_SUTW != 0,
        i == 0 <==> run.phases[i] is Start,
        i == 1 <==> run.phases[i] is Arm,
    decreases i,
{
    assert(run.phases[i] == run.phases[i]);
    assert((run.phases[i + 1], run.actions[i]) == run.phases[i].next(
        run.endpoints[i],
        run.inputs[i],
    ));
    assert(run.endpoints[i].address == run.endpoints[0].address);
    word_laws::law_address_bits(run.endpoints[0].address);
    word_laws::law_setup_bit(run.endpoints[0].address, 0);
    word_laws::law_tripwire_bits(run.inputs[i]);
    if i > 0 {
        lemma_setup_step(run, i - 1);
    }
}

/// A setup packet is acknowledged first, by the endpoint's own bit. Then the tripwire is
/// set, the setup buffer is loaded, and USBCMD is read. If the tripwire is gone, it is set
/// and the buffer is loaded again. If it is still there, it is reset, and the packet that
/// was loaded last is the result.
pub proof fn law_setup_read(run: SetupRun, i: int)
    requires
        run.possible(),
        0 <= i < run.inputs.len(),
    ensures
        i == 0 <==> run.actions[i] is Write,
        i == 0 ==> run.actions[i] == Action::Write(
            Register::EndptSetupStat,
            1u32 << ((run.endpoints[0].address.raw & 0x7F) as u32),
        ),
        i == 1 ==> run.actions[i] == setup_arm(),
        i > 0 && run.actions[i - 1] == setup_arm() ==> run.actions[i] is LoadSetup,
        i > 0 && run.actions[i - 1] is LoadSetup ==> run.actions[i] == Action::Read(
            Register::UsbCmd,
        ),
        i > 0 && run.actions[i - 1] == Action::Read(Register::UsbCmd) && run.inputs[i]
            & USBCMD_SUTW == 0 ==> run.actions[i] == setup_arm(),
        i > 0 && run.actions[i - 1] == Action::Read(Register::UsbCmd) && run.inputs[i]
            & USBCMD_SUTW != 0 ==> {
            &&& run.actions[i] == Action::Modify(Register::UsbCmd, USBCMD_SUTW, 0)
            &&& run.phases[i + 1] == SetupPhase::Finished(run.endpoints[i - 1].qh.setup)
        },
        i > 0 && run.actions[i - 1] == Action::Modify(Register::UsbCmd, USBCMD_SUTW, 0)
            ==> run.actions[i] is Done && run.phases[i + 1] == run.phases[i],
        i > 0 && run.actions[i - 1] is Done ==> run.actions[i] is Done && run.phases[i + 1]
            == run.phases[i],
{
    lemma_setup_step(run, i);
    if i > 0 {
        lemma_setup_step(run, i - 1);
    }
}

} // verus!
