//! The calls that a run makes into its collaborators, as values that a
//! contract can speak of.
//!
//! Nothing is known of what a collaborator does. What a contract can say is
//! which calls were made, in which order, and that each found its arguments
//! as the call before it left them. The types here hold the arguments of
//! one call each, as they were handed over; of a mutable argument both what
//! was handed over and what became of it can be told.
use vstd::prelude::*;
use crate::cpu::Cpu;
use crate::ppu::{Mirroring, Ppu};
use crate::scheduler::Next;
use crate::screen::{Buttons, Color, ScreenWriter};

verus! {

/// The arguments of a call of `Ppu::set_buttons`.
pub struct Handing<'a, C: Cpu> {
    pub ppu: &'a mut C::Ppu,
    pub buttons: Buttons,
}

/// The arguments of a call of `Cpu::tick`.
pub struct Tick<'a, C: Cpu> {
    pub cpu: &'a mut C,
    pub ppu: &'a mut C::Ppu,
}

/// The arguments of a call of `Ppu::update`.
pub struct Update<'a, C: Cpu> {
    pub ppu: &'a mut C::Ppu,
    pub cpu: &'a mut C,
    pub writer: &'a mut ScreenWriter,
}

/// The arguments of a call of `Ppu::set_pointed_pixel`.
pub struct Pointing<'a, C: Cpu> {
    pub ppu: &'a mut C::Ppu,
    pub color: Color,
}

/// An update of the picture unit and, where a picture was shown after it,
/// the handing over of the colour under the pointer.
pub struct Refresh<'a, C: Cpu> {
    pub update: Update<'a, C>,
    pub pointing: Option<Pointing<'a, C>>,
}

/// The handing over of the buttons and the step of the processor that
/// follows it.
pub struct Attempt<'a, C: Cpu> {
    pub handing: Handing<'a, C>,
    pub tick: Tick<'a, C>,
}

/// A whole step: the handing over of the buttons, the step of the
/// processor, and the three updates of the picture unit that follow a step
/// that succeeded.
pub struct Round<'a, C: Cpu> {
    pub handing: Handing<'a, C>,
    pub tick: Tick<'a, C>,
    pub first: Refresh<'a, C>,
    pub second: Refresh<'a, C>,
    pub third: Refresh<'a, C>,
}

/// Whether `unit` is a picture unit as `Ppu::new` makes it for `mirroring`.
pub open spec fn is_new_unit<P: Ppu>(unit: P, mirroring: Mirroring) -> bool {
    call_ensures(P::new, (mirroring,), unit)
}

/// What the processor returned in a step of the scheduler that ended with
/// `outcome`.
pub open spec fn tick_outcome<E>(outcome: Result<Next, E>) -> Result<(), E> {
    match outcome {
        Ok(_) => Ok(()),
        Err(failure) => Err(failure),
    }
}

/// Whether the calls of `made` were made: `Ppu::update` returned from these
/// arguments, and so did `Ppu::set_pointed_pixel` where a colour was handed
/// over.
pub open spec fn is_refresh<C: Cpu>(made: Refresh<C>) -> bool where C::Ppu: Ppu {
    &&& call_ensures(
        <C::Ppu as Ppu>::update::<C>,
        (made.update.ppu, made.update.cpu, made.update.writer),
        (),
    )
    &&& made.pointing matches Some(pointing) ==> call_ensures(
        <C::Ppu as Ppu>::set_pointed_pixel,
        (pointing.ppu, pointing.color),
        (),
    )
}

/// Whether the calls of `attempt` were made: `buttons` were handed over,
/// and `Cpu::tick` returned `outcome` from these arguments.
pub open spec fn is_attempt<C: Cpu>(
    attempt: Attempt<C>,
    buttons: Buttons,
    outcome: Result<(), C::TickError>,
) -> bool where C::Ppu: Ppu {
    &&& attempt.handing.buttons == buttons
    &&& call_ensures(
        <C::Ppu as Ppu>::set_buttons,
        (attempt.handing.ppu, attempt.handing.buttons),
        (),
    )
    &&& call_ensures(C::tick, (attempt.tick.cpu, attempt.tick.ppu), outcome)
}

/// Whether the calls of `round` were made: `buttons` were handed over, the
/// processor stepped and returned `Ok`, and the picture unit was updated
/// three times.
pub open spec fn is_round<C: Cpu>(round: Round<C>, buttons: Buttons) -> bool where C::Ppu: Ppu {
    &&& is_attempt(Attempt { handing: round.handing, tick: round.tick }, buttons, Ok(()))
    &&& is_refresh(round.first)
    &&& is_refresh(round.second)
    &&& is_refresh(round.third)
}

/// Whether the calls of each of `rounds` were made, with `buttons`.
pub open spec fn are_rounds<C: Cpu>(rounds: Seq<Round<C>>, buttons: Buttons) -> bool where
    C::Ppu: Ppu,
 {
    forall|at: int| 0 <= at < rounds.len() ==> is_round(#[trigger] rounds[at], buttons)
}

/// Along a run the processor stays as each call leaves it: where it counts
/// its steps, an update never changes the count, and every step of a round
/// returned `Ok`, the step of the round at `upto` found as many steps taken
/// as there are rounds before it, and the round left one more.
pub proof fn lemma_steps_taken_along<C: Cpu>(
    rounds: Seq<Round<C>>,
    buttons: Buttons,
    given: C,
    taken: spec_fn(C) -> nat,
    sound: nat,
    failure: C::TickError,
    upto: int,
) where C::Ppu: Ppu
    requires
        are_rounds(rounds, buttons),
        forall|at: int|
            0 <= at < rounds.len() ==> {
                &&& *(#[trigger] rounds[at]).first.update.cpu == *final(rounds[at].tick.cpu)
                &&& *rounds[at].second.update.cpu == *final(rounds[at].first.update.cpu)
                &&& *rounds[at].third.update.cpu == *final(rounds[at].second.update.cpu)
            },
        forall|at: int, next: int|
            #![trigger rounds[at], rounds[next]]
            0 <= at && next == at + 1 && next < rounds.len() ==> *rounds[next].tick.cpu == *final(
                rounds[at].third.update.cpu),
        rounds.len() > 0 ==> *rounds[0].tick.cpu == given,
        forall|call: Tick<C>, returned: Result<(), C::TickError>| #[trigger]
            call_ensures(C::tick, (call.cpu, call.ppu), returned) ==> if taken(*call.cpu) < sound {
                returned is Ok && taken(*final(call.cpu)) == taken(*call.cpu) + 1
            } else {
                returned == Err::<(), C::TickError>(failure)
            },
        forall|made: Update<C>| #[trigger]
            call_ensures(<C::Ppu as Ppu>::update::<C>, (made.ppu, made.cpu, made.writer), ())
                ==> taken(*final(made.cpu)) == taken(*made.cpu),
        0 <= upto < rounds.len(),
    ensures
        taken(*rounds[upto].tick.cpu) == taken(given) + upto,
        taken(given) + upto < sound,
        taken(*final(rounds[upto].third.update.cpu)) == taken(given) + upto + 1,
    decreases upto,
{
    if upto > 0 {
        lemma_steps_taken_along(rounds, buttons, given, taken, sound, failure, upto - 1);
    }
    let round = rounds[upto];
    if upto > 0 {
        let before = rounds[upto - 1];
        assert(*round.tick.cpu == *final(before.third.update.cpu));
    }
    assert(is_round(round, buttons));
    assert(call_ensures(C::tick, (round.tick.cpu, round.tick.ppu), Ok(())));
    assert(is_refresh(round.first) && is_refresh(round.second) && is_refresh(round.third));
}

/// A processor that fails from a given step on ends the run at that step.
///
/// Let the processor count the steps it has taken, and let no update of the
/// picture unit change the count. Let every step return `Ok` while fewer
/// than `sound` steps are taken, and `Err(failure)` from then on. Then a run
/// that would be longer than the steps that are left ends with
/// `Err(failure)`, after exactly as many rounds as steps were left: the
/// processor was stepped once more, and the picture unit was not updated
/// again.
///
/// What is asked of `rounds`, `last` and `outcome` is what a run states of
/// itself: `rounds.len()` is the number of steps that a run counts.
pub proof fn lemma_failure_ends_the_run<C: Cpu>(
    rounds: Seq<Round<C>>,
    last: Attempt<C>,
    outcome: Result<(), C::TickError>,
    buttons: Buttons,
    given: C,
    length: nat,
    taken: spec_fn(C) -> nat,
    sound: nat,
    failure: C::TickError,
) where C::Ppu: Ppu
    requires
        are_rounds(rounds, buttons),
        rounds.len() <= length,
        outcome is Ok <==> rounds.len() == length,
        forall|at: int|
            0 <= at < rounds.len() ==> {
                &&& *(#[trigger] rounds[at]).first.update.cpu == *final(rounds[at].tick.cpu)
                &&& *rounds[at].second.update.cpu == *final(rounds[at].first.update.cpu)
                &&& *rounds[at].third.update.cpu == *final(rounds[at].second.update.cpu)
            },
        forall|at: int, next: int|
            #![trigger rounds[at], rounds[next]]
            0 <= at && next == at + 1 && next < rounds.len() ==> *rounds[next].tick.cpu == *final(
                rounds[at].third.update.cpu),
        rounds.len() > 0 ==> *rounds[0].tick.cpu == given,
        outcome is Err ==> {
            &&& is_attempt(last, buttons, outcome)
            &&& if rounds.len() > 0 {
                *last.tick.cpu == *final(rounds.last().third.update.cpu)
            } else {
                *last.tick.cpu == given
            }
        },
        taken(given) <= sound,
        sound - taken(given) < length,
        forall|call: Tick<C>, returned: Result<(), C::TickError>| #[trigger]
            call_ensures(C::tick, (call.cpu, call.ppu), returned) ==> if taken(*call.cpu) < sound {
                returned is Ok && taken(*final(call.cpu)) == taken(*call.cpu) + 1
            } else {
                returned == Err::<(), C::TickError>(failure)
            },
        forall|made: Update<C>| #[trigger]
            call_ensures(<C::Ppu as Ppu>::update::<C>, (made.ppu, made.cpu, made.writer), ())
                ==> taken(*final(made.cpu)) == taken(*made.cpu),
    ensures
        outcome == Err::<(), C::TickError>(failure),
        rounds.len() == sound - taken(given),
{
    if rounds.len() > 0 {
        lemma_steps_taken_along(
            rounds,
            buttons,
            given,
            taken,
            sound,
            failure,
            rounds.len() - 1,
        );
    }
    assert(rounds.len() <= sound - taken(given));
    assert(outcome is Err);
    assert(call_ensures(C::tick, (last.tick.cpu, last.tick.ppu), outcome));
}

} // verus!
