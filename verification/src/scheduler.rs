//! The fixed-rate scheduler as a machine without a clock of its own.
//!
//! A driver owns the clock, the message queue and the right to sleep. It
//! hands the machine what it received and what time it is, lets it step
//! the processor and the picture unit, and does what the machine answers.
use vstd::prelude::*;
use crate::course::{
    are_rounds, is_attempt, is_refresh, is_round, tick_outcome, Attempt, Handing, Pointing,
    Refresh, Round, Tick, Update,
};
use crate::cpu::Cpu;
use crate::pointer::{pointed_pixel, resolve_pointer, WindowSize};
use crate::ppu::Ppu;
use crate::screen::{color_at, Buttons, ButtonName, Color, Message, ScreenWriter};
use crate::{CPU_FREQ, HEIGHT, WIDTH};

verus! {

/// Number of steps between two looks at the clock.
pub const BATCH: u64 = 1000;

/// Number of picture unit updates that follow each processor step.
pub const UPDATES_PER_STEP: u64 = 3;

/// How far the emulation may fall behind the clock, in nanoseconds, before
/// the driver is told.
pub const BEHIND_TOLERANCE: u128 = 200_000_000;

/// Nanoseconds in a second.
pub const NANOS_PER_SEC: u128 = 1_000_000_000;

/// What the driver owes the machine before the next step.
#[derive(Debug, Copy, Clone, Eq, PartialEq, Structural)]
pub enum Next {
    /// Nothing: step again.
    Step,
    /// The emulation is suspended: wait for a message and hand it over.
    Await,
    /// A batch is complete: read the clock and call `pace`.
    Pace,
    /// The run is over.
    Finished,
}

/// How the emulation stands against the clock at the end of a batch.
#[derive(Debug, Copy, Clone, Eq, PartialEq, Structural)]
pub enum Pacing {
    /// Ahead by this many nanoseconds: sleep that long.
    Sleep(u128),
    /// Behind by this many nanoseconds, more than the tolerance: say so and
    /// go on at full speed.
    Behind(u128),
    /// Neither ahead nor behind by more than the tolerance: go on.
    OnTime,
}

/// How long the driver sleeps on `pacing`, in nanoseconds.
pub open spec fn sleep_of(pacing: Pacing) -> nat {
    match pacing {
        Pacing::Sleep(nanos) => nanos as nat,
        _ => 0,
    }
}

/// The real time, in nanoseconds to the nearest, that the emulated
/// processor takes for `cycles` cycles.
pub open spec fn expected_nanos(cycles: nat) -> nat {
    ((2 * cycles * NANOS_PER_SEC + CPU_FREQ) / (2 * CPU_FREQ as int)) as nat
}

/// The number of steps of a whole run under the cycle limit `ceiling`: the
/// first multiple of `BATCH` above it.
pub open spec fn run_length(ceiling: nat) -> nat {
    (ceiling / BATCH as nat + 1) * BATCH as nat
}

/// The later of two clock readings.
pub open spec fn later(a: nat, b: nat) -> nat {
    if a >= b {
        a
    } else {
        b
    }
}

/// The value that the last message about the button `name` among `msgs`
/// carries, if there is one.
pub open spec fn latest(msgs: Seq<Message>, name: ButtonName) -> Option<bool>
    decreases msgs.len(),
{
    if msgs.len() == 0 {
        None
    } else {
        match msgs.last() {
            Message::Button(button, pressed) => if button == name {
                Some(pressed)
            } else {
                latest(msgs.drop_last(), name)
            },
            _ => latest(msgs.drop_last(), name),
        }
    }
}

/// The state of the scheduler.
pub struct State {
    /// The cycle limit: the run is over at the first end of a batch with
    /// more steps than this.
    pub ceiling: nat,
    /// Steps taken: processor steps that succeeded.
    pub steps: nat,
    /// Picture unit updates made.
    pub updates: nat,
    /// Real time spent running, in nanoseconds, as of `last_tick`.
    pub busy: nat,
    /// The clock reading up to which `busy` is counted.
    pub last_tick: nat,
    /// Whether the emulation is suspended.
    pub paused: bool,
    /// The controller state.
    pub buttons: Buttons,
    /// The pixel of the emulated screen under the pointer.
    pub pointer: (int, int),
    /// The colour sampled last under the pointer.
    pub pointed_pixel: Color,
}

impl State {
    /// The state in which a run under the cycle limit `max_cycles` starts at
    /// the clock reading `now`. Without a limit the run goes on for as long
    /// as the cycles can be counted.
    pub open spec fn fresh(max_cycles: Option<usize>, now: nat) -> State {
        State {
            ceiling: match max_cycles {
                Some(limit) => limit as nat,
                None => u64::MAX as nat,
            },
            steps: 0,
            updates: 0,
            busy: 0,
            last_tick: now,
            paused: false,
            buttons: Buttons::released(),
            pointer: (0, 0),
            pointed_pixel: Color(0, 0, 0),
        }
    }

    /// What holds of every state that a run reaches.
    pub open spec fn wf(self) -> bool {
        &&& self.ceiling <= u64::MAX
        &&& self.steps <= run_length(self.ceiling)
        &&& self.updates == UPDATES_PER_STEP * self.steps
        &&& self.busy <= self.last_tick
        &&& 0 <= self.pointer.0 < WIDTH
        &&& 0 <= self.pointer.1 < HEIGHT
    }

    /// Cycles emulated in complete batches.
    pub open spec fn cycles(self) -> nat {
        (self.steps - self.steps % (BATCH as nat)) as nat
    }

    /// Whether the run is over: a batch is complete and the steps exceed the
    /// limit.
    pub open spec fn finished(self) -> bool {
        self.steps % (BATCH as nat) == 0 && self.steps > self.ceiling
    }

    /// Whether the machine takes a step when asked to.
    pub open spec fn can_step(self) -> bool {
        !self.paused && !self.finished()
    }

    /// The state after the message `msg` arrived at the clock reading `now`
    /// while the window had the size `window`.
    ///
    /// A button message sets that button. A pointer message moves the
    /// pointer. `Pause(true)` suspends the emulation; `Pause(false)` resumes
    /// a suspended one and lets the busy time count from `now` on, so that
    /// nothing of the pause is counted.
    pub open spec fn receive(self, msg: Message, window: WindowSize, now: nat) -> State {
        match msg {
            Message::Button(name, pressed) => State {
                buttons: self.buttons.with(name, pressed),
                ..self
            },
            Message::Pause(suspend) => if suspend {
                State { paused: true, ..self }
            } else if self.paused {
                State { paused: false, last_tick: later(self.last_tick, now), ..self }
            } else {
                self
            },
            Message::PixelPointed(x, y) => State {
                pointer: pointed_pixel(x as int, y as int, window),
                ..self
            },
        }
    }

    /// The state after the messages `msgs` arrived in this order.
    pub open spec fn receive_all(self, msgs: Seq<Message>, window: WindowSize, now: nat) -> State
        decreases msgs.len(),
    {
        if msgs.len() == 0 {
            self
        } else {
            self.receive_all(msgs.drop_last(), window, now).receive(msgs.last(), window, now)
        }
    }

    /// The state after a step that was asked for and succeeded: one more
    /// step and three more updates, unless the machine is suspended or the
    /// run is over.
    pub open spec fn stepped(self) -> State {
        if self.can_step() {
            State {
                steps: self.steps + 1,
                updates: self.updates + UPDATES_PER_STEP as nat,
                ..self
            }
        } else {
            self
        }
    }

    /// What the driver owes after asking for a step that did not fail.
    pub open spec fn after_step(self) -> Next {
        if self.paused {
            Next::Await
        } else if self.finished() {
            Next::Finished
        } else if (self.steps + 1) % (BATCH as nat) != 0 {
            Next::Step
        } else if self.steps + 1 > self.ceiling {
            Next::Finished
        } else {
            Next::Pace
        }
    }

    /// The state after the clock was read as `now` at the end of a batch:
    /// the time since the last reading counts as busy. A reading earlier
    /// than the last one counts as equal to it.
    pub open spec fn paced(self, now: nat) -> State {
        State {
            busy: (self.busy + later(self.last_tick, now) - self.last_tick) as nat,
            last_tick: later(self.last_tick, now),
            ..self
        }
    }

    /// How the emulation stands against the clock read as `now`.
    pub open spec fn pacing(self, now: nat) -> Pacing {
        let busy = self.paced(now).busy;
        let expected = expected_nanos(self.cycles());
        if expected > busy {
            Pacing::Sleep((expected - busy) as u128)
        } else if busy - expected > BEHIND_TOLERANCE {
            Pacing::Behind((busy - expected) as u128)
        } else {
            Pacing::OnTime
        }
    }

    /// The clock reading from which the busy time counts: the reading at
    /// which a run began that was never suspended.
    pub open spec fn started(self) -> int {
        self.last_tick - self.busy
    }

    /// What the clock reads at the pace at `at` of a run against
    /// `readings`: the reading at that place, and the last reading taken
    /// where the readings have run out, as if the clock stood still.
    pub open spec fn reading_at(self, readings: Seq<u128>, at: nat) -> nat {
        if at < readings.len() {
            readings[at as int] as nat
        } else {
            self.last_tick
        }
    }

    /// The state after the clock was read at the end of each of the first
    /// `paces` batches of a run against `readings`.
    pub open spec fn clocked(self, readings: Seq<u128>, paces: nat) -> State
        decreases paces,
    {
        if paces == 0 {
            self
        } else {
            let before = self.clocked(readings, (paces - 1) as nat);
            before.paced(before.reading_at(readings, (paces - 1) as nat))
        }
    }

    /// The state in which a run against `readings` that began in this state
    /// reads the clock for the pace at `at`: at the end of the batch at `at`
    /// of those that were still to complete.
    pub open spec fn at_batch_end(self, readings: Seq<u128>, at: nat) -> State {
        State {
            steps: (self.steps / (BATCH as nat) + 1 + at) * (BATCH as nat),
            ..self.clocked(readings, at)
        }
    }

    /// What the pace at `at` of a run against `readings` asks for.
    pub open spec fn pacing_of(self, readings: Seq<u128>, at: nat) -> Pacing {
        let due = self.at_batch_end(readings, at);
        due.pacing(due.reading_at(readings, at))
    }

    /// Whether `later` is this state but for steps taken since, with their
    /// updates and samples, and for the first `paces` paces of a run against
    /// `readings`.
    pub open spec fn ran_against(self, later: State, readings: Seq<u128>, paces: nat) -> bool {
        &&& later.ceiling == self.ceiling
        &&& later.steps >= self.steps
        &&& later.updates == self.updates + UPDATES_PER_STEP * (later.steps - self.steps)
        &&& later.busy == self.clocked(readings, paces).busy
        &&& later.last_tick == self.clocked(readings, paces).last_tick
        &&& later.paused == self.paused
        &&& later.buttons == self.buttons
        &&& later.pointer == self.pointer
    }

    /// Whether `later` is this state but for steps taken, with their
    /// updates and samples, since.
    pub open spec fn ran_to(self, later: State) -> bool {
        &&& later.ceiling == self.ceiling
        &&& later.steps >= self.steps
        &&& later.updates == self.updates + UPDATES_PER_STEP * (later.steps - self.steps)
        &&& later.busy == self.busy
        &&& later.last_tick == self.last_tick
        &&& later.paused == self.paused
        &&& later.buttons == self.buttons
        &&& later.pointer == self.pointer
    }

    /// What a step that did not fail, and its answer, say of the state
    /// after it.
    pub proof fn lemma_step_answer(self, after: State)
        requires
            self.wf(),
            after == (State { pointed_pixel: after.pointed_pixel, ..self.stepped() }),
        ensures
            self.ran_to(after),
            after.wf(),
            self.after_step() is Await <==> self.paused,
            self.after_step() is Finished <==> !self.paused && after.finished(),
            self.after_step() is Finished ==> after.steps == run_length(self.ceiling),
            self.after_step() is Step || self.after_step() is Pace ==> self.can_step()
                && after.can_step() && after.steps == self.steps + 1 && after.steps
                < run_length(self.ceiling),
    {
        lemma_run_length(self.ceiling, self.steps);
        if self.can_step() {
            lemma_run_length(self.ceiling, self.steps + 1);
        }
    }

    /// A button message sets the button that it is about and no other.
    pub proof fn lemma_button_message(
        self,
        button: ButtonName,
        pressed: bool,
        window: WindowSize,
        now: nat,
        name: ButtonName,
    )
        ensures
            self.receive(Message::Button(button, pressed), window, now).buttons.holds(name) == if button
                == name {
                pressed
            } else {
                self.buttons.holds(name)
            },
    {
        self.buttons.lemma_with_changes_one(button, pressed, name);
    }

    /// A message that is not about a button leaves every button as it is.
    pub proof fn lemma_other_message(self, msg: Message, window: WindowSize, now: nat)
        requires
            !(msg is Button),
        ensures
            self.receive(msg, window, now).buttons == self.buttons,
    {
    }

    /// After any messages, each button is as the last message about it
    /// says, and as it was where no message is about it.
    pub proof fn lemma_buttons_follow_latest(
        self,
        msgs: Seq<Message>,
        window: WindowSize,
        now: nat,
        name: ButtonName,
    )
        ensures
            self.receive_all(msgs, window, now).buttons.holds(name) == match latest(
                msgs,
                name,
            ) {
                Some(pressed) => pressed,
                None => self.buttons.holds(name),
            },
        decreases msgs.len(),
    {
        if msgs.len() > 0 {
            let before = self.receive_all(msgs.drop_last(), window, now);
            self.lemma_buttons_follow_latest(msgs.drop_last(), window, now, name);
            match msgs.last() {
                Message::Button(button, pressed) => {
                    before.lemma_button_message(button, pressed, window, now, name);
                },
                _ => {
                    before.lemma_other_message(msgs.last(), window, now);
                },
            }
        }
    }

    /// Steps and clock readings leave the buttons as the messages set them.
    pub proof fn lemma_buttons_only_follow_messages(self, now: nat)
        ensures
            self.stepped().buttons == self.buttons,
            self.paced(now).buttons == self.buttons,
    {
    }

    /// While the emulation is suspended, messages other than `Pause(false)`
    /// leave it suspended and the clock accounts as they are.
    pub proof fn lemma_suspended_stays(self, held: Seq<Message>, window: WindowSize, now: nat)
        requires
            self.paused,
            forall|at: int| 0 <= at < held.len() ==> held[at] != Message::Pause(false),
        ensures
            self.receive_all(held, window, now).paused,
            self.receive_all(held, window, now).busy == self.busy,
            self.receive_all(held, window, now).last_tick == self.last_tick,
            self.receive_all(held, window, now).steps == self.steps,
        decreases held.len(),
    {
        if held.len() > 0 {
            self.lemma_suspended_stays(held.drop_last(), window, now);
            assert(held.last() == held[held.len() - 1]);
        }
    }

    /// A pause is not counted as busy time. However long the emulation was
    /// suspended, and whatever arrived meanwhile, once it resumes at the
    /// clock reading `resumed` the busy time is what it was when the pause
    /// began, and at the next reading `then` it has grown by the time since
    /// `resumed` alone.
    pub proof fn lemma_pause_is_not_counted(
        self,
        held: Seq<Message>,
        window: WindowSize,
        began: nat,
        during: nat,
        resumed: nat,
        then: nat,
    )
        requires
            forall|at: int| 0 <= at < held.len() ==> held[at] != Message::Pause(false),
            self.last_tick <= resumed <= then,
        ensures
            ({
                let back = self.receive(Message::Pause(true), window, began).receive_all(
                    held,
                    window,
                    during,
                ).receive(Message::Pause(false), window, resumed);
                &&& !back.paused
                &&& back.steps == self.steps
                &&& back.busy == self.busy
                &&& back.last_tick == resumed
                &&& back.paced(then).busy == self.busy + (then - resumed)
            }),
    {
        self.receive(Message::Pause(true), window, began).lemma_suspended_stays(
            held,
            window,
            during,
        );
    }

    /// Resuming an emulation that is not suspended changes nothing.
    pub proof fn lemma_resume_without_pause(self, window: WindowSize, now: nat)
        requires
            !self.paused,
        ensures
            self.receive(Message::Pause(false), window, now) == self,
    {
    }

    /// The state after `count` steps in a row that were asked for and
    /// succeeded.
    pub open spec fn after_steps(self, count: nat) -> State
        decreases count,
    {
        if count == 0 {
            self
        } else {
            self.after_steps((count - 1) as nat).stepped()
        }
    }

    /// A run that no step fails and nothing suspends is over after a number
    /// of steps that its cycle limit fixes, and not before: each step is
    /// counted with its three updates, and the run is over exactly when the
    /// count is the first multiple of `BATCH` above the limit.
    pub proof fn lemma_run_ends(self, count: nat)
        requires
            self.wf(),
            !self.paused,
            self.steps + count <= run_length(self.ceiling),
        ensures
            self.after_steps(count).wf(),
            self.ran_to(self.after_steps(count)),
            self.after_steps(count).steps == self.steps + count,
            self.after_steps(count).finished() <==> self.steps + count == run_length(
                self.ceiling,
            ),
            run_length(self.ceiling) > self.ceiling,
        decreases count,
    {
        lemma_run_length(self.ceiling, self.steps + count);
        if count > 0 {
            let before = self.after_steps((count - 1) as nat);
            self.lemma_run_ends((count - 1) as nat);
            lemma_run_length(self.ceiling, before.steps);
        }
    }

    /// A step that fails ends the run where it stood: of the steps before
    /// it each is counted with its three updates, and of the failed one
    /// nothing.
    pub proof fn lemma_failure_ends_short(self, count: nat)
        requires
            self.wf(),
            !self.paused,
            self.steps + count < run_length(self.ceiling),
        ensures
            self.after_steps(count).can_step(),
            self.after_steps(count).steps == self.steps + count,
            self.after_steps(count).updates == UPDATES_PER_STEP * (self.steps + count),
    {
        self.lemma_run_ends(count);
    }

    /// After the sleep that the scheduler asks for, the emulation is on
    /// time: the busy time is the expected time of the cycles emulated.
    pub proof fn lemma_sleep_catches_up(self, now: nat, nanos: u128)
        requires
            self.pacing(now) == Pacing::Sleep(nanos),
            expected_nanos(self.cycles()) <= u128::MAX,
        ensures
            self.paced(now).paced(self.paced(now).last_tick + nanos as nat).busy
                == expected_nanos(self.cycles()),
            self.paced(now).pacing(self.paced(now).last_tick + nanos as nat) == Pacing::OnTime,
            self.paced(now).steps == self.steps,
    {
    }

    /// Reading the clock never moves the reading from which the busy time
    /// counts, and changes nothing but the clock accounts.
    pub proof fn lemma_clock_keeps_start(self, readings: Seq<u128>, paces: nat)
        requires
            self.wf(),
        ensures
            self.clocked(readings, paces).started() == self.started(),
            self.clocked(readings, paces).wf(),
            self.clocked(readings, paces) == (State {
                busy: self.clocked(readings, paces).busy,
                last_tick: self.clocked(readings, paces).last_tick,
                ..self
            }),
            self.clocked(readings, paces).last_tick >= self.last_tick,
        decreases paces,
    {
        if paces > 0 {
            self.lemma_clock_keeps_start(readings, (paces - 1) as nat);
        }
    }

    /// A paced run never runs ahead of the emulated clock. At the pace at
    /// `at` of a run against `readings`, the clock reading and the sleep that
    /// the pace asks for together reach the time that the cycles emulated so
    /// far take on the emulated processor, counted from the start of the
    /// run: the next batch begins no sooner. Where the pace asks for a sleep,
    /// they reach that time exactly, so that the next batch begins later
    /// than that only by as much as the sleep lasts longer than asked.
    pub proof fn lemma_batch_begins_on_time(self, readings: Seq<u128>, at: nat)
        requires
            self.wf(),
            expected_nanos(self.at_batch_end(readings, at).cycles()) <= u128::MAX,
        ensures
            self.at_batch_end(readings, at).cycles() == (self.steps / (BATCH as nat) + 1 + at) * (
            BATCH as nat),
            ({
                let due = self.at_batch_end(readings, at);
                let read = later(due.last_tick, due.reading_at(readings, at));
                let nominal = self.started() + expected_nanos(due.cycles());
                &&& read + sleep_of(self.pacing_of(readings, at)) >= nominal
                &&& self.pacing_of(readings, at) is Sleep ==> read + sleep_of(
                    self.pacing_of(readings, at),
                ) == nominal
                &&& at < readings.len() && readings[at as int] >= due.last_tick ==> read
                    == readings[at as int]
            }),
    {
        self.lemma_clock_keeps_start(readings, at);
        let due = self.at_batch_end(readings, at);
        assert(due.steps % (BATCH as nat) == 0) by {
            vstd::arithmetic::div_mod::lemma_mod_multiples_basic(
                (self.steps / (BATCH as nat) + 1 + at) as int,
                BATCH as int,
            );
        }
        assert(due.started() == self.started());
    }

    /// A run starts in a state that is well formed.
    pub proof fn lemma_fresh_wf(max_cycles: Option<usize>, now: nat)
        ensures
            State::fresh(max_cycles, now).wf(),
            !State::fresh(max_cycles, now).finished(),
            State::fresh(max_cycles, now).can_step(),
    {
    }

    /// Messages, steps and clock readings keep a state well formed.
    pub proof fn lemma_wf_is_kept(self, msg: Message, window: WindowSize, now: nat)
        requires
            self.wf(),
        ensures
            self.receive(msg, window, now).wf(),
            self.stepped().wf(),
            self.paced(now).wf(),
    {
        match msg {
            Message::PixelPointed(x, y) => {
                crate::pointer::lemma_resolved_in_range(
                    x as int,
                    window.width as int,
                    WIDTH as int,
                );
                crate::pointer::lemma_resolved_in_range(
                    y as int,
                    window.height as int,
                    HEIGHT as int,
                );
            },
            _ => {},
        }
        if self.can_step() {
            lemma_run_length(self.ceiling, self.steps);
        }
    }
}

/// The scheduler: the state of a run and the transitions of it.
pub struct Scheduler {
    ceiling: u64,
    steps: u128,
    updates: u128,
    busy: u128,
    last_tick: u128,
    paused: bool,
    buttons: Buttons,
    pointer: (u32, u32),
    pointed_pixel: Color,
}

impl View for Scheduler {
    type V = State;

    closed spec fn view(&self) -> State {
        State {
            ceiling: self.ceiling as nat,
            steps: self.steps as nat,
            updates: self.updates as nat,
            busy: self.busy as nat,
            last_tick: self.last_tick as nat,
            paused: self.paused,
            buttons: self.buttons,
            pointer: (self.pointer.0 as int, self.pointer.1 as int),
            pointed_pixel: self.pointed_pixel,
        }
    }
}

impl Scheduler {
    #[verifier::type_invariant]
    spec fn inv(&self) -> bool {
        self@.wf()
    }

    /// The scheduler of a run under the cycle limit `max_cycles` that starts
    /// at the clock reading `now`.
    pub fn new(max_cycles: Option<usize>, now: u128) -> (scheduler: Scheduler)
        ensures
            scheduler@ == State::fresh(max_cycles, now as nat),
            scheduler@.wf(),
    {
        let ceiling: u64 = match max_cycles {
            Some(limit) => limit as u64,
            None => u64::MAX,
        };
        Scheduler {
            ceiling,
            steps: 0,
            updates: 0,
            busy: 0,
            last_tick: now,
            paused: false,
            buttons: Buttons::default(),
            pointer: (0, 0),
            pointed_pixel: Color(0, 0, 0),
        }
    }

    /// Steps taken so far.
    pub fn steps(&self) -> (steps: u128)
        ensures
            steps == self@.steps,
    {
        self.steps
    }

    /// Picture unit updates made so far.
    pub fn updates(&self) -> (updates: u128)
        ensures
            updates == self@.updates,
            updates == UPDATES_PER_STEP * self@.steps,
    {
        proof {
            use_type_invariant(self);
        }
        self.updates
    }

    /// Cycles emulated in complete batches.
    pub fn cycles(&self) -> (cycles: u128)
        ensures
            cycles == self@.cycles(),
    {
        self.steps - self.steps % (BATCH as u128)
    }

    /// Real time spent running, in nanoseconds, as of the last clock reading.
    pub fn busy(&self) -> (busy: u128)
        ensures
            busy == self@.busy,
    {
        self.busy
    }

    /// The clock reading up to which the busy time is counted.
    pub fn last_tick(&self) -> (reading: u128)
        ensures
            reading == self@.last_tick,
    {
        self.last_tick
    }

    /// Whether the emulation is suspended.
    pub fn is_paused(&self) -> (paused: bool)
        ensures
            paused == self@.paused,
    {
        self.paused
    }

    /// Whether the run is over.
    pub fn is_finished(&self) -> (finished: bool)
        ensures
            finished == self@.finished(),
    {
        self.steps % (BATCH as u128) == 0 && self.steps > self.ceiling as u128
    }

    /// The controller state.
    pub fn buttons(&self) -> (buttons: Buttons)
        ensures
            buttons == self@.buttons,
    {
        self.buttons
    }

    /// The pixel of the emulated screen under the pointer.
    pub fn pointer(&self) -> (pixel: (u32, u32))
        ensures
            (pixel.0 as int, pixel.1 as int) == self@.pointer,
            pixel.0 < WIDTH,
            pixel.1 < HEIGHT,
    {
        proof {
            use_type_invariant(self);
        }
        self.pointer
    }

    /// The colour sampled last under the pointer.
    pub fn pointed_pixel(&self) -> (color: Color)
        ensures
            color == self@.pointed_pixel,
    {
        self.pointed_pixel
    }

    /// Takes in the message `msg`, which arrived at the clock reading `now`
    /// while the window had the size `window`.
    pub fn receive(&mut self, msg: Message, window: WindowSize, now: u128)
        ensures
            final(self)@ == old(self)@.receive(msg, window, now as nat),
    {
        proof {
            use_type_invariant(&*self);
            self@.lemma_wf_is_kept(msg, window, now as nat);
        }
        match msg {
            Message::Button(name, pressed) => {
                let mut buttons: Buttons = self.buttons;
                buttons.set(name, pressed);
                self.buttons = buttons;
            },
            Message::Pause(suspend) => {
                if suspend {
                    self.paused = true;
                } else if self.paused {
                    let resumed: u128 = if self.last_tick >= now {
                        self.last_tick
                    } else {
                        now
                    };
                    self.paused = false;
                    self.last_tick = resumed;
                }
            },
            Message::PixelPointed(x, y) => {
                self.pointer = resolve_pointer(x, y, window);
            },
        }
    }

    /// Takes in the messages `msgs` in their order, all of which arrived by
    /// the clock reading `now` while the window had the size `window`.
    pub fn receive_all(&mut self, msgs: &Vec<Message>, window: WindowSize, now: u128)
        ensures
            final(self)@ == old(self)@.receive_all(msgs@, window, now as nat),
    {
        let mut taken: usize = 0;
        while taken < msgs.len()
            invariant
                taken <= msgs.len(),
                self@ == old(self)@.receive_all(msgs@.take(taken as int), window, now as nat),
            decreases msgs.len() - taken,
        {
            proof {
                let upto = msgs@.take(taken + 1);
                assert(upto.drop_last() =~= msgs@.take(taken as int));
                assert(upto.last() == msgs@[taken as int]);
            }
            let msg: Message = msgs[taken];
            self.receive(msg, window, now);
            taken += 1;
        }
        proof {
            assert(msgs@.take(taken as int) =~= msgs@);
        }
    }

    /// Samples the colour that is shown under the pointer, if a picture is
    /// presented.
    pub fn sample(&mut self, writer: &ScreenWriter) -> (color: Option<Color>)
        ensures
            color == match writer.shown() {
                Some(frame) => Some(color_at(frame, old(self)@.pointer.0, old(self)@.pointer.1)),
                None => None,
            },
            final(self)@ == (State {
                pointed_pixel: match color {
                    Some(seen) => seen,
                    None => old(self)@.pointed_pixel,
                },
                ..old(self)@
            }),
    {
        proof {
            use_type_invariant(&*self);
        }
        let color: Option<Color> = writer.pointed(self.pointer.0, self.pointer.1);
        match color {
            Some(seen) => {
                self.pointed_pixel = seen;
            },
            None => {},
        }
        color
    }

    /// Reads the clock as `now` at the end of a batch, and says how the
    /// emulation stands against it.
    pub fn pace(&mut self, now: u128) -> (pacing: Pacing)
        ensures
            final(self)@ == old(self)@.paced(now as nat),
            pacing == old(self)@.pacing(now as nat),
    {
        proof {
            use_type_invariant(&*self);
            lemma_run_length(self@.ceiling, self@.steps);
        }
        let reading: u128 = if self.last_tick >= now {
            self.last_tick
        } else {
            now
        };
        let busy: u128 = self.busy + (reading - self.last_tick);
        let cycles: u128 = self.steps - self.steps % (BATCH as u128);
        let expected: u128 = (2 * cycles * NANOS_PER_SEC + (CPU_FREQ as u128)) / (2 * (CPU_FREQ
            as u128));
        self.last_tick = reading;
        self.busy = busy;
        if expected > busy {
            Pacing::Sleep(expected - busy)
        } else if busy - expected > BEHIND_TOLERANCE {
            Pacing::Behind(busy - expected)
        } else {
            Pacing::OnTime
        }
    }

    /// Counts a step that succeeded, with its updates.
    fn advance(&mut self) -> (next: Next)
        requires
            old(self)@.can_step(),
        ensures
            final(self)@ == old(self)@.stepped(),
            next == old(self)@.after_step(),
    {
        proof {
            use_type_invariant(&*self);
            lemma_run_length(self@.ceiling, self@.steps);
        }
        let steps: u128 = self.steps + 1;
        *self = Scheduler {
            ceiling: self.ceiling,
            steps,
            updates: self.updates + (UPDATES_PER_STEP as u128),
            busy: self.busy,
            last_tick: self.last_tick,
            paused: self.paused,
            buttons: self.buttons,
            pointer: self.pointer,
            pointed_pixel: self.pointed_pixel,
        };
        if steps % (BATCH as u128) != 0 {
            Next::Step
        } else if steps > self.ceiling as u128 {
            Next::Finished
        } else {
            Next::Pace
        }
    }

    /// Takes one step, unless the emulation is suspended or the run is over:
    /// hands the controller state to the picture unit, steps the processor
    /// and, if that succeeded, updates the picture unit three times; after
    /// each update the colour shown under the pointer, if a picture is
    /// presented, is sampled and handed to the picture unit.
    ///
    /// A step that fails is not counted, and no update follows it.
    ///
    /// The calls are stated as they were made: each found the processor,
    /// the picture unit and the writer as the call before it left them, the
    /// first as they were given, and the step leaves them as its last call
    /// left them.
    pub fn step<C>(
        &mut self,
        cpu: &mut C,
        ppu: &mut C::Ppu,
        writer: &mut ScreenWriter,
    ) -> (outcome: Result<Next, C::TickError>) where C: Cpu, C::Ppu: Ppu
        ensures
            match outcome {
                Ok(next) => {
                    &&& next == old(self)@.after_step()
                    &&& final(self)@ == (State {
                        pointed_pixel: final(self)@.pointed_pixel,
                        ..old(self)@.stepped()
                    })
                    &&& old(self)@.can_step() ==> (final(writer).shown() matches Some(frame)
                        ==> final(self)@.pointed_pixel == color_at(
                        frame,
                        old(self)@.pointer.0,
                        old(self)@.pointer.1,
                    ))
                    &&& !old(self)@.can_step() ==> final(self)@ == old(self)@ && *final(writer)
                        == *old(writer) && *final(cpu) == *old(cpu) && *final(ppu) == *old(ppu)
                },
                Err(_) => old(self)@.can_step() && final(self)@ == old(self)@ && *final(writer)
                    == *old(writer),
            },
            old(self)@.can_step() && outcome is Err ==> exists|last: Attempt<C>|
                {
                    &&& #[trigger] is_attempt(last, old(self)@.buttons, tick_outcome(outcome))
                    &&& *last.handing.ppu == *old(ppu)
                    &&& *last.tick.cpu == *old(cpu)
                    &&& *last.tick.ppu == *final(last.handing.ppu)
                    &&& *final(cpu) == *final(last.tick.cpu)
                    &&& *final(ppu) == *final(last.tick.ppu)
                },
            old(self)@.can_step() && outcome is Ok ==> exists|round: Round<C>|
                {
                    &&& #[trigger] is_round(round, old(self)@.buttons)
                    &&& *round.tick.cpu == *old(cpu)
                    &&& *round.handing.ppu == *old(ppu)
                    &&& *round.first.update.writer == *old(writer)
                    &&& *round.tick.ppu == *final(round.handing.ppu)
                    &&& *round.first.update.cpu == *final(round.tick.cpu)
                    &&& *round.first.update.ppu == *final(round.tick.ppu)
                    &&& *round.second.update.cpu == *final(round.first.update.cpu)
                    &&& *round.second.update.writer == *final(round.first.update.writer)
                    &&& *round.second.update.ppu == match round.first.pointing {
                        Some(pointing) => *final(pointing.ppu),
                        None => *final(round.first.update.ppu),
                    }
                    &&& *round.third.update.cpu == *final(round.second.update.cpu)
                    &&& *round.third.update.writer == *final(round.second.update.writer)
                    &&& *round.third.update.ppu == match round.second.pointing {
                        Some(pointing) => *final(pointing.ppu),
                        None => *final(round.second.update.ppu),
                    }
                    &&& match final(round.first.update.writer).shown() {
                        Some(frame) => {
                            &&& round.first.pointing matches Some(pointing)
                            &&& *pointing.ppu == *final(round.first.update.ppu)
                            &&& pointing.color == color_at(frame, old(self)@.pointer.0, old(self)@.pointer.1)
                        },
                        None => round.first.pointing is None,
                    }
                    &&& match final(round.second.update.writer).shown() {
                        Some(frame) => {
                            &&& round.second.pointing matches Some(pointing)
                            &&& *pointing.ppu == *final(round.second.update.ppu)
                            &&& pointing.color == color_at(frame, old(self)@.pointer.0, old(self)@.pointer.1)
                        },
                        None => round.second.pointing is None,
                    }
                    &&& match final(round.third.update.writer).shown() {
                        Some(frame) => {
                            &&& round.third.pointing matches Some(pointing)
                            &&& *pointing.ppu == *final(round.third.update.ppu)
                            &&& pointing.color == color_at(frame, old(self)@.pointer.0, old(self)@.pointer.1)
                        },
                        None => round.third.pointing is None,
                    }
                    &&& *final(cpu) == *final(round.third.update.cpu)
                    &&& *final(ppu) == match round.third.pointing {
                        Some(pointing) => *final(pointing.ppu),
                        None => *final(round.third.update.ppu),
                    }
                    &&& *final(writer) == *final(round.third.update.writer)
                },
    {
        if self.paused {
            return Ok(Next::Await);
        }
        if self.is_finished() {
            return Ok(Next::Finished);
        }
        ppu.set_buttons(self.buttons);
        let ghost handed = *ppu;
        let ghost set = choose|set: (&mut C::Ppu, Buttons)|
            *set.0 == *old(ppu) && set.1 == self.buttons && *final(set.0) == handed
                && #[trigger] call_ensures(<C::Ppu as Ppu>::set_buttons, set, ());
        let ticked = cpu.tick(ppu);
        let ghost call = choose|call: (&mut C, &mut C::Ppu)|
            *call.0 == *old(cpu) && *call.1 == handed && *final(call.0) == *cpu && *final(call.1)
                == *ppu && #[trigger] call_ensures(C::tick, call, ticked);
        let ghost attempt = Attempt::<C> {
            handing: Handing { ppu: set.0, buttons: set.1 },
            tick: Tick { cpu: call.0, ppu: call.1 },
        };
        proof {
            assert((attempt.handing.ppu, attempt.handing.buttons) == set);
            assert((attempt.tick.cpu, attempt.tick.ppu) == call);
        }
        match ticked {
            Err(failure) => {
                let outcome = Err(failure);
                assert(is_attempt(attempt, self@.buttons, tick_outcome(outcome)));
                return outcome;
            },
            Ok(done) => {
                assert(is_attempt(attempt, self@.buttons, Ok(done)));
            },
        }
        let ghost cpu1 = *cpu;
        let ghost ppu1 = *ppu;
        let ghost writer1 = *writer;
        self.refresh(cpu, ppu, writer);
        let ghost first = choose|made: Refresh<C>|
            {
                &&& #[trigger] is_refresh(made)
                &&& *made.update.ppu == ppu1
                &&& *made.update.cpu == cpu1
                &&& *made.update.writer == writer1
                &&& match final(made.update.writer).shown() {
                    Some(frame) => {
                        &&& made.pointing matches Some(pointing)
                        &&& *pointing.ppu == *final(made.update.ppu)
                        &&& pointing.color == color_at(frame, self@.pointer.0, self@.pointer.1)
                    },
                    None => made.pointing is None,
                }
                &&& *cpu == *final(made.update.cpu)
                &&& *ppu == match made.pointing {
                    Some(pointing) => *final(pointing.ppu),
                    None => *final(made.update.ppu),
                }
                &&& *writer == *final(made.update.writer)
            };
        let ghost cpu2 = *cpu;
        let ghost ppu2 = *ppu;
        let ghost writer2 = *writer;
        self.refresh(cpu, ppu, writer);
        let ghost second = choose|made: Refresh<C>|
            {
                &&& #[trigger] is_refresh(made)
                &&& *made.update.ppu == ppu2
                &&& *made.update.cpu == cpu2
                &&& *made.update.writer == writer2
                &&& match final(made.update.writer).shown() {
                    Some(frame) => {
                        &&& made.pointing matches Some(pointing)
                        &&& *pointing.ppu == *final(made.update.ppu)
                        &&& pointing.color == color_at(frame, self@.pointer.0, self@.pointer.1)
                    },
                    None => made.pointing is None,
                }
                &&& *cpu == *final(made.update.cpu)
                &&& *ppu == match made.pointing {
                    Some(pointing) => *final(pointing.ppu),
                    None => *final(made.update.ppu),
                }
                &&& *writer == *final(made.update.writer)
            };
        let ghost cpu3 = *cpu;
        let ghost ppu3 = *ppu;
        let ghost writer3 = *writer;
        self.refresh(cpu, ppu, writer);
        let ghost third = choose|made: Refresh<C>|
            {
                &&& #[trigger] is_refresh(made)
                &&& *made.update.ppu == ppu3
                &&& *made.update.cpu == cpu3
                &&& *made.update.writer == writer3
                &&& match final(made.update.writer).shown() {
                    Some(frame) => {
                        &&& made.pointing matches Some(pointing)
                        &&& *pointing.ppu == *final(made.update.ppu)
                        &&& pointing.color == color_at(frame, self@.pointer.0, self@.pointer.1)
                    },
                    None => made.pointing is None,
                }
                &&& *cpu == *final(made.update.cpu)
                &&& *ppu == match made.pointing {
                    Some(pointing) => *final(pointing.ppu),
                    None => *final(made.update.ppu),
                }
                &&& *writer == *final(made.update.writer)
            };
        let next: Next = self.advance();
        let ghost round = Round::<C> {
            handing: attempt.handing,
            tick: attempt.tick,
            first,
            second,
            third,
        };
        assert(is_round(round, old(self)@.buttons));
        Ok(next)
    }

    /// Updates the picture unit once, then samples the colour shown under
    /// the pointer, if a picture is presented, and hands it to the picture
    /// unit.
    fn refresh<C>(&mut self, cpu: &mut C, ppu: &mut C::Ppu, writer: &mut ScreenWriter) where
        C: Cpu,
        C::Ppu: Ppu,

        ensures
            final(self)@ == (State { pointed_pixel: final(self)@.pointed_pixel, ..old(self)@ }),
            final(writer).shown() matches Some(frame) ==> final(self)@.pointed_pixel == color_at(
                frame,
                old(self)@.pointer.0,
                old(self)@.pointer.1,
            ),
            exists|made: Refresh<C>|
                {
                    &&& #[trigger] is_refresh(made)
                    &&& *made.update.ppu == *old(ppu)
                    &&& *made.update.cpu == *old(cpu)
                    &&& *made.update.writer == *old(writer)
                    &&& match final(made.update.writer).shown() {
                        Some(frame) => {
                            &&& made.pointing matches Some(pointing)
                            &&& *pointing.ppu == *final(made.update.ppu)
                            &&& pointing.color == color_at(frame, old(self)@.pointer.0, old(self)@.pointer.1)
                        },
                        None => made.pointing is None,
                    }
                    &&& *final(cpu) == *final(made.update.cpu)
                    &&& *final(ppu) == match made.pointing {
                        Some(pointing) => *final(pointing.ppu),
                        None => *final(made.update.ppu),
                    }
                    &&& *final(writer) == *final(made.update.writer)
                },
    {
        ppu.update(cpu, writer);
        let ghost updated = *ppu;
        let ghost update = choose|update: (&mut C::Ppu, &mut C, &mut ScreenWriter)|
            {
                &&& *update.0 == *old(ppu)
                &&& *update.1 == *old(cpu)
                &&& *update.2 == *old(writer)
                &&& *final(update.0) == updated
                &&& *final(update.1) == *cpu
                &&& *final(update.2) == *writer
                &&& #[trigger] call_ensures(<C::Ppu as Ppu>::update::<C>, update, ())
            };
        let ghost done = Update::<C> { ppu: update.0, cpu: update.1, writer: update.2 };
        proof {
            assert((done.ppu, done.cpu, done.writer) == update);
        }
        match self.sample(writer) {
            Some(seen) => {
                ppu.set_pointed_pixel(seen);
                let ghost pointing = choose|pointing: (&mut C::Ppu, Color)|
                    *pointing.0 == updated && pointing.1 == seen && *final(pointing.0) == *ppu
                        && #[trigger] call_ensures(
                        <C::Ppu as Ppu>::set_pointed_pixel,
                        pointing,
                        (),
                    );
                let ghost handed = Pointing::<C> { ppu: pointing.0, color: pointing.1 };
                proof {
                    assert((handed.ppu, handed.color) == pointing);
                    assert(is_refresh(Refresh { update: done, pointing: Some(handed) }));
                }
            },
            None => {
                assert(is_refresh(Refresh { update: done, pointing: None::<Pointing<C>> }));
            },
        }
    }

    /// Reads the clock for the next pace of a run against `readings` that
    /// began in the state `origin`, paces, and notes what the pace asked for.
    fn pace_against(
        &mut self,
        readings: &Vec<u128>,
        pacings: &mut Vec<Pacing>,
        Ghost(origin): Ghost<State>,
    )
        requires
            origin.ran_against(old(self)@, readings@, old(pacings)@.len()),
            old(self)@.steps == (origin.steps / (BATCH as nat) + 1 + old(pacings)@.len()) * (
            BATCH as nat),
            forall|at: int|
                0 <= at < old(pacings)@.len() ==> #[trigger] old(pacings)@[at] == origin.pacing_of(
                    readings@,
                    at as nat,
                ),
        ensures
            origin.ran_against(final(self)@, readings@, final(pacings)@.len()),
            final(self)@ == (State {
                busy: final(self)@.busy,
                last_tick: final(self)@.last_tick,
                ..old(self)@
            }),
            final(self)@.wf(),
            final(pacings)@.len() == old(pacings)@.len() + 1,
            forall|at: int|
                0 <= at < final(pacings)@.len() ==> #[trigger] final(pacings)@[at]
                    == origin.pacing_of(readings@, at as nat),
    {
        let ghost due = self@;
        let ghost made = pacings@;
        let ghost at = made.len() as nat;
        let now: u128 = if pacings.len() < readings.len() {
            readings[pacings.len()]
        } else {
            self.last_tick()
        };
        let pacing: Pacing = self.pace(now);
        pacings.push(pacing);
        proof {
            use_type_invariant(&*self);
            let clock = origin.clocked(readings@, at);
            assert(origin.clocked(readings@, at + 1) == clock.paced(
                clock.reading_at(readings@, at),
            ));
            assert(due.reading_at(readings@, at) == now);
            assert(clock.reading_at(readings@, at) == now);
            assert(origin.at_batch_end(readings@, at).cycles() == due.cycles());
            assert(pacing == origin.pacing_of(readings@, at));
            assert(forall|k: int| 0 <= k < made.len() ==> pacings@[k] == made[k]);
        }
    }

    /// Steps until a step fails, the emulation is suspended or the run is
    /// over, without a look at messages, against a clock that reads
    /// `readings`: at the end of each batch but one that ends the run the
    /// clock is read and the scheduler paced, and what each pace asked for
    /// is returned in order. Where the readings run out the clock stands
    /// still; a run without readings is a run without a clock.
    ///
    /// The failure of a step is handed on as it came. Otherwise the run of
    /// a machine that was not suspended has taken, in all, the first
    /// multiple of `BATCH` of steps above its cycle limit.
    ///
    /// Each step counted was a whole round: the picture unit was handed the
    /// buttons, the processor stepped and returned `Ok`, and the picture unit
    /// was updated three times, each time followed by the handing over of
    /// the colour under the pointer where a picture was shown. Each call
    /// found the processor, the picture unit and the writer as the call
    /// before it left them, the first as they were given, and the run leaves
    /// them as the last call left them. A run that ends with a failure has
    /// handed over the buttons and stepped the processor once more: that
    /// step returned the failure.
    pub fn run<C>(
        &mut self,
        cpu: &mut C,
        ppu: &mut C::Ppu,
        writer: &mut ScreenWriter,
        readings: &Vec<u128>,
    ) -> (report: (Vec<Pacing>, Result<(), C::TickError>)) where C: Cpu, C::Ppu: Ppu
        ensures
            old(self)@.ran_against(final(self)@, readings@, report.0@.len()),
            final(self)@.wf(),
            report.0@.len() == final(self)@.steps / (BATCH as nat) - old(self)@.steps / (BATCH as nat)
                - if report.1 is Ok && final(self)@.steps > old(self)@.steps {
                1int
            } else {
                0int
            },
            forall|at: int|
                0 <= at < report.0@.len() ==> #[trigger] report.0@[at] == old(self)@.pacing_of(
                    readings@,
                    at as nat,
                ),
            report.1 is Ok ==> !final(self)@.can_step(),
            report.1 is Ok && !old(self)@.paused ==> final(self)@.steps == run_length(
                old(self)@.ceiling,
            ),
            report.1 is Err ==> final(self)@.can_step() && final(self)@.steps < run_length(
                old(self)@.ceiling,
            ),
            exists|rounds: Seq<Round<C>>|
                {
                    &&& #[trigger] are_rounds(rounds, old(self)@.buttons)
                    &&& rounds.len() == final(self)@.steps - old(self)@.steps
                    &&& forall|at: int|
                        0 <= at < rounds.len() ==> {
                            &&& *(#[trigger] rounds[at]).tick.ppu == *final(rounds[at].handing.ppu)
                            &&& *rounds[at].first.update.cpu == *final(rounds[at].tick.cpu)
                            &&& *rounds[at].first.update.ppu == *final(rounds[at].tick.ppu)
                            &&& *rounds[at].second.update.cpu == *final(rounds[at].first.update.cpu)
                            &&& *rounds[at].second.update.writer == *final(rounds[at].first.update.writer)
                            &&& *rounds[at].second.update.ppu == match rounds[at].first.pointing {
                                Some(pointing) => *final(pointing.ppu),
                                None => *final(rounds[at].first.update.ppu),
                            }
                            &&& *rounds[at].third.update.cpu == *final(rounds[at].second.update.cpu)
                            &&& *rounds[at].third.update.writer == *final(rounds[at].second.update.writer)
                            &&& *rounds[at].third.update.ppu == match rounds[at].second.pointing {
                                Some(pointing) => *final(pointing.ppu),
                                None => *final(rounds[at].second.update.ppu),
                            }
                            &&& match final(rounds[at].first.update.writer).shown() {
                                Some(frame) => {
                                    &&& rounds[at].first.pointing matches Some(pointing)
                                    &&& *pointing.ppu == *final(rounds[at].first.update.ppu)
                                    &&& pointing.color == color_at(frame, old(self)@.pointer.0, old(self)@.pointer.1)
                                },
                                None => rounds[at].first.pointing is None,
                            }
                            &&& match final(rounds[at].second.update.writer).shown() {
                                Some(frame) => {
                                    &&& rounds[at].second.pointing matches Some(pointing)
                                    &&& *pointing.ppu == *final(rounds[at].second.update.ppu)
                                    &&& pointing.color == color_at(frame, old(self)@.pointer.0, old(self)@.pointer.1)
                                },
                                None => rounds[at].second.pointing is None,
                            }
                            &&& match final(rounds[at].third.update.writer).shown() {
                                Some(frame) => {
                                    &&& rounds[at].third.pointing matches Some(pointing)
                                    &&& *pointing.ppu == *final(rounds[at].third.update.ppu)
                                    &&& pointing.color == color_at(frame, old(self)@.pointer.0, old(self)@.pointer.1)
                                },
                                None => rounds[at].third.pointing is None,
                            }
                        }
                    &&& forall|at: int, next: int|
                        #![trigger rounds[at], rounds[next]]
                        0 <= at && next == at + 1 && next < rounds.len() ==> {
                            &&& *rounds[next].tick.cpu == *final(rounds[at].third.update.cpu)
                            &&& *rounds[next].handing.ppu == match rounds[at].third.pointing {
                                Some(pointing) => *final(pointing.ppu),
                                None => *final(rounds[at].third.update.ppu),
                            }
                            &&& *rounds[next].first.update.writer == *final(rounds[at].third.update.writer)
                        }
                    &&& rounds.len() > 0 ==> {
                        &&& *rounds[0].tick.cpu == *old(cpu)
                        &&& *rounds[0].handing.ppu == *old(ppu)
                        &&& *rounds[0].first.update.writer == *old(writer)
                    }
                    &&& report.1 is Ok ==> if rounds.len() > 0 {
                        &&& *final(cpu) == *final(rounds.last().third.update.cpu)
                        &&& *final(ppu) == match rounds.last().third.pointing {
                            Some(pointing) => *final(pointing.ppu),
                            None => *final(rounds.last().third.update.ppu),
                        }
                        &&& *final(writer) == *final(rounds.last().third.update.writer)
                    } else {
                        &&& *final(cpu) == *old(cpu)
                        &&& *final(ppu) == *old(ppu)
                        &&& *final(writer) == *old(writer)
                    }
                    &&& report.1 is Err ==> exists|last: Attempt<C>|
                        {
                            &&& #[trigger] is_attempt(last, old(self)@.buttons, report.1)
                            &&& *last.tick.ppu == *final(last.handing.ppu)
                            &&& *final(cpu) == *final(last.tick.cpu)
                            &&& *final(ppu) == *final(last.tick.ppu)
                            &&& if rounds.len() > 0 {
                                &&& *last.tick.cpu == *final(rounds.last().third.update.cpu)
                                &&& *last.handing.ppu == match rounds.last().third.pointing {
                                    Some(pointing) => *final(pointing.ppu),
                                    None => *final(rounds.last().third.update.ppu),
                                }
                                &&& *final(writer) == *final(rounds.last().third.update.writer)
                            } else {
                                &&& *last.tick.cpu == *old(cpu)
                                &&& *last.handing.ppu == *old(ppu)
                                &&& *final(writer) == *old(writer)
                            }
                        }
                },
    {
        proof {
            use_type_invariant(&*self);
            assert(are_rounds(Seq::<Round<C>>::empty(), self@.buttons));
        }
        let mut pacings: Vec<Pacing> = Vec::new();
        loop
            invariant
                old(self)@.ran_against(self@, readings@, pacings@.len()),
                self@.wf(),
                pacings@.len() == self@.steps / (BATCH as nat) - old(self)@.steps / (BATCH as nat),
                self@.steps == old(self)@.steps || self@.can_step(),
                forall|at: int|
                    0 <= at < pacings@.len() ==> #[trigger] pacings@[at] == old(self)@.pacing_of(
                        readings@,
                        at as nat,
                    ),
                exists|rounds: Seq<Round<C>>|
                    {
                        &&& #[trigger] are_rounds(rounds, old(self)@.buttons)
                        &&& rounds.len() == self@.steps - old(self)@.steps
                        &&& forall|at: int|
                            0 <= at < rounds.len() ==> {
                                &&& *(#[trigger] rounds[at]).tick.ppu == *final(rounds[at].handing.ppu)
                                &&& *rounds[at].first.update.cpu == *final(rounds[at].tick.cpu)
                                &&& *rounds[at].first.update.ppu == *final(rounds[at].tick.ppu)
                                &&& *rounds[at].second.update.cpu == *final(rounds[at].first.update.cpu)
                                &&& *rounds[at].second.update.writer == *final(rounds[at].first.update.writer)
                                &&& *rounds[at].second.update.ppu == match rounds[at].first.pointing {
                                    Some(pointing) => *final(pointing.ppu),
                                    None => *final(rounds[at].first.update.ppu),
                                }
                                &&& *rounds[at].third.update.cpu == *final(rounds[at].second.update.cpu)
                                &&& *rounds[at].third.update.writer == *final(rounds[at].second.update.writer)
                                &&& *rounds[at].third.update.ppu == match rounds[at].second.pointing {
                                    Some(pointing) => *final(pointing.ppu),
                                    None => *final(rounds[at].second.update.ppu),
                                }
                                &&& match final(rounds[at].first.update.writer).shown() {
                                    Some(frame) => {
                                        &&& rounds[at].first.pointing matches Some(pointing)
                                        &&& *pointing.ppu == *final(rounds[at].first.update.ppu)
                                        &&& pointing.color == color_at(frame, old(self)@.pointer.0, old(self)@.pointer.1)
                                    },
                                    None => rounds[at].first.pointing is None,
                                }
                                &&& match final(rounds[at].second.update.writer).shown() {
                                    Some(frame) => {
                                        &&& rounds[at].second.pointing matches Some(pointing)
                                        &&& *pointing.ppu == *final(rounds[at].second.update.ppu)
                                        &&& pointing.color == color_at(frame, old(self)@.pointer.0, old(self)@.pointer.1)
                                    },
                                    None => rounds[at].second.pointing is None,
                                }
                                &&& match final(rounds[at].third.update.writer).shown() {
                                    Some(frame) => {
                                        &&& rounds[at].third.pointing matches Some(pointing)
                                        &&& *pointing.ppu == *final(rounds[at].third.update.ppu)
                                        &&& pointing.color == color_at(frame, old(self)@.pointer.0, old(self)@.pointer.1)
                                    },
                                    None => rounds[at].third.pointing is None,
                                }
                            }
                        &&& forall|at: int, next: int|
                            #![trigger rounds[at], rounds[next]]
                            0 <= at && next == at + 1 && next < rounds.len() ==> {
                                &&& *rounds[next].tick.cpu == *final(rounds[at].third.update.cpu)
                                &&& *rounds[next].handing.ppu == match rounds[at].third.pointing {
                                    Some(pointing) => *final(pointing.ppu),
                                    None => *final(rounds[at].third.update.ppu),
                                }
                                &&& *rounds[next].first.update.writer == *final(rounds[at].third.update.writer)
                            }
                        &&& rounds.len() > 0 ==> {
                            &&& *rounds[0].tick.cpu == *old(cpu)
                            &&& *rounds[0].handing.ppu == *old(ppu)
                            &&& *rounds[0].first.update.writer == *old(writer)
                        }
                        &&& if rounds.len() > 0 {
                            &&& *cpu == *final(rounds.last().third.update.cpu)
                            &&& *ppu == match rounds.last().third.pointing {
                                Some(pointing) => *final(pointing.ppu),
                                None => *final(rounds.last().third.update.ppu),
                            }
                            &&& *writer == *final(rounds.last().third.update.writer)
                        } else {
                            &&& *cpu == *old(cpu)
                            &&& *ppu == *old(ppu)
                            &&& *writer == *old(writer)
                        }
                    },
            decreases run_length(self@.ceiling) - self@.steps,
        {
            let ghost before = self@;
            let ghost found = *cpu;
            let ghost peer = *ppu;
            let ghost drawn = *writer;
            let ghost rounds = choose|rounds: Seq<Round<C>>|
                {
                    &&& #[trigger] are_rounds(rounds, old(self)@.buttons)
                    &&& rounds.len() == before.steps - old(self)@.steps
                    &&& forall|at: int|
                        0 <= at < rounds.len() ==> {
                            &&& *(#[trigger] rounds[at]).tick.ppu == *final(rounds[at].handing.ppu)
                            &&& *rounds[at].first.update.cpu == *final(rounds[at].tick.cpu)
                            &&& *rounds[at].first.update.ppu == *final(rounds[at].tick.ppu)
                            &&& *rounds[at].second.update.cpu == *final(rounds[at].first.update.cpu)
                            &&& *rounds[at].second.update.writer == *final(rounds[at].first.update.writer)
                            &&& *rounds[at].second.update.ppu == match rounds[at].first.pointing {
                                Some(pointing) => *final(pointing.ppu),
                                None => *final(rounds[at].first.update.ppu),
                            }
                            &&& *rounds[at].third.update.cpu == *final(rounds[at].second.update.cpu)
                            &&& *rounds[at].third.update.writer == *final(rounds[at].second.update.writer)
                            &&& *rounds[at].third.update.ppu == match rounds[at].second.pointing {
                                Some(pointing) => *final(pointing.ppu),
                                None => *final(rounds[at].second.update.ppu),
                            }
                            &&& match final(rounds[at].first.update.writer).shown() {
                                Some(frame) => {
                                    &&& rounds[at].first.pointing matches Some(pointing)
                                    &&& *pointing.ppu == *final(rounds[at].first.update.ppu)
                                    &&& pointing.color == color_at(frame, old(self)@.pointer.0, old(self)@.pointer.1)
                                },
                                None => rounds[at].first.pointing is None,
                            }
                            &&& match final(rounds[at].second.update.writer).shown() {
                                Some(frame) => {
                                    &&& rounds[at].second.pointing matches Some(pointing)
                                    &&& *pointing.ppu == *final(rounds[at].second.update.ppu)
                                    &&& pointing.color == color_at(frame, old(self)@.pointer.0, old(self)@.pointer.1)
                                },
                                None => rounds[at].second.pointing is None,
                            }
                            &&& match final(rounds[at].third.update.writer).shown() {
                                Some(frame) => {
                                    &&& rounds[at].third.pointing matches Some(pointing)
                                    &&& *pointing.ppu == *final(rounds[at].third.update.ppu)
                                    &&& pointing.color == color_at(frame, old(self)@.pointer.0, old(self)@.pointer.1)
                                },
                                None => rounds[at].third.pointing is None,
                            }
                        }
                    &&& forall|at: int, next: int|
                        #![trigger rounds[at], rounds[next]]
                        0 <= at && next == at + 1 && next < rounds.len() ==> {
                            &&& *rounds[next].tick.cpu == *final(rounds[at].third.update.cpu)
                            &&& *rounds[next].handing.ppu == match rounds[at].third.pointing {
                                Some(pointing) => *final(pointing.ppu),
                                None => *final(rounds[at].third.update.ppu),
                            }
                            &&& *rounds[next].first.update.writer == *final(rounds[at].third.update.writer)
                        }
                    &&& rounds.len() > 0 ==> {
                        &&& *rounds[0].tick.cpu == *old(cpu)
                        &&& *rounds[0].handing.ppu == *old(ppu)
                        &&& *rounds[0].first.update.writer == *old(writer)
                    }
                    &&& if rounds.len() > 0 {
                        &&& found == *final(rounds.last().third.update.cpu)
                        &&& peer == match rounds.last().third.pointing {
                            Some(pointing) => *final(pointing.ppu),
                            None => *final(rounds.last().third.update.ppu),
                        }
                        &&& drawn == *final(rounds.last().third.update.writer)
                    } else {
                        &&& found == *old(cpu)
                        &&& peer == *old(ppu)
                        &&& drawn == *old(writer)
                    }
                };
            proof {
                lemma_run_length(before.ceiling, before.steps);
            }
            let stepped = self.step(cpu, ppu, writer);
            match stepped {
                Err(failure) => {
                    let outcome = Err(failure);
                    proof {
                        assert(tick_outcome(stepped) == outcome);
                        let last = choose|last: Attempt<C>|
                            {
                                &&& #[trigger] is_attempt(
                                    last,
                                    before.buttons,
                                    tick_outcome(stepped),
                                )
                                &&& *last.handing.ppu == peer
                                &&& *last.tick.cpu == found
                                &&& *last.tick.ppu == *final(last.handing.ppu)
                                &&& *cpu == *final(last.tick.cpu)
                                &&& *ppu == *final(last.tick.ppu)
                            };
                        assert(is_attempt(last, old(self)@.buttons, outcome));
                        assert(are_rounds(rounds, old(self)@.buttons));
                    }
                    return (pacings, outcome);
                },
                Ok(next) => {
                    proof {
                        before.lemma_step_answer(self@);
                        if before.can_step() {
                            let round = choose|round: Round<C>|
                                {
                                    &&& #[trigger] is_round(round, before.buttons)
                                    &&& *round.tick.cpu == found
                                    &&& *round.handing.ppu == peer
                                    &&& *round.first.update.writer == drawn
                                    &&& *round.tick.ppu == *final(round.handing.ppu)
                                    &&& *round.first.update.cpu == *final(round.tick.cpu)
                                    &&& *round.first.update.ppu == *final(round.tick.ppu)
                                    &&& *round.second.update.cpu == *final(round.first.update.cpu)
                                    &&& *round.second.update.writer == *final(round.first.update.writer)
                                    &&& *round.second.update.ppu == match round.first.pointing {
                                        Some(pointing) => *final(pointing.ppu),
                                        None => *final(round.first.update.ppu),
                                    }
                                    &&& *round.third.update.cpu == *final(round.second.update.cpu)
                                    &&& *round.third.update.writer == *final(round.second.update.writer)
                                    &&& *round.third.update.ppu == match round.second.pointing {
                                        Some(pointing) => *final(pointing.ppu),
                                        None => *final(round.second.update.ppu),
                                    }
                                    &&& match final(round.first.update.writer).shown() {
                                        Some(frame) => {
                                            &&& round.first.pointing matches Some(pointing)
                                            &&& *pointing.ppu == *final(round.first.update.ppu)
                                            &&& pointing.color == color_at(frame, before.pointer.0, before.pointer.1)
                                        },
                                        None => round.first.pointing is None,
                                    }
                                    &&& match final(round.second.update.writer).shown() {
                                        Some(frame) => {
                                            &&& round.second.pointing matches Some(pointing)
                                            &&& *pointing.ppu == *final(round.second.update.ppu)
                                            &&& pointing.color == color_at(frame, before.pointer.0, before.pointer.1)
                                        },
                                        None => round.second.pointing is None,
                                    }
                                    &&& match final(round.third.update.writer).shown() {
                                        Some(frame) => {
                                            &&& round.third.pointing matches Some(pointing)
                                            &&& *pointing.ppu == *final(round.third.update.ppu)
                                            &&& pointing.color == color_at(frame, before.pointer.0, before.pointer.1)
                                        },
                                        None => round.third.pointing is None,
                                    }
                                    &&& *cpu == *final(round.third.update.cpu)
                                    &&& *ppu == match round.third.pointing {
                                        Some(pointing) => *final(pointing.ppu),
                                        None => *final(round.third.update.ppu),
                                    }
                                    &&& *writer == *final(round.third.update.writer)
                                };
                            let all = rounds.push(round);
                            assert(all.last() == round);
                            assert(forall|at: int|
                                0 <= at < rounds.len() ==> all[at] == rounds[at]);
                            assert(are_rounds(all, old(self)@.buttons));
                        } else {
                            assert(are_rounds(rounds, old(self)@.buttons));
                        }
                    }
                    match next {
                        Next::Finished => {
                            proof {
                                lemma_batch_end(old(self)@.steps, before.steps);
                            }
                            return (pacings, Ok(()));
                        },
                        Next::Await => {
                            return (pacings, Ok(()));
                        },
                        Next::Pace => {
                            proof {
                                lemma_batch_end(old(self)@.steps, before.steps);
                            }
                            self.pace_against(readings, &mut pacings, Ghost(old(self)@));
                        },
                        Next::Step => {
                            proof {
                                lemma_batch_end(old(self)@.steps, before.steps);
                            }
                        },
                    }
                },
            }
        }
    }
}

/// The expected time is the exact time rounded to the nearest nanosecond:
/// it differs from `cycles * NANOS_PER_SEC / CPU_FREQ` by half a nanosecond
/// at most.
pub proof fn lemma_expected_is_nearest(cycles: nat)
    ensures
        2 * expected_nanos(cycles) * CPU_FREQ <= 2 * cycles * NANOS_PER_SEC + CPU_FREQ,
        2 * cycles * NANOS_PER_SEC - CPU_FREQ < 2 * expected_nanos(cycles) * CPU_FREQ,
{
    let dividend = 2 * cycles * NANOS_PER_SEC + CPU_FREQ;
    let divisor = 2 * CPU_FREQ as int;
    vstd::arithmetic::div_mod::lemma_fundamental_div_mod(dividend as int, divisor);
    vstd::arithmetic::div_mod::lemma_mod_bound(dividend as int, divisor);
    assert(divisor * (dividend as int / divisor) == 2 * (dividend as int / divisor) * CPU_FREQ)
        by (nonlinear_arith)
        requires
            divisor == 2 * CPU_FREQ,
    ;
}

/// More cycles never take less time.
pub proof fn lemma_expected_is_monotonic(fewer: nat, more: nat)
    requires
        fewer <= more,
    ensures
        expected_nanos(fewer) <= expected_nanos(more),
{
    vstd::arithmetic::div_mod::lemma_div_is_ordered(
        2 * fewer * NANOS_PER_SEC + CPU_FREQ,
        2 * more * NANOS_PER_SEC + CPU_FREQ,
        2 * CPU_FREQ as int,
    );
}

/// One more step completes a batch exactly when it makes the count a
/// multiple of `BATCH`; the count is then that of the batches begun.
pub proof fn lemma_batch_end(origin: nat, steps: nat)
    requires
        origin <= steps,
    ensures
        (steps + 1) % (BATCH as nat) == 0 ==> (steps + 1) / (BATCH as nat) == steps / (BATCH as nat)
            + 1 && steps + 1 == (origin / (BATCH as nat) + 1 + (steps / (BATCH as nat) - origin / (
        BATCH as nat))) * (BATCH as nat),
        (steps + 1) % (BATCH as nat) != 0 ==> (steps + 1) / (BATCH as nat) == steps / (BATCH as nat),
        origin / (BATCH as nat) <= steps / (BATCH as nat),
{
    assert(BATCH == 1000);
}

/// The length of a run is a multiple of `BATCH` above the limit and at
/// most `BATCH` above it. Of the counts of steps up to it, the length itself
/// is the only one at which a run is over.
pub proof fn lemma_run_length(ceiling: nat, steps: nat)
    requires
        steps <= run_length(ceiling),
    ensures
        run_length(ceiling) > ceiling,
        run_length(ceiling) % (BATCH as nat) == 0,
        run_length(ceiling) - (BATCH as nat) <= ceiling,
        steps % (BATCH as nat) == 0 && steps > ceiling ==> steps == run_length(ceiling),
        !(steps % (BATCH as nat) == 0 && steps > ceiling) ==> steps < run_length(ceiling),
{
    let b = BATCH as nat;
    let q = ceiling / b;
    assert(ceiling == b * q + ceiling % b) by {
        vstd::arithmetic::div_mod::lemma_fundamental_div_mod(ceiling as int, b as int);
    }
    assert(run_length(ceiling) == b * q + b) by (nonlinear_arith)
        requires
            run_length(ceiling) == (q + 1) * b,
    ;
    assert(run_length(ceiling) % b == 0) by {
        vstd::arithmetic::div_mod::lemma_mod_multiples_basic((q + 1) as int, b as int);
    }
    if steps % b == 0 && steps > ceiling {
        let k = steps / b;
        assert(steps == b * k + steps % b) by {
            vstd::arithmetic::div_mod::lemma_fundamental_div_mod(steps as int, b as int);
        }
        assert(k >= q + 1) by (nonlinear_arith)
            requires
                b * k > b * q + ceiling % b,
                ceiling % b >= 0,
                b > 0,
        ;
        assert(k <= q + 1) by (nonlinear_arith)
            requires
                b * k <= b * q + b,
                b > 0,
        ;
    }
}

} // verus!
