//! Runs without a window or messages. The headless runs have no clock: the
//! processor and the picture unit are stepped as fast as the host allows.
//! [`run_ppu`] runs against clock readings that it is given and returns the
//! sleeps that it asks for. A run that keeps the pace of the emulated clock
//! needs a driver that may read the clock and sleep; it acts on what
//! [`Scheduler::step`] and [`Scheduler::pace`] answer.
use vstd::prelude::*;
use crate::course::{are_rounds, is_attempt, is_new_unit, Attempt, Round};
use crate::cpu::Cpu;
use crate::ppu::{Mirroring, Ppu};
use crate::scheduler::{run_length, Pacing, Scheduler, State, BATCH};
use crate::screen::{color_at, Buttons, Screen, ScreenWriter};

verus! {

/// Runs the processor `cpu` with a new picture unit until a step fails or
/// the cycle limit `max_cycles` is exceeded, without messages, against a
/// clock that reads `readings`, in nanoseconds since the run began, at the
/// end of each batch but the last. Returns the scheduler as the run left it,
/// what each pace asked for, and the failure of the step that ended the run,
/// if one did.
///
/// Each step counted was a whole round: the picture unit was handed the
/// released buttons, the processor stepped and returned `Ok`, and the
/// picture unit was updated three times, each time followed by the handing
/// over of the colour under the pointer where a picture was shown. The
/// picture unit of the first round was made for `mirroring`. Each call
/// found the processor, the picture unit and the writer as the call before
/// it left them, the first the processor and the writer as they were given,
/// and the run leaves them as the last call left them. A run that ends with
/// a failure has handed over the buttons and stepped the processor once
/// more: that step returned the failure.
pub fn run_ppu<C>(
    mirroring: Mirroring,
    cpu: &mut C,
    writer: &mut ScreenWriter,
    max_cycles: Option<usize>,
    readings: &Vec<u128>,
) -> (report: (Scheduler, Vec<Pacing>, Result<(), C::TickError>)) where C: Cpu, C::Ppu: Ppu
    ensures
        State::fresh(max_cycles, 0).ran_against(report.0@, readings@, report.1@.len()),
        report.0@.wf(),
        report.1@.len() == report.0@.steps / (BATCH as nat) - if report.2 is Ok {
            1int
        } else {
            0int
        },
        forall|at: int|
            0 <= at < report.1@.len() ==> #[trigger] report.1@[at] == State::fresh(
                max_cycles,
                0,
            ).pacing_of(readings@, at as nat),
        report.2 is Ok <==> report.0@.finished(),
        report.2 is Ok <==> report.0@.steps == run_length(report.0@.ceiling),
        exists|rounds: Seq<Round<C>>|
            {
                &&& #[trigger] are_rounds(rounds, Buttons::released())
                &&& rounds.len() == report.0@.steps
                &&& forall|at: int|
                    0 <= at < rounds.len() ==> {
                        &&& *(#[trigger] rounds[at]).tick.ppu == *final(rounds[at].handing.ppu)
                        &&& *rounds[at].first.update.cpu == *final(rounds[at].tick.cpu)
                        &&& *rounds[at].first.update.ppu == *final(rounds[at].tick.ppu)
                        &&& *rounds[at].second.update.cpu == *final(rounds[at].first.update.cpu)
                        &&& *rounds[at].second.update.writer == *final(rounds[at].first.update.writer)
                        &&& *rounds[at].second.update.ppu == match rounds[at].first.pointing {
                            Some(pointing) => *final(pointing.ppu),
                            None => *final(rounds[at].first.update.ppu),
                        }
                        &&& *rounds[at].third.update.cpu == *final(rounds[at].second.update.cpu)
                        &&& *rounds[at].third.update.writer == *final(rounds[at].second.update.writer)
                        &&& *rounds[at].third.update.ppu == match rounds[at].second.pointing {
                            Some(pointing) => *final(pointing.ppu),
                            None => *final(rounds[at].second.update.ppu),
                        }
                        &&& match final(rounds[at].first.update.writer).shown() {
                            Some(frame) => {
                                &&& rounds[at].first.pointing matches Some(pointing)
                                &&& *pointing.ppu == *final(rounds[at].first.update.ppu)
                                &&& pointing.color == color_at(frame, 0, 0)
                            },
                            None => rounds[at].first.pointing is None,
                        }
                        &&& match final(rounds[at].second.update.writer).shown() {
                            Some(frame) => {
                                &&& rounds[at].second.pointing matches Some(pointing)
                                &&& *pointing.ppu == *final(rounds[at].second.update.ppu)
                                &&& pointing.color == color_at(frame, 0, 0)
                            },
                            None => rounds[at].second.pointing is None,
                        }
                        &&& match final(rounds[at].third.update.writer).shown() {
                            Some(frame) => {
                                &&& rounds[at].third.pointing matches Some(pointing)
                                &&& *pointing.ppu == *final(rounds[at].third.update.ppu)
                                &&& pointing.color == color_at(frame, 0, 0)
                            },
                            None => rounds[at].third.pointing is None,
                        }
                    }
                &&& forall|at: int, next: int|
                    #![trigger rounds[at], rounds[next]]
                    0 <= at && next == at + 1 && next < rounds.len() ==> {
                        &&& *rounds[next].tick.cpu == *final(rounds[at].third.update.cpu)
                        &&& *rounds[next].handing.ppu == match rounds[at].third.pointing {
                            Some(pointing) => *final(pointing.ppu),
                            None => *final(rounds[at].third.update.ppu),
                        }
                        &&& *rounds[next].first.update.writer == *final(rounds[at].third.update.writer)
                    }
                &&& rounds.len() > 0 ==> {
                    &&& *rounds[0].tick.cpu == *old(cpu)
                    &&& is_new_unit(*rounds[0].handing.ppu, mirroring)
                    &&& *rounds[0].first.update.writer == *old(writer)
                }
                &&& report.2 is Ok ==> {
                    &&& rounds.len() > 0
                    &&& *final(cpu) == *final(rounds.last().third.update.cpu)
                    &&& *final(writer) == *final(rounds.last().third.update.writer)
                }
                &&& report.2 is Err ==> exists|last: Attempt<C>|
                    {
                        &&& #[trigger] is_attempt(last, Buttons::released(), report.2)
                        &&& *last.tick.ppu == *final(last.handing.ppu)
                        &&& *final(cpu) == *final(last.tick.cpu)
                        &&& if rounds.len() > 0 {
                            &&& *last.tick.cpu == *final(rounds.last().third.update.cpu)
                            &&& *last.handing.ppu == match rounds.last().third.pointing {
                                Some(pointing) => *final(pointing.ppu),
                                None => *final(rounds.last().third.update.ppu),
                            }
                            &&& *final(writer) == *final(rounds.last().third.update.writer)
                        } else {
                            &&& *last.tick.cpu == *old(cpu)
                            &&& is_new_unit(*last.handing.ppu, mirroring)
                            &&& *final(writer) == *old(writer)
                        }
                    }
            },
{
    let mut ppu = C::Ppu::new(mirroring);
    let mut scheduler = Scheduler::new(max_cycles, 0);
    let (pacings, outcome) = scheduler.run(cpu, &mut ppu, writer, readings);
    (scheduler, pacings, outcome)
}

/// Like [`run_cpu_headless`], but ends with `Ok` once more than
/// `cycle_limit` cycles were emulated: after the first multiple of a
/// thousand steps above the limit. What the run has counted by then is what
/// [`run_ppu`] reports.
///
/// The run is made of whole rounds, as [`run_ppu`] describes them, with a
/// picture unit that was made for `mirroring` and a writer that presents
/// nothing at first. It ends with `Ok` when as many rounds as the limit
/// asks for are complete, and leaves the processor as the last update left
/// it. It ends with a failure when, after fewer rounds, a step of the
/// processor returned it, and leaves the processor as that step left it.
pub fn run_cpu_headless_for<CPU>(
    cpu: &mut CPU,
    mirroring: Mirroring,
    cycle_limit: usize,
) -> (outcome: Result<(), CPU::TickError>) where CPU: Cpu, CPU::Ppu: Ppu
    ensures
        exists|rounds: Seq<Round<CPU>>|
            {
                &&& #[trigger] are_rounds(rounds, Buttons::released())
                &&& rounds.len() <= run_length(cycle_limit as nat)
                &&& outcome is Ok <==> rounds.len() == run_length(cycle_limit as nat)
                &&& forall|at: int|
                    0 <= at < rounds.len() ==> {
                        &&& *(#[trigger] rounds[at]).tick.ppu == *final(rounds[at].handing.ppu)
                        &&& *rounds[at].first.update.cpu == *final(rounds[at].tick.cpu)
                        &&& *rounds[at].first.update.ppu == *final(rounds[at].tick.ppu)
                        &&& *rounds[at].second.update.cpu == *final(rounds[at].first.update.cpu)
                        &&& *rounds[at].second.update.writer == *final(rounds[at].first.update.writer)
                        &&& *rounds[at].second.update.ppu == match rounds[at].first.pointing {
                            Some(pointing) => *final(pointing.ppu),
                            None => *final(rounds[at].first.update.ppu),
                        }
                        &&& *rounds[at].third.update.cpu == *final(rounds[at].second.update.cpu)
                        &&& *rounds[at].third.update.writer == *final(rounds[at].second.update.writer)
                        &&& *rounds[at].third.update.ppu == match rounds[at].second.pointing {
                            Some(pointing) => *final(pointing.ppu),
                            None => *final(rounds[at].second.update.ppu),
                        }
                        &&& match final(rounds[at].first.update.writer).shown() {
                            Some(frame) => {
                                &&& rounds[at].first.pointing matches Some(pointing)
                                &&& *pointing.ppu == *final(rounds[at].first.update.ppu)
                                &&& pointing.color == color_at(frame, 0, 0)
                            },
                            None => rounds[at].first.pointing is None,
                        }
                        &&& match final(rounds[at].second.update.writer).shown() {
                            Some(frame) => {
                                &&& rounds[at].second.pointing matches Some(pointing)
                                &&& *pointing.ppu == *final(rounds[at].second.update.ppu)
                                &&& pointing.color == color_at(frame, 0, 0)
                            },
                            None => rounds[at].second.pointing is None,
                        }
                        &&& match final(rounds[at].third.update.writer).shown() {
                            Some(frame) => {
                                &&& rounds[at].third.pointing matches Some(pointing)
                                &&& *pointing.ppu == *final(rounds[at].third.update.ppu)
                                &&& pointing.color == color_at(frame, 0, 0)
                            },
                            None => rounds[at].third.pointing is None,
                        }
                    }
                &&& forall|at: int, next: int|
                    #![trigger rounds[at], rounds[next]]
                    0 <= at && next == at + 1 && next < rounds.len() ==> {
                        &&& *rounds[next].tick.cpu == *final(rounds[at].third.update.cpu)
                        &&& *rounds[next].handing.ppu == match rounds[at].third.pointing {
                            Some(pointing) => *final(pointing.ppu),
                            None => *final(rounds[at].third.update.ppu),
                        }
                        &&& *rounds[next].first.update.writer == *final(rounds[at].third.update.writer)
                    }
                &&& rounds.len() > 0 ==> {
                    &&& *rounds[0].tick.cpu == *old(cpu)
                    &&& is_new_unit(*rounds[0].handing.ppu, mirroring)
                    &&& *rounds[0].first.update.writer is Dummy
                }
                &&& outcome is Ok ==> {
                    &&& rounds.len() > 0
                    &&& *final(cpu) == *final(rounds.last().third.update.cpu)
                }
                &&& outcome is Err ==> exists|last: Attempt<CPU>|
                    {
                        &&& #[trigger] is_attempt(last, Buttons::released(), outcome)
                        &&& *last.tick.ppu == *final(last.handing.ppu)
                        &&& *final(cpu) == *final(last.tick.cpu)
                        &&& if rounds.len() > 0 {
                            &&& *last.tick.cpu == *final(rounds.last().third.update.cpu)
                            &&& *last.handing.ppu == match rounds.last().third.pointing {
                                Some(pointing) => *final(pointing.ppu),
                                None => *final(rounds.last().third.update.ppu),
                            }
                        } else {
                            &&& *last.tick.cpu == *old(cpu)
                            &&& is_new_unit(*last.handing.ppu, mirroring)
                        }
                    }
            },
{
    let (_, mut writer) = Screen::dummy();
    let readings: Vec<u128> = Vec::new();
    run_ppu(mirroring, cpu, &mut writer, Some(cycle_limit), &readings).2
}

/// Runs the processor `cpu` as if connected to a picture unit, without a
/// window, until a step fails; the failure is returned. The run also ends,
/// with `Ok`, when the cycles can no longer be counted.
///
/// The run is made of whole rounds, as [`run_ppu`] describes them, with a
/// picture unit that was made for `mirroring` and a writer that presents
/// nothing at first. It ends with a failure when a step of the processor
/// returned it, and leaves the processor as that step left it. It ends with
/// `Ok` only when more rounds than `u64` counts are complete.
pub fn run_cpu_headless<CPU>(
    cpu: &mut CPU,
    mirroring: Mirroring,
) -> (outcome: Result<(), CPU::TickError>) where CPU: Cpu, CPU::Ppu: Ppu
    ensures
        exists|rounds: Seq<Round<CPU>>|
            {
                &&& #[trigger] are_rounds(rounds, Buttons::released())
                &&& rounds.len() <= run_length(u64::MAX as nat)
                &&& outcome is Ok <==> rounds.len() == run_length(u64::MAX as nat)
                &&& forall|at: int|
                    0 <= at < rounds.len() ==> {
                        &&& *(#[trigger] rounds[at]).tick.ppu == *final(rounds[at].handing.ppu)
                        &&& *rounds[at].first.update.cpu == *final(rounds[at].tick.cpu)
                        &&& *rounds[at].first.update.ppu == *final(rounds[at].tick.ppu)
                        &&& *rounds[at].second.update.cpu == *final(rounds[at].first.update.cpu)
                        &&& *rounds[at].second.update.writer == *final(rounds[at].first.update.writer)
                        &&& *rounds[at].second.update.ppu == match rounds[at].first.pointing {
                            Some(pointing) => *final(pointing.ppu),
                            None => *final(rounds[at].first.update.ppu),
                        }
                        &&& *rounds[at].third.update.cpu == *final(rounds[at].second.update.cpu)
                        &&& *rounds[at].third.update.writer == *final(rounds[at].second.update.writer)
                        &&& *rounds[at].third.update.ppu == match rounds[at].second.pointing {
                            Some(pointing) => *final(pointing.ppu),
                            None => *final(rounds[at].second.update.ppu),
                        }
                        &&& match final(rounds[at].first.update.writer).shown() {
                            Some(frame) => {
                                &&& rounds[at].first.pointing matches Some(pointing)
                                &&& *pointing.ppu == *final(rounds[at].first.update.ppu)
                                &&& pointing.color == color_at(frame, 0, 0)
                            },
                            None => rounds[at].first.pointing is None,
                        }
                        &&& match final(rounds[at].second.update.writer).shown() {
                            Some(frame) => {
                                &&& rounds[at].second.pointing matches Some(pointing)
                                &&& *pointing.ppu == *final(rounds[at].second.update.ppu)
                                &&& pointing.color == color_at(frame, 0, 0)
                            },
                            None => rounds[at].second.pointing is None,
                        }
                        &&& match final(rounds[at].third.update.writer).shown() {
                            Some(frame) => {
                                &&& rounds[at].third.pointing matches Some(pointing)
                                &&& *pointing.ppu == *final(rounds[at].third.update.ppu)
                                &&& pointing.color == color_at(frame, 0, 0)
                            },
                            None => rounds[at].third.pointing is None,
                        }
                    }
                &&& forall|at: int, next: int|
                    #![trigger rounds[at], rounds[next]]
                    0 <= at && next == at + 1 && next < rounds.len() ==> {
                        &&& *rounds[next].tick.cpu == *final(rounds[at].third.update.cpu)
                        &&& *rounds[next].handing.ppu == match rounds[at].third.pointing {
                            Some(pointing) => *final(pointing.ppu),
                            None => *final(rounds[at].third.update.ppu),
                        }
                        &&& *rounds[next].first.update.writer == *final(rounds[at].third.update.writer)
                    }
                &&& rounds.len() > 0 ==> {
                    &&& *rounds[0].tick.cpu == *old(cpu)
                    &&& is_new_unit(*rounds[0].handing.ppu, mirroring)
                    &&& *rounds[0].first.update.writer is Dummy
                }
                &&& outcome is Ok ==> {
                    &&& rounds.len() > 0
                    &&& *final(cpu) == *final(rounds.last().third.update.cpu)
                }
                &&& outcome is Err ==> exists|last: Attempt<CPU>|
                    {
                        &&& #[trigger] is_attempt(last, Buttons::released(), outcome)
                        &&& *last.tick.ppu == *final(last.handing.ppu)
                        &&& *final(cpu) == *final(last.tick.cpu)
                        &&& if rounds.len() > 0 {
                            &&& *last.tick.cpu == *final(rounds.last().third.update.cpu)
                            &&& *last.handing.ppu == match rounds.last().third.pointing {
                                Some(pointing) => *final(pointing.ppu),
                                None => *final(rounds.last().third.update.ppu),
                            }
                        } else {
                            &&& *last.tick.cpu == *old(cpu)
                            &&& is_new_unit(*last.handing.ppu, mirroring)
                        }
                    }
            },
{
    let (_, mut writer) = Screen::dummy();
    let readings: Vec<u128> = Vec::new();
    run_ppu(mirroring, cpu, &mut writer, None, &readings).2
}

} // verus!
