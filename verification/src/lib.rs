//! The real-time core of a NES-class console emulator.
//!
//! The crate paces a stepping function against the wall clock, folds the
//! control messages of the presentation side into controller and pointer
//! state, and hands finished pictures from the emulation to the display.
//! Processor and picture unit are collaborators behind the traits
//! [`Cpu`] and [`Ppu`]; windows, threads and sleeping belong to the host.
use vstd::prelude::*;

pub mod course;
pub mod cpu;
pub mod input;
pub mod pointer;
pub mod ppu;
pub mod run;
pub mod scheduler;
pub mod screen;

pub use cpu::Cpu;
pub use ppu::{Mirroring, Ppu};
pub use run::{run_cpu_headless, run_cpu_headless_for};

verus! {

/// Width of the emulated picture, in pixels.
pub const WIDTH: u32 = 256;

/// Height of the emulated picture, in pixels.
pub const HEIGHT: u32 = 240;

/// Clock rate of the emulated processor, in cycles per second.
pub const CPU_FREQ: u64 = 1_789_773;

} // verus!
