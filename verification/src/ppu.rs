//! The picture unit collaborator.
use vstd::prelude::*;
use crate::cpu::Cpu;
use crate::screen::{Buttons, Color, ScreenWriter};

verus! {

/// How a cartridge maps the background memory of the picture unit.
///
/// The scheduler hands the value to [`Ppu::new`] and never looks at it.
#[derive(Debug, Clone, Copy, PartialEq, Eq, Structural)]
pub enum Mirroring {
    Horizontal,
    Vertical,
    SingleScreen,
    FourScreen,
}

/// A picture unit that the scheduler drives at three times the rate of the
/// processor.
///
/// Nothing is assumed of an implementation. The scheduler states what it
/// hands over: the controller state before each processor step, and the
/// colour under the pointer after each update while a picture is presented.
pub trait Ppu: Sized {
    /// A picture unit for a cartridge with the given mirroring.
    fn new(mirroring: Mirroring) -> Self;

    /// Replaces the controller state that the picture unit reads.
    fn set_buttons(&mut self, buttons: Buttons);

    /// Advances the picture unit by one cycle. It may draw into `writer`
    /// and publish a finished picture through it.
    fn update<C>(&mut self, cpu: &mut C, writer: &mut ScreenWriter) where C: Cpu<Ppu = Self>;

    /// Replaces the colour that the light gun senses.
    fn set_pointed_pixel(&mut self, color: Color);
}

} // verus!
