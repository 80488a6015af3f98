//! The processor collaborator.
use vstd::prelude::*;

verus! {

/// A processor that the scheduler can step.
///
/// Nothing is assumed of an implementation: whatever `tick` does to the
/// processor and to the picture unit, and whatever it returns, the scheduler
/// stops at the first failure and hands it to its caller.
pub trait Cpu {
    /// Why a step failed.
    type TickError;

    /// The picture unit that is mapped into this processor's memory.
    type Ppu;

    /// Advances the processor by one step.
    fn tick(&mut self, ppu: &mut Self::Ppu) -> Result<(), Self::TickError>;
}

} // verus!
