//! The interrupt vector numbers this core consumes. Installing the vector
//! table and acknowledging the interrupt controller are the platform's
//! part; the core only fixes which vector carries which hardware event.
use vstd::prelude::*;

verus! {

/// First vector the primary interrupt controller is remapped to, clear of
/// the processor's exception vectors.
pub const PIC_1_OFFSET: u8 = 32;

/// First vector of the secondary, chained interrupt controller.
pub const PIC_2_OFFSET: u8 = PIC_1_OFFSET + 8;

/// The hardware interrupt lines the core consumes.
#[derive(Clone, Copy, Debug, PartialEq, Eq, Structural)]
pub enum InterruptIndex {
    /// The periodic timer, on the controller's first line.
    Timer,
    /// The keyboard, on the line after the timer.
    Keyboard,
}

impl InterruptIndex {
    /// The interrupt vector the line is delivered on.
    pub open spec fn vector_spec(self) -> u8 {
        match self {
            InterruptIndex::Timer => PIC_1_OFFSET,
            InterruptIndex::Keyboard => (PIC_1_OFFSET + 1) as u8,
        }
    }

    pub fn as_u8(self) -> (r: u8)
        ensures
            r == self.vector_spec(),
    {
        match self {
            InterruptIndex::Timer => PIC_1_OFFSET,
            InterruptIndex::Keyboard => PIC_1_OFFSET + 1,
        }
    }
}

} // verus!
