//! Interrupt vector numbers of the chained programmable interrupt
//! controllers.

use vstd::prelude::*;

verus! {

/// The first vector of the primary controller.
pub const PIC_1_OFFSET: u8 = 32;
/// The first vector of the secondary controller.
pub const PIC_2_OFFSET: u8 = 40;

/// The hardware interrupts the kernel handles.
#[derive(Debug, Clone, Copy, PartialEq, Eq, Structural)]
pub enum InterruptIndex {
    Timer,
}

impl InterruptIndex {
    /// The interrupt's vector number.
    pub fn as_u8(self) -> (r: u8)
        ensures
            r == self.as_u8_spec(),
    {
        match self {
            InterruptIndex::Timer => PIC_1_OFFSET,
        }
    }

    /// The interrupt's vector number, as an index into the descriptor table.
    pub fn as_usize(self) -> (r: usize)
        ensures
            r == self.as_u8_spec(),
    {
        self.as_u8() as usize
    }

    pub open spec fn as_u8_spec(self) -> u8 {
        match self {
            InterruptIndex::Timer => PIC_1_OFFSET,
        }
    }
}

} // verus!
