//! Faults that abort an instruction and vector to the interrupt handler.
use vstd::prelude::*;

verus! {

/// The kind of fault; its code is what the interrupt register latches.
#[derive(Clone, Copy, Debug, PartialEq, Eq, Structural)]
pub enum Inter {
    OutOfMem,
    RegOverflow,
    InvalidInst,
    IoError,
}

impl Inter {
    pub open spec fn spec_code(self) -> i8 {
        match self {
            Inter::OutOfMem => 1,
            Inter::RegOverflow => 2,
            Inter::InvalidInst => 3,
            Inter::IoError => 4,
        }
    }

    /// The code latched into `ir` when this fault is taken.
    pub fn code(self) -> (r: i8)
        ensures
            r == self.spec_code(),
    {
        match self {
            Inter::OutOfMem => 1,
            Inter::RegOverflow => 2,
            Inter::InvalidInst => 3,
            Inter::IoError => 4,
        }
    }
}

} // verus!
