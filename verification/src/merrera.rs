//! The machine-error exceptional-program-counter diagnostic value: a plain
//! wrapper over the raw register bits. Reading and writing the hardware
//! register itself is a privileged, architecture-specific operation; the
//! value travels through the kernel as this type.

use vstd::prelude::*;

verus! {

/// Snapshot of the machine-error era register: the program counter at which
/// the last machine-error exception was taken.
pub struct MerrEra {
    /// The raw register bits.
    pub bits: usize,
}

impl MerrEra {
    /// The raw register bits.
    pub open spec fn spec_bits(&self) -> usize {
        self.bits
    }

    /// The raw register value.
    pub fn raw(&self) -> (r: usize)
        ensures
            r == self.spec_bits(),
    {
        self.bits
    }

    /// The faulting program counter the register holds.
    pub fn pc(&self) -> (r: usize)
        ensures
            r == self.spec_bits(),
    {
        self.bits
    }
}

impl From<usize> for MerrEra {
    fn from(value: usize) -> (r: Self) {
        MerrEra { bits: value }
    }
}

impl vstd::std_specs::convert::FromSpecImpl<usize> for MerrEra {
    open spec fn obeys_from_spec() -> bool {
        true
    }

    open spec fn from_spec(v: usize) -> Self {
        MerrEra { bits: v }
    }
}

} // verus!
