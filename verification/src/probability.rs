//! The chance with which a random fill makes a cell alive.

use vstd::prelude::*;

verus! {

/// A chance of `numerator` in `denominator`.
#[derive(Clone, Copy, Debug, PartialEq, Eq, Structural)]
pub struct Probability {
    pub numerator: u32,
    pub denominator: u32,
}

impl Probability {
    /// The chance lies between never and always.
    pub open spec fn valid(self) -> bool {
        0 < self.denominator && self.numerator <= self.denominator
    }

    /// The chance is none at all.
    pub open spec fn never(self) -> bool {
        self.numerator == 0
    }

    /// The chance is a certainty.
    pub open spec fn always(self) -> bool {
        self.numerator == self.denominator
    }

    /// Tells whether the chance lies between never and always.
    pub fn is_valid(&self) -> (valid: bool)
        ensures
            valid == self.valid(),
    {
        0 < self.denominator && self.numerator <= self.denominator
    }
}

} // verus!
