//! Angles held exactly, as fractions of a degree.

use vstd::prelude::*;

verus! {

/// A fraction `num / den` of two integers, as contracts speak of it.
pub struct Ratio {
    pub num: int,
    pub den: int,
}

impl Ratio {
    /// The fraction is at least `bound / 1`.
    pub open spec fn at_least(self, bound: int) -> bool {
        self.num >= bound * self.den
    }

    /// The fraction is at most `bound / 1`.
    pub open spec fn at_most(self, bound: int) -> bool {
        self.num <= bound * self.den
    }

    /// The fraction is above `bound / 1`.
    pub open spec fn above(self, bound: int) -> bool {
        self.num > bound * self.den
    }

    /// The fraction is below `bound / 1`.
    pub open spec fn below(self, bound: int) -> bool {
        self.num < bound * self.den
    }
}

/// An angle of `num / den` degrees. Nothing is rounded: the two integers are
/// the angle. The denominator of a valid angle is positive.
#[derive(Clone, Copy, Debug)]
pub struct Degrees {
    pub num: i64,
    pub den: i64,
}

impl View for Degrees {
    type V = Ratio;

    open spec fn view(&self) -> Ratio {
        Ratio { num: self.num as int, den: self.den as int }
    }
}

impl Degrees {
    /// A valid angle has a positive denominator.
    pub open spec fn wf(&self) -> bool {
        self.den > 0
    }
}

} // verus!
