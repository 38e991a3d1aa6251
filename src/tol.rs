//! Bilateral tolerances: an upper and a lower offset from a nominal value.
use vstd::prelude::*;

verus! {

/// A bilateral tolerance. Both offsets are relative to the nominal value, in
/// millionths of a unit; a well-formed one has `upper >= lower`.
#[derive(Clone, Copy, Debug)]
pub struct Bilateral {
    pub upper: i64,
    pub lower: i64,
}

impl Bilateral {
    /// The total width of the band.
    pub open spec fn width(self) -> int {
        self.upper - self.lower
    }

    /// The tolerance with the offsets `upper` and `lower`, swapped where
    /// they come in the wrong order.
    pub open spec fn spec_asymmetric(upper: i64, lower: i64) -> Bilateral {
        if upper < lower {
            Bilateral { upper: lower, lower: upper }
        } else {
            Bilateral { upper, lower }
        }
    }

    /// Same as [`Bilateral::asymmetric`].
    pub fn new(upper: i64, lower: i64) -> (r: Bilateral)
        ensures
            r == Bilateral::spec_asymmetric(upper, lower),
    {
        Bilateral::asymmetric(upper, lower)
    }

    /// A tolerance with independent upper and lower offsets. Offsets given in
    /// the wrong order are swapped, never rejected.
    pub fn asymmetric(upper: i64, lower: i64) -> (r: Bilateral)
        ensures
            r == Bilateral::spec_asymmetric(upper, lower),
            r.upper >= r.lower,
    {
        if upper < lower {
            Bilateral { upper: lower, lower: upper }
        } else {
            Bilateral { upper, lower }
        }
    }

    /// A tolerance of `tol` on either side of the nominal value.
    pub fn symmetric(tol: i64) -> (r: Bilateral)
        requires
            tol > i64::MIN,
        ensures
            r.upper == tol,
            r.lower == -tol,
            r.width() == 2 * tol,
    {
        Bilateral { upper: tol, lower: -tol }
    }

    /// Same as [`Bilateral::asymmetric`].
    pub fn unequal(upper: i64, lower: i64) -> (r: Bilateral)
        ensures
            r == Bilateral::spec_asymmetric(upper, lower),
            r.upper >= r.lower,
    {
        Bilateral::asymmetric(upper, lower)
    }

    /// The total width of the band, `upper - lower`.
    pub fn t(&self) -> (r: i64)
        requires
            i64::MIN <= self.width() <= i64::MAX,
        ensures
            r == self.width(),
    {
        self.upper - self.lower
    }
}

/// Whatever the order of the offsets given, the tolerance built from them
/// has its upper offset at or above its lower one, and its width is the
/// distance between the two offsets.
pub proof fn lemma_asymmetric_ordered(upper: i64, lower: i64)
    ensures
        Bilateral::spec_asymmetric(upper, lower).upper >= Bilateral::spec_asymmetric(
            upper,
            lower,
        ).lower,
        Bilateral::spec_asymmetric(upper, lower).width() == if upper >= lower {
            upper - lower
        } else {
            lower - upper
        },
{
}

} // verus!
