//! Closed ranges of fixed-point values, used to bound acceptable ray
//! parameters during intersection.

use crate::fixed::{spec_sub, fx_sub, FX_MAX};
use vstd::prelude::*;

verus! {

/// A closed range `[min, max]`. An inverted pair denotes the empty range.
#[derive(Clone, Copy, Debug, PartialEq, Eq, Structural)]
pub struct Interval {
    pub min: i64,
    pub max: i64,
}

/// Whether `x` lies in the closed range.
pub open spec fn spec_contains(i: Interval, x: i64) -> bool {
    i.min <= x && x <= i.max
}

/// Whether `x` lies strictly inside the range.
pub open spec fn spec_surrounds(i: Interval, x: i64) -> bool {
    i.min < x && x < i.max
}

/// `x` pushed into the closed range.
pub open spec fn spec_clamp(i: Interval, x: i64) -> i64 {
    if x < i.min {
        i.min
    } else if x > i.max {
        i.max
    } else {
        x
    }
}

impl Interval {
    /// The range with the given ends.
    pub fn new(min: i64, max: i64) -> (r: Interval)
        ensures
            r == (Interval { min, max }),
    {
        Interval { min, max }
    }

    /// The empty range: every end inverted, so that it contains nothing.
    pub fn empty() -> (r: Interval)
        ensures
            r.min == FX_MAX,
            r.max == -FX_MAX,
    {
        Interval { min: FX_MAX, max: -FX_MAX }
    }

    /// The range of every representable value.
    pub fn universe() -> (r: Interval)
        ensures
            r.min == -FX_MAX,
            r.max == FX_MAX,
    {
        Interval { min: -FX_MAX, max: FX_MAX }
    }

    /// The breadth of the range.
    pub fn size(&self) -> (r: i64)
        ensures
            r as int == spec_sub(self.max as int, self.min as int),
    {
        fx_sub(self.max, self.min)
    }

    /// Whether `x` lies in the closed range.
    pub fn contains(&self, x: i64) -> (r: bool)
        ensures
            r == spec_contains(*self, x),
    {
        self.min <= x && x <= self.max
    }

    /// Whether `x` lies strictly inside the range.
    pub fn surrounds(&self, x: i64) -> (r: bool)
        ensures
            r == spec_surrounds(*self, x),
    {
        self.min < x && x < self.max
    }

    /// `x` pushed into the closed range.
    pub fn clamp(&self, x: i64) -> (r: i64)
        ensures
            r == spec_clamp(*self, x),
    {
        if x < self.min {
            return self.min;
        }
        if x > self.max {
            return self.max;
        }
        x
    }
}

} // verus!
