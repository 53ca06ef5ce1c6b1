//! A closed scalar range used to bound valid intersection parameters and to
//! clamp colour channels.

use vstd::prelude::*;

use crate::common::fixed::FX_SQRT_MAX;

verus! {

/// An empty interval is represented by bounds far outside the range any
/// intersection parameter or colour channel can reach, with the minimum
/// above the maximum so that no scalar is contained.
pub const INTERVAL_EMPTY_MIN: i128 = FX_SQRT_MAX;

pub const INTERVAL_EMPTY_MAX: i128 = -FX_SQRT_MAX;

#[derive(Clone, Copy, PartialEq, Eq, Structural, Debug)]
pub struct Interval {
    pub min: i128,
    pub max: i128,
}

impl Interval {
    /// The empty interval: it contains no scalar at all.
    pub fn new() -> (r: Interval)
        ensures
            r.min == INTERVAL_EMPTY_MIN,
            r.max == INTERVAL_EMPTY_MAX,
            forall|x: int| !r.contains_spec(x),
    {
        Interval { min: INTERVAL_EMPTY_MIN, max: INTERVAL_EMPTY_MAX }
    }

    pub fn build(min: i128, max: i128) -> (r: Interval)
        ensures
            r.min == min,
            r.max == max,
    {
        Interval { min, max }
    }

    pub open spec fn size_spec(&self) -> int {
        self.max - self.min
    }

    pub fn size(&self) -> (r: i128)
        requires
            -FX_SQRT_MAX <= self.min <= FX_SQRT_MAX,
            -FX_SQRT_MAX <= self.max <= FX_SQRT_MAX,
        ensures
            r == self.size_spec(),
    {
        self.max - self.min
    }

    pub fn min(&self) -> (r: i128)
        ensures
            r == self.min,
    {
        self.min
    }

    pub fn max(&self) -> (r: i128)
        ensures
            r == self.max,
    {
        self.max
    }

    pub open spec fn contains_spec(&self, x: int) -> bool {
        self.min <= x <= self.max
    }

    /// Inclusive containment.
    pub fn contains(&self, x: i128) -> (r: bool)
        ensures
            r == self.contains_spec(x as int),
    {
        self.min <= x && x <= self.max
    }

    pub open spec fn surrounds_spec(&self, x: int) -> bool {
        self.min < x < self.max
    }

    /// Strict containment: used for intersection parameters, where a hit on
    /// the boundary of the valid range is rejected.
    pub fn surrounds(&self, x: i128) -> (r: bool)
        ensures
            r == self.surrounds_spec(x as int),
    {
        self.min < x && x < self.max
    }

    pub open spec fn clamp_spec(&self, x: int) -> int {
        if x < self.min {
            self.min as int
        } else if x > self.max {
            self.max as int
        } else {
            x
        }
    }

    /// The nearest scalar inside the interval.
    pub fn clamp(&self, x: i128) -> (r: i128)
        ensures
            r == self.clamp_spec(x as int),
    {
        if x < self.min {
            self.min
        } else if x > self.max {
            self.max
        } else {
            x
        }
    }
}

} // verus!
