//! Uniform sampling over fixed-point ranges.
//!
//! All randomness enters the crate through one assumed specification for the
//! generator's raw 64-bit draw; everything built on top of it is verified.

use vstd::prelude::*;

use crate::common::fixed::FP_ONE;

verus! {

/// Largest width of a sampling range: one raw 64-bit draw must cover it.
pub const RANDOM_SPAN_MAX: i128 = 0xFFFF_FFFF_FFFF_FFFF;

/// Relies on rand::random: one draw from the thread-local generator, here
/// only ever instantiated at unsigned integer types.  Nothing can be
/// promised of a random value, so there is no postcondition.
pub assume_specification<T>[ rand::random::<T> ]() -> (r: T)
    where
        rand::distr::StandardUniform: rand::distr::Distribution<T>,
;

/// The sampling distributions the renderer draws from: uniform over a
/// half-open range, and uniform over a closed range.
pub enum Distributions {
    Uniform(i128, i128),
    UniformIncl(i128, i128),
}

pub open spec fn dist_wf(dist_type: Distributions) -> bool {
    match dist_type {
        Distributions::Uniform(lo, hi) => lo < hi && hi - lo <= RANDOM_SPAN_MAX,
        Distributions::UniformIncl(lo, hi) => lo <= hi && hi - lo < RANDOM_SPAN_MAX,
    }
}

pub open spec fn dist_contains(dist_type: Distributions, r: int) -> bool {
    match dist_type {
        Distributions::Uniform(lo, hi) => lo <= r < hi,
        Distributions::UniformIncl(lo, hi) => lo <= r <= hi,
    }
}

/// One draw from the given distribution.
pub fn sample(dist_type: Distributions) -> (r: i128)
    requires
        dist_wf(dist_type),
    ensures
        dist_contains(dist_type, r as int),
{
    match dist_type {
        Distributions::Uniform(lo, hi) => {
            let span: u64 = ((hi - lo) as u128) as u64;
            let draw: u64 = rand::random::<u64>() % span;
            lo + (draw as i128)
        },
        Distributions::UniformIncl(lo, hi) => {
            let span: u64 = ((hi - lo + 1) as u128) as u64;
            let draw: u64 = rand::random::<u64>() % span;
            lo + (draw as i128)
        },
    }
}

/// A uniform draw from the half-open range `[min, max)`.
pub fn random_scalar(min: i128, max: i128) -> (r: i128)
    requires
        min < max,
        max - min <= RANDOM_SPAN_MAX,
    ensures
        min <= r < max,
{
    sample(Distributions::Uniform(min, max))
}

/// A uniform draw from the half-open unit range `[0, 1)`.
pub fn random_scalar_standard() -> (r: i128)
    ensures
        0 <= r < FP_ONE,
{
    sample(Distributions::Uniform(0, FP_ONE))
}

} // verus!
