//! Colour handling: gamma correction and conversion of a linear colour to
//! the byte triple a pixel stream carries.

use vstd::prelude::*;

use crate::common::fixed::{fsqrt, fx_sqrt, FP_ONE, FX_SQRT_MAX};
use crate::common::interval::Interval;
use crate::common::vec3::Vector3;

verus! {

pub type Colour = Vector3;

/// Largest channel intensity that survives clamping before the byte
/// conversion: just under one unit, so a full channel maps to 255.
pub const INTENSITY_MAX: i128 = 65470;

/// Every channel inside `[0, 1]`.
pub open spec fn valid_colour(c: Colour) -> bool {
    0 <= c.x <= FP_ONE && 0 <= c.y <= FP_ONE && 0 <= c.z <= FP_ONE
}

/// Gamma-2 decoding by square root; non-positive channels darken to zero.
pub open spec fn linear_to_gamma_spec(c: int) -> int {
    if c > 0 {
        fsqrt(c)
    } else {
        0
    }
}

/// The byte a linear channel maps to: gamma decoding, clamping to
/// `[0, INTENSITY_MAX]`, then scaling to `[0, 255]`.
pub open spec fn channel_byte(c: int) -> int {
    let clamped = Interval { min: 0, max: INTENSITY_MAX }.clamp_spec(linear_to_gamma_spec(c));
    clamped * 256 / (FP_ONE as int)
}

/// Gamma-2 decoding of one linear channel.
pub fn linear_to_gamma(linear_component: i128) -> (r: i128)
    requires
        linear_component <= FX_SQRT_MAX,
    ensures
        r == linear_to_gamma_spec(linear_component as int),
        r >= 0,
{
    if linear_component > 0 {
        fx_sqrt(linear_component)
    } else {
        0
    }
}

/// The byte triple of a linear colour: each channel is gamma decoded,
/// clamped to `[0, INTENSITY_MAX]` and scaled to `[0, 255]`.
pub fn colour_to_bytes(pixel_colour: &Colour) -> (r: (u8, u8, u8))
    requires
        pixel_colour.x <= FX_SQRT_MAX,
        pixel_colour.y <= FX_SQRT_MAX,
        pixel_colour.z <= FX_SQRT_MAX,
    ensures
        r.0 == channel_byte(pixel_colour.x as int),
        r.1 == channel_byte(pixel_colour.y as int),
        r.2 == channel_byte(pixel_colour.z as int),
{
    let r = linear_to_gamma(pixel_colour.x());
    let g = linear_to_gamma(pixel_colour.y());
    let b = linear_to_gamma(pixel_colour.z());
    let intensity = Interval::build(0, INTENSITY_MAX);
    let rbyte = scale_to_byte(intensity.clamp(r));
    let gbyte = scale_to_byte(intensity.clamp(g));
    let bbyte = scale_to_byte(intensity.clamp(b));
    (rbyte, gbyte, bbyte)
}

/// Scaling of a clamped intensity to a byte.
fn scale_to_byte(clamped: i128) -> (r: u8)
    requires
        0 <= clamped <= INTENSITY_MAX,
    ensures
        r == clamped * 256 / (FP_ONE as int),
{
    let wide: u32 = (clamped as u32) * 256;
    proof {
        vstd::arithmetic::div_mod::lemma_div_is_ordered(
            wide as int,
            INTENSITY_MAX as int * 256,
            FP_ONE as int,
        );
    }
    (wide / 65536) as u8
}

} // verus!
