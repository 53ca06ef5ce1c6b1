//! Three-component vectors over the fixed-point scalar, together with the
//! vector operators the renderer needs: dot and cross products,
//! normalization, mirror reflection and Snell refraction.

use vstd::prelude::*;

use crate::common::fixed::{
    abs_i, div_tz, fdiv, fmul, fsqrt, fx_div, fx_mul, fx_sqrt, lemma_div_tz_mag, lemma_fmul_mag,
    min_i,
    FP_ONE, FX_DIV_MAX, FX_MUL_MAX,
};
use crate::common::random::{random_scalar, RANDOM_SPAN_MAX};
use crate::common::{NORMAL_MAX, REFRACT_RATIO_MAX, SCATTER_DIR_MAX, WORLD_MAX};

verus! {

/// Magnitude below which a component counts as zero when testing for a
/// degenerate (near zero length) scatter direction.
pub const NEAR_ZERO_EPS: i128 = 2;

/// Bound on the components of any normalized vector: one unit plus rounding
/// slack (see `lemma_unit_component_bound`).
pub const UNIT_MAX: i128 = 196608;

#[derive(Clone, Copy, PartialEq, Eq, Structural, Debug)]
pub struct Vector3 {
    pub x: i128,
    pub y: i128,
    pub z: i128,
}

pub type Point3 = Vector3;

/// Every component within `m` in magnitude.
pub open spec fn in_range(v: Vector3, m: int) -> bool {
    abs_i(v.x as int) <= m && abs_i(v.y as int) <= m && abs_i(v.z as int) <= m
}

/// The fixed-point dot product.
pub open spec fn dot(a: Vector3, b: Vector3) -> int {
    fmul(a.x as int, b.x as int) + fmul(a.y as int, b.y as int) + fmul(a.z as int, b.z as int)
}

pub open spec fn neg_spec(v: Vector3) -> Vector3 {
    Vector3 { x: (-v.x) as i128, y: (-v.y) as i128, z: (-v.z) as i128 }
}

pub open spec fn add_spec(a: Vector3, b: Vector3) -> Vector3 {
    Vector3 { x: (a.x + b.x) as i128, y: (a.y + b.y) as i128, z: (a.z + b.z) as i128 }
}

pub open spec fn sub_spec(a: Vector3, b: Vector3) -> Vector3 {
    Vector3 { x: (a.x - b.x) as i128, y: (a.y - b.y) as i128, z: (a.z - b.z) as i128 }
}

/// Componentwise product: attenuation of one colour by another.
pub open spec fn mul_spec(a: Vector3, b: Vector3) -> Vector3 {
    Vector3 {
        x: fmul(a.x as int, b.x as int) as i128,
        y: fmul(a.y as int, b.y as int) as i128,
        z: fmul(a.z as int, b.z as int) as i128,
    }
}

/// Scaling by a fixed-point scalar.
pub open spec fn scale_spec(v: Vector3, t: int) -> Vector3 {
    Vector3 {
        x: fmul(v.x as int, t) as i128,
        y: fmul(v.y as int, t) as i128,
        z: fmul(v.z as int, t) as i128,
    }
}

pub open spec fn div_spec(v: Vector3, t: int) -> Vector3
    recommends
        t != 0,
{
    Vector3 {
        x: fdiv(v.x as int, t) as i128,
        y: fdiv(v.y as int, t) as i128,
        z: fdiv(v.z as int, t) as i128,
    }
}

pub open spec fn cross_spec(a: Vector3, b: Vector3) -> Vector3 {
    Vector3 {
        x: (fmul(a.y as int, b.z as int) - fmul(a.z as int, b.y as int)) as i128,
        y: (fmul(a.z as int, b.x as int) - fmul(a.x as int, b.z as int)) as i128,
        z: (fmul(a.x as int, b.y as int) - fmul(a.y as int, b.x as int)) as i128,
    }
}

/// Normalization.  The zero vector, which has no direction, is returned
/// unchanged; every other vector is divided by its fixed-point length.
pub open spec fn unit_spec(v: Vector3) -> Vector3 {
    if dot(v, v) == 0 {
        v
    } else {
        div_spec(v, fsqrt(dot(v, v)))
    }
}

/// All components within `NEAR_ZERO_EPS` of zero.
pub open spec fn near_zero_spec(v: Vector3) -> bool {
    in_range(v, NEAR_ZERO_EPS - 1)
}

/// Mirror reflection of `d` about the normal `n`: `d - 2 (d . n) n`.
pub open spec fn reflect_spec(d: Vector3, n: Vector3) -> Vector3 {
    sub_spec(d, scale_spec(n, 2 * dot(d, n)))
}

/// Snell refraction of the unit direction `uv` at a surface with normal `n`
/// and refraction ratio `ratio`.  The parallel part takes the square root of
/// the positive part of `1 - |perp|^2`, so rounding can never drive the
/// radicand negative.
pub open spec fn refract_spec(uv: Vector3, n: Vector3, ratio: int) -> Vector3 {
    let cos_theta = min_i(dot(neg_spec(uv), n), FP_ONE as int);
    let r_out_perp = scale_spec(add_spec(uv, scale_spec(n, cos_theta)), ratio);
    let radicand = max_0(FP_ONE as int - dot(r_out_perp, r_out_perp));
    add_spec(r_out_perp, scale_spec(n, -fsqrt(radicand)))
}

pub open spec fn max_0(a: int) -> int {
    if a >= 0 {
        a
    } else {
        0
    }
}

/// A squared fixed-point scalar is never negative.
pub proof fn lemma_fmul_square_nonneg(a: int)
    ensures
        fmul(a, a) >= 0,
{
    assert(a * a >= 0) by (nonlinear_arith);
    vstd::arithmetic::div_mod::lemma_div_pos_is_pos(a * a, FP_ONE as int);
}

/// Negating one factor negates a fixed-point product.
pub proof fn lemma_fmul_neg(a: int, b: int)
    ensures
        fmul(-a, b) == -fmul(a, b),
{
    assert((-a) * b == -(a * b)) by (nonlinear_arith);
    assert(abs_i((-a) * b) == abs_i(a * b));
}

/// Negating a vector negates its dot product with any other vector.
pub proof fn lemma_dot_neg(a: Vector3, b: Vector3)
    requires
        in_range(a, FX_MUL_MAX as int),
    ensures
        dot(neg_spec(a), b) == -dot(a, b),
{
    lemma_fmul_neg(a.x as int, b.x as int);
    lemma_fmul_neg(a.y as int, b.y as int);
    lemma_fmul_neg(a.z as int, b.z as int);
}

/// Negating a vector leaves its squared length unchanged.
pub proof fn lemma_dot_neg_neg(v: Vector3)
    requires
        in_range(v, FX_DIV_MAX as int),
    ensures
        dot(neg_spec(v), neg_spec(v)) == dot(v, v),
{
    assert((-v.x as int) * (-v.x as int) == v.x as int * v.x as int) by (nonlinear_arith);
    assert((-v.y as int) * (-v.y as int) == v.y as int * v.y as int) by (nonlinear_arith);
    assert((-v.z as int) * (-v.z as int) == v.z as int * v.z as int) by (nonlinear_arith);
}

/// A component of a normalized vector stays within `UNIT_MAX`: the component
/// squared is at most the squared length, so dividing by the fixed-point
/// length leaves at most one unit plus rounding slack.
pub proof fn lemma_unit_component_bound(c: int, ls: int)
    requires
        ls >= 1,
        fmul(c, c) <= ls,
    ensures
        abs_i(fdiv(c, fsqrt(ls))) <= UNIT_MAX as int,
        fsqrt(ls) >= 1,
{
    let one = FP_ONE as int;
    let len = fsqrt(ls);
    crate::common::fixed::lemma_isqrt_bounds((ls * one) as nat);
    assert(len * len <= ls * one);
    assert(ls * one < (len + 1) * (len + 1));
    assert(len >= 256) by (nonlinear_arith)
        requires
            ls >= 1,
            one == 65536,
            ls * one < (len + 1) * (len + 1),
            len >= 0,
    ;
    // From fmul(c, c) <= ls: c * c < (ls + 1) * one.
    assert(c * c >= 0) by (nonlinear_arith);
    vstd::arithmetic::div_mod::lemma_fundamental_div_mod(c * c, one);
    vstd::arithmetic::div_mod::lemma_remainder_upper(c * c, one);
    vstd::arithmetic::div_mod::lemma_remainder_lower(c * c, one);
    assert(c * c < (ls + 1) * one) by (nonlinear_arith)
        requires
            c * c == one * ((c * c) / one) + (c * c) % one,
            (c * c) / one <= ls,
            0 <= (c * c) % one < one,
    ;
    // So |c| <= len + 257.
    assert(abs_i(c) <= len + 257) by (nonlinear_arith)
        requires
            c * c < (ls + 1) * one,
            ls * one < (len + 1) * (len + 1),
            one == 65536,
            len >= 256,
    ;
    // Dividing by len then leaves at most 2^16 + 257 * 2^16 / len <= 3 * 2^16.
    lemma_div_tz_mag(c * one, len);
    assert(abs_i(c * one) == abs_i(c) * one);
    assert(abs_i(c) * one <= (len + 257) * one) by (nonlinear_arith)
        requires
            abs_i(c) <= len + 257,
            one == 65536,
    ;
    vstd::arithmetic::div_mod::lemma_div_is_ordered(abs_i(c) * one, (len + 257) * one, len);
    vstd::arithmetic::div_mod::lemma_fundamental_div_mod((len + 257) * one, len);
    vstd::arithmetic::div_mod::lemma_remainder_upper((len + 257) * one, len);
    vstd::arithmetic::div_mod::lemma_remainder_lower((len + 257) * one, len);
    assert((len + 257) * one / len <= UNIT_MAX as int) by (nonlinear_arith)
        requires
            len >= 256,
            one == 65536,
            (len + 257) * one == len * ((len + 257) * one / len) + ((len + 257) * one) % len,
            0 <= ((len + 257) * one) % len < len,
    ;
}

/// Every component of a normalized vector is bounded by `UNIT_MAX`.  When
/// the squared length truncates to zero the vector itself is already tiny.
pub proof fn lemma_unit_spec_bounded(v: Vector3)
    requires
        in_range(v, FX_MUL_MAX as int),
    ensures
        in_range(unit_spec(v), UNIT_MAX as int),
{
    lemma_fmul_square_nonneg(v.x as int);
    lemma_fmul_square_nonneg(v.y as int);
    lemma_fmul_square_nonneg(v.z as int);
    if dot(v, v) != 0 {
        let ls = dot(v, v);
        lemma_unit_component_bound(v.x as int, ls);
        lemma_unit_component_bound(v.y as int, ls);
        lemma_unit_component_bound(v.z as int, ls);
    } else {
        lemma_tiny_square_component(v.x as int);
        lemma_tiny_square_component(v.y as int);
        lemma_tiny_square_component(v.z as int);
    }
}

/// A scalar whose fixed-point square truncates to zero is smaller than the
/// fixed-point quantum times 256.
pub proof fn lemma_tiny_square_component(c: int)
    requires
        fmul(c, c) <= 0,
    ensures
        abs_i(c) <= 255,
{
    let one = FP_ONE as int;
    assert(c * c >= 0) by (nonlinear_arith);
    vstd::arithmetic::div_mod::lemma_fundamental_div_mod(c * c, one);
    vstd::arithmetic::div_mod::lemma_remainder_upper(c * c, one);
    vstd::arithmetic::div_mod::lemma_remainder_lower(c * c, one);
    vstd::arithmetic::div_mod::lemma_div_pos_is_pos(c * c, one);
    assert(c * c < one);
    assert(abs_i(c) * abs_i(c) == c * c) by (nonlinear_arith);
    assert(abs_i(c) <= 255) by (nonlinear_arith)
        requires
            c * c < 65536,
            abs_i(c) >= 0,
            abs_i(c) * abs_i(c) == c * c,
    ;
}

impl Vector3 {
    /// The zero vector.
    pub fn new() -> (r: Vector3)
        ensures
            r.x == 0 && r.y == 0 && r.z == 0,
    {
        Vector3 { x: 0, y: 0, z: 0 }
    }

    pub fn build(x: i128, y: i128, z: i128) -> (r: Vector3)
        ensures
            r.x == x && r.y == y && r.z == z,
    {
        Vector3 { x, y, z }
    }

    /// A vector with three independent uniform draws from `[min, max)`.
    pub fn random(min: i128, max: i128) -> (r: Vector3)
        requires
            min < max,
            max - min <= RANDOM_SPAN_MAX,
        ensures
            min <= r.x < max,
            min <= r.y < max,
            min <= r.z < max,
    {
        Vector3 {
            x: random_scalar(min, max),
            y: random_scalar(min, max),
            z: random_scalar(min, max),
        }
    }

    /// A vector with three independent uniform draws from `[0, 1)`.
    pub fn random_standard() -> (r: Vector3)
        ensures
            0 <= r.x < FP_ONE,
            0 <= r.y < FP_ONE,
            0 <= r.z < FP_ONE,
    {
        Vector3::random(0, FP_ONE)
    }

    pub fn x(&self) -> (r: i128)
        ensures
            r == self.x,
    {
        self.x
    }

    pub fn y(&self) -> (r: i128)
        ensures
            r == self.y,
    {
        self.y
    }

    pub fn z(&self) -> (r: i128)
        ensures
            r == self.z,
    {
        self.z
    }

    /// The component at `index`, counting from zero.  An index outside the
    /// three components is a programming error and is excluded outright.
    pub fn index(&self, index: usize) -> (r: i128)
        requires
            index < 3,
        ensures
            r == if index == 0 {
                self.x
            } else if index == 1 {
                self.y
            } else {
                self.z
            },
    {
        if index == 0 {
            self.x
        } else if index == 1 {
            self.y
        } else {
            self.z
        }
    }

    pub fn neg(&self) -> (r: Vector3)
        requires
            in_range(*self, FX_DIV_MAX as int),
        ensures
            r == neg_spec(*self),
    {
        Vector3 { x: -self.x, y: -self.y, z: -self.z }
    }

    pub fn add(&self, other: &Vector3) -> (r: Vector3)
        requires
            in_range(*self, FX_DIV_MAX as int),
            in_range(*other, FX_DIV_MAX as int),
        ensures
            r == add_spec(*self, *other),
    {
        Vector3 { x: self.x + other.x, y: self.y + other.y, z: self.z + other.z }
    }

    pub fn sub(&self, other: &Vector3) -> (r: Vector3)
        requires
            in_range(*self, FX_DIV_MAX as int),
            in_range(*other, FX_DIV_MAX as int),
        ensures
            r == sub_spec(*self, *other),
    {
        Vector3 { x: self.x - other.x, y: self.y - other.y, z: self.z - other.z }
    }

    /// Componentwise product, the attenuation of one colour by another.
    pub fn mul(&self, other: &Vector3) -> (r: Vector3)
        requires
            in_range(*self, FX_MUL_MAX as int),
            in_range(*other, FX_MUL_MAX as int),
        ensures
            r == mul_spec(*self, *other),
    {
        Vector3 {
            x: fx_mul(self.x, other.x),
            y: fx_mul(self.y, other.y),
            z: fx_mul(self.z, other.z),
        }
    }

    /// Scaling by a fixed-point scalar.
    pub fn scale(&self, t: i128) -> (r: Vector3)
        requires
            in_range(*self, FX_MUL_MAX as int),
            -FX_MUL_MAX <= t <= FX_MUL_MAX,
        ensures
            r == scale_spec(*self, t as int),
    {
        Vector3 { x: fx_mul(self.x, t), y: fx_mul(self.y, t), z: fx_mul(self.z, t) }
    }

    /// Division by a fixed-point scalar.
    pub fn div(&self, t: i128) -> (r: Vector3)
        requires
            t != 0,
            -FX_DIV_MAX < t < FX_DIV_MAX,
            in_range(*self, FX_DIV_MAX as int),
        ensures
            r == div_spec(*self, t as int),
    {
        Vector3 { x: fx_div(self.x, t), y: fx_div(self.y, t), z: fx_div(self.z, t) }
    }

    /// The squared fixed-point length.
    pub fn length_squared(&self) -> (r: i128)
        requires
            in_range(*self, FX_MUL_MAX as int),
        ensures
            r == dot(*self, *self),
            r >= 0,
    {
        proof {
            lemma_fmul_square_nonneg(self.x as int);
            lemma_fmul_square_nonneg(self.y as int);
            lemma_fmul_square_nonneg(self.z as int);
            lemma_fmul_mag(self.x as int, self.x as int, FX_MUL_MAX as int, FX_MUL_MAX as int);
            lemma_fmul_mag(self.y as int, self.y as int, FX_MUL_MAX as int, FX_MUL_MAX as int);
            lemma_fmul_mag(self.z as int, self.z as int, FX_MUL_MAX as int, FX_MUL_MAX as int);
        }
        fx_mul(self.x, self.x) + fx_mul(self.y, self.y) + fx_mul(self.z, self.z)
    }

    /// The fixed-point length, rounded down.
    pub fn length(&self) -> (r: i128)
        requires
            in_range(*self, FX_MUL_MAX as int),
        ensures
            r == fsqrt(dot(*self, *self)),
            r >= 0,
    {
        proof {
            lemma_fmul_mag(self.x as int, self.x as int, FX_MUL_MAX as int, FX_MUL_MAX as int);
            lemma_fmul_mag(self.y as int, self.y as int, FX_MUL_MAX as int, FX_MUL_MAX as int);
            lemma_fmul_mag(self.z as int, self.z as int, FX_MUL_MAX as int, FX_MUL_MAX as int);
        }
        fx_sqrt(self.length_squared())
    }

    /// All components within `NEAR_ZERO_EPS` of zero: the vector is too
    /// short to serve as a scatter direction.
    pub fn near_zero(&self) -> (r: bool)
        ensures
            r == near_zero_spec(*self),
    {
        let e: i128 = NEAR_ZERO_EPS;
        -e < self.x && self.x < e && -e < self.y && self.y < e && -e < self.z && self.z < e
    }
}

/// The normalized vector: the zero vector comes back unchanged, any other
/// vector is divided by its fixed-point length.
pub fn unit_vector(vector: &Vector3) -> (r: Vector3)
    requires
        in_range(*vector, FX_MUL_MAX as int),
    ensures
        r == unit_spec(*vector),
        in_range(r, UNIT_MAX as int),
{
    let ls = vector.length_squared();
    if ls == 0 {
        proof {
            lemma_unit_spec_bounded(*vector);
        }
        *vector
    } else {
        proof {
            lemma_unit_spec_bounded(*vector);
            lemma_fmul_mag(vector.x as int, vector.x as int, FX_MUL_MAX as int, FX_MUL_MAX as int);
            lemma_fmul_mag(vector.y as int, vector.y as int, FX_MUL_MAX as int, FX_MUL_MAX as int);
            lemma_fmul_mag(vector.z as int, vector.z as int, FX_MUL_MAX as int, FX_MUL_MAX as int);
            lemma_fmul_square_nonneg(vector.x as int);
            lemma_fmul_square_nonneg(vector.y as int);
            lemma_fmul_square_nonneg(vector.z as int);
            lemma_unit_component_bound(vector.x as int, dot(*vector, *vector));
        }
        let len = fx_sqrt(ls);
        vector.div(len)
    }
}

/// The fixed-point cross product.
pub fn cross_product(vector1: &Vector3, vector2: &Vector3) -> (r: Vector3)
    requires
        in_range(*vector1, FX_MUL_MAX as int),
        in_range(*vector2, FX_MUL_MAX as int),
    ensures
        r == cross_spec(*vector1, *vector2),
{
    Vector3 {
        x: fx_mul(vector1.y, vector2.z) - fx_mul(vector1.z, vector2.y),
        y: fx_mul(vector1.z, vector2.x) - fx_mul(vector1.x, vector2.z),
        z: fx_mul(vector1.x, vector2.y) - fx_mul(vector1.y, vector2.x),
    }
}

/// The fixed-point dot product.
pub fn dot_product(vector1: &Vector3, vector2: &Vector3) -> (r: i128)
    requires
        in_range(*vector1, FX_MUL_MAX as int),
        in_range(*vector2, FX_MUL_MAX as int),
    ensures
        r == dot(*vector1, *vector2),
{
    fx_mul(vector1.x, vector2.x) + fx_mul(vector1.y, vector2.y) + fx_mul(vector1.z, vector2.z)
}

/// Componentwise magnitude bound for scaling: each component of
/// `scale_spec(v, t)` is bounded by `cv * ct / FP_ONE`.
pub proof fn lemma_fmul_mag_vec(v: Vector3, t: int, cv: int, ct: int)
    requires
        in_range(v, cv),
        abs_i(t) <= ct,
        0 <= cv,
        0 <= ct,
        cv * ct / (FP_ONE as int) <= i128::MAX,
    ensures
        in_range(scale_spec(v, t), cv * ct / (FP_ONE as int)),
{
    lemma_fmul_mag(v.x as int, t, cv, ct);
    lemma_fmul_mag(v.y as int, t, cv, ct);
    lemma_fmul_mag(v.z as int, t, cv, ct);
}

/// Magnitude bound for the dot product of two bounded vectors.
pub proof fn lemma_fmul_mag_vec3_dot(a: Vector3, b: Vector3, ca: int, cb: int)
    requires
        in_range(a, ca),
        in_range(b, cb),
        0 <= ca,
        0 <= cb,
    ensures
        abs_i(dot(a, b)) <= 3 * (ca * cb / (FP_ONE as int)),
{
    lemma_fmul_mag(a.x as int, b.x as int, ca, cb);
    lemma_fmul_mag(a.y as int, b.y as int, ca, cb);
    lemma_fmul_mag(a.z as int, b.z as int, ca, cb);
}

/// Componentwise magnitude bound for the cross product.
pub proof fn lemma_cross_mag(a: Vector3, b: Vector3, ca: int, cb: int)
    requires
        in_range(a, ca),
        in_range(b, cb),
        0 <= ca,
        0 <= cb,
        2 * (ca * cb / (FP_ONE as int)) <= i128::MAX,
    ensures
        in_range(cross_spec(a, b), 2 * (ca * cb / (FP_ONE as int))),
{
    lemma_fmul_mag(a.y as int, b.z as int, ca, cb);
    lemma_fmul_mag(a.z as int, b.y as int, ca, cb);
    lemma_fmul_mag(a.z as int, b.x as int, ca, cb);
    lemma_fmul_mag(a.x as int, b.z as int, ca, cb);
    lemma_fmul_mag(a.x as int, b.y as int, ca, cb);
    lemma_fmul_mag(a.y as int, b.x as int, ca, cb);
}

/// Scaling by zero gives the zero vector.
pub proof fn lemma_scale_zero(v: Vector3)
    ensures
        scale_spec(v, 0) == (Vector3 { x: 0, y: 0, z: 0 }),
{
    vstd::arithmetic::div_mod::lemma_div_of0(FP_ONE as int);
    assert(v.x as int * 0 == 0);
    assert(v.y as int * 0 == 0);
    assert(v.z as int * 0 == 0);
}

/// The mirror reflection of `vector` about `normal`.
pub fn reflect(vector: &Vector3, normal: &Vector3) -> (r: Vector3)
    requires
        in_range(*vector, WORLD_MAX as int),
        in_range(*normal, NORMAL_MAX as int),
    ensures
        r == reflect_spec(*vector, *normal),
        in_range(r, 0x40_0000_0000),
{
    proof {
        lemma_fmul_mag_vec3_dot(*vector, *normal, WORLD_MAX as int, NORMAL_MAX as int);
    }
    let d2: i128 = 2 * dot_product(vector, normal);
    proof {
        lemma_fmul_mag(normal.x as int, d2 as int, NORMAL_MAX as int, 51539607552);
        lemma_fmul_mag(normal.y as int, d2 as int, NORMAL_MAX as int, 51539607552);
        lemma_fmul_mag(normal.z as int, d2 as int, NORMAL_MAX as int, 51539607552);
    }
    vector.sub(&normal.scale(d2))
}

/// The Snell refraction of the unit direction `uv` at a surface with
/// normal `normal` and refraction ratio `etai_over_etat`.
pub fn refract(uv: &Vector3, normal: &Vector3, etai_over_etat: i128) -> (r: Vector3)
    requires
        in_range(*uv, UNIT_MAX as int),
        in_range(*normal, NORMAL_MAX as int),
        0 < etai_over_etat <= REFRACT_RATIO_MAX,
    ensures
        r == refract_spec(*uv, *normal, etai_over_etat as int),
        in_range(r, SCATTER_DIR_MAX as int),
{
    let neg_uv = uv.neg();
    let cos_raw = dot_product(&neg_uv, normal);
    proof {
        lemma_fmul_mag(neg_uv.x as int, normal.x as int, UNIT_MAX as int, NORMAL_MAX as int);
        lemma_fmul_mag(neg_uv.y as int, normal.y as int, UNIT_MAX as int, NORMAL_MAX as int);
        lemma_fmul_mag(neg_uv.z as int, normal.z as int, UNIT_MAX as int, NORMAL_MAX as int);
    }
    let cos_theta = if cos_raw > FP_ONE {
        FP_ONE
    } else {
        cos_raw
    };
    proof {
        lemma_fmul_mag(normal.x as int, cos_theta as int, NORMAL_MAX as int, 1179648);
        lemma_fmul_mag(normal.y as int, cos_theta as int, NORMAL_MAX as int, 1179648);
        lemma_fmul_mag(normal.z as int, cos_theta as int, NORMAL_MAX as int, 1179648);
    }
    let shifted = uv.add(&normal.scale(cos_theta));
    proof {
        lemma_fmul_mag(shifted.x as int, etai_over_etat as int, 2555904, REFRACT_RATIO_MAX as int);
        lemma_fmul_mag(shifted.y as int, etai_over_etat as int, 2555904, REFRACT_RATIO_MAX as int);
        lemma_fmul_mag(shifted.z as int, etai_over_etat as int, 2555904, REFRACT_RATIO_MAX as int);
    }
    let r_out_perp = shifted.scale(etai_over_etat);
    let ls_perp = r_out_perp.length_squared();
    let radicand = if ls_perp < FP_ONE {
        FP_ONE - ls_perp
    } else {
        0
    };
    let sqrtd = fx_sqrt(radicand);
    proof {
        assert(sqrtd <= FP_ONE) by (nonlinear_arith)
            requires
                sqrtd >= 0,
                sqrtd * sqrtd <= radicand * (FP_ONE as int),
                radicand <= FP_ONE,
        ;
        lemma_fmul_mag(normal.x as int, -sqrtd as int, NORMAL_MAX as int, FP_ONE as int);
        lemma_fmul_mag(normal.y as int, -sqrtd as int, NORMAL_MAX as int, FP_ONE as int);
        lemma_fmul_mag(normal.z as int, -sqrtd as int, NORMAL_MAX as int, FP_ONE as int);
    }
    let r_out_parallel = normal.scale(-sqrtd);
    r_out_perp.add(&r_out_parallel)
}

/// Lower bound on the squared length of an accepted rejection sample: a
/// quarter unit, far from a degenerate direction.
pub const SAMPLE_LEN_SQ_MIN: i128 = 16384;

/// How often the rejection sampler tries before falling back to an axis
/// direction; with each draw accepted with probability near one half, the
/// fallback is unreachable in practice.
pub const SAMPLE_ATTEMPTS: u32 = 64;

/// Whether `u` is the normalization of a moderate, non-degenerate sample:
/// exactly what `random_unit_vector` produces.
pub open spec fn is_unit_sample(u: Vector3) -> bool {
    exists|v: Vector3|
        #[trigger] unit_spec(v) == u && SAMPLE_LEN_SQ_MIN as int <= dot(v, v) <= FP_ONE as int
}

/// A uniformly distributed direction: a uniform draw from the cube is
/// rejected until it falls inside the unit ball but not too close to the
/// centre, then normalized.
pub fn random_unit_vector() -> (r: Vector3)
    ensures
        in_range(r, UNIT_MAX as int),
        is_unit_sample(r),
{
    let mut attempts: u32 = 0;
    while attempts < SAMPLE_ATTEMPTS
        invariant
            true,
        decreases SAMPLE_ATTEMPTS - attempts,
    {
        let v = Vector3::random(-FP_ONE, FP_ONE);
        let ls = v.length_squared();
        if SAMPLE_LEN_SQ_MIN <= ls && ls <= FP_ONE {
            let u = unit_vector(&v);
            proof {
                assert(unit_spec(v) == u && SAMPLE_LEN_SQ_MIN as int <= dot(v, v)
                    <= FP_ONE as int);
            }
            return u;
        }
        attempts = attempts + 1;
    }
    let axis = Vector3 { x: FP_ONE, y: 0, z: 0 };
    proof {
        lemma_axis_unit_sample();
    }
    axis
}

/// The unit axis vector is its own normalization, so the sampler's fallback
/// satisfies the same contract as an accepted draw.
proof fn lemma_axis_unit_sample()
    ensures
        is_unit_sample(Vector3 { x: FP_ONE, y: 0, z: 0 }),
        in_range(Vector3 { x: FP_ONE, y: 0, z: 0 }, UNIT_MAX as int),
{
    let axis = Vector3 { x: FP_ONE, y: 0, z: 0 };
    let one = FP_ONE as int;
    crate::common::fixed::lemma_div_tz_exact(one, one);
    assert(one * one == 65536 * one);
    assert(fmul(one, one) == one);
    assert(fmul(0, 0) == 0) by {
        assert(0int * 0int == 0int) by (nonlinear_arith);
    }
    assert(dot(axis, axis) == one);
    assert(one * one == 4294967296int) by (nonlinear_arith)
        requires
            one == 65536int,
    ;
    assert((one + 1) * (one + 1) == 4295098369int) by (nonlinear_arith)
        requires
            one == 65536int,
    ;
    crate::common::fixed::lemma_isqrt_unique((one * one) as nat, one as nat);
    assert(fsqrt(one) == one);
    crate::common::fixed::lemma_div_tz_exact(1, one);
    assert(fdiv(one, one) == div_tz(one * one, one));
    assert(div_tz(one * one, one) == one) by {
        crate::common::fixed::lemma_div_tz_exact(one, one);
    }
    assert(fdiv(0, one) == 0) by {
        crate::common::fixed::lemma_div_tz_exact(0, one);
        assert(0int * one == 0int);
    }
    assert(unit_spec(axis) == axis);
}

/// A uniformly distributed direction on the hemisphere around `normal`:
/// the candidate direction or its negation, whichever does not point into
/// the surface.
pub fn random_on_hemisphere(normal: &Vector3) -> (r: Vector3)
    requires
        in_range(*normal, FX_MUL_MAX as int),
    ensures
        in_range(r, UNIT_MAX as int),
        dot(r, *normal) >= 0,
        is_unit_sample(r) || is_unit_sample(neg_spec(r)),
{
    let candidate_vector = random_unit_vector();
    if dot_product(&candidate_vector, normal) > 0 {
        candidate_vector
    } else {
        proof {
            lemma_dot_neg(candidate_vector, *normal);
            assert(neg_spec(neg_spec(candidate_vector)) == candidate_vector);
        }
        candidate_vector.neg()
    }
}

} // verus!
