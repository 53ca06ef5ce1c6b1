//! Fixed-point scalar arithmetic.
//!
//! Every scalar in this crate is an `i128` carrying 16 fraction bits: the
//! value `x` stands for the real number `x / 65536`.  Products and quotients
//! are truncated toward zero, and square roots round down, so every operation
//! has an exact mathematical description over `int` that the executable
//! functions are proved to match.

use vstd::prelude::*;

verus! {

/// One world unit: scalars carry 16 fraction bits.
pub const FP_ONE: i128 = 65536;

/// Largest operand magnitude `fx_mul` accepts (2^55): the product of two
/// such operands still fits comfortably in the 128-bit intermediate.
pub const FX_MUL_MAX: i128 = 0x80_0000_0000_0000;

/// Largest dividend magnitude `fx_div` accepts (2^100): the scaled dividend
/// and the quotient both stay inside 128 bits.
pub const FX_DIV_MAX: i128 = 0x10_0000_0000_0000_0000_0000_0000;

/// Largest radicand `fx_sqrt` accepts (2^110).
pub const FX_SQRT_MAX: i128 = 0x4000_0000_0000_0000_0000_0000_0000;

pub open spec fn abs_i(a: int) -> int {
    if a >= 0 {
        a
    } else {
        -a
    }
}

pub open spec fn min_i(a: int, b: int) -> int {
    if a <= b {
        a
    } else {
        b
    }
}

pub open spec fn max_i(a: int, b: int) -> int {
    if a >= b {
        a
    } else {
        b
    }
}

/// Division truncated toward zero, the rounding the executable code uses.
pub open spec fn div_tz(a: int, b: int) -> int
    recommends
        b != 0,
{
    if (a >= 0) == (b >= 0) {
        abs_i(a) / abs_i(b)
    } else {
        -(abs_i(a) / abs_i(b))
    }
}

/// The fixed-point product: `a * b` rescaled by one unit, truncated toward zero.
pub open spec fn fmul(a: int, b: int) -> int {
    div_tz(a * b, FP_ONE as int)
}

/// The fixed-point quotient: `a` rescaled by one unit, divided by `b`,
/// truncated toward zero.
pub open spec fn fdiv(a: int, b: int) -> int
    recommends
        b != 0,
{
    div_tz(a * (FP_ONE as int), b)
}

/// The integer square root: the largest `r` with `r * r <= n`.
pub open spec fn isqrt_spec(n: nat) -> nat
    decreases n,
{
    if n == 0 {
        0
    } else {
        let p = isqrt_spec((n - 1) as nat);
        if (p + 1) * (p + 1) <= n {
            p + 1
        } else {
            p
        }
    }
}

/// The fixed-point square root: rescaling by one unit before the integer
/// square root keeps the 16 fraction bits of the result.
pub open spec fn fsqrt(x: int) -> int
    recommends
        x >= 0,
{
    isqrt_spec((x * (FP_ONE as int)) as nat) as int
}

pub proof fn lemma_isqrt_bounds(n: nat)
    ensures
        isqrt_spec(n) * isqrt_spec(n) <= n,
        n < (isqrt_spec(n) + 1) * (isqrt_spec(n) + 1),
    decreases n,
{
    if n == 0 {
        assert(isqrt_spec(n) == 0);
        assert(isqrt_spec(n) * isqrt_spec(n) <= n) by (nonlinear_arith)
            requires
                n == 0nat && isqrt_spec(n) == 0,
        ;
        assert(n < (isqrt_spec(n) + 1) * (isqrt_spec(n) + 1)) by (nonlinear_arith)
            requires
                n == 0nat && isqrt_spec(n) == 0,
        ;
    } else {
        lemma_isqrt_bounds((n - 1) as nat);
        let p = isqrt_spec((n - 1) as nat);
        assert(p * p <= n - 1);
        assert(n - 1 < (p + 1) * (p + 1));
        if (p + 1) * (p + 1) <= n {
            assert(isqrt_spec(n) == p + 1);
            assert(n < (p + 2) * (p + 2)) by (nonlinear_arith)
                requires
                    n <= (p + 1) * (p + 1),
            ;
            assert(isqrt_spec(n) * isqrt_spec(n) <= n);
            assert(n < (isqrt_spec(n) + 1) * (isqrt_spec(n) + 1));
        } else {
            assert(isqrt_spec(n) == p);
            assert(n < (p + 1) * (p + 1));
            assert(isqrt_spec(n) * isqrt_spec(n) <= n);
            assert(n < (isqrt_spec(n) + 1) * (isqrt_spec(n) + 1));
        }
    }
}

pub proof fn lemma_isqrt_unique(n: nat, r: nat)
    requires
        r * r <= n,
        n < (r + 1) * (r + 1),
    ensures
        r == isqrt_spec(n),
{
    let s = isqrt_spec(n);
    lemma_isqrt_bounds(n);
    if r < s {
        assert((r + 1) * (r + 1) <= s * s) by (nonlinear_arith)
            requires
                r + 1 <= s,
        ;
    } else if s < r {
        assert((s + 1) * (s + 1) <= r * r) by (nonlinear_arith)
            requires
                s + 1 <= r,
        ;
    }
}

/// Truncating division never grows a magnitude when the divisor is at least one.
pub proof fn lemma_div_tz_mag(a: int, b: int)
    requires
        b >= 1,
    ensures
        abs_i(div_tz(a, b)) <= abs_i(a) / b,
        abs_i(div_tz(a, b)) <= abs_i(a),
{
    vstd::arithmetic::div_mod::lemma_div_pos_is_pos(abs_i(a), b);
    vstd::arithmetic::div_mod::lemma_div_nonincreasing(abs_i(a), b);
}

/// A product of operands no larger than `ca` and `cb` rescales to a value
/// no larger than `ca * cb / FP_ONE`.
pub proof fn lemma_fmul_mag(a: int, b: int, ca: int, cb: int)
    requires
        abs_i(a) <= ca,
        abs_i(b) <= cb,
    ensures
        abs_i(fmul(a, b)) <= ca * cb / (FP_ONE as int),
{
    assert(abs_i(a * b) <= ca * cb) by (nonlinear_arith)
        requires
            abs_i(a) <= ca,
            abs_i(b) <= cb,
    ;
    lemma_div_tz_mag(a * b, FP_ONE as int);
    vstd::arithmetic::div_mod::lemma_div_is_ordered(abs_i(a * b), ca * cb, FP_ONE as int);
}

/// Scaling by a whole number of units is exact: `(k * FP_ONE) / FP_ONE == k`.
pub proof fn lemma_div_tz_exact(k: int, b: int)
    requires
        b >= 1,
    ensures
        div_tz(k * b, b) == k,
{
    if k >= 0 {
        assert(k * b >= 0) by (nonlinear_arith)
            requires
                k >= 0 && b >= 1,
        ;
        vstd::arithmetic::div_mod::lemma_div_multiples_vanish(k, b);
        assert(b * k == k * b);
        assert(div_tz(k * b, b) == (k * b) / b);
    } else {
        assert(k * b < 0) by (nonlinear_arith)
            requires
                k < 0 && b >= 1,
        ;
        assert(-(k * b) == (-k) * b) by (nonlinear_arith);
        assert(abs_i(k * b) == (-k) * b);
        vstd::arithmetic::div_mod::lemma_div_multiples_vanish(-k, b);
        assert(b * (-k) == (-k) * b);
        assert(div_tz(k * b, b) == -(((-k) * b) / b));
    }
}

/// Truncating division is monotone in the dividend for positive divisors.
pub proof fn lemma_div_tz_mono(a: int, b: int, d: int)
    requires
        a <= b,
        d >= 1,
    ensures
        div_tz(a, d) <= div_tz(b, d),
{
    if a >= 0 {
        vstd::arithmetic::div_mod::lemma_div_is_ordered(a, b, d);
    } else if b < 0 {
        vstd::arithmetic::div_mod::lemma_div_is_ordered(-b, -a, d);
    } else {
        vstd::arithmetic::div_mod::lemma_div_pos_is_pos(-a, d);
        vstd::arithmetic::div_mod::lemma_div_pos_is_pos(b, d);
    }
}

/// The fixed-point quotient is monotone in the dividend for positive
/// divisors.
pub proof fn lemma_fdiv_mono(a: int, b: int, d: int)
    requires
        a <= b,
        d >= 1,
    ensures
        fdiv(a, d) <= fdiv(b, d),
{
    assert(a * (FP_ONE as int) <= b * (FP_ONE as int)) by (nonlinear_arith)
        requires
            a <= b,
    ;
    lemma_div_tz_mono(a * (FP_ONE as int), b * (FP_ONE as int), d);
}

/// Fixed-point multiplication, truncated toward zero.
pub fn fx_mul(a: i128, b: i128) -> (r: i128)
    requires
        -FX_MUL_MAX <= a <= FX_MUL_MAX,
        -FX_MUL_MAX <= b <= FX_MUL_MAX,
    ensures
        r == fmul(a as int, b as int),
        -0x4000_0000_0000_0000_0000_0000 <= r <= 0x4000_0000_0000_0000_0000_0000,
{
    let neg: bool = (a < 0) != (b < 0);
    let ma: u128 = if a < 0 {
        (-a) as u128
    } else {
        a as u128
    };
    let mb: u128 = if b < 0 {
        (-b) as u128
    } else {
        b as u128
    };
    proof {
        assert(ma * mb == abs_i(a as int * b as int)) by (nonlinear_arith)
            requires
                ma == abs_i(a as int),
                mb == abs_i(b as int),
        ;
        assert(ma * mb <= FX_MUL_MAX as int * FX_MUL_MAX as int) by (nonlinear_arith)
            requires
                0 <= ma <= FX_MUL_MAX as int,
                0 <= mb <= FX_MUL_MAX as int,
        ;
    }
    let p: u128 = ma * mb;
    let q: u128 = p / 65536;
    proof {
        vstd::arithmetic::div_mod::lemma_div_nonincreasing(p as int, FP_ONE as int);
        vstd::arithmetic::div_mod::lemma_div_pos_is_pos(p as int, FP_ONE as int);
        vstd::arithmetic::div_mod::lemma_div_is_ordered(
            p as int,
            FX_MUL_MAX as int * FX_MUL_MAX as int,
            FP_ONE as int,
        );
        if neg {
            assert((a as int * b as int >= 0) != (FP_ONE as int >= 0) || a as int * b as int == 0)
                by (nonlinear_arith)
                requires
                    (a < 0) != (b < 0),
            ;
        } else {
            assert(a as int * b as int >= 0) by (nonlinear_arith)
                requires
                    !((a < 0) != (b < 0)),
            ;
        }
    }
    if neg {
        -(q as i128)
    } else {
        q as i128
    }
}

/// Fixed-point division, truncated toward zero.
pub fn fx_div(a: i128, b: i128) -> (r: i128)
    requires
        b != 0,
        -FX_DIV_MAX <= a <= FX_DIV_MAX,
        b > -FX_DIV_MAX && b < FX_DIV_MAX,
    ensures
        r == fdiv(a as int, b as int),
{
    let neg: bool = (a < 0) != (b < 0);
    let ma: u128 = if a < 0 {
        (-a) as u128
    } else {
        a as u128
    };
    let mb: u128 = if b < 0 {
        (-b) as u128
    } else {
        b as u128
    };
    let num: u128 = ma * 65536;
    let q: u128 = num / mb;
    proof {
        assert(num == abs_i(a as int * FP_ONE as int)) by (nonlinear_arith)
            requires
                ma == abs_i(a as int),
                num == ma * (FP_ONE as int),
        ;
        vstd::arithmetic::div_mod::lemma_div_nonincreasing(num as int, mb as int);
        vstd::arithmetic::div_mod::lemma_div_pos_is_pos(num as int, mb as int);
        if neg {
            assert((a as int * FP_ONE as int >= 0) != (b as int >= 0) || a as int * FP_ONE as int
                == 0) by (nonlinear_arith)
                requires
                    (a < 0) != (b < 0),
            ;
        } else {
            assert((a as int * FP_ONE as int >= 0) == (b as int >= 0) || a as int * FP_ONE as int
                == 0) by (nonlinear_arith)
                requires
                    !((a < 0) != (b < 0)),
            ;
        }
    }
    if neg {
        -(q as i128)
    } else {
        q as i128
    }
}

/// The integer square root of a 128-bit value, by bisection.
pub fn isqrt_u128(n: u128) -> (r: u128)
    ensures
        r == isqrt_spec(n as nat),
        r * r <= n,
        n < (r + 1) * (r + 1),
{
    let mut lo: u128 = 0;
    let mut hi: u128 = 0x1_0000_0000_0000_0000;
    while lo + 1 < hi
        invariant
            lo < hi,
            hi <= 0x1_0000_0000_0000_0000,
            lo * lo <= n,
            (n as int) < (hi as int) * (hi as int),
        decreases hi - lo,
    {
        let mid: u128 = lo + (hi - lo) / 2;
        proof {
            assert(mid * mid <= u128::MAX) by (nonlinear_arith)
                requires
                    mid < 0x1_0000_0000_0000_0000,
            ;
        }
        if mid * mid <= n {
            lo = mid;
        } else {
            hi = mid;
        }
    }
    proof {
        lemma_isqrt_unique(n as nat, lo as nat);
    }
    lo
}

/// Fixed-point square root, rounded down.
pub fn fx_sqrt(x: i128) -> (r: i128)
    requires
        0 <= x <= FX_SQRT_MAX,
    ensures
        r == fsqrt(x as int),
        0 <= r <= 0x8000_0000_0000_0000,
        r * r <= x * FP_ONE,
        x * FP_ONE < (r + 1) * (r + 1),
{
    let n: u128 = (x as u128) * 65536;
    let r: u128 = isqrt_u128(n);
    proof {
        assert(r <= 0x8000_0000_0000_0000u128) by (nonlinear_arith)
            requires
                r * r <= n,
                n <= 0x4000_0000_0000_0000_0000_0000_0000 as int * 65536,
        ;
    }
    r as i128
}

} // verus!
