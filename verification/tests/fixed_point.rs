use raytrace::common::fixed::{fx_div, fx_mul, fx_sqrt, isqrt_u128, FP_ONE};
use raytrace::common::interval::Interval;

#[test]
fn multiplication_is_exact_scaling() {
    // 1.5 * 2.0 == 3.0
    assert_eq!(fx_mul(98304, 131072), 196608);
    // 1.0 is the multiplicative unit.
    assert_eq!(fx_mul(FP_ONE, 12345), 12345);
    assert_eq!(fx_mul(12345, FP_ONE), 12345);
    // 0.5 * 0.5 == 0.25
    assert_eq!(fx_mul(32768, 32768), 16384);
    assert_eq!(fx_mul(0, 999999), 0);
}

#[test]
fn multiplication_truncates_toward_zero() {
    // (1/65536) * (1/65536) is far below one quantum.
    assert_eq!(fx_mul(1, 1), 0);
    assert_eq!(fx_mul(-1, 1), 0);
    // -1.5 * 0.5 == -0.75 exactly.
    assert_eq!(fx_mul(-98304, 32768), -49152);
    // -3 * (1/65536) scaled: raw -3 * 32769 / 65536 = -1.50...
    assert_eq!(fx_mul(-3, 32769), -1);
    assert_eq!(fx_mul(3, 32769), 1);
}

#[test]
fn division_is_exact_scaling() {
    // 3.0 / 2.0 == 1.5
    assert_eq!(fx_div(196608, 131072), 98304);
    assert_eq!(fx_div(12345, FP_ONE), 12345);
    // 1.0 / 4.0 == 0.25
    assert_eq!(fx_div(FP_ONE, 4 * FP_ONE), 16384);
}

#[test]
fn division_truncates_toward_zero() {
    // 1.0 / 3.0 in fixed point: floor(65536 * 65536 / 196608) = 21845.
    assert_eq!(fx_div(FP_ONE, 3 * FP_ONE), 21845);
    assert_eq!(fx_div(-FP_ONE, 3 * FP_ONE), -21845);
    assert_eq!(fx_div(FP_ONE, -3 * FP_ONE), -21845);
    assert_eq!(fx_div(-FP_ONE, -3 * FP_ONE), 21845);
}

#[test]
fn square_root_is_exact_on_squares() {
    assert_eq!(fx_sqrt(0), 0);
    assert_eq!(fx_sqrt(FP_ONE), FP_ONE);
    // sqrt(4.0) == 2.0
    assert_eq!(fx_sqrt(4 * FP_ONE), 2 * FP_ONE);
    // sqrt(0.25) == 0.5
    assert_eq!(fx_sqrt(16384), 32768);
}

#[test]
fn square_root_rounds_down() {
    // sqrt(2.0): floor(sqrt(2) * 65536) = 92681.
    assert_eq!(fx_sqrt(2 * FP_ONE), 92681);
}

#[test]
fn integer_square_root() {
    assert_eq!(isqrt_u128(0), 0);
    assert_eq!(isqrt_u128(1), 1);
    assert_eq!(isqrt_u128(3), 1);
    assert_eq!(isqrt_u128(4), 2);
    assert_eq!(isqrt_u128(15), 3);
    assert_eq!(isqrt_u128(16), 4);
    assert_eq!(isqrt_u128(1 << 40), 1 << 20);
    assert_eq!(isqrt_u128((1 << 40) - 1), (1 << 20) - 1);
}

#[test]
fn interval_containment() {
    let i = Interval::build(-FP_ONE, FP_ONE);
    assert!(i.contains(-FP_ONE));
    assert!(i.contains(0));
    assert!(i.contains(FP_ONE));
    assert!(!i.contains(FP_ONE + 1));
    assert!(i.surrounds(0));
    assert!(!i.surrounds(FP_ONE));
    assert!(!i.surrounds(-FP_ONE));
    assert_eq!(i.size(), 2 * FP_ONE);
    assert_eq!(i.min(), -FP_ONE);
    assert_eq!(i.max(), FP_ONE);
}

#[test]
fn empty_interval_contains_nothing() {
    let e = Interval::new();
    assert!(!e.contains(0));
    assert!(!e.contains(FP_ONE));
    assert!(!e.surrounds(0));
}

#[test]
fn interval_clamp() {
    let i = Interval::build(0, 65470);
    assert_eq!(i.clamp(-5), 0);
    assert_eq!(i.clamp(30000), 30000);
    assert_eq!(i.clamp(FP_ONE), 65470);
}
