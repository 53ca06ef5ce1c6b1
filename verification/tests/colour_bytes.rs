use raytrace::common::colour::{colour_to_bytes, linear_to_gamma, Colour};
use raytrace::common::fixed::FP_ONE;

#[test]
fn full_white_maps_to_full_bytes() {
    let white = Colour::build(FP_ONE, FP_ONE, FP_ONE);
    assert_eq!(colour_to_bytes(&white), (255, 255, 255));
}

#[test]
fn black_maps_to_zero_bytes() {
    let black = Colour::build(0, 0, 0);
    assert_eq!(colour_to_bytes(&black), (0, 0, 0));
}

#[test]
fn gamma_decoding_is_a_square_root() {
    assert_eq!(linear_to_gamma(FP_ONE), FP_ONE);
    // sqrt(0.25) == 0.5
    assert_eq!(linear_to_gamma(16384), 32768);
    assert_eq!(linear_to_gamma(0), 0);
    assert_eq!(linear_to_gamma(-5), 0);
}

#[test]
fn mid_grey_byte_value() {
    // Linear 0.25 decodes to 0.5; 0.5 * 256 == 128.
    let grey = Colour::build(16384, 16384, 16384);
    assert_eq!(colour_to_bytes(&grey), (128, 128, 128));
}

#[test]
fn channels_above_one_are_clamped() {
    let hot = Colour::build(4 * FP_ONE, FP_ONE, 0);
    assert_eq!(colour_to_bytes(&hot), (255, 255, 0));
}

#[test]
fn negative_channels_darken_to_zero() {
    let c = Colour::build(-FP_ONE, 0, FP_ONE);
    assert_eq!(colour_to_bytes(&c), (0, 0, 255));
}
