//! Unit tests for the fixed-point helpers: clamping, flooring division,
//! the trigonometric approximations, friction, and colour conversion.

use brick_breaker::color::{hsv_to_rgb, Rgba};
use brick_breaker::fixed::{
    abs_i64, clamp_i64, cos_mrad, floor_div, friction_factor_ppm, mul_unit, scale_ppm, sin_mrad,
};

#[test]
fn clamp_inside_and_outside() {
    assert_eq!(clamp_i64(5, -10, 10), 5);
    assert_eq!(clamp_i64(-11, -10, 10), -10);
    assert_eq!(clamp_i64(99, -10, 10), 10);
    assert_eq!(clamp_i64(10, -10, 10), 10);
}

#[test]
fn abs_of_signs() {
    assert_eq!(abs_i64(-7), 7);
    assert_eq!(abs_i64(7), 7);
    assert_eq!(abs_i64(0), 0);
}

#[test]
fn floor_div_rounds_toward_negative_infinity() {
    assert_eq!(floor_div(7, 2), 3);
    assert_eq!(floor_div(-7, 2), -4);
    assert_eq!(floor_div(-1, 100), -1);
    assert_eq!(floor_div(-100, 100), -1);
    assert_eq!(floor_div(-101, 100), -2);
    assert_eq!(floor_div(0, 100), 0);
    assert_eq!(floor_div(99, 100), 0);
}

#[test]
fn mul_unit_truncates_toward_zero() {
    assert_eq!(mul_unit(1500, 2000), 3000);
    assert_eq!(mul_unit(-1500, 2000), -3000);
    assert_eq!(mul_unit(1, 1), 0);
    assert_eq!(mul_unit(-1, 999), 0);
    assert_eq!(mul_unit(6283, 100), 628);
}

#[test]
fn scale_ppm_halves() {
    assert_eq!(scale_ppm(1000, 500000), 500);
    assert_eq!(scale_ppm(-1000, 500000), -500);
    assert_eq!(scale_ppm(12345, 1000000), 12345);
    assert_eq!(scale_ppm(12345, 0), 0);
}

#[test]
fn sine_anchors() {
    assert_eq!(sin_mrad(0), 0);
    assert_eq!(sin_mrad(1571), 1000);
    assert_eq!(sin_mrad(-1571), -1000);
    assert_eq!(sin_mrad(3142), 0);
    assert!(sin_mrad(785) > 690 && sin_mrad(785) < 720);
}

#[test]
fn cosine_anchors() {
    assert_eq!(cos_mrad(0), 1000);
    assert_eq!(cos_mrad(1571), sin_mrad(3142));
    assert_eq!(cos_mrad(-500), cos_mrad(500));
    assert!(cos_mrad(3142) <= -990);
}

#[test]
fn friction_factor_decays() {
    assert_eq!(friction_factor_ppm(0), 1000000);
    assert_eq!(friction_factor_ppm(1), 999895);
    assert_eq!(friction_factor_ppm(2), 999790);
    let one_second = friction_factor_ppm(1000);
    // One second of decay keeps roughly 0.9 of the velocity.
    assert!(one_second > 890000 && one_second < 910000);
}

#[test]
fn hsv_red_at_zero_hue() {
    let c: Rgba = hsv_to_rgb(0, 700, 1000);
    assert_eq!(c, Rgba { r: 1000, g: 300, b: 300, a: 1000 });
}

#[test]
fn hsv_green_at_third_turn() {
    let c: Rgba = hsv_to_rgb(120000, 700, 1000);
    assert_eq!(c, Rgba { r: 300, g: 1000, b: 300, a: 1000 });
}

#[test]
fn hsv_blue_at_two_thirds_turn() {
    let c: Rgba = hsv_to_rgb(240000, 700, 1000);
    assert_eq!(c, Rgba { r: 300, g: 300, b: 1000, a: 1000 });
}

#[test]
fn hsv_wraps_past_full_turn() {
    assert_eq!(hsv_to_rgb(360000, 700, 1000), hsv_to_rgb(0, 700, 1000));
    assert_eq!(hsv_to_rgb(480000, 700, 1000), hsv_to_rgb(120000, 700, 1000));
}

#[test]
fn hsv_zero_saturation_is_grey() {
    let c: Rgba = hsv_to_rgb(77000, 0, 600);
    assert_eq!(c, Rgba { r: 600, g: 600, b: 600, a: 1000 });
}
