//! Fixed-point arithmetic, matrix composition and the point transform.

use rasterizer::ctm::{transform_from, Coord, DeviceScale, CTM};
use rasterizer::fx::{fx_add, fx_div, fx_mul, fx_of_u32, FX_ONE};

const ONE: i64 = FX_ONE;

fn ctm(a: i64, b: i64, c: i64, d: i64, e: i64, f: i64) -> CTM {
    CTM { a, b, c, d, e, f }
}

fn identity() -> CTM {
    ctm(ONE, 0, 0, ONE, 0, 0)
}

#[test]
fn fx_mul_halves() {
    assert_eq!(fx_mul(ONE / 2, ONE / 2), ONE / 4);
    assert_eq!(fx_mul(2 * ONE, 3 * ONE), 6 * ONE);
    assert_eq!(fx_mul(-2 * ONE, 3 * ONE), -6 * ONE);
    assert_eq!(fx_mul(ONE, i64::MIN), i64::MIN);
}

#[test]
fn fx_mul_saturates() {
    assert_eq!(fx_mul(i64::MAX, 2 * ONE), i64::MAX);
    assert_eq!(fx_mul(i64::MAX, -2 * ONE), i64::MIN);
}

#[test]
fn fx_mul_truncates_toward_zero() {
    // one micro-unit squared rounds to zero, from both sides
    assert_eq!(fx_mul(1, 1), 0);
    assert_eq!(fx_mul(-1, 1), 0);
}

#[test]
fn fx_add_saturates() {
    assert_eq!(fx_add(i64::MAX, 1), i64::MAX);
    assert_eq!(fx_add(i64::MIN, -1), i64::MIN);
    assert_eq!(fx_add(2 * ONE, 3 * ONE), 5 * ONE);
}

#[test]
fn fx_div_exact_and_by_zero() {
    assert_eq!(fx_div(ONE, 2 * ONE), ONE / 2);
    assert_eq!(fx_div(200 * ONE, 100 * ONE), 2 * ONE);
    assert_eq!(fx_div(ONE, 0), i64::MAX);
    assert_eq!(fx_div(-ONE, 0), i64::MIN);
    assert_eq!(fx_div(0, 0), 0);
}

#[test]
fn concat_identity_left_and_right() {
    let m = ctm(2 * ONE, ONE / 2, -3 * ONE, ONE, 7 * ONE, -ONE / 4);
    assert_eq!(rasterizer::ctm::concat(&identity(), &m), m);
    assert_eq!(rasterizer::ctm::concat(&m, &identity()), m);
}

#[test]
fn concat_associative_for_scale_translate() {
    let a = ctm(2 * ONE, 0, 0, 3 * ONE, 5 * ONE, -7 * ONE);
    let b = ctm(4 * ONE, 0, 0, ONE, -2 * ONE, 9 * ONE);
    let c = ctm(-3 * ONE, 0, 0, 2 * ONE, ONE, ONE);
    let lhs = rasterizer::ctm::concat(&rasterizer::ctm::concat(&a, &b), &c);
    let rhs = rasterizer::ctm::concat(&a, &rasterizer::ctm::concat(&b, &c));
    assert_eq!(lhs, rhs);
}

#[test]
fn concat_not_associative_with_skew() {
    // the translation row of the composition formula reads b where a full
    // matrix product would read c, so a skew breaks associativity
    let skew = ctm(ONE, ONE, 0, ONE, 0, 0);
    let shift = ctm(ONE, 0, 0, ONE, ONE, 0);
    let lhs = rasterizer::ctm::concat(&rasterizer::ctm::concat(&skew, &skew), &shift);
    let rhs = rasterizer::ctm::concat(&skew, &rasterizer::ctm::concat(&skew, &shift));
    assert_ne!(lhs, rhs);
}

#[test]
fn transform_identity_flips_y() {
    let p = Coord { x: 10 * ONE, y: 30 * ONE };
    let scale = DeviceScale { height: 100, scale: ONE };
    let d = transform_from(&p, &identity(), &scale);
    assert_eq!(d, Coord { x: 10 * ONE, y: 70 * ONE });
}

#[test]
fn transform_scales_and_translates() {
    let m = ctm(2 * ONE, 0, 0, 2 * ONE, 5 * ONE, 0);
    let p = Coord { x: 10 * ONE, y: 10 * ONE };
    let scale = DeviceScale { height: 100, scale: 2 * ONE };
    let d = transform_from(&p, &m, &scale);
    // x: 2*(2*10 + 5) = 50;  y: 100 - 2*(2*10) = 60
    assert_eq!(d, Coord { x: 50 * ONE, y: 60 * ONE });
}

#[test]
fn device_scale_from_page_width() {
    assert_eq!(fx_div(fx_of_u32(200), 100 * ONE), 2 * ONE);
    assert_eq!(fx_of_u32(200), 200 * ONE);
}
