//! Checks of the trigonometric approximations against reference values.

use raymarch::fixed::{Fx, FX_ONE};
use raymarch::trig::{self, HALF_PI_RAW, PI_RAW, TAU_RAW};

fn to_f64(raw: i64) -> f64 {
    raw as f64 / FX_ONE as f64
}

#[test]
fn cos_at_zero_is_one() {
    let r = trig::cos(Fx { raw: 0 }).raw;
    assert!((to_f64(r) - 1.0).abs() <= 1e-3, "cos(0) = {}", to_f64(r));
}

#[test]
fn cos_at_pi_is_minus_one() {
    let r = trig::cos(Fx { raw: PI_RAW }).raw;
    assert!((to_f64(r) + 1.0).abs() <= 1e-3, "cos(pi) = {}", to_f64(r));
}

#[test]
fn sin_at_half_pi_is_one() {
    let r = trig::sin(Fx { raw: HALF_PI_RAW }).raw;
    assert!((to_f64(r) - 1.0).abs() <= 1e-3, "sin(pi/2) = {}", to_f64(r));
}

#[test]
fn cos_tracks_the_reference_over_a_full_turn() {
    // Dense sampling over [0, 2pi): within the polynomial's fitted residual
    // (a few parts in a thousand) everywhere.
    let mut worst: f64 = 0.0;
    for k in 0..1000i64 {
        let raw = k * TAU_RAW / 1000;
        let approx = to_f64(trig::cos(Fx { raw }).raw);
        let exact = to_f64(raw).cos();
        let err = (approx - exact).abs();
        if err > worst {
            worst = err;
        }
    }
    assert!(worst <= 3e-3, "worst cosine error over a turn: {worst}");
}

#[test]
fn cos_is_periodic_and_even() {
    for k in [-3i64, -1, 1, 2, 5] {
        let raw = k * 700000;
        let base = trig::cos(Fx { raw }).raw;
        let shifted = trig::cos(Fx { raw: raw + TAU_RAW }).raw;
        assert_eq!(base, shifted, "period break at raw {raw}");
        let mirrored = trig::cos(Fx { raw: -raw }).raw;
        assert!((base - mirrored).abs() <= 2, "evenness break at raw {raw}");
    }
}

#[test]
fn sin_tracks_the_reference_over_a_full_turn() {
    let mut worst: f64 = 0.0;
    for k in 0..1000i64 {
        let raw = k * TAU_RAW / 1000;
        let approx = to_f64(trig::sin(Fx { raw }).raw);
        let exact = to_f64(raw).sin();
        let err = (approx - exact).abs();
        if err > worst {
            worst = err;
        }
    }
    assert!(worst <= 3e-3, "worst sine error over a turn: {worst}");
}

#[test]
fn tan_at_quarter_pi_is_one() {
    let r = trig::tan(Fx { raw: HALF_PI_RAW / 2 }).raw;
    assert!((to_f64(r) - 1.0).abs() <= 1e-2, "tan(pi/4) = {}", to_f64(r));
}

#[test]
fn inv_tan_at_quarter_pi_is_one() {
    let r = trig::inv_tan(Fx { raw: HALF_PI_RAW / 2 }).raw;
    assert!((to_f64(r) - 1.0).abs() <= 1e-2, "cot(pi/4) = {}", to_f64(r));
}

#[test]
fn atan_is_a_rough_arctangent() {
    // The rational fit carries no error bound; hold it to a loose one.
    for (units, expect) in [(0i64, 0.0f64), (1, 0.7854), (-1, -0.7854), (5, 1.3734)] {
        let r = trig::atan(Fx { raw: units * FX_ONE }).raw;
        assert!((to_f64(r) - expect).abs() <= 0.1, "atan({units}) = {}", to_f64(r));
    }
}
