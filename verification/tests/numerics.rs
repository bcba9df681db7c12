//! Checks of the fixed-point kernel: exact arithmetic, saturation, and the
//! square-root pair.

use raymarch::fixed::{self, Fx, FX_ONE, FX_RAW_LIM};

fn fx(units: i64) -> Fx {
    Fx { raw: units * FX_ONE }
}

#[test]
fn add_and_sub_are_exact_in_range() {
    let a = fx(3);
    let b = fx(-5);
    assert_eq!(fixed::fx_add(a, b).raw, -2 * FX_ONE);
    assert_eq!(fixed::fx_sub(a, b).raw, 8 * FX_ONE);
    assert_eq!(fixed::fx_neg(a).raw, -3 * FX_ONE);
}

#[test]
fn add_saturates_at_the_range_ends() {
    let big = Fx { raw: FX_RAW_LIM };
    assert_eq!(fixed::fx_add(big, big).raw, FX_RAW_LIM);
    let low = Fx { raw: -FX_RAW_LIM };
    assert_eq!(fixed::fx_add(low, low).raw, -FX_RAW_LIM);
    assert_eq!(fixed::fx_sub(low, big).raw, -FX_RAW_LIM);
}

#[test]
fn mul_rounds_toward_zero() {
    // 1.5 * 2.25 == 3.375 exactly.
    let a = Fx { raw: 3 * FX_ONE / 2 };
    let b = Fx { raw: 9 * FX_ONE / 4 };
    assert_eq!(fixed::fx_mul(a, b).raw, 27 * FX_ONE / 8);
    // Signs carry through; magnitudes truncate alike on both sides of zero.
    let third = Fx { raw: FX_ONE / 3 };
    let p = fixed::fx_mul(third, third).raw;
    let n = fixed::fx_mul(Fx { raw: -third.raw }, third).raw;
    assert_eq!(p, -n);
}

#[test]
fn mul_saturates_on_large_products() {
    let big = Fx { raw: FX_RAW_LIM };
    assert_eq!(fixed::fx_mul(big, big).raw, FX_RAW_LIM);
    assert_eq!(fixed::fx_mul(Fx { raw: -FX_RAW_LIM }, big).raw, -FX_RAW_LIM);
}

#[test]
fn div_by_zero_saturates_with_the_dividend_sign() {
    let zero = Fx { raw: 0 };
    assert_eq!(fixed::fx_div(fx(1), zero).raw, FX_RAW_LIM);
    assert_eq!(fixed::fx_div(fx(-1), zero).raw, -FX_RAW_LIM);
    assert_eq!(fixed::fx_div(zero, zero).raw, 0);
}

#[test]
fn div_is_exact_on_exact_quotients() {
    assert_eq!(fixed::fx_div(fx(10), fx(4)).raw, 5 * FX_ONE / 2);
    assert_eq!(fixed::fx_div(fx(-10), fx(4)).raw, -(5 * FX_ONE / 2));
}

#[test]
fn sqrt_is_the_floor_root() {
    assert_eq!(fixed::sqrt(fx(4)).raw, 2 * FX_ONE);
    assert_eq!(fixed::sqrt(fx(25)).raw, 5 * FX_ONE);
    assert_eq!(fixed::sqrt(Fx { raw: 0 }).raw, 0);
    // sqrt(2) to 20 fractional bits: floor(sqrt(2) * 2^20).
    let r = fixed::sqrt(fx(2)).raw;
    assert_eq!(r, 1482910);
}

#[test]
fn inv_sqrt_matches_the_reciprocal_root() {
    // 1 / sqrt(4) == 0.5.
    let r = fixed::inv_sqrt(fx(4)).raw;
    assert!((r - FX_ONE / 2).abs() <= 1, "inv_sqrt(4) raw {r}");
    // 1 / sqrt(1) == 1.
    let r1 = fixed::inv_sqrt(fx(1)).raw;
    assert!((r1 - FX_ONE).abs() <= 1, "inv_sqrt(1) raw {r1}");
}

#[test]
fn inv_sqrt_times_sqrt_is_one_within_two_permille() {
    // The proved bound, exercised on concrete values across the range.
    let samples: [i64; 8] = [1, 7, 104858, FX_ONE, 2 * FX_ONE, 25 * FX_ONE, 1000 * FX_ONE, FX_RAW_LIM];
    for raw in samples {
        let x = Fx { raw };
        let p = fixed::fx_mul(fixed::inv_sqrt(x), fixed::sqrt(x)).raw;
        assert!(p <= FX_ONE, "product above one for raw {raw}: {p}");
        assert!(500 * (FX_ONE - p) <= FX_ONE, "product off by over 0.2% for raw {raw}: {p}");
    }
}

#[test]
fn from_int_scales_by_one() {
    assert_eq!(Fx::from_int(7).raw, 7 * FX_ONE);
    assert_eq!(Fx::from_int(-2048).raw, -2048 * FX_ONE);
}
