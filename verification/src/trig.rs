//! Polynomial trigonometric approximations over the fixed-point scalars.
//!
//! Cosine reduces its argument into one period, folds it into the first
//! quarter by the symmetries `cos(2pi - x) == cos(x)` and
//! `cos(pi - x) == -cos(x)`, and evaluates a fifth-degree polynomial fitted
//! to cosine over that quarter (accurate to a few parts in a thousand).
//! Sine, tangent, cotangent and an arctangent rational approximation are
//! derived from it. The angle constants are the nearest fixed-point values
//! to pi/2, pi and 2*pi, chosen so that the period is exactly four quarter
//! turns.

use vstd::prelude::*;

use crate::fixed;
use crate::fixed::{Fx, fx_add_v, fx_div_v, fx_mul_v, fx_sub_v};

verus! {

/// A quarter turn: pi/2 in the fixed-point format.
pub const HALF_PI_RAW: i64 = 1647099;

/// A half turn: pi in the fixed-point format (two quarter turns).
pub const PI_RAW: i64 = 3294198;

/// A full turn: 2*pi in the fixed-point format (four quarter turns).
pub const TAU_RAW: i64 = 6588396;

/// Fifth-degree polynomial fitted to cosine over `[0, pi/2]`, evaluated by
/// Horner's rule on raw values.
pub open spec fn quarter_cos_v(x: int) -> int {
    let t1 = fx_mul_v(-6033, x);
    let t2 = fx_add_v(t1, 53729);
    let t3 = fx_mul_v(t2, x);
    let t4 = fx_sub_v(t3, 8044);
    let t5 = fx_mul_v(t4, x);
    let t6 = fx_sub_v(t5, 521227);
    let t7 = fx_mul_v(t6, x);
    let t8 = fx_sub_v(t7, 469);
    let t9 = fx_mul_v(t8, x);
    fx_add_v(t9, 1048597)
}

/// Cosine on raw values: reduce modulo a full turn (the remainder is taken
/// non-negative), fold into `[0, pi]`, fold into `[0, pi/2]` with a sign
/// flip, then sample the quarter-period polynomial.
pub open spec fn cos_v(x: int) -> int {
    let m0 = x % (TAU_RAW as int);
    let m1 = if m0 > PI_RAW as int {
        TAU_RAW as int - m0
    } else {
        m0
    };
    let m2 = if m1 > HALF_PI_RAW as int {
        PI_RAW as int - m1
    } else {
        m1
    };
    let q = quarter_cos_v(m2);
    if m1 > HALF_PI_RAW as int {
        -q
    } else {
        q
    }
}

/// Sine on raw values: a cosine shifted back by a quarter turn.
pub open spec fn sin_v(x: int) -> int {
    cos_v(fx_sub_v(x, HALF_PI_RAW as int))
}

/// Tangent on raw values; where the cosine is exactly zero the saturating
/// quotient stands in for the infinite result.
pub open spec fn tan_v(x: int) -> int {
    fx_div_v(sin_v(x), cos_v(x))
}

/// Cotangent on raw values; where the sine is exactly zero the saturating
/// quotient stands in for the infinite result.
pub open spec fn inv_tan_v(x: int) -> int {
    fx_div_v(cos_v(x), sin_v(x))
}

/// Rational arctangent approximation on raw values, piecewise by the sign
/// of the input; a rough approximation with no fitted error bound.
pub open spec fn atan_v(x: int) -> int {
    if x >= 0 {
        let d = fx_add_v(fx_mul_v(666894, x), 667544);
        fx_add_v(fx_div_v(-1048576, d), HALF_PI_RAW as int)
    } else {
        let d = fx_sub_v(fx_mul_v(666894, x), 667544);
        fx_sub_v(fx_div_v(-1048576, d), HALF_PI_RAW as int)
    }
}

/// The fitted quarter-period cosine polynomial.
pub fn quarter_cos(x: Fx) -> (r: Fx)
    requires
        x.ok(),
    ensures
        r.ok(),
        r.v() == quarter_cos_v(x.v()),
{
    let t1 = fixed::fx_mul(Fx { raw: -6033 }, x);
    let t2 = fixed::fx_add(t1, Fx { raw: 53729 });
    let t3 = fixed::fx_mul(t2, x);
    let t4 = fixed::fx_sub(t3, Fx { raw: 8044 });
    let t5 = fixed::fx_mul(t4, x);
    let t6 = fixed::fx_sub(t5, Fx { raw: 521227 });
    let t7 = fixed::fx_mul(t6, x);
    let t8 = fixed::fx_sub(t7, Fx { raw: 469 });
    let t9 = fixed::fx_mul(t8, x);
    fixed::fx_add(t9, Fx { raw: 1048597 })
}

/// Cosine (approximate).
pub fn cos(x: Fx) -> (r: Fx)
    requires
        x.ok(),
    ensures
        r.ok(),
        r.v() == cos_v(x.v()),
{
    let m0: i64 = if x.raw >= 0 {
        ((x.raw as u64) % 6588396u64) as i64
    } else {
        let k: u64 = ((-x.raw) as u64) % 6588396u64;
        if k == 0 {
            0
        } else {
            TAU_RAW - (k as i64)
        }
    };
    proof {
        assert(m0 == x.v() % (TAU_RAW as int));
    }
    let m1: i64 = if m0 > PI_RAW {
        TAU_RAW - m0
    } else {
        m0
    };
    let m2: i64 = if m1 > HALF_PI_RAW {
        PI_RAW - m1
    } else {
        m1
    };
    let q = quarter_cos(Fx { raw: m2 });
    if m1 > HALF_PI_RAW {
        fixed::fx_neg(q)
    } else {
        q
    }
}

/// Sine (approximate).
pub fn sin(x: Fx) -> (r: Fx)
    requires
        x.ok(),
    ensures
        r.ok(),
        r.v() == sin_v(x.v()),
{
    cos(fixed::fx_sub(x, Fx { raw: HALF_PI_RAW }))
}

/// Tangent (approximate); saturates where the cosine is exactly zero.
pub fn tan(x: Fx) -> (r: Fx)
    requires
        x.ok(),
    ensures
        r.ok(),
        r.v() == tan_v(x.v()),
{
    let s = sin(x);
    let c = cos(x);
    fixed::fx_div(s, c)
}

/// Cotangent (approximate); saturates where the sine is exactly zero.
pub fn inv_tan(x: Fx) -> (r: Fx)
    requires
        x.ok(),
    ensures
        r.ok(),
        r.v() == inv_tan_v(x.v()),
{
    let c = cos(x);
    let s = sin(x);
    fixed::fx_div(c, s)
}

/// Arctangent (rough rational approximation).
pub fn atan(x: Fx) -> (r: Fx)
    requires
        x.ok(),
    ensures
        r.ok(),
        r.v() == atan_v(x.v()),
{
    if x.raw >= 0 {
        let d = fixed::fx_add(fixed::fx_mul(Fx { raw: 666894 }, x), Fx { raw: 667544 });
        fixed::fx_add(fixed::fx_div(Fx { raw: -1048576 }, d), Fx { raw: HALF_PI_RAW })
    } else {
        let d = fixed::fx_sub(fixed::fx_mul(Fx { raw: 666894 }, x), Fx { raw: 667544 });
        fixed::fx_sub(fixed::fx_div(Fx { raw: -1048576 }, d), Fx { raw: HALF_PI_RAW })
    }
}

} // verus!
