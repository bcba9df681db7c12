//! Signed fixed-point numbers with 20 fractional bits, and the numeric kernel
//! (integer square root, square root, fast inverse square root) built on them.
//!
//! A value `v` is carried as `raw == v * 2^20` in an `i64`, with `|raw|`
//! capped at `2^31` (so values span roughly `-2048.0 ..= 2048.0` and the
//! product of two raw values always fits in 64 bits). All arithmetic
//! saturates at that cap instead of wrapping or panicking; the contracts
//! state the saturation exactly.

use vstd::prelude::*;

verus! {

/// One, as a raw fixed-point value: `2^20`.
pub const FX_ONE: i64 = 1048576;

/// Largest raw magnitude a fixed-point value may carry: `2^31`.
pub const FX_RAW_LIM: i64 = 2147483648;

/// A signed fixed-point number with 20 fractional bits.
#[derive(Clone, Copy, PartialEq, Eq, Structural, Debug)]
pub struct Fx {
    pub raw: i64,
}

/// A raw value that the format admits.
pub open spec fn fx_ok_v(x: int) -> bool {
    -(FX_RAW_LIM as int) <= x <= FX_RAW_LIM as int
}

/// Clamp a mathematical result to the raw range of the format.
pub open spec fn fx_sat_v(x: int) -> int {
    if x > FX_RAW_LIM as int {
        FX_RAW_LIM as int
    } else if x < -(FX_RAW_LIM as int) {
        -(FX_RAW_LIM as int)
    } else {
        x
    }
}

/// Saturating fixed-point sum, on raw values.
pub open spec fn fx_add_v(a: int, b: int) -> int {
    fx_sat_v(a + b)
}

/// Saturating fixed-point difference, on raw values.
pub open spec fn fx_sub_v(a: int, b: int) -> int {
    fx_sat_v(a - b)
}

/// Fixed-point negation, on raw values.
pub open spec fn fx_neg_v(a: int) -> int {
    -a
}

/// Saturating fixed-point product, on raw values: the mathematical product
/// rescaled by `2^20`, rounded toward zero, then clamped.
pub open spec fn fx_mul_v(a: int, b: int) -> int {
    let p = a * b;
    if p >= 0 {
        fx_sat_v(p / (FX_ONE as int))
    } else {
        -fx_sat_v((-p) / (FX_ONE as int))
    }
}

/// Saturating fixed-point quotient, on raw values, rounded toward zero.
/// Division by zero saturates to the far end of the range carrying the
/// dividend's sign (the format's stand-in for an infinite quotient), and
/// `0 / 0` is zero.
pub open spec fn fx_div_v(a: int, b: int) -> int {
    if b == 0 {
        if a > 0 {
            FX_RAW_LIM as int
        } else if a < 0 {
            -(FX_RAW_LIM as int)
        } else {
            0
        }
    } else {
        let am = if a >= 0 { a } else { -a };
        let bm = if b >= 0 { b } else { -b };
        let q = (am * (FX_ONE as int)) / bm;
        if (a < 0) <==> (b < 0) {
            fx_sat_v(q)
        } else {
            -fx_sat_v(q)
        }
    }
}

impl Fx {
    /// The raw value as a mathematical integer.
    pub open spec fn v(self) -> int {
        self.raw as int
    }

    /// The raw value lies within the format's range.
    pub open spec fn ok(self) -> bool {
        fx_ok_v(self.raw as int)
    }

    /// The fixed-point representation of a small integer.
    pub fn from_int(i: i64) -> (r: Fx)
        requires
            -2048 <= i <= 2048,
        ensures
            r.ok(),
            r.v() == i * (FX_ONE as int),
    {
        Fx { raw: i * FX_ONE }
    }
}

/// Saturating fixed-point addition.
pub fn fx_add(a: Fx, b: Fx) -> (r: Fx)
    requires
        a.ok(),
        b.ok(),
    ensures
        r.ok(),
        r.v() == fx_add_v(a.v(), b.v()),
{
    let s: i64 = a.raw + b.raw;
    let c: i64 = if s > FX_RAW_LIM {
        FX_RAW_LIM
    } else if s < -FX_RAW_LIM {
        -FX_RAW_LIM
    } else {
        s
    };
    Fx { raw: c }
}

/// Saturating fixed-point subtraction.
pub fn fx_sub(a: Fx, b: Fx) -> (r: Fx)
    requires
        a.ok(),
        b.ok(),
    ensures
        r.ok(),
        r.v() == fx_sub_v(a.v(), b.v()),
{
    let s: i64 = a.raw - b.raw;
    let c: i64 = if s > FX_RAW_LIM {
        FX_RAW_LIM
    } else if s < -FX_RAW_LIM {
        -FX_RAW_LIM
    } else {
        s
    };
    Fx { raw: c }
}

/// Fixed-point negation.
pub fn fx_neg(a: Fx) -> (r: Fx)
    requires
        a.ok(),
    ensures
        r.ok(),
        r.v() == fx_neg_v(a.v()),
{
    Fx { raw: -a.raw }
}

/// Saturating fixed-point multiplication.
pub fn fx_mul(a: Fx, b: Fx) -> (r: Fx)
    requires
        a.ok(),
        b.ok(),
    ensures
        r.ok(),
        r.v() == fx_mul_v(a.v(), b.v()),
{
    let neg: bool = (a.raw < 0) != (b.raw < 0);
    let an: u64 = if a.raw < 0 {
        (-a.raw) as u64
    } else {
        a.raw as u64
    };
    let bn: u64 = if b.raw < 0 {
        (-b.raw) as u64
    } else {
        b.raw as u64
    };
    proof {
        assert(an * bn <= 2147483648u64 * 2147483648u64) by (nonlinear_arith)
            requires
                an <= 2147483648u64,
                bn <= 2147483648u64,
        ;
        assert((an as int) * (bn as int) == (
            if a.v() * b.v() >= 0 {
                a.v() * b.v()
            } else {
                -(a.v() * b.v())
            }
        )) by (nonlinear_arith)
            requires
                an == (if a.v() < 0 { -a.v() } else { a.v() }),
                bn == (if b.v() < 0 { -b.v() } else { b.v() }),
        ;
        assert((a.v() * b.v() < 0) ==> neg) by (nonlinear_arith)
            requires
                neg == ((a.v() < 0) != (b.v() < 0)),
        ;
        assert((neg && a.v() != 0 && b.v() != 0) ==> a.v() * b.v() < 0) by (nonlinear_arith)
            requires
                neg == ((a.v() < 0) != (b.v() < 0)),
        ;
    }
    let p: u64 = an * bn;
    let q: u64 = p / 1048576;
    let qs: i64 = if q > 2147483648u64 {
        FX_RAW_LIM
    } else {
        q as i64
    };
    let raw: i64 = if neg {
        -qs
    } else {
        qs
    };
    Fx { raw }
}

/// Saturating fixed-point division, rounding toward zero; division by zero
/// saturates (see `fx_div_v`).
pub fn fx_div(a: Fx, b: Fx) -> (r: Fx)
    requires
        a.ok(),
        b.ok(),
    ensures
        r.ok(),
        r.v() == fx_div_v(a.v(), b.v()),
{
    if b.raw == 0 {
        if a.raw > 0 {
            Fx { raw: FX_RAW_LIM }
        } else if a.raw < 0 {
            Fx { raw: -FX_RAW_LIM }
        } else {
            Fx { raw: 0 }
        }
    } else {
        let neg: bool = (a.raw < 0) != (b.raw < 0);
        let an: u64 = if a.raw < 0 {
            (-a.raw) as u64
        } else {
            a.raw as u64
        };
        let bn: u64 = if b.raw < 0 {
            (-b.raw) as u64
        } else {
            b.raw as u64
        };
        let n: u64 = an * 1048576;
        let q: u64 = n / bn;
        let qs: i64 = if q > 2147483648u64 {
            FX_RAW_LIM
        } else {
            q as i64
        };
        let raw: i64 = if neg {
            -qs
        } else {
            qs
        };
        Fx { raw }
    }
}

/// The integer square root: the largest `r` with `r * r <= n`.
pub open spec fn floor_sqrt(n: nat) -> nat
    decreases n,
{
    if n == 0 {
        0
    } else {
        let r = floor_sqrt((n - 1) as nat);
        if (r + 1) * (r + 1) <= n {
            r + 1
        } else {
            r
        }
    }
}

/// `floor_sqrt(n)` is the integer square root of `n`.
pub proof fn lemma_floor_sqrt_bounds(n: nat)
    ensures
        floor_sqrt(n) * floor_sqrt(n) <= n,
        n < (floor_sqrt(n) + 1) * (floor_sqrt(n) + 1),
    decreases n,
{
    if n == 0 {
        assert(floor_sqrt(n) == 0);
        let f = floor_sqrt(n);
        assert(n < (f + 1) * (f + 1)) by (nonlinear_arith)
            requires
                n == 0,
                f == 0,
        ;
    } else {
        lemma_floor_sqrt_bounds((n - 1) as nat);
        let r = floor_sqrt((n - 1) as nat);
        let f = floor_sqrt(n);
        if (r + 1) * (r + 1) <= n {
            assert(f == r + 1);
            assert(f * f <= n && n < (f + 1) * (f + 1)) by (nonlinear_arith)
                requires
                    f == r + 1,
                    (r + 1) * (r + 1) <= n,
                    n - 1 < (r + 1) * (r + 1),
            ;
        } else {
            assert(f == r);
            assert(f * f <= n && n < (f + 1) * (f + 1)) by (nonlinear_arith)
                requires
                    f == r,
                    r * r <= n - 1,
                    !((r + 1) * (r + 1) <= n),
            ;
        }
    }
}

/// Any `r` bracketed by the square-root inequalities is `floor_sqrt(n)`.
pub proof fn lemma_floor_sqrt_unique(n: nat, r: nat)
    requires
        r * r <= n,
        n < (r + 1) * (r + 1),
    ensures
        r == floor_sqrt(n),
{
    lemma_floor_sqrt_bounds(n);
    let f = floor_sqrt(n);
    assert(r == f) by (nonlinear_arith)
        requires
            r * r <= n,
            n < (r + 1) * (r + 1),
            f * f <= n,
            n < (f + 1) * (f + 1),
    ;
}

/// A lower witness: if `a * a <= n` then the root is at least `a`.
pub proof fn lemma_floor_sqrt_ge(n: nat, a: nat)
    requires
        a * a <= n,
    ensures
        floor_sqrt(n) >= a,
{
    lemma_floor_sqrt_bounds(n);
    let f = floor_sqrt(n);
    assert(f >= a) by (nonlinear_arith)
        requires
            a * a <= n,
            n < (f + 1) * (f + 1),
    ;
}

/// An upper witness: if `n < a * a` then the root is below `a`.
pub proof fn lemma_floor_sqrt_lt(n: nat, a: nat)
    requires
        n < a * a,
    ensures
        floor_sqrt(n) < a,
{
    lemma_floor_sqrt_bounds(n);
    let f = floor_sqrt(n);
    assert(f < a) by (nonlinear_arith)
        requires
            n < a * a,
            f * f <= n,
    ;
}

/// The integer square root of a 64-bit value, by bisection.
pub fn isqrt_u64(n: u64) -> (r: u64)
    ensures
        r == floor_sqrt(n as nat),
{
    let mut lo: u64 = 0;
    let mut hi: u64 = 4294967296;
    while lo + 1 < hi
        invariant
            lo < hi <= 4294967296,
            (lo as int) * (lo as int) <= n as int,
            (n as int) < (hi as int) * (hi as int),
        decreases hi - lo,
    {
        let mid: u64 = lo + (hi - lo) / 2;
        proof {
            assert(mid * mid <= 4294967295u64 * 4294967295u64) by (nonlinear_arith)
                requires
                    mid <= 4294967295u64,
            ;
        }
        if mid * mid <= n {
            lo = mid;
        } else {
            hi = mid;
        }
    }
    proof {
        assert((n as int) < ((lo + 1) as int) * ((lo + 1) as int));
        lemma_floor_sqrt_unique(n as nat, lo as nat);
    }
    lo
}

/// The fixed-point square root of `x`, exact to the last fractional bit:
/// the result is the floor of the mathematical square root in the format.
/// The caller keeps non-negative inputs; negative ones have no square root
/// in the format and are ruled out rather than guarded at run time.
pub open spec fn sqrt_v(x: int) -> int {
    if x < 0 {
        0
    } else {
        floor_sqrt((x * (FX_ONE as int)) as nat) as int
    }
}

/// Fixed-point square root. Relies on the identity
/// `sqrt(raw / 2^20) * 2^20 == sqrt(raw * 2^20)`.
pub fn sqrt(x: Fx) -> (r: Fx)
    requires
        x.ok(),
        x.v() >= 0,
    ensures
        r.ok(),
        r.v() == sqrt_v(x.v()),
        0 <= r.v() <= 67108864,
{
    let s: u64 = isqrt_u64((x.raw as u64) * 1048576);
    proof {
        let m: nat = (x.v() * (FX_ONE as int)) as nat;
        lemma_floor_sqrt_bounds(m);
        lemma_floor_sqrt_lt(m, 67108865nat);
        assert(m < 67108865nat * 67108865nat) by (nonlinear_arith)
            requires
                m <= 2147483648 * 1048576,
        ;
    }
    Fx { raw: s as i64 }
}

/// The fixed-point fast inverse square root: `2^40 / floor_sqrt(raw * 2^20)`,
/// an approximation of `1 / sqrt(x)` whose product with `sqrt(x)` the library
/// proves to be one within 0.2 percent (`lemma_inv_sqrt_times_sqrt`).
pub open spec fn inv_sqrt_v(x: int) -> int {
    if x < 1 {
        0
    } else {
        1099511627776int / (floor_sqrt((x * (FX_ONE as int)) as nat) as int)
    }
}

/// Fixed-point inverse square root. Valid for positive inputs only; zero
/// and negative inputs have no finite inverse root and are ruled out rather
/// than guarded at run time.
pub fn inv_sqrt(x: Fx) -> (r: Fx)
    requires
        x.ok(),
        x.v() >= 1,
    ensures
        r.ok(),
        r.v() == inv_sqrt_v(x.v()),
        1 <= r.v() <= 1073741824,
{
    let s: u64 = isqrt_u64((x.raw as u64) * 1048576);
    proof {
        let m: nat = (x.v() * (FX_ONE as int)) as nat;
        lemma_floor_sqrt_bounds(m);
        assert(1024nat * 1024nat <= m) by (nonlinear_arith)
            requires
                m >= 1048576,
        ;
        lemma_floor_sqrt_ge(m, 1024nat);
        assert(m < 67108865nat * 67108865nat) by (nonlinear_arith)
            requires
                m <= 2147483648 * 1048576,
        ;
        lemma_floor_sqrt_lt(m, 67108865nat);
    }
    let q: u64 = 1099511627776u64 / s;
    proof {
        assert(1 <= 1099511627776int / (s as int) <= 1073741824) by (nonlinear_arith)
            requires
                1024 <= s as int <= 67108864,
        ;
    }
    Fx { raw: q as i64 }
}

/// For every positive value the format can carry, the product of the fast
/// inverse square root and the square root is one to within 0.2 percent;
/// in fact it lands in `[1 - 64/2^20, 1]`.
pub proof fn lemma_inv_sqrt_times_sqrt(x: int)
    requires
        1 <= x <= FX_RAW_LIM as int,
    ensures
        FX_ONE - 64 <= fx_mul_v(inv_sqrt_v(x), sqrt_v(x)) <= FX_ONE as int,
        500 * (FX_ONE - fx_mul_v(inv_sqrt_v(x), sqrt_v(x))) <= FX_ONE as int,
{
    let m = (x * (FX_ONE as int)) as nat;
    lemma_floor_sqrt_bounds(m);
    assert(1024nat * 1024nat <= m) by (nonlinear_arith)
        requires
            m >= 1048576,
    ;
    lemma_floor_sqrt_ge(m, 1024nat);
    assert(m < 67108865nat * 67108865nat) by (nonlinear_arith)
        requires
            m <= 2147483648 * 1048576,
    ;
    lemma_floor_sqrt_lt(m, 67108865nat);
    let s = floor_sqrt(m) as int;
    let q = 1099511627776int / s;
    assert(sqrt_v(x) == s);
    assert(inv_sqrt_v(x) == q);
    let p = q * s;
    vstd::arithmetic::div_mod::lemma_fundamental_div_mod(1099511627776int, s);
    vstd::arithmetic::div_mod::lemma_mod_bound(1099511627776int, s);
    assert(1099511627776 - s < p <= 1099511627776 && q >= 0) by (nonlinear_arith)
        requires
            1099511627776int == s * q + 1099511627776int % s,
            0 <= 1099511627776int % s < s,
            1024 <= s <= 67108864,
            p == q * s,
    ;
    assert(fx_mul_v(q, s) == p / (FX_ONE as int)) by {
        assert(p / (FX_ONE as int) <= 2147483648) by (nonlinear_arith)
            requires
                0 <= p <= 1099511627776,
        ;
    }
    assert(1048512 <= p / 1048576 <= 1048576) by (nonlinear_arith)
        requires
            1099511627776 - 67108864 < p <= 1099511627776,
    ;
}

} // verus!
