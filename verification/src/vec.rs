//! Two- and three-dimensional vectors over the fixed-point scalars, with
//! componentwise arithmetic, dot product, magnitude, normalization and
//! linear interpolation.
//!
//! Normalization feeds the *squared* length to the inverse square root:
//! the kernel already inverts a square root, so handing it the rooted
//! magnitude would invert twice. Both `normalize` and `normalized` follow
//! that rule and share one specification.

use vstd::prelude::*;

use crate::fixed;
use crate::fixed::{Fx, fx_add_v, fx_mul_v, fx_sub_v, inv_sqrt_v, sqrt_v};

verus! {

/// A 2-dimensional fixed-point vector.
#[derive(Clone, Copy, PartialEq, Eq, Structural, Debug)]
pub struct Vec2 {
    pub x: Fx,
    pub y: Fx,
}

/// A 3-dimensional fixed-point vector.
#[derive(Clone, Copy, PartialEq, Eq, Structural, Debug)]
pub struct Vec3 {
    pub x: Fx,
    pub y: Fx,
    pub z: Fx,
}

/// The dot product of two 3-vectors, on raw values.
pub open spec fn v3_dot_v(a: Vec3, b: Vec3) -> int {
    fx_add_v(
        fx_add_v(fx_mul_v(a.x.v(), b.x.v()), fx_mul_v(a.y.v(), b.y.v())),
        fx_mul_v(a.z.v(), b.z.v()),
    )
}

/// Componentwise sum of two 3-vectors.
pub open spec fn v3_add_v(a: Vec3, b: Vec3) -> Vec3 {
    Vec3 {
        x: Fx { raw: fx_add_v(a.x.v(), b.x.v()) as i64 },
        y: Fx { raw: fx_add_v(a.y.v(), b.y.v()) as i64 },
        z: Fx { raw: fx_add_v(a.z.v(), b.z.v()) as i64 },
    }
}

/// Componentwise difference of two 3-vectors.
pub open spec fn v3_sub_v(a: Vec3, b: Vec3) -> Vec3 {
    Vec3 {
        x: Fx { raw: fx_sub_v(a.x.v(), b.x.v()) as i64 },
        y: Fx { raw: fx_sub_v(a.y.v(), b.y.v()) as i64 },
        z: Fx { raw: fx_sub_v(a.z.v(), b.z.v()) as i64 },
    }
}

/// A 3-vector scaled by a fixed-point factor.
pub open spec fn v3_scale_v(a: Vec3, t: int) -> Vec3 {
    Vec3 {
        x: Fx { raw: fx_mul_v(a.x.v(), t) as i64 },
        y: Fx { raw: fx_mul_v(a.y.v(), t) as i64 },
        z: Fx { raw: fx_mul_v(a.z.v(), t) as i64 },
    }
}

/// A 3-vector divided componentwise by a fixed-point scalar.
pub open spec fn v3_div_v(a: Vec3, t: int) -> Vec3 {
    Vec3 {
        x: Fx { raw: fixed::fx_div_v(a.x.v(), t) as i64 },
        y: Fx { raw: fixed::fx_div_v(a.y.v(), t) as i64 },
        z: Fx { raw: fixed::fx_div_v(a.z.v(), t) as i64 },
    }
}

/// The magnitude (Euclidean length) of a 3-vector, on raw values.
pub open spec fn v3_mag_v(a: Vec3) -> int {
    sqrt_v(v3_dot_v(a, a))
}

/// The normalized copy of a 3-vector: each component is scaled by the
/// inverse square root of the squared length. A vector whose squared
/// length rounds to zero in the format is left unchanged.
pub open spec fn v3_normalize_v(a: Vec3) -> Vec3 {
    let m2 = v3_dot_v(a, a);
    if m2 >= 1 {
        v3_scale_v(a, inv_sqrt_v(m2))
    } else {
        a
    }
}

/// Linear interpolation from `a` toward `b` by `t`.
pub open spec fn v3_lerp_v(a: Vec3, b: Vec3, t: int) -> Vec3 {
    v3_add_v(a, v3_scale_v(v3_sub_v(b, a), t))
}

/// A square is never negative, also after rescaling and saturation.
proof fn lemma_fx_square_nonneg(a: int)
    ensures
        fx_mul_v(a, a) >= 0,
{
    assert(a * a >= 0) by (nonlinear_arith);
    assert((a * a) / 1048576 >= 0) by (nonlinear_arith)
        requires
            a * a >= 0,
    ;
}

/// The squared length of a 3-vector is never negative.
pub proof fn lemma_v3_dot_self_nonneg(a: Vec3)
    ensures
        v3_dot_v(a, a) >= 0,
{
    lemma_fx_square_nonneg(a.x.v());
    lemma_fx_square_nonneg(a.y.v());
    lemma_fx_square_nonneg(a.z.v());
}

/// Exact bracketing of a rescaled square: for a component within
/// `[-2^24, 2^24]` the fixed-point square loses less than one unit of the
/// last place and never saturates.
proof fn lemma_sq_bounds(a: int)
    requires
        -16777216 <= a <= 16777216,
    ensures
        0 <= fx_mul_v(a, a) <= 268435456,
        fx_mul_v(a, a) * 1048576 <= a * a,
        a * a < fx_mul_v(a, a) * 1048576 + 1048576,
{
    let p = a * a;
    assert(0 <= p && p <= 16777216 * 16777216) by (nonlinear_arith)
        requires
            -16777216 <= a <= 16777216,
            p == a * a,
    ;
    vstd::arithmetic::div_mod::lemma_fundamental_div_mod(p, 1048576);
    vstd::arithmetic::div_mod::lemma_mod_bound(p, 1048576);
}

/// Exact form of a component scaled by a positive factor: the magnitudes
/// divide through, the sign is the component's, and nothing saturates as
/// long as the raw product stays under `2^41`.
proof fn lemma_scale_component(x: int, q: int)
    requires
        0 < q <= 16777216,
        -2147483648 <= x <= 2147483648,
        (if x >= 0 { x } else { -x }) * q <= 2199023255552,
    ensures
        fx_mul_v(x, q) == (
            if x >= 0 {
                (x * q) / 1048576
            } else {
                -(((-x) * q) / 1048576)
            }
        ),
        0 <= (if x >= 0 { x } else { -x }) * q,
        ((if x >= 0 { x } else { -x }) * q) / 1048576 <= 2097152,
        (((if x >= 0 { x } else { -x }) * q) / 1048576) * 1048576 <= (if x >= 0 { x } else { -x }) * q,
        (if x >= 0 { x } else { -x }) * q < (((if x >= 0 { x } else { -x }) * q) / 1048576) * 1048576 + 1048576,
{
    let ab = (if x >= 0 { x } else { -x }) * q;
    assert(ab >= 0 && (x >= 0 ==> x * q == ab) && (x < 0 ==> x * q == -ab && ab >= q)) by (nonlinear_arith)
        requires
            0 < q,
            ab == (if x >= 0 { x } else { -x }) * q,
    ;
    vstd::arithmetic::div_mod::lemma_fundamental_div_mod(ab, 1048576);
    vstd::arithmetic::div_mod::lemma_mod_bound(ab, 1048576);
}

/// Normalization makes a unit vector: for any vector whose components fit
/// in `[-16, 16]` and whose squared length is at least `2^-8`, the
/// magnitude of the normalized vector is within one percent of one.
pub proof fn lemma_normalize_unit_length(v: Vec3)
    requires
        v.ok(),
        -16777216 <= v.x.v() <= 16777216,
        -16777216 <= v.y.v() <= 16777216,
        -16777216 <= v.z.v() <= 16777216,
        v3_dot_v(v, v) >= 4096,
    ensures
        1038091 <= v3_mag_v(v3_normalize_v(v)) <= 1059061,
{
    let sx = v.x.v();
    let sy = v.y.v();
    let sz = v.z.v();
    let s2 = sx * sx + sy * sy + sz * sz;
    let tx = fx_mul_v(sx, sx);
    let ty = fx_mul_v(sy, sy);
    let tz = fx_mul_v(sz, sz);
    lemma_sq_bounds(sx);
    lemma_sq_bounds(sy);
    lemma_sq_bounds(sz);
    let m2 = v3_dot_v(v, v);
    assert(m2 == tx + ty + tz);
    assert(m2 * 1048576 <= s2 && s2 < m2 * 1048576 + 3145728 && m2 <= 805306368);

    // The root of the squared length, and the inverse-root factor.
    let n = (m2 * 1048576) as nat;
    fixed::lemma_floor_sqrt_bounds(n);
    let s = fixed::floor_sqrt(n) as int;
    assert(65536nat * 65536nat <= n) by (nonlinear_arith)
        requires
            n >= 4096 * 1048576,
    ;
    fixed::lemma_floor_sqrt_ge(n, 65536nat);
    assert(n < 33554432nat * 33554432nat) by (nonlinear_arith)
        requires
            n <= 805306368 * 1048576,
    ;
    fixed::lemma_floor_sqrt_lt(n, 33554432nat);
    assert(65536 <= s <= 33554431);
    assert(s * s <= n && n < (s + 1) * (s + 1));
    let q = 1099511627776int / s;
    vstd::arithmetic::div_mod::lemma_fundamental_div_mod(1099511627776int, s);
    vstd::arithmetic::div_mod::lemma_mod_bound(1099511627776int, s);
    let c = q * s;
    assert(1099511627776 - s < c <= 1099511627776 && 32767 <= q <= 16777216) by (nonlinear_arith)
        requires
            1099511627776int == s * q + 1099511627776int % s,
            0 <= 1099511627776int % s < s,
            65536 <= s <= 33554431,
            c == q * s,
    ;
    assert(fixed::inv_sqrt_v(m2) == q);
    let u = v3_normalize_v(v);
    assert(u == v3_scale_v(v, q));

    // Components are at most a hair beyond the root, so the scaled
    // products stay under 2^41 and nothing saturates.
    assert(sx * sx <= s2 && sy * sy <= s2 && sz * sz <= s2) by (nonlinear_arith)
        requires
            s2 == sx * sx + sy * sy + sz * sz,
    ;
    assert(s2 < (s + 26) * (s + 26)) by (nonlinear_arith)
        requires
            s2 < (s + 1) * (s + 1) + 3145728,
            s >= 65536,
    ;
    let ax = (if sx >= 0 { sx } else { -sx }) * q;
    let ay = (if sy >= 0 { sy } else { -sy }) * q;
    let az = (if sz >= 0 { sz } else { -sz }) * q;
    assert(0 <= ax <= c + 26 * q && 0 <= ay <= c + 26 * q && 0 <= az <= c + 26 * q) by (nonlinear_arith)
        requires
            sx * sx < (s + 26) * (s + 26),
            sy * sy < (s + 26) * (s + 26),
            sz * sz < (s + 26) * (s + 26),
            s >= 0,
            0 < q,
            c == q * s,
            ax == (if sx >= 0 { sx } else { -sx }) * q,
            ay == (if sy >= 0 { sy } else { -sy }) * q,
            az == (if sz >= 0 { sz } else { -sz }) * q,
    ;
    assert(ax <= 2199023255552 && ay <= 2199023255552 && az <= 2199023255552);
    lemma_scale_component(sx, q);
    lemma_scale_component(sy, q);
    lemma_scale_component(sz, q);
    let bx = ax / 1048576;
    let by = ay / 1048576;
    let bz = az / 1048576;
    assert(u.x.v() == (if sx >= 0 { bx } else { -bx }));
    assert(u.y.v() == (if sy >= 0 { by } else { -by }));
    assert(u.z.v() == (if sz >= 0 { bz } else { -bz }));

    // The weighted squared length q^2 * s2 is 2^80 up to small slack.
    let w = q * q * s2;
    assert(w > 1208925819614629174706176 - 73786976294838206464) by (nonlinear_arith)
        requires
            s * s <= m2 * 1048576,
            m2 * 1048576 <= s2,
            1099511627776 - 33554431 < c <= 1099511627776,
            c == q * s,
            q >= 0,
            w == q * q * s2,
    ;
    assert(w <= (c + q) * (c + q) + 3145728 * (q * q)) by (nonlinear_arith)
        requires
            s2 < (s + 1) * (s + 1) + 3145728,
            c == q * s,
            0 < q,
            w == q * q * s2,
    ;
    assert((c + q) * (c + q) <= 1208962713384251570520064) by (nonlinear_arith)
        requires
            0 <= c + q <= 1099528404992,
    ;
    assert(3145728 * (q * q) <= 885443715538058477568) by (nonlinear_arith)
        requires
            0 <= q <= 16777216,
    ;
    assert(w <= 1208925819614629174706176 + 1180591620717411303424);

    // Each scaled component squares to its share of w, up to one unit of
    // truncation apiece.
    assert(ax * ax == sx * sx * (q * q) && ay * ay == sy * sy * (q * q) && az * az == sz * sz * (q
        * q)) by (nonlinear_arith)
        requires
            ax == (if sx >= 0 { sx } else { -sx }) * q,
            ay == (if sy >= 0 { sy } else { -sy }) * q,
            az == (if sz >= 0 { sz } else { -sz }) * q,
    ;
    assert(ax * ax + ay * ay + az * az == w) by (nonlinear_arith)
        requires
            ax * ax == sx * sx * (q * q),
            ay * ay == sy * sy * (q * q),
            az * az == sz * sz * (q * q),
            s2 == sx * sx + sy * sy + sz * sz,
            w == q * q * s2,
    ;
    let ex = (bx * 1048576) * (bx * 1048576);
    let ey = (by * 1048576) * (by * 1048576);
    let ez = (bz * 1048576) * (bz * 1048576);
    assert(ex == bx * bx * 1099511627776) by (nonlinear_arith)
        requires
            ex == (bx * 1048576) * (bx * 1048576),
    ;
    assert(ex <= ax * ax && ex >= ax * ax - 2097152 * ax) by (nonlinear_arith)
        requires
            bx * 1048576 <= ax,
            ax < bx * 1048576 + 1048576,
            bx >= 0,
            ax >= 0,
            ex == (bx * 1048576) * (bx * 1048576),
    ;
    assert(ey == by * by * 1099511627776) by (nonlinear_arith)
        requires
            ey == (by * 1048576) * (by * 1048576),
    ;
    assert(ey <= ay * ay && ey >= ay * ay - 2097152 * ay) by (nonlinear_arith)
        requires
            by * 1048576 <= ay,
            ay < by * 1048576 + 1048576,
            by >= 0,
            ay >= 0,
            ey == (by * 1048576) * (by * 1048576),
    ;
    assert(ez == bz * bz * 1099511627776) by (nonlinear_arith)
        requires
            ez == (bz * 1048576) * (bz * 1048576),
    ;
    assert(ez <= az * az && ez >= az * az - 2097152 * az) by (nonlinear_arith)
        requires
            bz * 1048576 <= az,
            az < bz * 1048576 + 1048576,
            bz >= 0,
            az >= 0,
            ez == (bz * 1048576) * (bz * 1048576),
    ;
    let u2 = bx * bx + by * by + bz * bz;
    assert(u2 * 1099511627776 == bx * bx * 1099511627776 + by * by * 1099511627776 + bz * bz
        * 1099511627776) by (nonlinear_arith)
        requires
            u2 == bx * bx + by * by + bz * bz,
    ;
    assert(u2 * 1099511627776 <= w);
    assert(ax + ay + az <= 6597069766656);
    assert(u2 * 1099511627776 >= w - 2097152 * (ax + ay + az));
    assert(u2 * 1099511627776 > 1208925819614629174706176 - 73786976294838206464
        - 13835058055282163712);
    assert(u2 > 1099511627776 - 80000000);
    assert(u2 <= 1099511627776 + 1073741824);

    // The fixed-point dot product of the scaled vector with itself.
    lemma_sq_bounds(u.x.v());
    lemma_sq_bounds(u.y.v());
    lemma_sq_bounds(u.z.v());
    let txu = fx_mul_v(u.x.v(), u.x.v());
    let tyu = fx_mul_v(u.y.v(), u.y.v());
    let tzu = fx_mul_v(u.z.v(), u.z.v());
    assert(u.x.v() * u.x.v() == bx * bx && u.y.v() * u.y.v() == by * by && u.z.v() * u.z.v() == bz
        * bz) by (nonlinear_arith)
        requires
            u.x.v() == (if sx >= 0 { bx } else { -bx }),
            u.y.v() == (if sy >= 0 { by } else { -by }),
            u.z.v() == (if sz >= 0 { bz } else { -bz }),
    ;
    let m2u = v3_dot_v(u, u);
    assert(m2u == txu + tyu + tzu);
    assert(m2u * 1048576 <= u2 && u2 < m2u * 1048576 + 3145728);

    // Conclude by bracketing the final square root.
    lemma_v3_dot_self_nonneg(u);
    let nu = (m2u * 1048576) as nat;
    assert(nu > 1099511627776 - 80000000 - 3145728);
    assert(1038091nat * 1038091nat <= nu) by (nonlinear_arith)
        requires
            nu >= 1099511627776 - 83145728,
    ;
    fixed::lemma_floor_sqrt_ge(nu, 1038091nat);
    assert(nu < 1059062nat * 1059062nat) by (nonlinear_arith)
        requires
            nu <= 1099511627776 + 1073741824,
    ;
    fixed::lemma_floor_sqrt_lt(nu, 1059062nat);
    assert(v3_mag_v(u) == fixed::floor_sqrt(nu) as int);
}

impl Vec3 {
    /// All three components lie within the fixed-point range.
    pub open spec fn ok(self) -> bool {
        self.x.ok() && self.y.ok() && self.z.ok()
    }

    pub fn new(x: Fx, y: Fx, z: Fx) -> (r: Self)
        ensures
            r == (Vec3 { x, y, z }),
    {
        Vec3 { x, y, z }
    }

    /// Componentwise saturating sum.
    pub fn add(self, rhs: Self) -> (r: Self)
        requires
            self.ok(),
            rhs.ok(),
        ensures
            r.ok(),
            r == v3_add_v(self, rhs),
    {
        Vec3 {
            x: fixed::fx_add(self.x, rhs.x),
            y: fixed::fx_add(self.y, rhs.y),
            z: fixed::fx_add(self.z, rhs.z),
        }
    }

    /// Componentwise saturating sum, in place.
    pub fn add_assign(&mut self, rhs: Self)
        requires
            old(self).ok(),
            rhs.ok(),
        ensures
            final(self).ok(),
            *final(self) == v3_add_v(*old(self), rhs),
    {
        self.x = fixed::fx_add(self.x, rhs.x);
        self.y = fixed::fx_add(self.y, rhs.y);
        self.z = fixed::fx_add(self.z, rhs.z);
    }

    /// Componentwise saturating difference.
    pub fn sub(self, rhs: Self) -> (r: Self)
        requires
            self.ok(),
            rhs.ok(),
        ensures
            r.ok(),
            r == v3_sub_v(self, rhs),
    {
        Vec3 {
            x: fixed::fx_sub(self.x, rhs.x),
            y: fixed::fx_sub(self.y, rhs.y),
            z: fixed::fx_sub(self.z, rhs.z),
        }
    }

    /// The vector scaled by a fixed-point factor.
    pub fn mul(self, rhs: Fx) -> (r: Self)
        requires
            self.ok(),
            rhs.ok(),
        ensures
            r.ok(),
            r == v3_scale_v(self, rhs.v()),
    {
        Vec3 {
            x: fixed::fx_mul(self.x, rhs),
            y: fixed::fx_mul(self.y, rhs),
            z: fixed::fx_mul(self.z, rhs),
        }
    }

    /// The vector divided componentwise by a fixed-point scalar.
    pub fn div(self, rhs: Fx) -> (r: Self)
        requires
            self.ok(),
            rhs.ok(),
        ensures
            r.ok(),
            r == v3_div_v(self, rhs.v()),
    {
        Vec3 {
            x: fixed::fx_div(self.x, rhs),
            y: fixed::fx_div(self.y, rhs),
            z: fixed::fx_div(self.z, rhs),
        }
    }

    /// The dot product.
    pub fn dot(self, other: Self) -> (r: Fx)
        requires
            self.ok(),
            other.ok(),
        ensures
            r.ok(),
            r.v() == v3_dot_v(self, other),
    {
        fixed::fx_add(
            fixed::fx_add(fixed::fx_mul(self.x, other.x), fixed::fx_mul(self.y, other.y)),
            fixed::fx_mul(self.z, other.z),
        )
    }

    /// The norm (length) of the vector.
    pub fn magnitude(self) -> (r: Fx)
        requires
            self.ok(),
        ensures
            r.ok(),
            r.v() == v3_mag_v(self),
            r.v() >= 0,
    {
        let m2 = self.dot(self);
        proof {
            lemma_v3_dot_self_nonneg(self);
        }
        fixed::sqrt(m2)
    }

    /// Normalize the vector in place, scaling by the inverse square root of
    /// the squared length.
    pub fn normalize(&mut self)
        requires
            old(self).ok(),
        ensures
            final(self).ok(),
            *final(self) == v3_normalize_v(*old(self)),
    {
        let m2 = self.dot(*self);
        if m2.raw >= 1 {
            let inv = fixed::inv_sqrt(m2);
            self.x = fixed::fx_mul(self.x, inv);
            self.y = fixed::fx_mul(self.y, inv);
            self.z = fixed::fx_mul(self.z, inv);
        }
    }

    /// A normalized copy of the vector; agrees with `normalize`.
    pub fn normalized(self) -> (r: Self)
        requires
            self.ok(),
        ensures
            r.ok(),
            r == v3_normalize_v(self),
    {
        let mut copy = self;
        copy.normalize();
        copy
    }

    /// A new vector linearly interpolated toward a target vector.
    pub fn lerp(self, target: Self, t: Fx) -> (r: Self)
        requires
            self.ok(),
            target.ok(),
            t.ok(),
        ensures
            r.ok(),
            r == v3_lerp_v(self, target, t.v()),
    {
        self.add(target.sub(self).mul(t))
    }
}

/// The dot product of two 2-vectors, on raw values.
pub open spec fn v2_dot_v(a: Vec2, b: Vec2) -> int {
    fx_add_v(fx_mul_v(a.x.v(), b.x.v()), fx_mul_v(a.y.v(), b.y.v()))
}

/// Componentwise sum of two 2-vectors.
pub open spec fn v2_add_v(a: Vec2, b: Vec2) -> Vec2 {
    Vec2 {
        x: Fx { raw: fx_add_v(a.x.v(), b.x.v()) as i64 },
        y: Fx { raw: fx_add_v(a.y.v(), b.y.v()) as i64 },
    }
}

/// Componentwise difference of two 2-vectors.
pub open spec fn v2_sub_v(a: Vec2, b: Vec2) -> Vec2 {
    Vec2 {
        x: Fx { raw: fx_sub_v(a.x.v(), b.x.v()) as i64 },
        y: Fx { raw: fx_sub_v(a.y.v(), b.y.v()) as i64 },
    }
}

/// A 2-vector scaled by a fixed-point factor.
pub open spec fn v2_scale_v(a: Vec2, t: int) -> Vec2 {
    Vec2 {
        x: Fx { raw: fx_mul_v(a.x.v(), t) as i64 },
        y: Fx { raw: fx_mul_v(a.y.v(), t) as i64 },
    }
}

/// A 2-vector divided componentwise by a fixed-point scalar.
pub open spec fn v2_div_v(a: Vec2, t: int) -> Vec2 {
    Vec2 {
        x: Fx { raw: fixed::fx_div_v(a.x.v(), t) as i64 },
        y: Fx { raw: fixed::fx_div_v(a.y.v(), t) as i64 },
    }
}

/// The magnitude of a 2-vector, on raw values.
pub open spec fn v2_mag_v(a: Vec2) -> int {
    sqrt_v(v2_dot_v(a, a))
}

/// The normalized copy of a 2-vector; see `v3_normalize_v`.
pub open spec fn v2_normalize_v(a: Vec2) -> Vec2 {
    let m2 = v2_dot_v(a, a);
    if m2 >= 1 {
        v2_scale_v(a, inv_sqrt_v(m2))
    } else {
        a
    }
}

/// Linear interpolation from `a` toward `b` by `t`.
pub open spec fn v2_lerp_v(a: Vec2, b: Vec2, t: int) -> Vec2 {
    v2_add_v(a, v2_scale_v(v2_sub_v(b, a), t))
}

/// The squared length of a 2-vector is never negative.
pub proof fn lemma_v2_dot_self_nonneg(a: Vec2)
    ensures
        v2_dot_v(a, a) >= 0,
{
    lemma_fx_square_nonneg(a.x.v());
    lemma_fx_square_nonneg(a.y.v());
}

impl Vec2 {
    /// Both components lie within the fixed-point range.
    pub open spec fn ok(self) -> bool {
        self.x.ok() && self.y.ok()
    }

    pub fn new(x: Fx, y: Fx) -> (r: Self)
        ensures
            r == (Vec2 { x, y }),
    {
        Vec2 { x, y }
    }

    /// Componentwise saturating sum.
    pub fn add(self, rhs: Self) -> (r: Self)
        requires
            self.ok(),
            rhs.ok(),
        ensures
            r.ok(),
            r == v2_add_v(self, rhs),
    {
        Vec2 { x: fixed::fx_add(self.x, rhs.x), y: fixed::fx_add(self.y, rhs.y) }
    }

    /// Componentwise saturating difference.
    pub fn sub(self, rhs: Self) -> (r: Self)
        requires
            self.ok(),
            rhs.ok(),
        ensures
            r.ok(),
            r == v2_sub_v(self, rhs),
    {
        Vec2 { x: fixed::fx_sub(self.x, rhs.x), y: fixed::fx_sub(self.y, rhs.y) }
    }

    /// The vector scaled by a fixed-point factor.
    pub fn mul(self, rhs: Fx) -> (r: Self)
        requires
            self.ok(),
            rhs.ok(),
        ensures
            r.ok(),
            r == v2_scale_v(self, rhs.v()),
    {
        Vec2 { x: fixed::fx_mul(self.x, rhs), y: fixed::fx_mul(self.y, rhs) }
    }

    /// The vector divided componentwise by a fixed-point scalar.
    pub fn div(self, rhs: Fx) -> (r: Self)
        requires
            self.ok(),
            rhs.ok(),
        ensures
            r.ok(),
            r == v2_div_v(self, rhs.v()),
    {
        Vec2 { x: fixed::fx_div(self.x, rhs), y: fixed::fx_div(self.y, rhs) }
    }

    /// The dot product.
    pub fn dot(self, other: Self) -> (r: Fx)
        requires
            self.ok(),
            other.ok(),
        ensures
            r.ok(),
            r.v() == v2_dot_v(self, other),
    {
        fixed::fx_add(fixed::fx_mul(self.x, other.x), fixed::fx_mul(self.y, other.y))
    }

    /// The norm (length) of the vector.
    pub fn magnitude(self) -> (r: Fx)
        requires
            self.ok(),
        ensures
            r.ok(),
            r.v() == v2_mag_v(self),
            r.v() >= 0,
    {
        let m2 = self.dot(self);
        proof {
            lemma_v2_dot_self_nonneg(self);
        }
        fixed::sqrt(m2)
    }

    /// Normalize the vector in place, scaling by the inverse square root of
    /// the squared length.
    pub fn normalize(&mut self)
        requires
            old(self).ok(),
        ensures
            final(self).ok(),
            *final(self) == v2_normalize_v(*old(self)),
    {
        let m2 = self.dot(*self);
        if m2.raw >= 1 {
            let inv = fixed::inv_sqrt(m2);
            self.x = fixed::fx_mul(self.x, inv);
            self.y = fixed::fx_mul(self.y, inv);
        }
    }

    /// A normalized copy of the vector; agrees with `normalize`.
    pub fn normalized(self) -> (r: Self)
        requires
            self.ok(),
        ensures
            r.ok(),
            r == v2_normalize_v(self),
    {
        let mut copy = self;
        copy.normalize();
        copy
    }

    /// A new vector linearly interpolated toward a target vector.
    pub fn lerp(self, target: Self, t: Fx) -> (r: Self)
        requires
            self.ok(),
            target.ok(),
            t.ok(),
        ensures
            r.ok(),
            r == v2_lerp_v(self, target, t.v()),
    {
        self.add(target.sub(self).mul(t))
    }
}

} // verus!
