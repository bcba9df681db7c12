//! Checks of the vector library: componentwise arithmetic, dot products,
//! magnitudes, normalization and interpolation.

use raymarch::fixed::{Fx, FX_ONE};
use raymarch::vec::{Vec2, Vec3};

fn fx(units: i64) -> Fx {
    Fx { raw: units * FX_ONE }
}

fn v3(x: i64, y: i64, z: i64) -> Vec3 {
    Vec3::new(fx(x), fx(y), fx(z))
}

#[test]
fn componentwise_arithmetic() {
    let a = v3(1, 2, 3);
    let b = v3(4, -5, 6);
    let s = a.add(b);
    assert_eq!((s.x.raw, s.y.raw, s.z.raw), (5 * FX_ONE, -3 * FX_ONE, 9 * FX_ONE));
    let d = a.sub(b);
    assert_eq!((d.x.raw, d.y.raw, d.z.raw), (-3 * FX_ONE, 7 * FX_ONE, -3 * FX_ONE));
    let m = a.mul(fx(2));
    assert_eq!((m.x.raw, m.y.raw, m.z.raw), (2 * FX_ONE, 4 * FX_ONE, 6 * FX_ONE));
    let q = b.div(fx(2));
    assert_eq!((q.x.raw, q.y.raw, q.z.raw), (2 * FX_ONE, -(5 * FX_ONE / 2), 3 * FX_ONE));
}

#[test]
fn add_assign_matches_add() {
    let mut a = v3(1, 2, 3);
    let b = v3(4, 5, 6);
    let s = a.add(b);
    a.add_assign(b);
    assert_eq!((a.x.raw, a.y.raw, a.z.raw), (s.x.raw, s.y.raw, s.z.raw));
}

#[test]
fn dot_and_magnitude() {
    let a = v3(3, 4, 0);
    assert_eq!(a.dot(a).raw, 25 * FX_ONE);
    assert_eq!(a.magnitude().raw, 5 * FX_ONE);
    assert_eq!(v3(0, 0, 0).magnitude().raw, 0);
    let b = v3(1, 2, 3);
    let c = v3(4, -5, 6);
    assert_eq!(b.dot(c).raw, (4 - 10 + 18) * FX_ONE);
}

#[test]
fn normalize_makes_a_unit_vector() {
    let cases = [v3(3, 4, 0), v3(1, 1, 1), v3(-7, 2, 9), v3(0, 0, 1), v3(12, -5, 0)];
    for v in cases {
        let mut w = v;
        w.normalize();
        let mag = w.magnitude().raw;
        assert!(
            (mag - FX_ONE).abs() <= FX_ONE / 100,
            "magnitude off by over 1%: {mag} for ({}, {}, {})",
            v.x.raw,
            v.y.raw,
            v.z.raw
        );
    }
}

#[test]
fn normalized_agrees_with_normalize() {
    let v = v3(-7, 2, 9);
    let mut w = v;
    w.normalize();
    let u = v.normalized();
    assert_eq!((u.x.raw, u.y.raw, u.z.raw), (w.x.raw, w.y.raw, w.z.raw));
}

#[test]
fn normalize_leaves_a_vanishing_vector_alone() {
    // A squared length that rounds to zero in the format stays untouched.
    let mut v = Vec3::new(Fx { raw: 1 }, Fx { raw: 0 }, Fx { raw: 0 });
    v.normalize();
    assert_eq!((v.x.raw, v.y.raw, v.z.raw), (1, 0, 0));
}

#[test]
fn lerp_hits_both_ends() {
    let a = v3(1, 2, 3);
    let b = v3(5, -6, 7);
    let at0 = a.lerp(b, Fx { raw: 0 });
    assert_eq!((at0.x.raw, at0.y.raw, at0.z.raw), (a.x.raw, a.y.raw, a.z.raw));
    let at1 = a.lerp(b, fx(1));
    assert_eq!((at1.x.raw, at1.y.raw, at1.z.raw), (b.x.raw, b.y.raw, b.z.raw));
    let mid = a.lerp(b, Fx { raw: FX_ONE / 2 });
    assert_eq!(mid.x.raw, 3 * FX_ONE);
}

#[test]
fn vec2_mirrors_vec3() {
    let a = Vec2::new(fx(3), fx(4));
    assert_eq!(a.dot(a).raw, 25 * FX_ONE);
    assert_eq!(a.magnitude().raw, 5 * FX_ONE);
    let mut u = a;
    u.normalize();
    let mag = u.magnitude().raw;
    assert!((mag - FX_ONE).abs() <= FX_ONE / 100);
    assert_eq!(u.x.raw, a.normalized().x.raw);
    let s = a.add(Vec2::new(fx(1), fx(-1)));
    assert_eq!((s.x.raw, s.y.raw), (4 * FX_ONE, 3 * FX_ONE));
    let d = a.sub(Vec2::new(fx(1), fx(1)));
    assert_eq!((d.x.raw, d.y.raw), (2 * FX_ONE, 3 * FX_ONE));
    let m = a.mul(fx(2));
    assert_eq!((m.x.raw, m.y.raw), (6 * FX_ONE, 8 * FX_ONE));
    let q = a.div(fx(2));
    assert_eq!((q.x.raw, q.y.raw), (3 * FX_ONE / 2, 2 * FX_ONE));
    let l = a.lerp(Vec2::new(fx(5), fx(6)), fx(1));
    assert_eq!((l.x.raw, l.y.raw), (5 * FX_ONE, 6 * FX_ONE));
}
