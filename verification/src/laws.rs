//! Laws of the group, proved from the addition formulas.
//!
//! Each point is followed by an integer model: four integers that its
//! coordinates are congruent to. The formulas carry models to models, so a law
//! about points comes down to an identity between integer polynomials.

use vstd::prelude::*;
use crate::congruence::congruent;
use crate::element::{
    coeff_d, point_add, point_double, point_eq, point_identity, point_mul, point_neg,
    point_reduced, point_sub, Point,
};
use crate::fields::fq::{
    fq_add, fq_modulus, fq_mul, fq_neg, fq_sub, lemma_fq_add_follows, lemma_fq_equal,
    lemma_fq_mul_follows, lemma_fq_neg_follows, lemma_fq_sub_follows,
};

verus! {

/// Four integers that stand for the coordinates of a point.
pub struct IntPoint {
    pub x: int,
    pub y: int,
    pub t: int,
    pub z: int,
}

/// Whether each coordinate of `p` is congruent to its integer in `m`.
pub open spec fn models(m: IntPoint, p: Point) -> bool {
    let q = fq_modulus() as int;
    &&& congruent(p.x as int, m.x, q)
    &&& congruent(p.y as int, m.y, q)
    &&& congruent(p.t as int, m.t, q)
    &&& congruent(p.z as int, m.z, q)
}

/// The coordinates of a point as integers.
pub open spec fn as_model(p: Point) -> IntPoint {
    IntPoint { x: p.x as int, y: p.y as int, t: p.t as int, z: p.z as int }
}

/// The addition formulas over the integers.
pub open spec fn int_add(p: IntPoint, q: IntPoint) -> IntPoint {
    let e = (p.x + p.y) * (q.x + q.y) - p.x * q.x - p.y * q.y;
    let f = p.z * q.z - coeff_d() * p.t * q.t;
    let g = p.z * q.z + coeff_d() * p.t * q.t;
    let h = p.y * q.y + p.x * q.x;
    IntPoint { x: e * f, y: g * h, t: e * h, z: f * g }
}

/// Negation over the integers.
pub open spec fn int_neg(p: IntPoint) -> IntPoint {
    IntPoint { x: -p.x, y: p.y, t: -p.t, z: p.z }
}

/// The sum of two points is modelled by the sum of their models, and its
/// coordinates are residues.
pub proof fn lemma_add_models(mp: IntPoint, p: Point, mq: IntPoint, q: Point)
    requires
        models(mp, p),
        models(mq, q),
    ensures
        models(int_add(mp, mq), point_add(p, q)),
        point_reduced(point_add(p, q)),
{
    reveal(point_add);
    let m = fq_modulus() as int;
    let a = fq_mul(p.x, q.x);
    let b = fq_mul(p.y, q.y);
    let dt = fq_mul(coeff_d(), p.t);
    let c = fq_mul(dt, q.t);
    let d = fq_mul(p.z, q.z);
    let s1 = fq_add(p.x, p.y);
    let s2 = fq_add(q.x, q.y);
    let pr = fq_mul(s1, s2);
    let e1 = fq_sub(pr, a);
    let e = fq_sub(e1, b);
    let f = fq_sub(d, c);
    let g = fq_add(d, c);
    let h = fq_add(b, a);
    lemma_fq_mul_follows(p.x, q.x, mp.x, mq.x);
    lemma_fq_mul_follows(p.y, q.y, mp.y, mq.y);
    lemma_fq_mul_follows(coeff_d(), p.t, coeff_d() as int, mp.t);
    lemma_fq_mul_follows(dt, q.t, coeff_d() * mp.t, mq.t);
    lemma_fq_mul_follows(p.z, q.z, mp.z, mq.z);
    lemma_fq_add_follows(p.x, p.y, mp.x, mp.y);
    lemma_fq_add_follows(q.x, q.y, mq.x, mq.y);
    lemma_fq_mul_follows(s1, s2, mp.x + mp.y, mq.x + mq.y);
    lemma_fq_sub_follows(pr, a, (mp.x + mp.y) * (mq.x + mq.y), mp.x * mq.x);
    lemma_fq_sub_follows(e1, b, (mp.x + mp.y) * (mq.x + mq.y) - mp.x * mq.x, mp.y * mq.y);
    lemma_fq_sub_follows(d, c, mp.z * mq.z, coeff_d() * mp.t * mq.t);
    lemma_fq_add_follows(d, c, mp.z * mq.z, coeff_d() * mp.t * mq.t);
    lemma_fq_add_follows(b, a, mp.y * mq.y, mp.x * mq.x);
    let ie = (mp.x + mp.y) * (mq.x + mq.y) - mp.x * mq.x - mp.y * mq.y;
    let i_f = mp.z * mq.z - coeff_d() * mp.t * mq.t;
    let ig = mp.z * mq.z + coeff_d() * mp.t * mq.t;
    let ih = mp.y * mq.y + mp.x * mq.x;
    lemma_fq_mul_follows(e, f, ie, i_f);
    lemma_fq_mul_follows(g, h, ig, ih);
    lemma_fq_mul_follows(e, h, ie, ih);
    lemma_fq_mul_follows(f, g, i_f, ig);
}

/// The negative of a point is modelled by the negative of its model.
pub proof fn lemma_neg_models(mp: IntPoint, p: Point)
    requires
        models(mp, p),
    ensures
        models(int_neg(mp), point_neg(p)),
{
    lemma_fq_neg_follows(p.x, mp.x);
    lemma_fq_neg_follows(p.t, mp.t);
}

/// Two points are equal as group elements when their models satisfy
/// `X1 * Y2 = Y1 * X2` up to congruence.
pub proof fn lemma_eq_from_models(ma: IntPoint, a: Point, mb: IntPoint, b: Point)
    requires
        models(ma, a),
        models(mb, b),
        congruent(ma.x * mb.y, ma.y * mb.x, fq_modulus() as int),
    ensures
        point_eq(a, b),
{
    lemma_fq_mul_follows(a.x, b.y, ma.x, mb.y);
    lemma_fq_mul_follows(a.y, b.x, ma.y, mb.x);
    lemma_fq_equal(fq_mul(a.x, b.y), fq_mul(a.y, b.x));
}

/// Two points with residues for coordinates are the same point when their
/// models are congruent coordinate by coordinate.
pub proof fn lemma_same_from_models(ma: IntPoint, a: Point, mb: IntPoint, b: Point)
    requires
        models(ma, a),
        models(mb, b),
        point_reduced(a),
        point_reduced(b),
        congruent(ma.x, mb.x, fq_modulus() as int),
        congruent(ma.y, mb.y, fq_modulus() as int),
        congruent(ma.t, mb.t, fq_modulus() as int),
        congruent(ma.z, mb.z, fq_modulus() as int),
    ensures
        a == b,
{
    lemma_fq_equal(a.x, b.x);
    lemma_fq_equal(a.y, b.y);
    lemma_fq_equal(a.t, b.t);
    lemma_fq_equal(a.z, b.z);
}

/// Addition is commutative: `a + b` and `b + a` have the same coordinates.
pub proof fn lemma_add_commutative(a: Point, b: Point)
    ensures
        point_add(a, b) == point_add(b, a),
{
    let ma = as_model(a);
    let mb = as_model(b);
    lemma_add_models(ma, a, mb, b);
    lemma_add_models(mb, b, ma, a);
    let l = int_add(ma, mb);
    let r = int_add(mb, ma);
    assert(l.x == r.x && l.y == r.y && l.t == r.t && l.z == r.z) by (nonlinear_arith)
        requires
            l == int_add(ma, mb),
            r == int_add(mb, ma),
    ;
    lemma_same_from_models(l, point_add(a, b), r, point_add(b, a));
}

/// The neutral element is neutral: `a + identity` and `identity + a` are equal
/// to `a` as group elements.
pub proof fn lemma_add_identity(a: Point)
    ensures
        point_eq(point_add(a, point_identity()), a),
        point_eq(point_add(point_identity(), a), a),
{
    let ma = as_model(a);
    let mi = as_model(point_identity());
    lemma_add_models(ma, a, mi, point_identity());
    let s = int_add(ma, mi);
    assert(s.x * ma.y == s.y * ma.x) by (nonlinear_arith)
        requires
            s == int_add(ma, mi),
            mi.x == 0,
            mi.y == 1,
            mi.t == 0,
            mi.z == 1,
    ;
    lemma_eq_from_models(s, point_add(a, point_identity()), ma, a);
    lemma_add_commutative(a, point_identity());
}

/// Every element has an inverse: `a + (-a)` is equal to the neutral element as
/// a group element, and its `X` coordinate is zero.
pub proof fn lemma_add_inverse(a: Point)
    ensures
        point_eq(point_add(a, point_neg(a)), point_identity()),
        point_eq(point_sub(a, a), point_identity()),
        point_add(a, point_neg(a)).x == 0,
{
    let ma = as_model(a);
    let mn = int_neg(ma);
    let mi = as_model(point_identity());
    lemma_neg_models(ma, a);
    lemma_add_models(ma, a, mn, point_neg(a));
    let s = int_add(ma, mn);
    assert(s.x == 0) by (nonlinear_arith)
        requires
            s == int_add(ma, mn),
            mn == int_neg(ma),
    ;
    assert(s.x * mi.y == s.y * mi.x) by (nonlinear_arith)
        requires
            s.x == 0,
            mi.x == 0,
    ;
    lemma_eq_from_models(s, point_add(a, point_neg(a)), mi, point_identity());
    vstd::arithmetic::div_mod::lemma_small_mod(0, fq_modulus());
    lemma_fq_equal(point_add(a, point_neg(a)).x, 0);
}

/// Equality of group elements is reflexive and symmetric.
pub proof fn lemma_eq_reflexive_symmetric(a: Point, b: Point)
    ensures
        point_eq(a, a),
        point_eq(a, b) == point_eq(b, a),
{
    crate::fields::fq::lemma_fq_mul_commutative(a.x, a.y);
    crate::fields::fq::lemma_fq_mul_commutative(a.x, b.y);
    crate::fields::fq::lemma_fq_mul_commutative(a.y, b.x);
}

/// Negating twice gives the point back.
pub proof fn lemma_neg_involution(a: Point)
    requires
        point_reduced(a),
    ensures
        point_neg(point_neg(a)) == a,
{
    crate::fields::fq::lemma_fq_neg_involution(a.x);
    crate::fields::fq::lemma_fq_neg_involution(a.t);
}

/// Zero times an element is the neutral element, and one times an element is
/// equal to the element.
pub proof fn lemma_mul_zero_one(a: Point)
    ensures
        point_mul(a, 0) == point_identity(),
        point_eq(point_mul(a, 1), a),
{
    assert(point_mul(a, 1) == point_add(point_double(point_mul(a, 0)), a)) by {
        assert(1nat / 2 == 0);
        reveal_with_fuel(point_mul, 2);
    }
    crate::element::lemma_double_identity();
    lemma_add_identity(a);
}

/// The point of order two, `(0 : -1 : 0 : 1)`, which stands for the same group
/// element as the neutral point.
pub open spec fn point_torsion() -> Point {
    Point { x: 0, y: fq_neg(1), t: 0, z: 1 }
}

/// The other point of the curve that stands for the same group element:
/// `(-X : -Y : T : Z)`.
pub open spec fn point_twin(p: Point) -> Point {
    Point { x: fq_neg(p.x), y: fq_neg(p.y), t: p.t, z: p.z }
}

/// A point with all four coordinates multiplied by one field element, which
/// stands for the same point of the curve.
pub open spec fn point_scale(p: Point, c: nat) -> Point {
    Point { x: fq_mul(p.x, c), y: fq_mul(p.y, c), t: fq_mul(p.t, c), z: fq_mul(p.z, c) }
}

/// Points that differ by the point of order two are equal as group elements:
/// `a + torsion` is equal to `a`, and so is the twin of `a`.
pub proof fn lemma_torsion_equal(a: Point)
    ensures
        point_eq(point_add(a, point_torsion()), a),
        point_eq(point_twin(a), a),
        point_eq(point_torsion(), point_identity()),
{
    let ma = as_model(a);
    let mt = IntPoint { x: 0, y: -1, t: 0, z: 1 };
    lemma_fq_neg_follows(1, 1);
    assert(models(mt, point_torsion()));
    lemma_add_models(ma, a, mt, point_torsion());
    let s = int_add(ma, mt);
    assert(s.x * ma.y == s.y * ma.x) by (nonlinear_arith)
        requires
            s == int_add(ma, mt),
            mt.x == 0,
            mt.y == -1,
            mt.t == 0,
            mt.z == 1,
    ;
    lemma_eq_from_models(s, point_add(a, point_torsion()), ma, a);
    // the twin
    let mw = IntPoint { x: -ma.x, y: -ma.y, t: ma.t, z: ma.z };
    lemma_fq_neg_follows(a.x, ma.x);
    lemma_fq_neg_follows(a.y, ma.y);
    assert(mw.x * ma.y == mw.y * ma.x) by (nonlinear_arith)
        requires
            mw.x == -ma.x,
            mw.y == -ma.y,
    ;
    lemma_eq_from_models(mw, point_twin(a), ma, a);
    // the torsion point itself
    let mi = as_model(point_identity());
    assert(mt.x * mi.y == mt.y * mi.x) by (nonlinear_arith)
        requires
            mt.x == 0,
            mi.x == 0,
    ;
    lemma_eq_from_models(mt, point_torsion(), mi, point_identity());
}

/// Adding the point of order two to a point of the curve gives the twin of the
/// point, with all four coordinates scaled by `Z`.
pub proof fn lemma_torsion_sum_is_twin(a: Point)
    requires
        crate::curve::point_on_curve(a),
    ensures
        point_add(a, point_torsion()) == point_scale(point_twin(a), a.z),
{
    let q = fq_modulus() as int;
    let ma = as_model(a);
    let mt = IntPoint { x: 0, y: -1, t: 0, z: 1 };
    lemma_fq_neg_follows(1, 1);
    lemma_add_models(ma, a, mt, point_torsion());
    let s = int_add(ma, mt);
    let w = point_scale(point_twin(a), a.z);
    lemma_fq_neg_follows(a.x, ma.x);
    lemma_fq_neg_follows(a.y, ma.y);
    lemma_fq_mul_follows(fq_neg(a.x), a.z, -ma.x, ma.z);
    lemma_fq_mul_follows(fq_neg(a.y), a.z, -ma.y, ma.z);
    lemma_fq_mul_follows(a.t, a.z, ma.t, ma.z);
    lemma_fq_mul_follows(a.z, a.z, ma.z, ma.z);
    let mw = IntPoint { x: (-ma.x) * ma.z, y: (-ma.y) * ma.z, t: ma.t * ma.z, z: ma.z * ma.z };
    assert(s.x == mw.x && s.y == mw.y && s.z == mw.z && s.t == ma.x * ma.y) by (nonlinear_arith)
        requires
            s == int_add(ma, mt),
            mt.x == 0,
            mt.y == -1,
            mt.t == 0,
            mt.z == 1,
            mw.x == (-ma.x) * ma.z,
            mw.y == (-ma.y) * ma.z,
            mw.z == ma.z * ma.z,
    ;
    // on the curve, X Y is Z T
    assert(ma.t * ma.z == ma.z * ma.t) by (nonlinear_arith);
    assert(congruent(s.t, mw.t, q));
    lemma_same_from_models(s, point_add(a, point_torsion()), mw, w);
}

/// Scaling the coordinates of a point does not change the group element.
pub proof fn lemma_scale_equal(p: Point, c: nat)
    ensures
        point_eq(point_scale(p, c), p),
{
    let m = as_model(p);
    let ci = c as int;
    let ms = IntPoint { x: m.x * ci, y: m.y * ci, t: m.t * ci, z: m.z * ci };
    lemma_fq_mul_follows(p.x, c, m.x, ci);
    lemma_fq_mul_follows(p.y, c, m.y, ci);
    lemma_fq_mul_follows(p.t, c, m.t, ci);
    lemma_fq_mul_follows(p.z, c, m.z, ci);
    assert(ms.x * m.y == ms.y * m.x) by (nonlinear_arith)
        requires
            ms.x == m.x * ci,
            ms.y == m.y * ci,
    ;
    lemma_eq_from_models(ms, point_scale(p, c), m, p);
}

/// Negation goes through addition: `-(a + b)` has the coordinates of
/// `(-a) + (-b)`.
pub proof fn lemma_neg_distributes(a: Point, b: Point)
    ensures
        point_neg(point_add(a, b)) == point_add(point_neg(a), point_neg(b)),
{
    let ma = as_model(a);
    let mb = as_model(b);
    lemma_add_models(ma, a, mb, b);
    lemma_neg_models(int_add(ma, mb), point_add(a, b));
    lemma_neg_models(ma, a);
    lemma_neg_models(mb, b);
    lemma_add_models(int_neg(ma), point_neg(a), int_neg(mb), point_neg(b));
    let l = int_neg(int_add(ma, mb));
    let r = int_add(int_neg(ma), int_neg(mb));
    let e = (ma.x + ma.y) * (mb.x + mb.y) - ma.x * mb.x - ma.y * mb.y;
    let f = ma.z * mb.z - coeff_d() * ma.t * mb.t;
    let g = ma.z * mb.z + coeff_d() * ma.t * mb.t;
    let h = ma.y * mb.y + ma.x * mb.x;
    let en = (-ma.x + ma.y) * (-mb.x + mb.y) - (-ma.x) * (-mb.x) - ma.y * mb.y;
    let f_n = ma.z * mb.z - coeff_d() * (-ma.t) * (-mb.t);
    let gn = ma.z * mb.z + coeff_d() * (-ma.t) * (-mb.t);
    let hn = ma.y * mb.y + (-ma.x) * (-mb.x);
    crate::polynomial::lemma_product_2x2(ma.x, ma.y, mb.x, mb.y);
    crate::polynomial::lemma_product_2x2(ma.y, ma.x, mb.y, mb.x);
    assert((-ma.x + ma.y) == (ma.y - ma.x) && (-mb.x + mb.y) == (mb.y - mb.x));
    assert((-ma.x) * (-mb.x) == ma.x * mb.x) by (nonlinear_arith);
    assert(coeff_d() * (-ma.t) * (-mb.t) == coeff_d() * ma.t * mb.t) by (nonlinear_arith);
    crate::polynomial::lemma_product_3(ma.y, mb.x, 1);
    crate::polynomial::lemma_product_3(ma.x, mb.y, 1);
    assert(en == -e);
    assert(f_n == f && gn == g && hn == h);
    assert((-e) * f == -(e * f)) by (nonlinear_arith);
    assert((-e) * h == -(e * h)) by (nonlinear_arith);
    assert(l.x == r.x && l.y == r.y && l.t == r.t && l.z == r.z);
    let q = fq_modulus();
    assert(point_reduced(point_neg(point_add(a, b)))) by {
        lemma_fq_neg_follows(point_add(a, b).x, int_add(ma, mb).x);
        lemma_fq_neg_follows(point_add(a, b).t, int_add(ma, mb).t);
    }
    lemma_same_from_models(
        l,
        point_neg(point_add(a, b)),
        r,
        point_add(point_neg(a), point_neg(b)),
    );
}

} // verus!
