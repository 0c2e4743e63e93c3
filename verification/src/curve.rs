//! The curve equation, and the proof that the addition formulas stay on the
//! curve.
//!
//! In extended coordinates a point lies on the curve when
//! `Y^2 - X^2 = Z^2 + d T^2` and `X Y = Z T`, both modulo the field's prime.

use vstd::prelude::*;
use vstd::arithmetic::div_mod::{lemma_fundamental_div_mod_converse, lemma_small_mod};
use crate::congruence::{congruent, lemma_congruent_add, lemma_congruent_mul, lemma_congruent_sub};
use crate::element::{
    coeff_d, point_add, point_double, point_generator, point_identity, point_mul, point_neg, Point,
};
use crate::fields::fq::fq_modulus;
use crate::laws::{as_model, int_add, int_neg, lemma_add_models, lemma_neg_models, models, IntPoint};
use crate::polynomial::{
    lemma_distribute, lemma_mixed_sums, lemma_product_2x2, lemma_product_3, lemma_swap_inner,
};

verus! {

/// Whether four integers satisfy the two equations of the curve modulo the
/// field's prime.
pub open spec fn int_on_curve(p: IntPoint) -> bool {
    let q = fq_modulus() as int;
    &&& congruent(p.y * p.y - p.x * p.x, p.z * p.z + coeff_d() * (p.t * p.t), q)
    &&& congruent(p.x * p.y, p.z * p.t, q)
}

/// Whether a point lies on the curve.
pub open spec fn point_on_curve(p: Point) -> bool {
    int_on_curve(as_model(p))
}

/// Integers that are congruent to integers on the curve are on the curve.
pub proof fn lemma_on_curve_congruent(a: IntPoint, b: IntPoint)
    requires
        int_on_curve(a),
        congruent(a.x, b.x, fq_modulus() as int),
        congruent(a.y, b.y, fq_modulus() as int),
        congruent(a.t, b.t, fq_modulus() as int),
        congruent(a.z, b.z, fq_modulus() as int),
    ensures
        int_on_curve(b),
{
    let q = fq_modulus() as int;
    let d = coeff_d() as int;
    lemma_congruent_mul(a.x, b.x, a.x, b.x, q);
    lemma_congruent_mul(a.y, b.y, a.y, b.y, q);
    lemma_congruent_mul(a.z, b.z, a.z, b.z, q);
    lemma_congruent_mul(a.t, b.t, a.t, b.t, q);
    lemma_congruent_mul(d, d, a.t * a.t, b.t * b.t, q);
    lemma_congruent_sub(a.y * a.y, b.y * b.y, a.x * a.x, b.x * b.x, q);
    lemma_congruent_add(a.z * a.z, b.z * b.z, d * (a.t * a.t), d * (b.t * b.t), q);
    lemma_congruent_mul(a.x, b.x, a.y, b.y, q);
    lemma_congruent_mul(a.z, b.z, a.t, b.t, q);
}

/// A point is on the curve when a model of it is.
pub proof fn lemma_on_curve_from_model(m: IntPoint, p: Point)
    requires
        models(m, p),
        int_on_curve(m),
    ensures
        point_on_curve(p),
{
    lemma_on_curve_congruent(m, as_model(p));
}

/// What the curve equation of a sum comes down to, up to the factor `d`: a
/// polynomial in `a = Y^2 - X^2` and `r = X Y` of the two points (or in what
/// these are congruent to on the curve) and in two mixed terms `v` and `w`.
pub open spec fn residual(a1: int, a2: int, r1: int, r2: int, v: int, w: int, d: int) -> int {
    4 * (d * ((r1 * r2) * (r1 * r2))) + (r2 * r2) * (a1 * a1 - 2 * (d * (r1 * r1))) + (r1 * r1) * (
    a2 * a2 - 2 * (d * (r2 * r2))) + 2 * ((r1 * r2) * v) - w * w
}

/// The residual respects congruence in its first four arguments.
proof fn lemma_residual_congruent(
    a1: int,
    b1: int,
    a2: int,
    b2: int,
    r1: int,
    s1: int,
    r2: int,
    s2: int,
    v: int,
    w: int,
    d: int,
    m: int,
)
    requires
        m > 0,
        congruent(a1, b1, m),
        congruent(a2, b2, m),
        congruent(r1, s1, m),
        congruent(r2, s2, m),
    ensures
        congruent(residual(a1, a2, r1, r2, v, w, d), residual(b1, b2, s1, s2, v, w, d), m),
{
    lemma_congruent_mul(r1, s1, r2, s2, m);
    lemma_congruent_mul(r1 * r2, s1 * s2, r1 * r2, s1 * s2, m);
    lemma_congruent_mul(d, d, (r1 * r2) * (r1 * r2), (s1 * s2) * (s1 * s2), m);
    lemma_congruent_mul(4, 4, d * ((r1 * r2) * (r1 * r2)), d * ((s1 * s2) * (s1 * s2)), m);
    lemma_congruent_mul(r1, s1, r1, s1, m);
    lemma_congruent_mul(r2, s2, r2, s2, m);
    lemma_congruent_mul(a1, b1, a1, b1, m);
    lemma_congruent_mul(a2, b2, a2, b2, m);
    lemma_congruent_mul(d, d, r1 * r1, s1 * s1, m);
    lemma_congruent_mul(d, d, r2 * r2, s2 * s2, m);
    lemma_congruent_mul(2, 2, d * (r1 * r1), d * (s1 * s1), m);
    lemma_congruent_mul(2, 2, d * (r2 * r2), d * (s2 * s2), m);
    lemma_congruent_sub(a1 * a1, b1 * b1, 2 * (d * (r1 * r1)), 2 * (d * (s1 * s1)), m);
    lemma_congruent_sub(a2 * a2, b2 * b2, 2 * (d * (r2 * r2)), 2 * (d * (s2 * s2)), m);
    lemma_congruent_mul(
        r2 * r2,
        s2 * s2,
        a1 * a1 - 2 * (d * (r1 * r1)),
        b1 * b1 - 2 * (d * (s1 * s1)),
        m,
    );
    lemma_congruent_mul(
        r1 * r1,
        s1 * s1,
        a2 * a2 - 2 * (d * (r2 * r2)),
        b2 * b2 - 2 * (d * (s2 * s2)),
        m,
    );
    lemma_congruent_mul(r1 * r2, s1 * s2, v, v, m);
    lemma_congruent_mul(2, 2, (r1 * r2) * v, (s1 * s2) * v, m);
    let t1a = 4 * (d * ((r1 * r2) * (r1 * r2)));
    let t1b = 4 * (d * ((s1 * s2) * (s1 * s2)));
    let t2a = (r2 * r2) * (a1 * a1 - 2 * (d * (r1 * r1)));
    let t2b = (s2 * s2) * (b1 * b1 - 2 * (d * (s1 * s1)));
    let t3a = (r1 * r1) * (a2 * a2 - 2 * (d * (r2 * r2)));
    let t3b = (s1 * s1) * (b2 * b2 - 2 * (d * (s2 * s2)));
    let t4a = 2 * ((r1 * r2) * v);
    let t4b = 2 * ((s1 * s2) * v);
    lemma_congruent_add(t1a, t1b, t2a, t2b, m);
    lemma_congruent_add(t1a + t2a, t1b + t2b, t3a, t3b, m);
    lemma_congruent_add(t1a + t2a + t3a, t1b + t2b + t3b, t4a, t4b, m);
    lemma_congruent_sub(t1a + t2a + t3a + t4a, t1b + t2b + t3b + t4b, w * w, w * w, m);
}

/// On the `X` and `Y` coordinates themselves the residual vanishes.
proof fn lemma_residual_vanishes(x1: int, y1: int, x2: int, y2: int, d: int)
    ensures
        residual(
            y1 * y1 - x1 * x1,
            y2 * y2 - x2 * x2,
            x1 * y1,
            x2 * y2,
            (x1 * x1 + y1 * y1) * (x2 * x2 + y2 * y2) + 4 * ((x1 * y1) * (x2 * y2)),
            (x1 * y1) * (x2 * x2 + y2 * y2) + (x2 * y2) * (x1 * x1 + y1 * y1),
            d,
        ) == 0,
{
    let p1 = x1 * y1;
    let p2 = x2 * y2;
    let xx1 = x1 * x1;
    let yy1 = y1 * y1;
    let xx2 = x2 * x2;
    let yy2 = y2 * y2;
    let s1 = xx1 + yy1;
    let s2 = xx2 + yy2;
    let a1 = yy1 - xx1;
    let a2 = yy2 - xx2;
    let v = s1 * s2 + 4 * (p1 * p2);
    let w = p1 * s2 + p2 * s1;
    let pp = p1 * p2;
    let sq1 = p1 * p1;
    let sq2 = p2 * p2;
    // squares of the differences and of the sums
    lemma_product_2x2(yy1, xx1, yy1, xx1);
    lemma_product_2x2(xx1, yy1, xx1, yy1);
    lemma_product_2x2(yy2, xx2, yy2, xx2);
    lemma_product_2x2(xx2, yy2, xx2, yy2);
    lemma_swap_inner(x1, x1, y1, y1);
    lemma_swap_inner(x2, x2, y2, y2);
    lemma_product_3(xx1, yy1, 1);
    lemma_product_3(xx2, yy2, 1);
    assert(a1 * a1 == s1 * s1 - 4 * sq1);
    assert(a2 * a2 == s2 * s2 - 4 * sq2);
    // the square of w
    lemma_product_2x2(p1 * s2, p2 * s1, p1 * s2, p2 * s1);
    lemma_swap_inner(p1, s2, p1, s2);
    lemma_swap_inner(p2, s1, p2, s1);
    lemma_swap_inner(p1, s2, p2, s1);
    lemma_swap_inner(p2, s1, p1, s2);
    lemma_product_3(s2, s1, 1);
    let ss = s1 * s2;
    assert(w * w == sq1 * (s2 * s2) + 2 * (pp * ss) + sq2 * (s1 * s1));
    lemma_swap_inner(p1, p2, p1, p2);
    assert(pp * pp == sq1 * sq2);
    lemma_distribute(pp, ss, 4 * pp);
    assert(pp * (4 * pp) == 4 * (pp * pp)) by (nonlinear_arith);
    assert(pp * v == pp * ss + 4 * (pp * pp));
    let b1 = s1 * s1;
    let b2 = s2 * s2;
    let aa1 = a1 * a1;
    let aa2 = a2 * a2;
    let ww = w * w;
    let pv = pp * v;
    let ppss = pp * ss;
    let ppsq = pp * pp;
    assert(4 * (d * ppsq) + sq2 * (aa1 - 2 * (d * sq1)) + sq1 * (aa2 - 2 * (d * sq2)) + 2 * pv - ww
        == 0) by (nonlinear_arith)
        requires
            ppsq == sq1 * sq2,
            aa1 == b1 - 4 * sq1,
            aa2 == b2 - 4 * sq2,
            pv == ppss + 4 * ppsq,
            ww == sq1 * b2 + 2 * ppss + sq2 * b1,
    ;
}

/// The part of the sum's equation that holds the `Z` and `T` coordinates,
/// once `Y^2 - X^2` of each point has given way to `Z^2 + d T^2`, is `d` times
/// the residual on `Z^2 + d T^2` and `Z T`.
proof fn lemma_zt_part(z1: int, t1: int, z2: int, t2: int, d: int, v: int, w: int)
    ensures
        ({
            let b1 = z1 * z1 + d * (t1 * t1);
            let b2 = z2 * z2 + d * (t2 * t2);
            let u = z1 * z2;
            let wv = d * t1 * t2;
            let c = u * u + wv * wv;
            let k = 2 * (u * wv);
            c * (b1 * b2) + k * v - (c * c - k * k) - d * (w * w) == d * residual(
                b1,
                b2,
                z1 * t1,
                z2 * t2,
                v,
                w,
                d,
            )
        }),
{
    let zz1 = z1 * z1;
    let tt1 = t1 * t1;
    let zz2 = z2 * z2;
    let tt2 = t2 * t2;
    let d1 = d * tt1;
    let d2 = d * tt2;
    let b1 = zz1 + d1;
    let b2 = zz2 + d2;
    let u = z1 * z2;
    let wv = d * t1 * t2;
    let uu = u * u;
    let ww = wv * wv;
    let c = uu + ww;
    let k = 2 * (u * wv);
    let q1 = z1 * t1;
    let q2 = z2 * t2;
    let qq = q1 * q2;
    let dd = d * d;
    // the squares of u and of wv
    lemma_swap_inner(z1, z2, z1, z2);
    assert(uu == zz1 * zz2);
    lemma_swap_inner(d * t1, t2, d * t1, t2);
    lemma_swap_inner(d, t1, d, t1);
    lemma_swap_inner(d, tt1, d, tt2);
    lemma_product_3(dd, tt1, tt2);
    assert(ww == d1 * d2);
    // the product of b1 and b2 is c and a mixed part
    lemma_product_2x2(zz1, d1, zz2, d2);
    let km = zz1 * d2 + d1 * zz2;
    assert(b1 * b2 == c + km);
    lemma_distribute(c, c, km);
    assert(c * (b1 * b2) - c * c == c * km);
    // c times the mixed part, by the product of two mixed sums
    lemma_mixed_sums(zz1, d1, d2, zz2);
    let n1 = zz1 * zz1 + d1 * d1;
    let n2 = d2 * d2 + zz2 * zz2;
    assert(c * km == (zz1 * d1) * n2 + (d2 * zz2) * n1);
    // the squares of b1 and b2
    lemma_product_2x2(zz1, d1, zz1, d1);
    lemma_product_2x2(zz2, d2, zz2, d2);
    lemma_product_3(zz1, d1, 1);
    lemma_product_3(zz2, d2, 1);
    lemma_product_3(zz1, d, tt1);
    lemma_product_3(zz2, d, tt2);
    lemma_swap_inner(z1, z1, t1, t1);
    lemma_swap_inner(z2, z2, t2, t2);
    let r1 = d * (q1 * q1);
    let r2 = d * (q2 * q2);
    assert(zz1 * d1 == r1) by {
        lemma_product_3(d, zz1, tt1);
    }
    assert(d2 * zz2 == r2) by {
        lemma_product_3(d, zz2, tt2);
    }
    assert(b1 * b1 - 2 * r1 == n1);
    assert(b2 * b2 - 2 * r2 == n2);
    // the terms that hold u * wv
    assert(u * wv == d * qq) by (nonlinear_arith)
        requires
            u == z1 * z2,
            wv == d * t1 * t2,
            qq == (z1 * t1) * (z2 * t2),
    ;
    let dq = d * qq;
    lemma_swap_inner(d, qq, d, qq);
    lemma_product_3(d, d, qq * qq);
    assert(dq * dq == d * (d * (qq * qq)));
    assert(k * k == 4 * (dq * dq)) by (nonlinear_arith)
        requires
            k == 2 * dq,
    ;
    lemma_product_3(d, qq, v);
    assert(k * v == 2 * (d * (qq * v))) by (nonlinear_arith)
        requires
            k == 2 * dq,
            dq * v == d * (qq * v),
    ;
    // d times the residual, term by term
    let e1 = 4 * (d * (qq * qq));
    let e2 = (q2 * q2) * (b1 * b1 - 2 * r1);
    let e3 = (q1 * q1) * (b2 * b2 - 2 * r2);
    let e4 = 2 * (qq * v);
    let e5 = w * w;
    assert(residual(b1, b2, q1, q2, v, w, d) == e1 + e2 + e3 + e4 - e5);
    assert(d * (e1 + e2 + e3 + e4 - e5) == d * e1 + d * e2 + d * e3 + d * e4 - d * e5)
        by (nonlinear_arith);
    assert(d * e1 == 4 * (d * (d * (qq * qq)))) by (nonlinear_arith)
        requires
            e1 == 4 * (d * (qq * qq)),
    ;
    lemma_product_3(d, q2 * q2, n1);
    lemma_product_3(d, q1 * q1, n2);
    assert(d * e2 == r2 * n1);
    assert(d * e3 == r1 * n2);
    assert(d * e4 == 2 * (d * (qq * v))) by (nonlinear_arith)
        requires
            e4 == 2 * (qq * v),
    ;
}

/// The first curve equation of a sum, with both sides on one side, written in
/// the squares and products of the coordinates of the two points.
proof fn lemma_sum_equation(p: IntPoint, q: IntPoint)
    ensures
        ({
            let d = coeff_d() as int;
            let s = int_add(p, q);
            let u = p.z * q.z;
            let wv = d * p.t * q.t;
            let c = u * u + wv * wv;
            let k = 2 * (u * wv);
            let a1 = p.y * p.y - p.x * p.x;
            let a2 = q.y * q.y - q.x * q.x;
            let v = (p.x * p.x + p.y * p.y) * (q.x * q.x + q.y * q.y) + 4 * ((p.x * p.y) * (q.x
                * q.y));
            let w = (p.x * p.y) * (q.x * q.x + q.y * q.y) + (q.x * q.y) * (p.x * p.x + p.y * p.y);
            &&& s.y * s.y - s.x * s.x - (s.z * s.z + d * (s.t * s.t)) == c * (a1 * a2) + k * v - (c
                * c - k * k) - d * (w * w)
            &&& s.x * s.y == s.z * s.t
        }),
{
    let d = coeff_d() as int;
    let s = int_add(p, q);
    let u = p.z * q.z;
    let wv = d * p.t * q.t;
    let e = p.x * q.y + p.y * q.x;
    let h = p.y * q.y + p.x * q.x;
    let f = u - wv;
    let g = u + wv;
    lemma_product_2x2(p.x, p.y, q.x, q.y);
    assert((p.x + p.y) * (q.x + q.y) - p.x * q.x - p.y * q.y == e);
    assert(s.x == e * f && s.y == g * h && s.t == e * h && s.z == f * g);
    lemma_mixed_sums(p.x, p.y, q.x, q.y);
    let ee = e * e;
    let hh = h * h;
    let ff = f * f;
    let gg = g * g;
    let uu = u * u;
    let ww = wv * wv;
    let uw = u * wv;
    lemma_swap_inner(g, h, g, h);
    lemma_swap_inner(e, f, e, f);
    lemma_swap_inner(f, g, f, g);
    lemma_product_2x2(u, wv, u, wv);
    lemma_product_3(u, wv, 1);
    let c = uu + ww;
    let k = 2 * uw;
    assert(gg == c + k);
    assert(ff == c - k);
    assert(gg * hh - ee * ff == c * (hh - ee) + k * (hh + ee)) by (nonlinear_arith)
        requires
            gg == c + k,
            ff == c - k,
    ;
    assert(ff * gg == c * c - k * k) by (nonlinear_arith)
        requires
            gg == c + k,
            ff == c - k,
    ;
    assert((s.x * s.y == s.z * s.t)) by (nonlinear_arith)
        requires
            s.x == e * f,
            s.y == g * h,
            s.t == e * h,
            s.z == f * g,
    ;
}

/// The sum of two points on the curve is on the curve, for the integers that
/// model them.
pub proof fn lemma_int_add_on_curve(p: IntPoint, q: IntPoint)
    requires
        int_on_curve(p),
        int_on_curve(q),
    ensures
        int_on_curve(int_add(p, q)),
{
    let m = fq_modulus() as int;
    let d = coeff_d() as int;
    let s = int_add(p, q);
    let u = p.z * q.z;
    let wv = d * p.t * q.t;
    let c = u * u + wv * wv;
    let k = 2 * (u * wv);
    let a1 = p.y * p.y - p.x * p.x;
    let a2 = q.y * q.y - q.x * q.x;
    let b1 = p.z * p.z + d * (p.t * p.t);
    let b2 = q.z * q.z + d * (q.t * q.t);
    let v = (p.x * p.x + p.y * p.y) * (q.x * q.x + q.y * q.y) + 4 * ((p.x * p.y) * (q.x * q.y));
    let w = (p.x * p.y) * (q.x * q.x + q.y * q.y) + (q.x * q.y) * (p.x * p.x + p.y * p.y);
    let rest = k * v - (c * c - k * k) - d * (w * w);
    let lhs = s.y * s.y - s.x * s.x;
    let rhs = s.z * s.z + d * (s.t * s.t);
    lemma_sum_equation(p, q);
    assert(lhs - rhs == c * (a1 * a2) + rest);
    // on the curve, Y^2 - X^2 gives way to Z^2 + d T^2
    lemma_congruent_mul(a1, b1, a2, b2, m);
    lemma_congruent_mul(c, c, a1 * a2, b1 * b2, m);
    lemma_congruent_add(c * (a1 * a2), c * (b1 * b2), rest, rest, m);
    lemma_zt_part(p.z, p.t, q.z, q.t, d, v, w);
    let res_zt = residual(b1, b2, p.z * p.t, q.z * q.t, v, w, d);
    let res_xy = residual(a1, a2, p.x * p.y, q.x * q.y, v, w, d);
    assert(c * (b1 * b2) + rest == d * res_zt);
    // and Z T gives way to X Y
    lemma_residual_congruent(b1, a1, b2, a2, p.z * p.t, p.x * p.y, q.z * q.t, q.x * q.y, v, w, d, m);
    lemma_congruent_mul(d, d, res_zt, res_xy, m);
    lemma_residual_vanishes(p.x, p.y, q.x, q.y, d);
    assert(d * res_xy == 0) by (nonlinear_arith)
        requires
            res_xy == 0,
    ;
    assert(congruent(lhs - rhs, 0, m));
    lemma_congruent_add(lhs - rhs, 0, rhs, rhs, m);
}

/// The sum of two points on the curve is on the curve.
pub proof fn lemma_add_on_curve(p: Point, q: Point)
    requires
        point_on_curve(p),
        point_on_curve(q),
    ensures
        point_on_curve(point_add(p, q)),
{
    lemma_add_models(as_model(p), p, as_model(q), q);
    lemma_int_add_on_curve(as_model(p), as_model(q));
    lemma_on_curve_from_model(int_add(as_model(p), as_model(q)), point_add(p, q));
}

/// The negative of a point on the curve is on the curve.
pub proof fn lemma_neg_on_curve(p: Point)
    requires
        point_on_curve(p),
    ensures
        point_on_curve(point_neg(p)),
{
    let m = as_model(p);
    let n = int_neg(m);
    lemma_neg_models(m, p);
    assert((-m.x) * (-m.x) == m.x * m.x) by (nonlinear_arith);
    assert((-m.t) * (-m.t) == m.t * m.t) by (nonlinear_arith);
    assert((-m.x) * m.y == -(m.x * m.y)) by (nonlinear_arith);
    assert(m.z * (-m.t) == -(m.z * m.t)) by (nonlinear_arith);
    lemma_congruent_sub(0, 0, m.x * m.y, m.z * m.t, fq_modulus() as int);
    lemma_on_curve_from_model(n, point_neg(p));
}

/// The neutral point is on the curve.
pub proof fn lemma_identity_on_curve()
    ensures
        point_on_curve(point_identity()),
{
    let m = as_model(point_identity());
    assert(m.x == 0 && m.y == 1 && m.t == 0 && m.z == 1);
    assert(m.y * m.y - m.x * m.x == 1) by (nonlinear_arith)
        requires
            m.x == 0,
            m.y == 1,
    ;
    assert(m.z * m.z + coeff_d() * (m.t * m.t) == 1) by (nonlinear_arith)
        requires
            m.t == 0,
            m.z == 1,
    ;
    assert(m.x * m.y == 0 && m.z * m.t == 0) by (nonlinear_arith)
        requires
            m.x == 0,
            m.t == 0,
    ;
}

/// Four zero coordinates satisfy the equations of the curve, which have no
/// constant term in extended coordinates.
pub proof fn lemma_zero_coordinates_on_curve()
    ensures
        point_on_curve(Point { x: 0, y: 0, t: 0, z: 0 }),
{
    let m = as_model(Point { x: 0, y: 0, t: 0, z: 0 });
    assert(m.y * m.y - m.x * m.x == 0) by (nonlinear_arith)
        requires
            m.x == 0,
            m.y == 0,
    ;
    assert(m.z * m.z + coeff_d() * (m.t * m.t) == 0) by (nonlinear_arith)
        requires
            m.t == 0,
            m.z == 0,
    ;
    assert(m.x * m.y == 0 && m.z * m.t == 0) by (nonlinear_arith)
        requires
            m.x == 0,
            m.z == 0,
    ;
}

/// The generator is on the curve.
pub proof fn lemma_generator_on_curve()
    ensures
        point_on_curve(point_generator()),
{
    let m = as_model(point_generator());
    let q = fq_modulus() as int;
    let r1 = 0x0175_56e6_1d55_fbbc_8db9_8c5d_c735_8087_2a2a_54a6_611c_07df_d47e_1e8a_c1cc_155bint;
    let k1 = 0x032d_36e2_b33d_156d_6708_b535_5aec_2386_85f9_f874_2a15_25fa_f411_a9b0_ca09_c0acint;
    let k2 =
        0x00b7_a291_2710_81de_5687_05df_1020_83c6_70a9_98fc_44df_b0bc_f2fa_1048_97a1_52db_bdabint;
    let k3 = 0x07de_81a6_4256_adc2_3803_ee97_578a_36a8_41f8_2cca_8342_55ab_605c_86af_527f_f6edint;
    let lhs = m.y * m.y - m.x * m.x;
    let rhs = m.z * m.z + coeff_d() * (m.t * m.t);
    assert(lhs == k1 * q + r1);
    assert(rhs == k2 * q + r1);
    assert(m.x * m.y == k3 * q + m.t);
    assert(m.z * m.t == m.t);
    lemma_fundamental_div_mod_converse(lhs, q, k1, r1);
    lemma_fundamental_div_mod_converse(rhs, q, k2, r1);
    lemma_fundamental_div_mod_converse(m.x * m.y, q, k3, m.t);
    lemma_small_mod(m.t as nat, q as nat);
}

/// Every multiple of a point of the curve is on the curve.
pub proof fn lemma_mul_on_curve(p: Point, n: nat)
    requires
        point_on_curve(p),
    ensures
        point_on_curve(point_mul(p, n)),
    decreases n,
{
    if n == 0 {
        lemma_identity_on_curve();
    } else {
        lemma_mul_on_curve(p, n / 2);
        let half = point_mul(p, n / 2);
        lemma_add_on_curve(half, half);
        lemma_add_on_curve(point_double(half), p);
    }
}

} // verus!
