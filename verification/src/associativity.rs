//! The proof that addition is associative.
//!
//! For points `P1`, `P2`, `P3` of the curve, `(P1 + P2) + P3` and
//! `P1 + (P2 + P3)` are equal as group elements: `X_L Y_R = Y_L X_R`. In the
//! notation of the addition formulas, `X = E F`, `Y = G H`, so it is enough
//! that `E_L G_R = E_R G_L` and `H_L F_R = H_R F_L`: the two sums have the same
//! affine `x` and the same affine `y`.
//!
//! Both equations come out of identities between the coordinates `x` and `y`
//! alone, once the curve equations have moved every `Z T` to `X Y` and every
//! `d T^2` to `Y^2 - X^2 - Z^2`.

use vstd::prelude::*;
use crate::congruence::{congruent, lemma_congruent_add, lemma_congruent_mul, lemma_congruent_sub};
use crate::curve::{int_on_curve, point_on_curve};
use crate::element::{coeff_d, point_add, point_eq, Point};
use crate::fields::fq::fq_modulus;
use crate::laws::{as_model, int_add, lemma_add_models, lemma_eq_from_models, IntPoint};
use crate::polynomial::{lemma_distribute, lemma_product_2x2, lemma_product_3, lemma_swap_inner};

verus! {

/// The products of two coordinates of one point and the sums of two products
/// of coordinates of two points, which the proof is written in.
pub struct Pair {
    /// `xa ya`
    pub pa: int,
    /// `xb yb`
    pub pb: int,
    /// `xa^2 + ya^2`
    pub sa: int,
    /// `xb^2 + yb^2`
    pub sb: int,
    /// `ya^2 - xa^2`
    pub aa: int,
    /// `yb^2 - xb^2`
    pub ab: int,
    /// `xa yb + ya xb`
    pub e: int,
    /// `ya yb + xa xb`
    pub h: int,
    /// `xa xb - ya yb`
    pub m: int,
    /// `ya xb - xa yb`
    pub n: int,
}

/// The quantities of a pair of points, from their `x` and `y`.
pub open spec fn pair_of(xa: int, ya: int, xb: int, yb: int) -> Pair {
    Pair {
        pa: xa * ya,
        pb: xb * yb,
        sa: xa * xa + ya * ya,
        sb: xb * xb + yb * yb,
        aa: ya * ya - xa * xa,
        ab: yb * yb - xb * xb,
        e: xa * yb + ya * xb,
        h: ya * yb + xa * xb,
        m: xa * xb - ya * yb,
        n: ya * xb - xa * yb,
    }
}

/// Four product formulas for a pair of points.
pub proof fn lemma_pair_formulas(xa: int, ya: int, xb: int, yb: int)
    ensures
        ({
            let k = pair_of(xa, ya, xb, yb);
            &&& k.pa * k.sb + k.pb * k.sa == k.e * k.h
            &&& k.pa * k.ab + k.pb * k.aa == -(k.e * k.m)
            &&& k.pa * k.ab - k.pb * k.aa == -(k.n * k.h)
            &&& k.pa * k.sb - k.pb * k.sa == k.n * k.m
        }),
{
    let k = pair_of(xa, ya, xb, yb);
    let m1 = xa * yb;
    let m2 = ya * xb;
    let m3 = ya * yb;
    let m4 = xa * xb;
    let xxa = xa * xa;
    let yya = ya * ya;
    let xxb = xb * xb;
    let yyb = yb * yb;
    // the left sides, term by term
    lemma_distribute(k.pa, xxb, yyb);
    lemma_distribute(k.pb, xxa, yya);
    lemma_distribute(k.pa, yyb, xxb);
    lemma_distribute(k.pb, yya, xxa);
    // the right sides, term by term
    lemma_product_2x2(m1, m2, m3, m4);
    lemma_product_2x2(m1, m2, m4, m3);
    lemma_product_2x2(m2, m1, m3, m4);
    lemma_product_2x2(m2, m1, m4, m3);
    // each product of two mixed terms is a product of a square and a pair
    assert(m1 * m3 == k.pa * yyb) by (nonlinear_arith)
        requires
            m1 == xa * yb,
            m3 == ya * yb,
            k.pa == xa * ya,
            yyb == yb * yb,
    ;
    assert(m1 * m4 == k.pb * xxa) by (nonlinear_arith)
        requires
            m1 == xa * yb,
            m4 == xa * xb,
            k.pb == xb * yb,
            xxa == xa * xa,
    ;
    assert(m2 * m3 == k.pb * yya) by (nonlinear_arith)
        requires
            m2 == ya * xb,
            m3 == ya * yb,
            k.pb == xb * yb,
            yya == ya * ya,
    ;
    assert(m2 * m4 == k.pa * xxb) by (nonlinear_arith)
        requires
            m2 == ya * xb,
            m4 == xa * xb,
            k.pa == xa * ya,
            xxb == xb * xb,
    ;
}

/// The three sums of products of three coordinates that the proof turns on,
/// for an outer point `(x, y)` and the quantities `k` of the other two points:
/// `x h + y e`, `x h - y e` and `x m + y n`.
pub open spec fn outer_sum(x: int, y: int, k: Pair) -> int {
    x * k.h + y * k.e
}

pub open spec fn outer_difference(x: int, y: int, k: Pair) -> int {
    x * k.h - y * k.e
}

pub open spec fn outer_cross(x: int, y: int, k: Pair) -> int {
    x * k.m + y * k.n
}

/// Products of three factors, one from each point, in every order and grouping
/// that the proof meets.
proof fn lemma_three(a: int, b: int, c: int)
    ensures
        a * (b * c) == (a * b) * c,
        a * (c * b) == (a * b) * c,
        b * (a * c) == (a * b) * c,
        b * (c * a) == (a * b) * c,
        c * (a * b) == (a * b) * c,
        c * (b * a) == (a * b) * c,
        (b * a) * c == (a * b) * c,
        (a * c) * b == (a * b) * c,
        (c * a) * b == (a * b) * c,
        (b * c) * a == (a * b) * c,
        (c * b) * a == (a * b) * c,
{
    assert(a * (b * c) == (a * b) * c) by (nonlinear_arith);
    assert(a * (c * b) == (a * b) * c) by (nonlinear_arith);
    assert(b * (a * c) == (a * b) * c) by (nonlinear_arith);
    assert(b * (c * a) == (a * b) * c) by (nonlinear_arith);
    assert(c * (a * b) == (a * b) * c) by (nonlinear_arith);
    assert(c * (b * a) == (a * b) * c) by (nonlinear_arith);
    assert((b * a) * c == (a * b) * c) by (nonlinear_arith);
    assert((a * c) * b == (a * b) * c) by (nonlinear_arith);
    assert((c * a) * b == (a * b) * c) by (nonlinear_arith);
    assert((b * c) * a == (a * b) * c) by (nonlinear_arith);
    assert((c * b) * a == (a * b) * c) by (nonlinear_arith);
}

/// All eight products of one coordinate from each of three points, brought to
/// one form.
proof fn lemma_three_all(x1: int, y1: int, x2: int, y2: int, x3: int, y3: int)
    ensures
        forall|a: int, b: int, c: int|
            (a == x1 || a == y1) && (b == x2 || b == y2) && (c == x3 || c == y3) ==> {
                &&& #[trigger] (a * (b * c)) == (a * b) * c
                &&& a * (c * b) == (a * b) * c
                &&& b * (a * c) == (a * b) * c
                &&& b * (c * a) == (a * b) * c
                &&& c * (a * b) == (a * b) * c
                &&& c * (b * a) == (a * b) * c
                &&& (b * a) * c == (a * b) * c
                &&& (a * c) * b == (a * b) * c
                &&& (c * a) * b == (a * b) * c
                &&& (b * c) * a == (a * b) * c
                &&& (c * b) * a == (a * b) * c
            },
{
    lemma_three(x1, x2, x3);
    lemma_three(x1, x2, y3);
    lemma_three(x1, y2, x3);
    lemma_three(x1, y2, y3);
    lemma_three(y1, x2, x3);
    lemma_three(y1, x2, y3);
    lemma_three(y1, y2, x3);
    lemma_three(y1, y2, y3);
}

/// The sums of three points do not depend on which point is taken as the
/// outer one.
///
/// With `k12`, `k13`, `k23` for the three pairs and `k21` for the first pair
/// in reverse: the triple sum `S` is the outer sum of each point, and the
/// outer difference of one point is the outer cross of another.
pub proof fn lemma_triple_forms(x1: int, y1: int, x2: int, y2: int, x3: int, y3: int)
    ensures
        ({
            let k12 = pair_of(x1, y1, x2, y2);
            let k21 = pair_of(x2, y2, x1, y1);
            let k13 = pair_of(x1, y1, x3, y3);
            let k23 = pair_of(x2, y2, x3, y3);
            let s = outer_sum(x1, y1, k23);
            &&& outer_sum(x3, y3, k12) == s
            &&& outer_sum(x3, y3, k21) == s
            &&& outer_sum(x2, y2, k13) == s
            &&& k12.e * y3 + k12.h * x3 == s
            &&& outer_difference(x3, y3, k12) == outer_cross(x1, y1, k23)
            &&& outer_difference(x3, y3, k21) == outer_cross(x1, y1, k23)
            &&& k12.h * x3 - k12.e * y3 == outer_cross(x1, y1, k23)
            &&& outer_cross(x3, y3, k21) == outer_difference(x1, y1, k23)
            &&& outer_cross(x2, y2, k13) == outer_cross(x1, y1, k23)
            &&& x2 * k13.m - y2 * k13.n == outer_difference(x1, y1, k23)
            &&& k21.e * k21.h == k12.e * k12.h
        }),
{
    let k12 = pair_of(x1, y1, x2, y2);
    let k21 = pair_of(x2, y2, x1, y1);
    let k13 = pair_of(x1, y1, x3, y3);
    let k23 = pair_of(x2, y2, x3, y3);
    lemma_three_all(x1, y1, x2, y2, x3, y3);
    // outer point one
    lemma_distribute(x1, y2 * y3, x2 * x3);
    lemma_distribute(y1, x2 * y3, y2 * x3);
    lemma_distribute(x1, x2 * x3, y2 * y3);
    lemma_distribute(y1, y2 * x3, x2 * y3);
    // outer point three
    lemma_distribute(x3, y1 * y2, x1 * x2);
    lemma_distribute(y3, x1 * y2, y1 * x2);
    lemma_distribute(x3, y2 * y1, x2 * x1);
    lemma_distribute(y3, x2 * y1, y2 * x1);
    lemma_distribute(x3, x2 * x1, y2 * y1);
    lemma_distribute(y3, y2 * x1, x2 * y1);
    // outer point two
    lemma_distribute(x2, y1 * y3, x1 * x3);
    lemma_distribute(y2, x1 * y3, y1 * x3);
    lemma_distribute(x2, x1 * x3, y1 * y3);
    lemma_distribute(y2, y1 * x3, x1 * y3);
    // the two orders of the first pair
    lemma_product_3(x2, y1, 1);
    lemma_product_3(y2, x1, 1);
    lemma_product_3(y2, y1, 1);
    lemma_product_3(x2, x1, 1);
    assert(k21.e == k12.e);
    assert(k21.h == k12.h);
    lemma_product_3(k12.e, y3, 1);
    lemma_product_3(k12.h, x3, 1);
}

/// The first identity between the coordinates of three points. For an outer
/// point `(x, y)` and a pair with quantities `k`:
/// `pa ab S + pb aa B + C e h = 0`, where `S`, `B` and `C` are the outer sum,
/// difference and cross.
pub proof fn lemma_identity_one(x: int, y: int, xa: int, ya: int, xb: int, yb: int)
    ensures
        ({
            let k = pair_of(xa, ya, xb, yb);
            (k.pa * k.ab) * outer_sum(x, y, k) + (k.pb * k.aa) * outer_difference(x, y, k)
                + outer_cross(x, y, k) * (k.e * k.h) == 0
        }),
{
    let k = pair_of(xa, ya, xb, yb);
    lemma_pair_formulas(xa, ya, xb, yb);
    let p = k.pa * k.ab;
    let q = k.pb * k.aa;
    let xh = x * k.h;
    let ye = y * k.e;
    let w = k.e * k.h;
    assert(p + q == -(k.e * k.m));
    assert(p - q == -(k.n * k.h));
    lemma_distribute(p, xh, ye);
    lemma_distribute(q, xh, ye);
    lemma_distribute(xh, p, q);
    lemma_distribute(ye, p, q);
    lemma_product_3(p, xh, 1);
    lemma_product_3(q, xh, 1);
    lemma_product_3(p, ye, 1);
    lemma_product_3(q, ye, 1);
    assert(p * (xh + ye) + q * (xh - ye) == xh * (p + q) + ye * (p - q));
    lemma_distribute(w, x * k.m, y * k.n);
    assert(xh * (k.e * k.m) == (x * k.m) * w) by (nonlinear_arith)
        requires
            xh == x * k.h,
            w == k.e * k.h,
    ;
    assert(ye * (k.n * k.h) == (y * k.n) * w) by (nonlinear_arith)
        requires
            ye == y * k.e,
            w == k.e * k.h,
    ;
    assert(xh * (-(k.e * k.m)) == -(xh * (k.e * k.m))) by (nonlinear_arith);
    assert(ye * (-(k.n * k.h)) == -(ye * (k.n * k.h))) by (nonlinear_arith);
}

/// The second identity between the coordinates of three points. For an outer
/// point `(x, y)` and a pair with quantities `k`:
/// `S (pa sb - pb sa) + pa ab C - pb aa (x m - y n) = 0`.
pub proof fn lemma_identity_two(x: int, y: int, xa: int, ya: int, xb: int, yb: int)
    ensures
        ({
            let k = pair_of(xa, ya, xb, yb);
            outer_sum(x, y, k) * (k.pa * k.sb - k.pb * k.sa) + (k.pa * k.ab) * outer_cross(x, y, k)
                - (k.pb * k.aa) * (x * k.m - y * k.n) == 0
        }),
{
    let k = pair_of(xa, ya, xb, yb);
    lemma_pair_formulas(xa, ya, xb, yb);
    let p = k.pa * k.ab;
    let q = k.pb * k.aa;
    let dv = k.pa * k.sb - k.pb * k.sa;
    let xh = x * k.h;
    let ye = y * k.e;
    let xm = x * k.m;
    let yn = y * k.n;
    let nm = k.n * k.m;
    assert(dv == nm);
    lemma_distribute(dv, xh, ye);
    lemma_distribute(p, xm, yn);
    lemma_distribute(q, xm, yn);
    lemma_distribute(xm, p, q);
    lemma_distribute(yn, p, q);
    lemma_product_3(p, xm, 1);
    lemma_product_3(q, xm, 1);
    lemma_product_3(p, yn, 1);
    lemma_product_3(q, yn, 1);
    assert(p * (xm + yn) - q * (xm - yn) == xm * (p - q) + yn * (p + q));
    assert((xh + ye) * dv == xh * nm + ye * nm) by {
        lemma_product_3(dv, xh + ye, 1);
        lemma_product_3(dv, xh, 1);
        lemma_product_3(dv, ye, 1);
    }
    assert(xh * nm == xm * (k.n * k.h)) by (nonlinear_arith)
        requires
            xh == x * k.h,
            xm == x * k.m,
            nm == k.n * k.m,
    ;
    assert(ye * nm == yn * (k.e * k.m)) by (nonlinear_arith)
        requires
            ye == y * k.e,
            yn == y * k.n,
            nm == k.n * k.m,
    ;
    assert(xm * (-(k.n * k.h)) == -(xm * (k.n * k.h))) by (nonlinear_arith);
    assert(yn * (-(k.e * k.m)) == -(yn * (k.e * k.m))) by (nonlinear_arith);
}

/// What is left of `E_L G_R - E_R G_L`, up to the factor `d t2`, once the
/// products of `Z` and `T` are written as `u = Z^2`, `v = d T^2` and
/// `r = Z T`.
pub open spec fn omega(
    s: int,
    b3: int,
    b1: int,
    r1: int,
    r2: int,
    r3: int,
    dv: int,
    w12: int,
    w23: int,
    u1: int,
    u2: int,
    u3: int,
    v1: int,
    v2: int,
    v3: int,
) -> int {
    r2 * (s * (u3 * v1 - u1 * v3)) + (s * u2) * dv + r1 * (b3 * (u2 * u3 - v2 * v3)) - r3 * (b1 * (
    u1 * u2 - v1 * v2)) + v1 * (b3 * w23) - v3 * (b1 * w12)
}

/// A product of two terms, one of which gives way to a difference:
/// if `u + v` is congruent to `a`, then `u w` is congruent to `(a - v) w`.
proof fn lemma_give_way(u: int, v: int, a: int, w: int, m: int)
    requires
        m > 0,
        congruent(u + v, a, m),
    ensures
        congruent(u * w, a * w - v * w, m),
        congruent(w * u, a * w - v * w, m),
        congruent(v * w, a * w - u * w, m),
        congruent(w * v, a * w - u * w, m),
{
    lemma_congruent_sub(u + v, a, v, v, m);
    lemma_congruent_sub(u + v, a, u, u, m);
    lemma_congruent_mul(u, a - v, w, w, m);
    lemma_congruent_mul(v, a - u, w, w, m);
    lemma_distribute(w, a, v);
    lemma_distribute(w, a, u);
    lemma_product_3(u, w, 1);
    lemma_product_3(v, w, 1);
    lemma_product_3(a, w, 1);
}

/// On the curve, `omega` is congruent to zero: each `r` is congruent to its
/// `p = X Y`, each `u + v` to its `a = Y^2 - X^2`, and then `omega` is a
/// combination of the three identities between the coordinates `x` and `y`.
pub proof fn lemma_omega_vanishes(
    s: int,
    b3: int,
    b1: int,
    r1: int,
    r2: int,
    r3: int,
    dv: int,
    w12: int,
    w23: int,
    u1: int,
    u2: int,
    u3: int,
    v1: int,
    v2: int,
    v3: int,
    p1: int,
    p2: int,
    p3: int,
    a1: int,
    a2: int,
    a3: int,
    m: int,
)
    requires
        m > 0,
        congruent(r1, p1, m),
        congruent(r2, p2, m),
        congruent(r3, p3, m),
        congruent(u1 + v1, a1, m),
        congruent(u2 + v2, a2, m),
        congruent(u3 + v3, a3, m),
        (p2 * a3) * s + (p3 * a2) * b1 + b3 * w23 == 0,
        (p2 * a1) * s + (p1 * a2) * b3 + b1 * w12 == 0,
        s * dv + (p1 * a3) * b3 - (p3 * a1) * b1 == 0,
    ensures
        congruent(omega(s, b3, b1, r1, r2, r3, dv, w12, w23, u1, u2, u3, v1, v2, v3), 0, m),
{
    // the three differences of products, with each u given way
    let x = u3 * v1 - u1 * v3;
    let x1 = a3 * v1 - a1 * v3;
    lemma_give_way(u3, v3, a3, v1, m);
    lemma_give_way(u1, v1, a1, v3, m);
    lemma_congruent_sub(u3 * v1, a3 * v1 - v3 * v1, u1 * v3, a1 * v3 - v1 * v3, m);
    lemma_product_3(v3, v1, 1);
    assert(congruent(x, x1, m));
    let q23 = u2 * u3 - v2 * v3;
    let q23a = u2 * a3 - a2 * v3;
    lemma_give_way(u3, v3, a3, u2, m);
    lemma_give_way(v2, u2, a2, v3, m);
    lemma_congruent_sub(u2 * u3, a3 * u2 - v3 * u2, v2 * v3, a2 * v3 - u2 * v3, m);
    lemma_product_3(v3, u2, 1);
    lemma_product_3(a3, u2, 1);
    assert(congruent(q23, q23a, m));
    let q12 = u1 * u2 - v1 * v2;
    let q12a = a1 * u2 - a2 * v1;
    lemma_give_way(u1, v1, a1, u2, m);
    lemma_give_way(v2, u2, a2, v1, m);
    lemma_congruent_sub(u1 * u2, a1 * u2 - v1 * u2, v1 * v2, a2 * v1 - u2 * v1, m);
    lemma_product_3(v1, u2, 1);
    assert(congruent(q12, q12a, m));
    // omega with every r and every difference given way
    let t1 = r2 * (s * x);
    let t1a = p2 * (s * x1);
    lemma_congruent_mul(s, s, x, x1, m);
    lemma_congruent_mul(r2, p2, s * x, s * x1, m);
    let t2 = (s * u2) * dv;
    let t3 = r1 * (b3 * q23);
    let t3a = p1 * (b3 * q23a);
    lemma_congruent_mul(b3, b3, q23, q23a, m);
    lemma_congruent_mul(r1, p1, b3 * q23, b3 * q23a, m);
    let t4 = r3 * (b1 * q12);
    let t4a = p3 * (b1 * q12a);
    lemma_congruent_mul(b1, b1, q12, q12a, m);
    lemma_congruent_mul(r3, p3, b1 * q12, b1 * q12a, m);
    let t5 = v1 * (b3 * w23);
    let t6 = v3 * (b1 * w12);
    lemma_congruent_add(t1, t1a, t2, t2, m);
    lemma_congruent_add(t1 + t2, t1a + t2, t3, t3a, m);
    lemma_congruent_sub(t1 + t2 + t3, t1a + t2 + t3a, t4, t4a, m);
    lemma_congruent_add(t1 + t2 + t3 - t4, t1a + t2 + t3a - t4a, t5, t5, m);
    lemma_congruent_sub(t1 + t2 + t3 - t4 + t5, t1a + t2 + t3a - t4a + t5, t6, t6, m);
    // what is left is v1 I1 - v3 I3 + u2 II
    let i1 = (p2 * a3) * s + (p3 * a2) * b1 + b3 * w23;
    let i3 = (p2 * a1) * s + (p1 * a2) * b3 + b1 * w12;
    let i2 = s * dv + (p1 * a3) * b3 - (p3 * a1) * b1;
    assert(t1a == v1 * ((p2 * a3) * s) - v3 * ((p2 * a1) * s)) by {
        lemma_distribute(s, a3 * v1, a1 * v3);
        lemma_distribute(p2, s * (a3 * v1), s * (a1 * v3));
        assert(p2 * (s * (a3 * v1)) == v1 * ((p2 * a3) * s)) by (nonlinear_arith);
        assert(p2 * (s * (a1 * v3)) == v3 * ((p2 * a1) * s)) by (nonlinear_arith);
    }
    assert(t3a == u2 * ((p1 * a3) * b3) - v3 * ((p1 * a2) * b3)) by {
        lemma_distribute(b3, u2 * a3, a2 * v3);
        lemma_distribute(p1, b3 * (u2 * a3), b3 * (a2 * v3));
        assert(p1 * (b3 * (u2 * a3)) == u2 * ((p1 * a3) * b3)) by (nonlinear_arith);
        assert(p1 * (b3 * (a2 * v3)) == v3 * ((p1 * a2) * b3)) by (nonlinear_arith);
    }
    assert(t4a == u2 * ((p3 * a1) * b1) - v1 * ((p3 * a2) * b1)) by {
        lemma_distribute(b1, a1 * u2, a2 * v1);
        lemma_distribute(p3, b1 * (a1 * u2), b1 * (a2 * v1));
        assert(p3 * (b1 * (a1 * u2)) == u2 * ((p3 * a1) * b1)) by (nonlinear_arith);
        assert(p3 * (b1 * (a2 * v1)) == v1 * ((p3 * a2) * b1)) by (nonlinear_arith);
    }
    assert(t2 == u2 * (s * dv)) by (nonlinear_arith)
        requires
            t2 == (s * u2) * dv,
    ;
    assert(v1 * i1 == v1 * ((p2 * a3) * s) + v1 * ((p3 * a2) * b1) + v1 * (b3 * w23)) by {
        lemma_distribute(v1, (p2 * a3) * s, (p3 * a2) * b1);
        lemma_distribute(v1, (p2 * a3) * s + (p3 * a2) * b1, b3 * w23);
    }
    assert(v3 * i3 == v3 * ((p2 * a1) * s) + v3 * ((p1 * a2) * b3) + v3 * (b1 * w12)) by {
        lemma_distribute(v3, (p2 * a1) * s, (p1 * a2) * b3);
        lemma_distribute(v3, (p2 * a1) * s + (p1 * a2) * b3, b1 * w12);
    }
    assert(u2 * i2 == u2 * (s * dv) + u2 * ((p1 * a3) * b3) - u2 * ((p3 * a1) * b1)) by {
        lemma_distribute(u2, s * dv, (p1 * a3) * b3);
        lemma_distribute(u2, s * dv + (p1 * a3) * b3, (p3 * a1) * b1);
    }
    assert(t1a + t2 + t3a - t4a + t5 - t6 == v1 * i1 - v3 * i3 + u2 * i2);
    assert(v1 * i1 == 0 && v3 * i3 == 0 && u2 * i2 == 0) by (nonlinear_arith)
        requires
            i1 == 0,
            i3 == 0,
            i2 == 0,
    ;
}

/// The four parts of `E_L G_R - E_R G_L`, each with its factors regrouped.
///
/// Here `E_L = u12 s + w12 b3` and `G_R = q23 z1 + k23 t1`, and the same for
/// `E_R` and `G_L` with the first and the third point exchanged; `u` and `w`
/// are `Z Z'` and `d T T'` of a pair, `q` is `u^2 - w^2` of a pair, and `k` is
/// `d` times a mixed term `w`.
proof fn lemma_four_parts(
    z1: int,
    t1: int,
    z2: int,
    t2: int,
    z3: int,
    t3: int,
    d: int,
    s: int,
    b3: int,
    b1: int,
    w12: int,
    w23: int,
)
    ensures
        ({
            let u1 = z1 * z1;
            let u2 = z2 * z2;
            let u3 = z3 * z3;
            let v1 = d * (t1 * t1);
            let v2 = d * (t2 * t2);
            let v3 = d * (t3 * t3);
            let r1 = z1 * t1;
            let r2 = z2 * t2;
            let r3 = z3 * t3;
            let q12 = u1 * u2 - v1 * v2;
            let q23 = u2 * u3 - v2 * v3;
            let el = (z1 * z2) * s + (d * t1 * t2) * b3;
            let er = (z2 * z3) * s + (d * t2 * t3) * b1;
            let gl = q12 * z3 + (d * w12) * t3;
            let gr = q23 * z1 + (d * w23) * t1;
            el * gr - er * gl == (d * t2) * (r2 * (s * (u3 * v1 - u1 * v3))) + (z2 * d) * (s * (r1
                * w23 - r3 * w12)) + (d * t2) * (r1 * (b3 * q23) - r3 * (b1 * q12)) + (d * t2) * (
            v1 * (b3 * w23) - v3 * (b1 * w12))
        }),
{
    let u1 = z1 * z1;
    let u2 = z2 * z2;
    let u3 = z3 * z3;
    let v1 = d * (t1 * t1);
    let v2 = d * (t2 * t2);
    let v3 = d * (t3 * t3);
    let r1 = z1 * t1;
    let r2 = z2 * t2;
    let r3 = z3 * t3;
    let q12 = u1 * u2 - v1 * v2;
    let q23 = u2 * u3 - v2 * v3;
    let u12 = z1 * z2;
    let u23 = z2 * z3;
    let c12 = d * t1 * t2;
    let c23 = d * t2 * t3;
    let k12 = d * w12;
    let k23 = d * w23;
    let el = u12 * s + c12 * b3;
    let er = u23 * s + c23 * b1;
    let gl = q12 * z3 + k12 * t3;
    let gr = q23 * z1 + k23 * t1;
    let dt = d * t2;
    lemma_product_2x2(u12 * s, c12 * b3, q23 * z1, k23 * t1);
    lemma_product_2x2(u23 * s, c23 * b1, q12 * z3, k12 * t3);
    // the first part: both Z^2 Z'^2 Z''^2 cancel, and v2 comes out
    let x = u3 * v1 - u1 * v3;
    assert((u12 * s) * (q23 * z1) == z2 * (s * (u1 * q23))) by (nonlinear_arith)
        requires
            u12 == z1 * z2,
            u1 == z1 * z1,
    ;
    assert((u23 * s) * (q12 * z3) == z2 * (s * (u3 * q12))) by (nonlinear_arith)
        requires
            u23 == z2 * z3,
            u3 == z3 * z3,
    ;
    assert(u1 * q23 - u3 * q12 == v2 * x) by {
        lemma_distribute(u1, u2 * u3, v2 * v3);
        lemma_distribute(u3, u1 * u2, v1 * v2);
        lemma_distribute(v2, u3 * v1, u1 * v3);
        assert(u1 * (u2 * u3) == u3 * (u1 * u2)) by (nonlinear_arith);
        assert(u1 * (v2 * v3) == v2 * (u1 * v3)) by (nonlinear_arith);
        assert(u3 * (v1 * v2) == v2 * (u3 * v1)) by (nonlinear_arith);
    }
    assert(z2 * (s * (u1 * q23)) - z2 * (s * (u3 * q12)) == z2 * (s * (v2 * x))) by {
        lemma_distribute(s, u1 * q23, u3 * q12);
        lemma_distribute(z2, s * (u1 * q23), s * (u3 * q12));
    }
    assert(z2 * (s * (v2 * x)) == dt * (r2 * (s * x))) by (nonlinear_arith)
        requires
            v2 == d * (t2 * t2),
            dt == d * t2,
            r2 == z2 * t2,
    ;
    // the second part
    assert((u12 * s) * (k23 * t1) == (z2 * d) * (s * (r1 * w23))) by (nonlinear_arith)
        requires
            u12 == z1 * z2,
            k23 == d * w23,
            r1 == z1 * t1,
    ;
    assert((u23 * s) * (k12 * t3) == (z2 * d) * (s * (r3 * w12))) by (nonlinear_arith)
        requires
            u23 == z2 * z3,
            k12 == d * w12,
            r3 == z3 * t3,
    ;
    assert((z2 * d) * (s * (r1 * w23)) - (z2 * d) * (s * (r3 * w12)) == (z2 * d) * (s * (r1 * w23
        - r3 * w12))) by {
        lemma_distribute(s, r1 * w23, r3 * w12);
        lemma_distribute(z2 * d, s * (r1 * w23), s * (r3 * w12));
    }
    // the third part
    lemma_product_3(d, t1, t2);
    lemma_product_3(t1, z1, 1);
    lemma_product_3(t3, z3, 1);
    assert(c12 * z1 == dt * r1) by {
        lemma_product_3(dt, t1, z1);
    }
    assert(c23 * z3 == dt * r3) by {
        lemma_product_3(dt, t3, z3);
    }
    assert((c12 * b3) * (q23 * z1) == dt * (r1 * (b3 * q23))) by {
        lemma_swap_inner(c12, b3, q23, z1);
        lemma_product_3(dt, r1, b3 * q23);
    }
    assert((c23 * b1) * (q12 * z3) == dt * (r3 * (b1 * q12))) by {
        lemma_swap_inner(c23, b1, q12, z3);
        lemma_product_3(dt, r3, b1 * q12);
    }
    lemma_distribute(dt, r1 * (b3 * q23), r3 * (b1 * q12));
    // the fourth part
    assert(c12 * t1 == dt * (t1 * t1)) by {
        lemma_product_3(dt, t1, t1);
    }
    assert(c23 * t3 == dt * (t3 * t3)) by {
        lemma_product_3(dt, t3, t3);
    }
    assert((c12 * b3) * (k23 * t1) == dt * (v1 * (b3 * w23))) by {
        lemma_swap_inner(c12, b3, k23, t1);
        // (c12 t1) (b3 k23), with k23 = d w23
        lemma_product_3(b3, d, w23);
        lemma_swap_inner(dt, t1 * t1, d, b3 * w23);
        lemma_product_3(d, t1 * t1, 1);
        lemma_product_3(dt, v1, b3 * w23);
        assert(b3 * k23 == d * (b3 * w23));
        assert((dt * (t1 * t1)) * (d * (b3 * w23)) == (dt * d) * ((t1 * t1) * (b3 * w23)));
        assert((dt * d) * ((t1 * t1) * (b3 * w23)) == dt * (v1 * (b3 * w23))) by (nonlinear_arith)
            requires
                v1 == d * (t1 * t1),
        ;
    }
    assert((c23 * b1) * (k12 * t3) == dt * (v3 * (b1 * w12))) by {
        lemma_swap_inner(c23, b1, k12, t3);
        lemma_product_3(b1, d, w12);
        lemma_swap_inner(dt, t3 * t3, d, b1 * w12);
        assert(b1 * k12 == d * (b1 * w12));
        assert((dt * (t3 * t3)) * (d * (b1 * w12)) == (dt * d) * ((t3 * t3) * (b1 * w12)));
        assert((dt * d) * ((t3 * t3) * (b1 * w12)) == dt * (v3 * (b1 * w12))) by (nonlinear_arith)
            requires
                v3 == d * (t3 * t3),
        ;
    }
    lemma_distribute(dt, v1 * (b3 * w23), v3 * (b1 * w12));
}

/// On the curve, `E_L G_R - E_R G_L` is congruent to zero, in the notation of
/// `lemma_four_parts`: the mixed terms give way until `d t2` times `omega` is
/// left.
pub proof fn lemma_difference_vanishes(
    z1: int,
    t1: int,
    z2: int,
    t2: int,
    z3: int,
    t3: int,
    d: int,
    s: int,
    b3: int,
    b1: int,
    w12: int,
    w23: int,
    dv: int,
    p1: int,
    p2: int,
    p3: int,
    a1: int,
    a2: int,
    a3: int,
    m: int,
)
    requires
        m > 0,
        congruent(z1 * t1, p1, m),
        congruent(z2 * t2, p2, m),
        congruent(z3 * t3, p3, m),
        congruent(z1 * z1 + d * (t1 * t1), a1, m),
        congruent(z2 * z2 + d * (t2 * t2), a2, m),
        congruent(z3 * z3 + d * (t3 * t3), a3, m),
        p1 * w23 - p3 * w12 == p2 * dv,
        (p2 * a3) * s + (p3 * a2) * b1 + b3 * w23 == 0,
        (p2 * a1) * s + (p1 * a2) * b3 + b1 * w12 == 0,
        s * dv + (p1 * a3) * b3 - (p3 * a1) * b1 == 0,
    ensures
        ({
            let q12 = (z1 * z1) * (z2 * z2) - (d * (t1 * t1)) * (d * (t2 * t2));
            let q23 = (z2 * z2) * (z3 * z3) - (d * (t2 * t2)) * (d * (t3 * t3));
            let el = (z1 * z2) * s + (d * t1 * t2) * b3;
            let er = (z2 * z3) * s + (d * t2 * t3) * b1;
            let gl = q12 * z3 + (d * w12) * t3;
            let gr = q23 * z1 + (d * w23) * t1;
            congruent(el * gr - er * gl, 0, m)
        }),
{
    let u1 = z1 * z1;
    let u2 = z2 * z2;
    let u3 = z3 * z3;
    let v1 = d * (t1 * t1);
    let v2 = d * (t2 * t2);
    let v3 = d * (t3 * t3);
    let r1 = z1 * t1;
    let r2 = z2 * t2;
    let r3 = z3 * t3;
    let q12 = u1 * u2 - v1 * v2;
    let q23 = u2 * u3 - v2 * v3;
    let el = (z1 * z2) * s + (d * t1 * t2) * b3;
    let er = (z2 * z3) * s + (d * t2 * t3) * b1;
    let gl = q12 * z3 + (d * w12) * t3;
    let gr = q23 * z1 + (d * w23) * t1;
    let dt = d * t2;
    lemma_four_parts(z1, t1, z2, t2, z3, t3, d, s, b3, b1, w12, w23);
    let part1 = dt * (r2 * (s * (u3 * v1 - u1 * v3)));
    let part2 = (z2 * d) * (s * (r1 * w23 - r3 * w12));
    let part3 = dt * (r1 * (b3 * q23) - r3 * (b1 * q12));
    let part4 = dt * (v1 * (b3 * w23) - v3 * (b1 * w12));
    assert(el * gr - er * gl == part1 + part2 + part3 + part4);
    // the second part: r1 w23 - r3 w12 gives way to p2 dv, and z2 p2 to t2 u2
    lemma_congruent_mul(r1, p1, w23, w23, m);
    lemma_congruent_mul(r3, p3, w12, w12, m);
    lemma_congruent_sub(r1 * w23, p1 * w23, r3 * w12, p3 * w12, m);
    lemma_congruent_mul(s, s, r1 * w23 - r3 * w12, p2 * dv, m);
    lemma_congruent_mul(z2 * d, z2 * d, s * (r1 * w23 - r3 * w12), s * (p2 * dv), m);
    let sd = s * dv;
    assert((z2 * d) * (s * (p2 * dv)) == (d * sd) * (z2 * p2)) by (nonlinear_arith)
        requires
            sd == s * dv,
    ;
    lemma_congruent_mul(z2, z2, p2, r2, m);
    lemma_congruent_mul(d * sd, d * sd, z2 * p2, z2 * r2, m);
    let part2a = dt * ((s * u2) * dv);
    assert((d * sd) * (z2 * r2) == part2a) by (nonlinear_arith)
        requires
            sd == s * dv,
            r2 == z2 * t2,
            u2 == z2 * z2,
            part2a == (d * t2) * ((s * u2) * dv),
    ;
    assert(congruent(part2, part2a, m));
    // all four parts together: d t2 times omega
    let om = omega(s, b3, b1, r1, r2, r3, dv, w12, w23, u1, u2, u3, v1, v2, v3);
    lemma_congruent_add(part1, part1, part2, part2a, m);
    lemma_congruent_add(part1 + part2, part1 + part2a, part3, part3, m);
    lemma_congruent_add(part1 + part2 + part3, part1 + part2a + part3, part4, part4, m);
    assert(part1 + part2a + part3 + part4 == dt * om) by {
        let o1 = r2 * (s * (u3 * v1 - u1 * v3));
        let o2 = (s * u2) * dv;
        let o3 = r1 * (b3 * q23) - r3 * (b1 * q12);
        let o4 = v1 * (b3 * w23) - v3 * (b1 * w12);
        assert(om == o1 + o2 + o3 + o4);
        lemma_distribute(dt, o1, o2);
        lemma_distribute(dt, o1 + o2, o3);
        lemma_distribute(dt, o1 + o2 + o3, o4);
    }
    lemma_omega_vanishes(
        s,
        b3,
        b1,
        r1,
        r2,
        r3,
        dv,
        w12,
        w23,
        u1,
        u2,
        u3,
        v1,
        v2,
        v3,
        p1,
        p2,
        p3,
        a1,
        a2,
        a3,
        m,
    );
    lemma_congruent_mul(dt, dt, om, 0, m);
    assert(dt * 0 == 0);
}

/// The four parts of the addition formulas: the sum has the coordinates
/// `(e f : g h : e h : f g)`.
pub open spec fn sum_e(p: IntPoint, q: IntPoint) -> int {
    (p.x + p.y) * (q.x + q.y) - p.x * q.x - p.y * q.y
}

pub open spec fn sum_f(p: IntPoint, q: IntPoint) -> int {
    p.z * q.z - coeff_d() * p.t * q.t
}

pub open spec fn sum_g(p: IntPoint, q: IntPoint) -> int {
    p.z * q.z + coeff_d() * p.t * q.t
}

pub open spec fn sum_h(p: IntPoint, q: IntPoint) -> int {
    p.y * q.y + p.x * q.x
}

/// `(Z Z')^2 - (d T T')^2` of a pair of points, in the squares of each point.
pub open spec fn pair_q(p: IntPoint, q: IntPoint) -> int {
    (p.z * p.z) * (q.z * q.z) - (coeff_d() * (p.t * p.t)) * (coeff_d() * (q.t * q.t))
}

/// The parts of one sum, in the quantities of the pair.
proof fn lemma_pair_parts(p: IntPoint, q: IntPoint)
    ensures
        ({
            let k = pair_of(p.x, p.y, q.x, q.y);
            let s = int_add(p, q);
            &&& s.x == sum_e(p, q) * sum_f(p, q)
            &&& s.y == sum_g(p, q) * sum_h(p, q)
            &&& s.t == sum_e(p, q) * sum_h(p, q)
            &&& s.z == sum_f(p, q) * sum_g(p, q)
            &&& sum_e(p, q) == k.e
            &&& sum_h(p, q) == k.h
            &&& sum_f(p, q) * sum_g(p, q) == pair_q(p, q)
        }),
{
    let d = coeff_d() as int;
    let u = p.z * q.z;
    let w = d * p.t * q.t;
    lemma_product_2x2(p.x, p.y, q.x, q.y);
    lemma_product_2x2(u, w, u, w);
    lemma_product_3(u, w, 1);
    assert(sum_f(p, q) * sum_g(p, q) == u * u - w * w);
    lemma_swap_inner(p.z, q.z, p.z, q.z);
    lemma_swap_inner(d * p.t, q.t, d * p.t, q.t);
    lemma_swap_inner(d, p.t, d, p.t);
    lemma_swap_inner(d, p.t * p.t, d, q.t * q.t);
    lemma_product_3(d * d, p.t * p.t, q.t * q.t);
}

/// The parts of `(P1 + P2) + P3`, in the quantities of the first pair and the
/// coordinates of the third point.
proof fn lemma_left_parts(p1: IntPoint, p2: IntPoint, p3: IntPoint)
    ensures
        ({
            let k = pair_of(p1.x, p1.y, p2.x, p2.y);
            let s12 = int_add(p1, p2);
            let u = p1.z * p2.z;
            let w = coeff_d() * p1.t * p2.t;
            let q = pair_q(p1, p2);
            let kw = coeff_d() * (k.e * k.h);
            &&& sum_e(s12, p3) == u * (k.e * p3.y + k.h * p3.x) + w * (k.h * p3.x - k.e * p3.y)
            &&& sum_h(s12, p3) == u * (k.e * p3.x + k.h * p3.y) + w * (k.h * p3.y - k.e * p3.x)
            &&& sum_g(s12, p3) == q * p3.z + kw * p3.t
            &&& sum_f(s12, p3) == q * p3.z - kw * p3.t
        }),
{
    let d = coeff_d() as int;
    let k = pair_of(p1.x, p1.y, p2.x, p2.y);
    let s12 = int_add(p1, p2);
    let u = p1.z * p2.z;
    let w = d * p1.t * p2.t;
    let f = u - w;
    let g = u + w;
    lemma_pair_parts(p1, p2);
    assert(s12.x == k.e * f && s12.y == g * k.h);
    lemma_product_2x2(s12.x, s12.y, p3.x, p3.y);
    assert(sum_e(s12, p3) == s12.x * p3.y + s12.y * p3.x);
    let ey = k.e * p3.y;
    let hx = k.h * p3.x;
    let ex = k.e * p3.x;
    let hy = k.h * p3.y;
    assert((k.e * f) * p3.y == u * ey - w * ey) by {
        lemma_product_3(f, k.e, p3.y);
        lemma_distribute(ey, u, w);
    }
    assert((g * k.h) * p3.x == u * hx + w * hx) by {
        lemma_product_3(g, k.h, p3.x);
        lemma_distribute(hx, u, w);
    }
    assert((k.e * f) * p3.x == u * ex - w * ex) by {
        lemma_product_3(f, k.e, p3.x);
        lemma_distribute(ex, u, w);
    }
    assert((g * k.h) * p3.y == u * hy + w * hy) by {
        lemma_product_3(g, k.h, p3.y);
        lemma_distribute(hy, u, w);
    }
    lemma_distribute(u, ey, hx);
    lemma_distribute(w, hx, ey);
    lemma_distribute(u, ex, hy);
    lemma_distribute(w, hy, ex);
    // g and f of the outer sum
    let kw = d * (k.e * k.h);
    assert(d * s12.t == kw);
}

/// The parts of `P1 + (P2 + P3)`, in the coordinates of the first point and
/// the quantities of the last pair.
proof fn lemma_right_parts(p1: IntPoint, p2: IntPoint, p3: IntPoint)
    ensures
        ({
            let k = pair_of(p2.x, p2.y, p3.x, p3.y);
            let s23 = int_add(p2, p3);
            let u = p2.z * p3.z;
            let w = coeff_d() * p2.t * p3.t;
            let q = pair_q(p2, p3);
            let kw = coeff_d() * (k.e * k.h);
            &&& sum_e(p1, s23) == u * (p1.x * k.h + p1.y * k.e) + w * (p1.x * k.h - p1.y * k.e)
            &&& sum_h(p1, s23) == u * (p1.y * k.h + p1.x * k.e) + w * (p1.y * k.h - p1.x * k.e)
            &&& sum_g(p1, s23) == q * p1.z + kw * p1.t
            &&& sum_f(p1, s23) == q * p1.z - kw * p1.t
        }),
{
    let d = coeff_d() as int;
    let k = pair_of(p2.x, p2.y, p3.x, p3.y);
    let s23 = int_add(p2, p3);
    let u = p2.z * p3.z;
    let w = d * p2.t * p3.t;
    let f = u - w;
    let g = u + w;
    lemma_pair_parts(p2, p3);
    assert(s23.x == k.e * f && s23.y == g * k.h);
    lemma_product_2x2(p1.x, p1.y, s23.x, s23.y);
    assert(sum_e(p1, s23) == p1.x * s23.y + p1.y * s23.x);
    let xh = p1.x * k.h;
    let ye = p1.y * k.e;
    let yh = p1.y * k.h;
    let xe = p1.x * k.e;
    assert(p1.x * (g * k.h) == u * xh + w * xh) by {
        lemma_product_3(g, p1.x, k.h);
        lemma_product_3(p1.x, g, k.h);
        lemma_distribute(xh, u, w);
    }
    assert(p1.y * (k.e * f) == u * ye - w * ye) by {
        lemma_product_3(f, p1.y, k.e);
        lemma_product_3(p1.y, k.e, f);
        lemma_distribute(ye, u, w);
    }
    assert(p1.y * (g * k.h) == u * yh + w * yh) by {
        lemma_product_3(g, p1.y, k.h);
        lemma_product_3(p1.y, g, k.h);
        lemma_distribute(yh, u, w);
    }
    assert(p1.x * (k.e * f) == u * xe - w * xe) by {
        lemma_product_3(f, p1.x, k.e);
        lemma_product_3(p1.x, k.e, f);
        lemma_distribute(xe, u, w);
    }
    lemma_distribute(u, xh, ye);
    lemma_distribute(w, xh, ye);
    lemma_distribute(u, yh, xe);
    lemma_distribute(w, yh, xe);
    // g and f of the outer sum
    let kw = d * (k.e * k.h);
    let q = pair_q(p2, p3);
    assert(s23.z == q && s23.t == k.e * k.h);
    lemma_product_3(p1.z, q, 1);
    assert(p1.z * s23.z == q * p1.z);
    assert(d * p1.t * s23.t == kw * p1.t) by {
        lemma_product_3(d, p1.t, k.e * k.h);
    }
}

/// What the curve equations give to the proof, for one point: `Z T` is
/// congruent to `X Y`, and `Z^2 + d T^2` to `Y^2 - X^2`.
proof fn lemma_curve_gives(p: IntPoint)
    requires
        int_on_curve(p),
    ensures
        congruent(p.z * p.t, p.x * p.y, fq_modulus() as int),
        congruent(p.z * p.z + coeff_d() * (p.t * p.t), p.y * p.y - p.x * p.x, fq_modulus() as int),
        congruent(p.z * p.t, p.y * p.x, fq_modulus() as int),
        congruent(
            p.z * p.z + coeff_d() * (p.t * p.t),
            -(p.x * p.x - p.y * p.y),
            fq_modulus() as int,
        ),
{
    lemma_product_3(p.x, p.y, 1);
}

/// The two sums of three points of the curve have the same affine `x`:
/// `E_L G_R` is congruent to `E_R G_L`.
proof fn lemma_x_agrees(p1: IntPoint, p2: IntPoint, p3: IntPoint)
    requires
        int_on_curve(p1),
        int_on_curve(p2),
        int_on_curve(p3),
    ensures
        congruent(
            sum_e(int_add(p1, p2), p3) * sum_g(p1, int_add(p2, p3)),
            sum_e(p1, int_add(p2, p3)) * sum_g(int_add(p1, p2), p3),
            fq_modulus() as int,
        ),
{
    let m = fq_modulus() as int;
    let d = coeff_d() as int;
    let k12 = pair_of(p1.x, p1.y, p2.x, p2.y);
    let k21 = pair_of(p2.x, p2.y, p1.x, p1.y);
    let k13 = pair_of(p1.x, p1.y, p3.x, p3.y);
    let k23 = pair_of(p2.x, p2.y, p3.x, p3.y);
    let s = outer_sum(p1.x, p1.y, k23);
    let b3 = outer_cross(p1.x, p1.y, k23);
    let b1 = outer_difference(p1.x, p1.y, k23);
    let w12 = k12.e * k12.h;
    let w23 = k23.e * k23.h;
    let dv = k13.pa * k13.sb - k13.pb * k13.sa;
    let el = sum_e(int_add(p1, p2), p3);
    let gl = sum_g(int_add(p1, p2), p3);
    let er = sum_e(p1, int_add(p2, p3));
    let gr = sum_g(p1, int_add(p2, p3));
    lemma_left_parts(p1, p2, p3);
    lemma_right_parts(p1, p2, p3);
    lemma_triple_forms(p1.x, p1.y, p2.x, p2.y, p3.x, p3.y);
    lemma_curve_gives(p1);
    lemma_curve_gives(p2);
    lemma_curve_gives(p3);
    // the three identities, with each point as the outer one
    lemma_identity_one(p1.x, p1.y, p2.x, p2.y, p3.x, p3.y);
    lemma_identity_one(p3.x, p3.y, p2.x, p2.y, p1.x, p1.y);
    lemma_identity_two(p2.x, p2.y, p1.x, p1.y, p3.x, p3.y);
    // the mixed terms of the two pairs
    lemma_pair_formulas(p1.x, p1.y, p2.x, p2.y);
    lemma_pair_formulas(p2.x, p2.y, p3.x, p3.y);
    lemma_mixed_terms(k13.pa, k12.pb, k13.pb, k13.sa, k12.sb, k13.sb);
    lemma_difference_vanishes(
        p1.z,
        p1.t,
        p2.z,
        p2.t,
        p3.z,
        p3.t,
        d,
        s,
        b3,
        b1,
        w12,
        w23,
        dv,
        k13.pa,
        k12.pb,
        k13.pb,
        k13.aa,
        k12.ab,
        k13.ab,
        m,
    );
    lemma_congruent_add(el * gr - er * gl, 0, er * gl, er * gl, m);
}

/// The mixed terms of two pairs with a point in common:
/// `p1 (p2 s3 + p3 s2) - p3 (p1 s2 + p2 s1) = p2 (p1 s3 - p3 s1)`.
proof fn lemma_mixed_terms(p1: int, p2: int, p3: int, s1: int, s2: int, s3: int)
    ensures
        p1 * (p2 * s3 + p3 * s2) - p3 * (p1 * s2 + p2 * s1) == p2 * (p1 * s3 - p3 * s1),
        p1 * (-(p2 * s3 + p3 * s2)) - p3 * (-(p1 * s2 + p2 * s1)) == p2 * (-(p1 * s3 - p3 * s1)),
{
    lemma_distribute(p1, p2 * s3, p3 * s2);
    lemma_distribute(p3, p1 * s2, p2 * s1);
    lemma_distribute(p2, p1 * s3, p3 * s1);
    assert(p1 * (p2 * s3) == p2 * (p1 * s3)) by (nonlinear_arith);
    assert(p1 * (p3 * s2) == p3 * (p1 * s2)) by (nonlinear_arith);
    assert(p3 * (p2 * s1) == p2 * (p3 * s1)) by (nonlinear_arith);
    let a = p2 * s3 + p3 * s2;
    let b = p1 * s2 + p2 * s1;
    let c = p1 * s3 - p3 * s1;
    assert(p1 * (-a) == -(p1 * a)) by (nonlinear_arith);
    assert(p3 * (-b) == -(p3 * b)) by (nonlinear_arith);
    assert(p2 * (-c) == -(p2 * c)) by (nonlinear_arith);
}

/// The two sums of three points of the curve have the same affine `y`:
/// `H_L F_R` is congruent to `H_R F_L`.
///
/// This is the statement about `x` over again, with `x` and `y` exchanged in
/// every point and the sign of every mixed term changed.
proof fn lemma_y_agrees(p1: IntPoint, p2: IntPoint, p3: IntPoint)
    requires
        int_on_curve(p1),
        int_on_curve(p2),
        int_on_curve(p3),
    ensures
        congruent(
            sum_h(int_add(p1, p2), p3) * sum_f(p1, int_add(p2, p3)),
            sum_h(p1, int_add(p2, p3)) * sum_f(int_add(p1, p2), p3),
            fq_modulus() as int,
        ),
{
    let m = fq_modulus() as int;
    let d = coeff_d() as int;
    // the quantities of the pairs, with x and y exchanged
    let k12 = pair_of(p1.y, p1.x, p2.y, p2.x);
    let k21 = pair_of(p2.y, p2.x, p1.y, p1.x);
    let k13 = pair_of(p1.y, p1.x, p3.y, p3.x);
    let k23 = pair_of(p2.y, p2.x, p3.y, p3.x);
    // and as they are
    let j12 = pair_of(p1.x, p1.y, p2.x, p2.y);
    let j23 = pair_of(p2.x, p2.y, p3.x, p3.y);
    assert(k12.e == j12.e && k12.h == j12.h && k23.e == j23.e && k23.h == j23.h);
    let s = outer_sum(p1.y, p1.x, k23);
    let b3 = outer_cross(p1.y, p1.x, k23);
    let b1 = outer_difference(p1.y, p1.x, k23);
    let w12 = k12.e * k12.h;
    let w23 = k23.e * k23.h;
    let dv = k13.pa * k13.sb - k13.pb * k13.sa;
    let hl = sum_h(int_add(p1, p2), p3);
    let fl = sum_f(int_add(p1, p2), p3);
    let hr = sum_h(p1, int_add(p2, p3));
    let fr = sum_f(p1, int_add(p2, p3));
    lemma_left_parts(p1, p2, p3);
    lemma_right_parts(p1, p2, p3);
    lemma_triple_forms(p1.y, p1.x, p2.y, p2.x, p3.y, p3.x);
    lemma_curve_gives(p1);
    lemma_curve_gives(p2);
    lemma_curve_gives(p3);
    lemma_identity_one(p1.y, p1.x, p2.y, p2.x, p3.y, p3.x);
    lemma_identity_one(p3.y, p3.x, p2.y, p2.x, p1.y, p1.x);
    lemma_identity_two(p2.y, p2.x, p1.y, p1.x, p3.y, p3.x);
    lemma_pair_formulas(p1.y, p1.x, p2.y, p2.x);
    lemma_pair_formulas(p2.y, p2.x, p3.y, p3.x);
    lemma_mixed_terms(k13.pa, k12.pb, k13.pb, k13.sa, k12.sb, k13.sb);
    // with x and y exchanged, each a is the negative of Y^2 - X^2
    let a1 = -k13.aa;
    let a2 = -k12.ab;
    let a3 = -k13.ab;
    let p1v = k13.pa;
    let p2v = k12.pb;
    let p3v = k13.pb;
    assert((p2v * a3) * s + (p3v * a2) * b1 + b3 * (-w23) == 0) by {
        assert((p2v * a3) * s == -((p2v * k13.ab) * s)) by (nonlinear_arith)
            requires
                a3 == -k13.ab,
        ;
        assert((p3v * a2) * b1 == -((p3v * k12.ab) * b1)) by (nonlinear_arith)
            requires
                a2 == -k12.ab,
        ;
        assert(b3 * (-w23) == -(b3 * w23)) by (nonlinear_arith);
        assert(k23.pa == p2v && k23.pb == p3v && k23.ab == k13.ab && k23.aa == k12.ab);
    }
    assert((p2v * a1) * s + (p1v * a2) * b3 + b1 * (-w12) == 0) by {
        assert((p2v * a1) * s == -((p2v * k13.aa) * s)) by (nonlinear_arith)
            requires
                a1 == -k13.aa,
        ;
        assert((p1v * a2) * b3 == -((p1v * k12.ab) * b3)) by (nonlinear_arith)
            requires
                a2 == -k12.ab,
        ;
        assert(b1 * (-w12) == -(b1 * w12)) by (nonlinear_arith);
        assert(k21.pa == p2v && k21.pb == p1v && k21.ab == k13.aa && k21.aa == k12.ab);
    }
    assert(s * (-dv) + (p1v * a3) * b3 - (p3v * a1) * b1 == 0) by {
        assert(s * (-dv) == -(s * dv)) by (nonlinear_arith);
        assert((p1v * a3) * b3 == -((p1v * k13.ab) * b3)) by (nonlinear_arith)
            requires
                a3 == -k13.ab,
        ;
        assert((p3v * a1) * b1 == -((p3v * k13.aa) * b1)) by (nonlinear_arith)
            requires
                a1 == -k13.aa,
        ;
    }
    assert(d * (-w12) == -(d * w12)) by (nonlinear_arith);
    assert(d * (-w23) == -(d * w23)) by (nonlinear_arith);
    assert((d * (-w12)) * p3.t == -((d * w12) * p3.t)) by (nonlinear_arith);
    assert((d * (-w23)) * p1.t == -((d * w23) * p1.t)) by (nonlinear_arith);
    lemma_difference_vanishes(
        p1.z,
        p1.t,
        p2.z,
        p2.t,
        p3.z,
        p3.t,
        d,
        s,
        b3,
        b1,
        -w12,
        -w23,
        -dv,
        p1v,
        p2v,
        p3v,
        a1,
        a2,
        a3,
        m,
    );
    lemma_congruent_add(hl * fr - hr * fl, 0, hr * fl, hr * fl, m);
}

/// Addition is associative on the curve, for the integers that model the
/// points: `X_L Y_R` is congruent to `Y_L X_R`.
pub proof fn lemma_int_add_associative(p1: IntPoint, p2: IntPoint, p3: IntPoint)
    requires
        int_on_curve(p1),
        int_on_curve(p2),
        int_on_curve(p3),
    ensures
        ({
            let l = int_add(int_add(p1, p2), p3);
            let r = int_add(p1, int_add(p2, p3));
            congruent(l.x * r.y, l.y * r.x, fq_modulus() as int)
        }),
{
    let m = fq_modulus() as int;
    let s12 = int_add(p1, p2);
    let s23 = int_add(p2, p3);
    let l = int_add(s12, p3);
    let r = int_add(p1, s23);
    let el = sum_e(s12, p3);
    let fl = sum_f(s12, p3);
    let gl = sum_g(s12, p3);
    let hl = sum_h(s12, p3);
    let er = sum_e(p1, s23);
    let fr = sum_f(p1, s23);
    let gr = sum_g(p1, s23);
    let hr = sum_h(p1, s23);
    lemma_pair_parts(s12, p3);
    lemma_pair_parts(p1, s23);
    lemma_x_agrees(p1, p2, p3);
    lemma_y_agrees(p1, p2, p3);
    // X_L Y_R = (E_L G_R)(H_R F_L) and Y_L X_R = (E_R G_L)(H_L F_R)
    lemma_swap_inner(el, fl, gr, hr);
    lemma_product_3(fl, hr, 1);
    assert(l.x * r.y == (el * gr) * (hr * fl));
    lemma_swap_inner(gl, hl, er, fr);
    lemma_product_3(gl, er, 1);
    assert(l.y * r.x == (er * gl) * (hl * fr));
    lemma_congruent_mul(el * gr, er * gl, hr * fl, hl * fr, m);
}

/// Addition is associative: for points of the curve, `(a + b) + c` and
/// `a + (b + c)` are equal as group elements.
pub proof fn lemma_add_associative(a: Point, b: Point, c: Point)
    requires
        point_on_curve(a),
        point_on_curve(b),
        point_on_curve(c),
    ensures
        point_eq(point_add(point_add(a, b), c), point_add(a, point_add(b, c))),
{
    let ma = as_model(a);
    let mb = as_model(b);
    let mc = as_model(c);
    lemma_add_models(ma, a, mb, b);
    lemma_add_models(mb, b, mc, c);
    lemma_add_models(int_add(ma, mb), point_add(a, b), mc, c);
    lemma_add_models(ma, a, int_add(mb, mc), point_add(b, c));
    lemma_int_add_associative(ma, mb, mc);
    lemma_eq_from_models(
        int_add(int_add(ma, mb), mc),
        point_add(point_add(a, b), c),
        int_add(ma, int_add(mb, mc)),
        point_add(a, point_add(b, c)),
    );
}

} // verus!
