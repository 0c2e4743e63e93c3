//! The proof that the Elligator map lands on the curve.
//!
//! The map finds `s` and `t` with `t^2 = (1 - s^2)^2 - 4 d s^2`, a point of the
//! Jacobi quartic that goes with the curve, and carries it over to the curve as
//! `(2 s t : (1 - s^2)(1 + s^2) : 2 s (1 + s^2) : (1 - s^2) t)`.

use vstd::prelude::*;
use crate::congruence::{congruent, lemma_congruent_add, lemma_congruent_mul, lemma_congruent_sub};
use crate::polynomial::{lemma_distribute, lemma_product_2x2, lemma_product_3, lemma_swap_inner};

verus! {

/// The denominator of the map, for `d = 3021` and `a = -1`, as a polynomial in
/// `r`.
pub open spec fn map_den(r: int) -> int {
    (3021 * r - 3022) * (3022 * r - 3021)
}

/// With `k = a - 2 d`: `k^2 (r - 1)^2 - (r + 1)^2 = 4 den`.
proof fn lemma_key_identity(r: int)
    ensures
        36517849 * ((r - 1) * (r - 1)) - (r + 1) * (r + 1) == 4 * map_den(r),
{
    let rr = r * r;
    lemma_product_2x2(r, 1, r, 1);
    assert((r - 1) * (r - 1) == rr - 2 * r + 1);
    assert((r + 1) * (r + 1) == rr + 2 * r + 1);
    lemma_product_2x2(3021 * r, 3022, 3022 * r, 3021);
    assert((3021 * r) * (3022 * r) == 9129462 * rr) by (nonlinear_arith)
        requires
            rr == r * r,
    ;
    assert((3021 * r) * 3021 == 9126441 * r);
    assert(3022 * (3022 * r) == 9132484 * r);
    assert(map_den(r) == 9129462 * rr - 18258925 * r + 9129462);
}

/// The two polynomials that the equation of the quartic comes down to vanish:
/// one for the case that the map's ratio is a square, one for the case that it
/// is not.
proof fn lemma_quartic_polynomials(r: int)
    ensures
        ({
            let k = -6043int;
            let mm = (r - 1) * (k * k);
            let n = (r + 1) * k;
            let dn = map_den(r);
            &&& 1 * (mm * mm - n * n) + 2 * (mm * dn) + 12086 * (n * dn) == 0
            &&& r * (mm * mm - n * n) - 2 * (mm * dn) + 12086 * (n * dn) == 0
        }),
{
    let k = -6043int;
    let kk = 36517849int;
    assert(k * k == kk);
    let a = r - 1;
    let b = r + 1;
    let mm = a * kk;
    let n = b * k;
    let dn = map_den(r);
    lemma_key_identity(r);
    // mm^2 - n^2 is 4 k^2 den
    lemma_swap_inner(a, kk, a, kk);
    lemma_swap_inner(b, k, b, k);
    let aa = a * a;
    let bb = b * b;
    assert(mm * mm == aa * (kk * kk));
    assert(n * n == bb * kk);
    lemma_product_3(aa, kk, kk);
    lemma_distribute(kk, aa * kk, bb);
    lemma_product_3(kk, aa * kk, 1);
    lemma_product_3(kk, bb, 1);
    lemma_product_3(aa, kk, 1);
    assert(mm * mm - n * n == kk * (kk * aa - bb));
    assert(kk * aa - bb == 4 * dn);
    let kd = kk * dn;
    assert(kk * (4 * dn) == 4 * kd) by (nonlinear_arith)
        requires
            kd == kk * dn,
    ;
    assert(mm * mm - n * n == 4 * kd);
    // the mixed terms
    lemma_product_3(a, kk, dn);
    assert(mm * dn == a * kd);
    lemma_product_3(b, k, dn);
    let kdn = k * dn;
    assert(n * dn == b * kdn);
    assert(12086 * kdn == -2 * kd) by (nonlinear_arith)
        requires
            kdn == -6043 * dn,
            kd == 36517849 * dn,
    ;
    lemma_distribute(kd, r, 1);
    lemma_product_3(a, kd, 1);
    lemma_product_3(b, kd, 1);
    lemma_product_3(r, kd, 1);
    assert(a * kd == r * kd - kd);
    assert(b * kd == r * kd + kd);
    assert(12086 * (b * kdn) == -2 * (b * kd)) by (nonlinear_arith)
        requires
            12086 * kdn == -2 * kd,
    ;
    assert(r * (4 * kd) == 4 * (r * kd)) by (nonlinear_arith);
}

/// The equation of the quartic, over the integers.
///
/// Here `w` stands for `isri^2 num`, so that `s^2 = w n` and
/// `t = sigma w mm - 1`. If `w den` is congruent to `rho`, where `(sigma, rho)`
/// is `(-1, 1)` or `(1, r)`, and `den` has an inverse, or if `w` is zero, then
/// `t^2 - (1 - s^2)^2 + 4 d s^2` is congruent to zero.
pub proof fn lemma_quartic_equation(
    r: int,
    w: int,
    sigma: int,
    rho: int,
    unit: int,
    t: int,
    f: int,
    m: int,
)
    requires
        m > 0,
        (sigma == -1 && rho == 1) || (sigma == 1 && rho == r),
        w == 0 || (congruent(w * map_den(r), rho, m) && congruent(map_den(r) * unit, 1, m)),
        t == (sigma * w) * ((r - 1) * 36517849) - 1,
        f == 1 - w * ((r + 1) * (-6043)),
    ensures
        congruent(t * t - f * f + 12084 * (w * ((r + 1) * (-6043))), 0, m),
{
    let k = -6043int;
    assert(k * k == 36517849);
    let mm = (r - 1) * (k * k);
    let n = (r + 1) * k;
    let dn = map_den(r);
    let wn = w * n;
    let wm = w * mm;
    let j = t * t - f * f + 12084 * wn;
    // t^2 and f^2
    let swm = (sigma * w) * mm;
    lemma_product_3(sigma, w, mm);
    assert(swm == sigma * wm);
    lemma_product_2x2(swm, 1, swm, 1);
    assert(t * t == swm * swm - 2 * swm + 1);
    lemma_swap_inner(sigma, wm, sigma, wm);
    assert(sigma * sigma == 1) by (nonlinear_arith)
        requires
            sigma == -1 || sigma == 1,
    ;
    assert(swm * swm == wm * wm);
    lemma_product_2x2(1, wn, 1, wn);
    assert(f * f == 1 - 2 * wn + wn * wn);
    // j is w times a bracket
    let br = w * (mm * mm - n * n) - (2 * sigma) * mm + 12086 * n;
    lemma_swap_inner(w, mm, w, mm);
    lemma_swap_inner(w, n, w, n);
    let ww = w * w;
    lemma_distribute(ww, mm * mm, n * n);
    lemma_product_3(w, w, mm * mm - n * n);
    lemma_product_3(w, 2 * sigma, mm);
    lemma_product_3(w, sigma, mm);
    lemma_distribute(w, w * (mm * mm - n * n), (2 * sigma) * mm);
    lemma_distribute(w, w * (mm * mm - n * n) - (2 * sigma) * mm, 12086 * n);
    assert(w * ((2 * sigma) * mm) == 2 * swm) by (nonlinear_arith)
        requires
            swm == sigma * (w * mm),
    ;
    assert(w * (12086 * n) == 12086 * wn) by (nonlinear_arith)
        requires
            wn == w * n,
    ;
    assert(j == w * br);
    if w == 0 {
        assert(w * br == 0) by (nonlinear_arith)
            requires
                w == 0,
        ;
    } else {
        // the bracket times den, with w den still in place
        let beta = w * dn;
        let sq = mm * mm - n * n;
        lemma_distribute(dn, w * sq, (2 * sigma) * mm);
        lemma_distribute(dn, w * sq - (2 * sigma) * mm, 12086 * n);
        lemma_product_3(w, sq, dn);
        lemma_product_3(beta, sq, 1);
        lemma_product_3(dn, w * sq, 1);
        assert(dn * (w * sq) == beta * sq);
        assert(dn * ((2 * sigma) * mm) == (2 * sigma) * (mm * dn)) by (nonlinear_arith);
        assert(dn * (12086 * n) == 12086 * (n * dn)) by (nonlinear_arith);
        lemma_product_3(dn, br, 1);
        assert(br * dn == beta * sq - (2 * sigma) * (mm * dn) + 12086 * (n * dn));
        // w den gives way to rho
        lemma_congruent_mul(beta, rho, sq, sq, m);
        lemma_congruent_sub(beta * sq, rho * sq, (2 * sigma) * (mm * dn), (2 * sigma) * (mm * dn), m);
        lemma_congruent_add(
            beta * sq - (2 * sigma) * (mm * dn),
            rho * sq - (2 * sigma) * (mm * dn),
            12086 * (n * dn),
            12086 * (n * dn),
            m,
        );
        lemma_quartic_polynomials(r);
        assert(rho * sq - (2 * sigma) * (mm * dn) + 12086 * (n * dn) == 0) by {
            if sigma == -1 {
                assert((2 * sigma) * (mm * dn) == -(2 * (mm * dn))) by (nonlinear_arith)
                    requires
                        sigma == -1,
                ;
            } else {
                assert((2 * sigma) * (mm * dn) == 2 * (mm * dn)) by (nonlinear_arith)
                    requires
                        sigma == 1,
                ;
            }
        }
        assert(congruent(br * dn, 0, m));
        // so j den is congruent to zero, and den can be taken off
        lemma_product_3(w, br, dn);
        lemma_congruent_mul(w, w, br * dn, 0, m);
        assert(w * 0 == 0);
        assert(congruent(j * dn, 0, m));
        lemma_congruent_mul(j * dn, 0, unit, unit, m);
        assert(0 * unit == 0);
        lemma_product_3(j, dn, unit);
        lemma_congruent_mul(j, j, dn * unit, 1, m);
        assert(j * 1 == j);
    }
}

/// From the quartic to the curve, over the integers: if
/// `t^2 - (1 - s^2)^2 + 4 d s^2` is congruent to zero, the point that the map
/// makes of `s` and `t` satisfies both equations of the curve.
pub proof fn lemma_quartic_to_curve(s: int, t: int, m: int)
    requires
        m > 0,
        congruent(t * t - (1 - s * s) * (1 - s * s) + 12084 * (s * s), 0, m),
    ensures
        ({
            let f = 1 - s * s;
            let g = 1 + s * s;
            let x = (2 * s) * t;
            let y = f * g;
            let tt = (2 * s) * g;
            let z = f * t;
            &&& congruent(y * y - x * x, z * z + 3021 * (tt * tt), m)
            &&& x * y == z * tt
        }),
{
    let ss = s * s;
    let f = 1 - ss;
    let g = 1 + ss;
    let x = (2 * s) * t;
    let y = f * g;
    let tt = (2 * s) * g;
    let z = f * t;
    let j = t * t - f * f + 12084 * ss;
    let ff = f * f;
    let gg = g * g;
    let t2 = t * t;
    let e2 = 4 * ss;
    lemma_swap_inner(2 * s, t, 2 * s, t);
    lemma_swap_inner(2 * s, g, 2 * s, g);
    lemma_swap_inner(f, g, f, g);
    lemma_swap_inner(f, t, f, t);
    assert((2 * s) * (2 * s) == e2) by (nonlinear_arith)
        requires
            e2 == 4 * (s * s),
    ;
    assert(x * x == e2 * t2);
    assert(y * y == ff * gg);
    assert(tt * tt == e2 * gg);
    assert(z * z == ff * t2);
    lemma_product_2x2(1, ss, 1, ss);
    assert(gg == ff + e2);
    // both sides on one side: -g^2 j
    let lhs = y * y - x * x;
    let rhs = z * z + 3021 * (tt * tt);
    lemma_distribute(gg, t2 - ff, 12084 * ss);
    lemma_distribute(gg, t2, ff);
    lemma_distribute(t2, ff, e2);
    lemma_product_3(gg, t2, 1);
    lemma_product_3(gg, ff, 1);
    lemma_product_3(e2, t2, 1);
    lemma_product_3(ff, t2, 1);
    assert(3021 * (e2 * gg) == gg * (12084 * ss)) by (nonlinear_arith)
        requires
            e2 == 4 * ss,
    ;
    assert(lhs - rhs == -(gg * j));
    lemma_congruent_mul(gg, gg, j, 0, m);
    assert(gg * 0 == 0);
    lemma_congruent_sub(0, 0, gg * j, 0, m);
    assert(congruent(lhs - rhs, 0, m));
    lemma_congruent_add(lhs - rhs, 0, rhs, rhs, m);
    assert(x * y == z * tt) by (nonlinear_arith)
        requires
            x == (2 * s) * t,
            y == f * g,
            tt == (2 * s) * g,
            z == f * t,
    ;
}

} // verus!
