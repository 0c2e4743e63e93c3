//! Points that stand for one group element have one encoding.
//!
//! A group element is a class of points: a point, its twin `(-X : -Y : T : Z)`,
//! and each of the two with its four coordinates multiplied by one field
//! element that is not zero. Encoding gives every point of a class the same 32
//! bytes.

use vstd::prelude::*;
use vstd::arithmetic::div_mod::{lemma_fundamental_div_mod_converse, lemma_mod_bound, lemma_small_mod};
use crate::congruence::{congruent, lemma_congruent_mul, lemma_congruent_sub};
use crate::curve::point_on_curve;
use crate::element::{point_add, point_reduced, Point};
use crate::encoding::{
    a_minus_d, compress_to_field, encode_point, lemma_abs_of_negative, lemma_twin_encoding,
};
use crate::fields::fq::{
    fq_abs, fq_add, fq_inv, fq_modulus, fq_mul, fq_neg, fq_sqrt_ratio_zeta, fq_sub, is_sqrt_ratio,
    lemma_fq_add_follows, lemma_fq_equal, lemma_fq_inverse, lemma_fq_mul_associative,
    lemma_fq_mul_follows, lemma_fq_mul_one_zero, lemma_fq_neg_follows, lemma_fq_sub_follows,
    zeta,
};
use crate::laws::{
    as_model, lemma_eq_from_models, lemma_scale_equal, lemma_torsion_sum_is_twin, point_scale,
    point_torsion, point_twin, IntPoint,
};
use crate::modular::lemma_prime_units;
use crate::prime_modulus::lemma_fq_modulus_prime;
use crate::sqrt_proof::{
    has_root, lemma_no_zero_divisors, lemma_root_cases, lemma_root_is_residue,
};

verus! {

/// In the base field a factor that is not zero cancels.
pub proof fn lemma_cancel(a: nat, b: nat, d: nat)
    requires
        a < fq_modulus(),
        b < fq_modulus(),
        0 < d < fq_modulus(),
        fq_mul(a, d) == fq_mul(b, d),
    ensures
        a == b,
{
    lemma_fq_modulus_prime();
    lemma_prime_units(fq_modulus(), d);
    lemma_fq_inverse(d, 0);
    lemma_fq_mul_associative(a, d, fq_inv(d));
    lemma_fq_mul_associative(b, d, fq_inv(d));
    lemma_fq_mul_one_zero(a);
    lemma_fq_mul_one_zero(b);
}

/// In the base field two residues with the same square are equal or negatives of
/// each other.
pub proof fn lemma_square_roots_agree(a: nat, b: nat)
    requires
        a < fq_modulus(),
        b < fq_modulus(),
        fq_mul(a, a) == fq_mul(b, b),
    ensures
        a == b || a == fq_neg(b),
{
    lemma_fq_modulus_prime();
    let q = fq_modulus() as int;
    let ai = a as int;
    let bi = b as int;
    let s = fq_sub(a, b);
    let t = fq_add(a, b);
    // (a - b)(a + b) = a^2 - b^2 = 0
    lemma_fq_sub_follows(a, b, ai, bi);
    lemma_fq_add_follows(a, b, ai, bi);
    lemma_fq_mul_follows(s, t, ai - bi, ai + bi);
    lemma_fq_mul_follows(a, a, ai, ai);
    lemma_fq_mul_follows(b, b, bi, bi);
    lemma_congruent_sub(ai * ai, fq_mul(a, a) as int, bi * bi, fq_mul(b, b) as int, q);
    assert((ai - bi) * (ai + bi) == ai * ai - bi * bi) by (nonlinear_arith);
    lemma_small_mod(0, fq_modulus());
    lemma_fq_equal(fq_mul(s, t), 0);
    lemma_no_zero_divisors(s, t);
    if s == 0 {
        if a >= b {
            lemma_small_mod((a - b) as nat, fq_modulus());
        } else {
            lemma_fundamental_div_mod_converse(ai - bi, q, -1, ai - bi + q);
        }
    } else {
        if b == 0 {
            lemma_small_mod(a, fq_modulus());
        } else {
            if a + b < q {
                lemma_small_mod(a + b, fq_modulus());
            } else {
                lemma_fundamental_div_mod_converse(ai + bi, q, 1, ai + bi - q);
            }
            lemma_fundamental_div_mod_converse(-bi, q, -1, q - bi);
        }
    }
}

/// A square root of `num / dd`, where `dd` is `k^2 d`, gives the square root
/// `r k` of `num / d`.
pub proof fn lemma_root_transfer(r: nat, num: nat, d: nat, dd: nat, k: nat)
    requires
        num < fq_modulus(),
        congruent(dd as int, (k as int) * (k as int) * (d as int), fq_modulus() as int),
        is_sqrt_ratio(r, num, dd),
    ensures
        is_sqrt_ratio(fq_mul(r, k), num, d),
{
    let q = fq_modulus() as int;
    let ri = r as int;
    let ki = k as int;
    let di = d as int;
    lemma_fq_mul_follows(r, k, ri, ki);
    lemma_fq_mul_follows(fq_mul(r, k), fq_mul(r, k), ri * ki, ri * ki);
    lemma_fq_mul_follows(fq_mul(fq_mul(r, k), fq_mul(r, k)), d, (ri * ki) * (ri * ki), di);
    lemma_fq_mul_follows(r, r, ri, ri);
    lemma_fq_mul_follows(fq_mul(r, r), dd, ri * ri, ki * ki * di);
    assert(((ri * ki) * (ri * ki)) * di == (ri * ri) * (ki * ki * di)) by (nonlinear_arith);
    lemma_fq_equal(fq_mul(fq_mul(fq_mul(r, k), fq_mul(r, k)), d), num);
}

/// The root that the square root of `1 / dd` returns, where `dd` is `k^2 d`
/// for some `k` that is not zero, is the root that it returns for `1 / d`
/// divided by `k`, up to its sign.
pub proof fn lemma_scaled_root(d: nat, dd: nat, k: nat)
    requires
        d < fq_modulus(),
        dd < fq_modulus(),
        0 < k < fq_modulus(),
        congruent(dd as int, (k as int) * (k as int) * (d as int), fq_modulus() as int),
    ensures
        ({
            let v = fq_sqrt_ratio_zeta(1, d).1;
            let vv = fq_sqrt_ratio_zeta(1, dd).1;
            fq_mul(vv, k) == v || fq_mul(vv, k) == fq_neg(v)
        }),
{
    lemma_fq_modulus_prime();
    let q = fq_modulus() as int;
    let v = fq_sqrt_ratio_zeta(1, d).1;
    let vv = fq_sqrt_ratio_zeta(1, dd).1;
    let ki = k as int;
    let di = d as int;
    let kk = fq_mul(k, k);
    lemma_fq_mul_follows(k, k, ki, ki);
    lemma_fq_mul_follows(kk, d, ki * ki, di);
    lemma_fq_equal(dd, fq_mul(kk, d));
    lemma_fq_mul_one_zero(k);
    lemma_fq_mul_one_zero(kk);
    if d == 0 {
        assert(dd == 0);
    } else {
        if kk == 0 {
            lemma_no_zero_divisors(k, k);
        }
        if dd == 0 {
            lemma_no_zero_divisors(kk, d);
        }
        // d is e^2 dd for the inverse e of k
        lemma_prime_units(fq_modulus(), k);
        lemma_fq_inverse(k, 0);
        let e = fq_inv(k);
        let ei = e as int;
        lemma_fq_mul_follows(e, k, ei, ki);
        lemma_congruent_mul(ei * ki, 1, ei * ki, 1, q);
        lemma_congruent_mul((ei * ki) * (ei * ki), 1, di, di, q);
        lemma_congruent_mul(ei * ei, ei * ei, dd as int, ki * ki * di, q);
        assert(ei * ei * (ki * ki * di) == ((ei * ki) * (ei * ki)) * di) by (nonlinear_arith);
        assert(congruent(di, ei * ei * dd, q));
        let zn = fq_mul(zeta(), 1);
        lemma_mod_bound((zeta() * 1) as int, q);
        // both ratios have roots for the same numerators
        assert(has_root(1, dd) ==> has_root(1, d)) by {
            if has_root(1, dd) {
                let r = choose|r: nat| is_sqrt_ratio(r, 1, dd);
                lemma_root_transfer(r, 1, d, dd, k);
            }
        }
        assert(has_root(1, d) ==> has_root(1, dd)) by {
            if has_root(1, d) {
                let r = choose|r: nat| is_sqrt_ratio(r, 1, d);
                lemma_root_transfer(r, 1, dd, d, e);
            }
        }
        assert(has_root(zn, dd) ==> has_root(zn, d)) by {
            if has_root(zn, dd) {
                let r = choose|r: nat| is_sqrt_ratio(r, zn, dd);
                lemma_root_transfer(r, zn, d, dd, k);
            }
        }
        assert(has_root(zn, d) ==> has_root(zn, dd)) by {
            if has_root(zn, d) {
                let r = choose|r: nat| is_sqrt_ratio(r, zn, d);
                lemma_root_transfer(r, zn, dd, d, e);
            }
        }
        lemma_root_cases(1, d);
        lemma_root_cases(1, dd);
        let m = fq_mul(vv, k);
        lemma_mod_bound((vv * k) as int, q);
        lemma_mod_bound((m * m) as int, q);
        lemma_mod_bound((v * v) as int, q);
        if has_root(1, d) {
            lemma_root_transfer(vv, 1, d, dd, k);
            lemma_cancel(fq_mul(m, m), fq_mul(v, v), d);
        } else if has_root(zn, d) {
            lemma_root_transfer(vv, zn, d, dd, k);
            lemma_cancel(fq_mul(m, m), fq_mul(v, v), d);
        } else {
            assert(vv == 0 && v == 0);
            assert(0 * k == 0);
            lemma_small_mod(0, fq_modulus());
        }
        if has_root(1, d) || has_root(zn, d) {
            lemma_root_is_residue(1, d);
            lemma_square_roots_agree(m, v);
        }
    }
}

/// A product with a factor negated, or not, has the absolute value of the
/// product itself.
pub proof fn lemma_abs_of_signed_product(m: nat, v: nat, u: nat)
    requires
        v < fq_modulus(),
        m == v || m == fq_neg(v),
    ensures
        fq_abs(fq_mul(m, u)) == fq_abs(fq_mul(v, u)),
{
    if m != v {
        let vi = v as int;
        let ui = u as int;
        lemma_fq_neg_follows(v, vi);
        lemma_fq_mul_follows(m, u, -vi, ui);
        lemma_fq_mul_follows(v, u, vi, ui);
        lemma_fq_neg_follows(fq_mul(v, u), vi * ui);
        assert((-vi) * ui == -(vi * ui)) by (nonlinear_arith);
        lemma_fq_equal(fq_mul(m, u), fq_neg(fq_mul(v, u)));
        lemma_abs_of_negative(fq_mul(v, u));
    }
}

/// Scaling the coordinates of a point by a field element that is not zero
/// leaves its encoding as it is.
pub proof fn lemma_scale_encoding(p: Point, c: nat)
    requires
        point_reduced(p),
        0 < c < fq_modulus(),
    ensures
        compress_to_field(point_scale(p, c)) == compress_to_field(p),
        encode_point(point_scale(p, c)) == encode_point(p),
{
    lemma_fq_modulus_prime();
    let q = fq_modulus() as int;
    let w = point_scale(p, c);
    let x = p.x as int;
    let t = p.t as int;
    let z = p.z as int;
    let ci = c as int;
    let amd = a_minus_d();
    let ai = amd as int;
    let k = fq_mul(c, c);
    let ki = k as int;
    lemma_fq_mul_follows(c, c, ci, ci);
    if k == 0 {
        lemma_no_zero_divisors(c, c);
    }
    lemma_fq_mul_follows(p.x, c, x, ci);
    lemma_fq_mul_follows(p.t, c, t, ci);
    lemma_fq_mul_follows(p.z, c, z, ci);
    // u1 is multiplied by c^2
    let u1 = fq_mul(fq_add(p.x, p.t), fq_sub(p.x, p.t));
    let u1s = fq_mul(fq_add(w.x, w.t), fq_sub(w.x, w.t));
    let ui = u1 as int;
    lemma_fq_add_follows(p.x, p.t, x, t);
    lemma_fq_sub_follows(p.x, p.t, x, t);
    lemma_fq_mul_follows(fq_add(p.x, p.t), fq_sub(p.x, p.t), x + t, x - t);
    lemma_fq_add_follows(w.x, w.t, x * ci, t * ci);
    lemma_fq_sub_follows(w.x, w.t, x * ci, t * ci);
    lemma_fq_mul_follows(fq_add(w.x, w.t), fq_sub(w.x, w.t), x * ci + t * ci, x * ci - t * ci);
    assert((x * ci + t * ci) * (x * ci - t * ci) == (ci * ci) * ((x + t) * (x - t)))
        by (nonlinear_arith);
    lemma_congruent_mul(ci * ci, ki, (x + t) * (x - t), ui, q);
    assert(congruent(u1s as int, ki * ui, q));
    // the denominator under the root is multiplied by c^4
    let xx = fq_mul(p.x, p.x);
    let xxs = fq_mul(w.x, w.x);
    lemma_fq_mul_follows(p.x, p.x, x, x);
    lemma_fq_mul_follows(w.x, w.x, x * ci, x * ci);
    assert((x * ci) * (x * ci) == (ci * ci) * (x * x)) by (nonlinear_arith);
    lemma_congruent_mul(ci * ci, ki, x * x, xx as int, q);
    assert(congruent(xxs as int, ki * xx, q));
    let d = fq_mul(fq_mul(u1, amd), xx);
    let ds = fq_mul(fq_mul(u1s, amd), xxs);
    let di = d as int;
    lemma_fq_mul_follows(u1, amd, ui, ai);
    lemma_fq_mul_follows(fq_mul(u1, amd), xx, ui * ai, xx as int);
    lemma_fq_mul_follows(u1s, amd, ki * ui, ai);
    lemma_fq_mul_follows(fq_mul(u1s, amd), xxs, (ki * ui) * ai, ki * xx);
    assert(((ki * ui) * ai) * (ki * xx) == (ki * ki) * ((ui * ai) * xx)) by (nonlinear_arith);
    lemma_congruent_mul(ki * ki, ki * ki, (ui * ai) * xx, di, q);
    assert(congruent(ds as int, ki * ki * di, q));
    lemma_scaled_root(d, ds, k);
    // the root is divided by c^2, up to its sign
    let v = fq_sqrt_ratio_zeta(1, d).1;
    let vs = fq_sqrt_ratio_zeta(1, ds).1;
    let vi = vs as int;
    let m = fq_mul(vs, k);
    let mi = m as int;
    lemma_root_is_residue(1, d);
    lemma_fq_mul_follows(vs, k, vi, ki);
    // so u2 is the same
    lemma_fq_mul_follows(vs, u1s, vi, ki * ui);
    lemma_fq_mul_follows(m, u1, vi * ki, ui);
    assert(vi * (ki * ui) == (vi * ki) * ui) by (nonlinear_arith);
    lemma_fq_equal(fq_mul(vs, u1s), fq_mul(m, u1));
    lemma_abs_of_signed_product(m, v, u1);
    let u2 = fq_abs(fq_mul(v, u1));
    assert(fq_abs(fq_mul(vs, u1s)) == u2);
    let u2i = u2 as int;
    // u3 is multiplied by c
    let u3 = fq_sub(fq_mul(u2, p.z), p.t);
    let u3s = fq_sub(fq_mul(u2, w.z), w.t);
    let u3i = u3 as int;
    lemma_fq_mul_follows(u2, p.z, u2i, z);
    lemma_fq_sub_follows(fq_mul(u2, p.z), p.t, u2i * z, t);
    lemma_fq_mul_follows(u2, w.z, u2i, z * ci);
    lemma_fq_sub_follows(fq_mul(u2, w.z), w.t, u2i * (z * ci), t * ci);
    assert(u2i * (z * ci) - t * ci == (u2i * z - t) * ci) by (nonlinear_arith);
    lemma_congruent_mul(u2i * z - t, u3i, ci, ci, q);
    assert(congruent(u3s as int, u3i * ci, q));
    // and the last product is the same up to its sign
    let f = fq_mul(fq_mul(amd, v), u3);
    let fs = fq_mul(fq_mul(fq_mul(amd, vs), u3s), w.x);
    let g = fq_mul(fq_mul(fq_mul(amd, m), u3), p.x);
    lemma_fq_mul_follows(amd, vs, ai, vi);
    lemma_fq_mul_follows(fq_mul(amd, vs), u3s, ai * vi, u3i * ci);
    lemma_fq_mul_follows(fq_mul(fq_mul(amd, vs), u3s), w.x, (ai * vi) * (u3i * ci), x * ci);
    lemma_fq_mul_follows(amd, m, ai, vi * ki);
    lemma_fq_mul_follows(fq_mul(amd, m), u3, ai * (vi * ki), u3i);
    lemma_fq_mul_follows(fq_mul(fq_mul(amd, m), u3), p.x, (ai * (vi * ki)) * u3i, x);
    lemma_congruent_mul(ai * vi, ai * vi, ki, ci * ci, q);
    lemma_congruent_mul((ai * vi) * ki, (ai * vi) * (ci * ci), u3i * x, u3i * x, q);
    assert(((ai * vi) * (u3i * ci)) * (x * ci) == ((ai * vi) * (ci * ci)) * (u3i * x))
        by (nonlinear_arith);
    assert(((ai * (vi * ki)) * u3i) * x == ((ai * vi) * ki) * (u3i * x)) by (nonlinear_arith);
    lemma_fq_equal(fs, g);
    // g is (m (a - d u3 X)), which has the absolute value of (v (a - d) u3 X)
    let rest = fq_mul(fq_mul(amd, u3), p.x);
    lemma_product_with_root(m, amd, u3, p.x);
    lemma_product_with_root(v, amd, u3, p.x);
    lemma_abs_of_signed_product(m, v, rest);
}

/// `((a v) u) x` is `v ((a u) x)`.
pub proof fn lemma_product_with_root(v: nat, a: nat, u: nat, x: nat)
    ensures
        fq_mul(fq_mul(fq_mul(a, v), u), x) == fq_mul(v, fq_mul(fq_mul(a, u), x)),
{
    let vi = v as int;
    let ai = a as int;
    let ui = u as int;
    let xi = x as int;
    lemma_fq_mul_follows(a, v, ai, vi);
    lemma_fq_mul_follows(fq_mul(a, v), u, ai * vi, ui);
    lemma_fq_mul_follows(fq_mul(fq_mul(a, v), u), x, (ai * vi) * ui, xi);
    lemma_fq_mul_follows(a, u, ai, ui);
    lemma_fq_mul_follows(fq_mul(a, u), x, ai * ui, xi);
    lemma_fq_mul_follows(v, fq_mul(fq_mul(a, u), x), vi, (ai * ui) * xi);
    assert(((ai * vi) * ui) * xi == vi * ((ai * ui) * xi)) by (nonlinear_arith);
    lemma_fq_equal(fq_mul(fq_mul(fq_mul(a, v), u), x), fq_mul(v, fq_mul(fq_mul(a, u), x)));
}

/// A point of the curve and its sum with the point of order two have the same
/// encoding.
pub proof fn lemma_torsion_encoding(a: Point)
    requires
        point_on_curve(a),
        point_reduced(a),
        a.z != 0,
    ensures
        encode_point(point_add(a, point_torsion())) == encode_point(a),
{
    lemma_fq_modulus_prime();
    lemma_torsion_sum_is_twin(a);
    lemma_fq_neg_follows(a.x, a.x as int);
    lemma_fq_neg_follows(a.y, a.y as int);
    lemma_scale_encoding(point_twin(a), a.z);
    lemma_twin_encoding(a);
}

/// Whether `p` is one of the points that stand for the group element of `r`:
/// `r` or its twin, with the four coordinates multiplied by `c`.
pub open spec fn stands_for(p: Point, r: Point, c: nat) -> bool {
    p == point_scale(r, c) || p == point_scale(point_twin(r), c)
}

/// Every point that stands for the group element of `r` is equal to `r` as a
/// group element and, where the factor is not zero, has the encoding of `r`.
pub proof fn lemma_class_encoding(p: Point, r: Point, c: nat)
    requires
        point_reduced(r),
        0 < c < fq_modulus(),
        stands_for(p, r, c),
    ensures
        crate::element::point_eq(p, r),
        encode_point(p) == encode_point(r),
{
    lemma_fq_modulus_prime();
    let m = as_model(r);
    let ci = c as int;
    lemma_fq_neg_follows(r.x, m.x);
    lemma_fq_neg_follows(r.y, m.y);
    if p == point_scale(r, c) {
        lemma_scale_equal(r, c);
        lemma_scale_encoding(r, c);
    } else {
        let w = point_twin(r);
        let ms = IntPoint { x: (-m.x) * ci, y: (-m.y) * ci, t: m.t * ci, z: m.z * ci };
        lemma_fq_mul_follows(w.x, c, -m.x, ci);
        lemma_fq_mul_follows(w.y, c, -m.y, ci);
        lemma_fq_mul_follows(w.t, c, m.t, ci);
        lemma_fq_mul_follows(w.z, c, m.z, ci);
        assert(ms.x * m.y == ms.y * m.x) by (nonlinear_arith)
            requires
                ms.x == (-m.x) * ci,
                ms.y == (-m.y) * ci,
        ;
        lemma_eq_from_models(ms, p, m, r);
        lemma_scale_encoding(w, c);
        lemma_twin_encoding(r);
    }
}

} // verus!
