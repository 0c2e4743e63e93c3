//! Encoding what was decoded gives the encoding back.
//!
//! Decoding reconstructs `x = 2 s u1 v^2 u2` and `y = (1 + s^2) v u1` from the
//! encoded `s`, where `u1 = 1 - s^2`, `u2 = u1^2 - 4 d s^2`, and `v` is the
//! square root of `1 / (u2 u1^2)` for which `2 s u1 v` is not negative. With
//! `w = 4 s^2 (a - d) x v`, the number under the square root of encoding is
//! `w^2`, so that its root is `1 / w` up to its sign, and what encoding
//! computes from there is `s` up to its sign.

use vstd::prelude::*;
use vstd::arithmetic::div_mod::{lemma_fundamental_div_mod_converse, lemma_small_mod};
use crate::bytes::{le_value, lemma_le_bytes32};
use crate::congruence::{
    congruent, lemma_congruent_add, lemma_congruent_mul, lemma_congruent_sub,
    lemma_reduce_congruent,
};
use crate::element::{coeff_d, point_eq, point_reduced, Point};
use crate::encoding::{
    a_minus_d, compress_to_field, decode_bytes, decompress_from_field, encode_point,
    lemma_abs_of_negative,
};
use crate::fields::fq::{
    fq_abs, fq_add, fq_inv, fq_is_negative, fq_modulus, fq_mul, fq_neg, fq_sqrt_ratio_zeta,
    fq_sub, is_sqrt_ratio, lemma_fq_add_follows, lemma_fq_equal, lemma_fq_inverse,
    lemma_fq_mul_commutative, lemma_fq_mul_follows, lemma_fq_mul_one_zero, lemma_fq_neg_follows,
    lemma_fq_sub_follows, lemma_sqrt_ratio_zeta_sound,
};
use crate::modular::lemma_prime_units;
use crate::prime_modulus::lemma_fq_modulus_prime;
use crate::quotient::{lemma_class_encoding, stands_for};
use crate::sqrt_proof::{
    has_root, lemma_no_zero_divisors, lemma_root_cases, lemma_root_is_residue,
    lemma_roots_of_one,
};

verus! {

/// The coordinate `x` of a decoded point, over the integers.
pub open spec fn model_x(s: int, v: int, d: int) -> int {
    let u1 = 1 - s * s;
    let u2 = u1 * u1 - (4 * d) * (s * s);
    (((2 * s) * u1) * (v * v)) * u2
}

/// The coordinate `y` of a decoded point, over the integers.
pub open spec fn model_y(s: int, v: int) -> int {
    ((1 + s * s) * v) * (1 - s * s)
}

/// `4 s^2 (a - d) x v` over the integers, for `a = -1`.
pub open spec fn model_w(s: int, v: int, d: int) -> int {
    ((4 * (s * s)) * (-1 - d)) * (model_x(s, v, d) * v)
}

/// `2 s u1 v` over the integers.
pub open spec fn model_h(s: int, v: int) -> int {
    ((2 * s) * (1 - s * s)) * v
}

/// What decoding knows of its square root, over the integers:
/// `v^2 (u2 u1^2)` is congruent to one.
pub open spec fn model_root(s: int, v: int, d: int, m: int) -> bool {
    let u1 = 1 - s * s;
    let u2 = u1 * u1 - (4 * d) * (s * s);
    congruent((v * v) * (u2 * (u1 * u1)), 1, m)
}

/// `x u1` is congruent to `2 s`.
proof fn lemma_model_x_u1(s: int, v: int, d: int, m: int)
    requires
        m > 0,
        model_root(s, v, d, m),
    ensures
        congruent(model_x(s, v, d) * (1 - s * s), 2 * s, m),
{
    let u1 = 1 - s * s;
    let u2 = u1 * u1 - (4 * d) * (s * s);
    let e = (v * v) * (u2 * (u1 * u1));
    let x = model_x(s, v, d);
    assert(x * u1 == (2 * s) * e) by (nonlinear_arith)
        requires
            x == (((2 * s) * u1) * (v * v)) * u2,
            e == (v * v) * (u2 * (u1 * u1)),
    ;
    lemma_congruent_mul(2 * s, 2 * s, e, 1, m);
    assert((2 * s) * 1 == 2 * s);
}

/// `1 - y^2` is congruent to `v^2 u1^2 (4 s^2 (a - d))`.
proof fn lemma_model_one_minus_y2(s: int, v: int, d: int, m: int)
    requires
        m > 0,
        model_root(s, v, d, m),
    ensures
        ({
            let u1 = 1 - s * s;
            let y = model_y(s, v);
            congruent(1 - y * y, ((v * v) * (u1 * u1)) * ((4 * (s * s)) * (-1 - d)), m)
        }),
{
    let ss = s * s;
    let n = 1 + ss;
    let u1 = 1 - ss;
    let u2 = u1 * u1 - (4 * d) * ss;
    let e = (v * v) * (u2 * (u1 * u1));
    let y = model_y(s, v);
    let g4 = (4 * ss) * (-1 - d);
    let dn = u2 - n * n;
    assert(e - y * y == ((v * v) * (u1 * u1)) * dn) by (nonlinear_arith)
        requires
            e == (v * v) * (u2 * (u1 * u1)),
            y == (n * v) * u1,
            dn == u2 - n * n,
    ;
    assert(dn == g4) by (nonlinear_arith)
        requires
            dn == u2 - n * n,
            u2 == u1 * u1 - (4 * d) * ss,
            u1 == 1 - ss,
            n == 1 + ss,
            g4 == (4 * ss) * (-1 - d),
    ;
    let g = ((v * v) * (u1 * u1)) * g4;
    lemma_congruent_sub(1, 1, e, 1, m);
    lemma_congruent_add(1 - e, 0, g, g, m);
    assert((1 - e) + g == 1 - y * y);
}

/// `x^2 - (x y)^2`, `w h` and `(2 s)^2 (v^2 (4 s^2 (a - d)))` are congruent.
proof fn lemma_model_u1(s: int, v: int, d: int, m: int)
    requires
        m > 0,
        model_root(s, v, d, m),
    ensures
        ({
            let x = model_x(s, v, d);
            let y = model_y(s, v);
            let z0 = ((2 * s) * (2 * s)) * ((v * v) * ((4 * (s * s)) * (-1 - d)));
            &&& congruent(x * x - (x * y) * (x * y), z0, m)
            &&& congruent(model_w(s, v, d) * model_h(s, v), z0, m)
        }),
{
    let ss = s * s;
    let u1 = 1 - ss;
    let x = model_x(s, v, d);
    let y = model_y(s, v);
    let g4 = (4 * ss) * (-1 - d);
    let g = ((v * v) * (u1 * u1)) * g4;
    let w = model_w(s, v, d);
    let h = model_h(s, v);
    let xu = x * u1;
    let rest = (v * v) * g4;
    lemma_model_x_u1(s, v, d, m);
    lemma_model_one_minus_y2(s, v, d, m);
    let omy = 1 - y * y;
    assert(x * x - (x * y) * (x * y) == (x * x) * omy) by (nonlinear_arith)
        requires
            omy == 1 - y * y,
    ;
    lemma_congruent_mul(x * x, x * x, omy, g, m);
    assert((x * x) * g == (xu * xu) * rest) by (nonlinear_arith)
        requires
            xu == x * u1,
            g == ((v * v) * (u1 * u1)) * g4,
            rest == (v * v) * g4,
    ;
    lemma_congruent_mul(xu, 2 * s, xu, 2 * s, m);
    lemma_congruent_mul(xu * xu, (2 * s) * (2 * s), rest, rest, m);
    assert(w * h == (xu * (2 * s)) * rest) by (nonlinear_arith)
        requires
            w == g4 * (x * v),
            h == ((2 * s) * u1) * v,
            xu == x * u1,
            rest == (v * v) * g4,
    ;
    lemma_congruent_mul(xu, 2 * s, 2 * s, 2 * s, m);
    lemma_congruent_mul(xu * (2 * s), (2 * s) * (2 * s), rest, rest, m);
}

/// The number under the square root of encoding is congruent to `w^2`:
/// `((w h) (a - d)) x^2` is.
proof fn lemma_model_denominator(s: int, v: int, d: int, m: int)
    requires
        m > 0,
        model_root(s, v, d, m),
    ensures
        ({
            let x = model_x(s, v, d);
            let w = model_w(s, v, d);
            congruent(((w * model_h(s, v)) * (-1 - d)) * (x * x), w * w, m)
        }),
{
    let ss = s * s;
    let x = model_x(s, v, d);
    let amd = -1 - d;
    let g4 = (4 * ss) * amd;
    let w = model_w(s, v, d);
    let h = model_h(s, v);
    let z0 = ((2 * s) * (2 * s)) * ((v * v) * g4);
    lemma_model_u1(s, v, d, m);
    lemma_congruent_mul(w * h, z0, amd, amd, m);
    lemma_congruent_mul((w * h) * amd, z0 * amd, x * x, x * x, m);
    let mid = g4 * ((v * v) * g4);
    assert(z0 * amd == mid) by (nonlinear_arith)
        requires
            z0 == ((2 * s) * (2 * s)) * ((v * v) * g4),
            g4 == (4 * ss) * amd,
            ss == s * s,
            mid == g4 * ((v * v) * g4),
    ;
    assert(mid * (x * x) == w * w) by (nonlinear_arith)
        requires
            mid == g4 * ((v * v) * g4),
            w == g4 * (x * v),
    ;
}

/// What encoding multiplies its square root with at the end is congruent to
/// `-(s w)`: `((a - d) (h - x y)) x` is.
proof fn lemma_model_last(s: int, v: int, d: int, m: int)
    requires
        m > 0,
        model_root(s, v, d, m),
    ensures
        ({
            let x = model_x(s, v, d);
            let y = model_y(s, v);
            congruent(((-1 - d) * (model_h(s, v) - x * y)) * x, -(s * model_w(s, v, d)), m)
        }),
{
    let ss = s * s;
    let n = 1 + ss;
    let u1 = 1 - ss;
    let x = model_x(s, v, d);
    let y = model_y(s, v);
    let amd = -1 - d;
    let g4 = (4 * ss) * amd;
    let w = model_w(s, v, d);
    let h = model_h(s, v);
    let xu = x * u1;
    lemma_model_x_u1(s, v, d, m);
    assert(x * y == xu * (n * v)) by (nonlinear_arith)
        requires
            y == (n * v) * u1,
            xu == x * u1,
    ;
    lemma_congruent_mul(xu, 2 * s, n * v, n * v, m);
    lemma_congruent_sub(h, h, x * y, (2 * s) * (n * v), m);
    let dn = u1 - n;
    let k = ((2 * s) * v) * dn;
    assert(h - (2 * s) * (n * v) == k) by (nonlinear_arith)
        requires
            h == ((2 * s) * u1) * v,
            dn == u1 - n,
            k == ((2 * s) * v) * dn,
    ;
    lemma_congruent_mul(amd, amd, h - x * y, k, m);
    lemma_congruent_mul(amd * (h - x * y), amd * k, x, x, m);
    assert((amd * k) * x == -(s * w)) by (nonlinear_arith)
        requires
            k == ((2 * s) * v) * dn,
            dn == -2 * ss,
            w == g4 * (x * v),
            g4 == (4 * ss) * amd,
    ;
}

/// `(w u1) (v (u2 u1^2))` is congruent to `(8 (a - d)) s^3`, so that `w` is
/// congruent to zero only where `s^3` is.
proof fn lemma_model_w_zero(s: int, v: int, d: int, m: int)
    requires
        m > 0,
        model_root(s, v, d, m),
        congruent(model_w(s, v, d), 0, m),
    ensures
        congruent((8 * (-1 - d)) * (s * (s * s)), 0, m),
{
    let ss = s * s;
    let u1 = 1 - ss;
    let u2 = u1 * u1 - (4 * d) * ss;
    let e = (v * v) * (u2 * (u1 * u1));
    let x = model_x(s, v, d);
    let amd = -1 - d;
    let g4 = (4 * ss) * amd;
    let w = model_w(s, v, d);
    let xu = x * u1;
    let f = u1 * (v * (u2 * (u1 * u1)));
    lemma_model_x_u1(s, v, d, m);
    let c = u2 * (u1 * u1);
    let xv = x * v;
    let vc = v * c;
    assert(xv * (u1 * vc) == xu * (v * vc)) by (nonlinear_arith)
        requires
            xv == x * v,
            xu == x * u1,
    ;
    assert(v * vc == e) by (nonlinear_arith)
        requires
            vc == v * c,
            e == (v * v) * c,
    ;
    assert(w * f == (g4 * xu) * e) by (nonlinear_arith)
        requires
            w == g4 * xv,
            f == u1 * vc,
            xv * (u1 * vc) == xu * e,
    ;
    lemma_congruent_mul(g4, g4, xu, 2 * s, m);
    lemma_congruent_mul(g4 * xu, g4 * (2 * s), e, 1, m);
    assert((g4 * (2 * s)) * 1 == (8 * amd) * (s * ss)) by (nonlinear_arith)
        requires
            g4 == (4 * ss) * amd,
    ;
    lemma_congruent_mul(w, 0, f, f, m);
    assert(0 * f == 0);
}

/// The root that decoding works with: the square root of `1 / (u2 u1^2)` with
/// the sign for which `2 s u1 v` is not negative.
pub open spec fn decoded_root(s: nat) -> nat {
    let ss = fq_mul(s, s);
    let u1 = fq_sub(1, ss);
    let u2 = fq_sub(fq_mul(u1, u1), fq_mul(fq_mul(4, coeff_d()), ss));
    let root = fq_sqrt_ratio_zeta(1, fq_mul(u2, fq_mul(u1, u1)));
    if fq_is_negative(fq_mul(fq_mul(fq_mul(2, s), u1), root.1)) {
        fq_neg(root.1)
    } else {
        root.1
    }
}

/// `2 s u1 v` for the root `v` that decoding works with.
pub open spec fn decoded_h(s: nat) -> nat {
    fq_mul(fq_mul(fq_mul(2, s), fq_sub(1, fq_mul(s, s))), decoded_root(s))
}

/// The negative of an odd residue is even.
proof fn lemma_neg_of_negative(a: nat)
    requires
        a < fq_modulus(),
        fq_is_negative(a),
    ensures
        !fq_is_negative(fq_neg(a)),
{
    lemma_fundamental_div_mod_converse(-(a as int), fq_modulus() as int, -1, fq_modulus() - a);
    assert(fq_modulus() % 2 == 1);
}

/// A decoded point follows the integers of the model, for an integer `v` that
/// the root of decoding is congruent to.
proof fn lemma_decoded_model(s: nat) -> (iv: int)
    requires
        s < fq_modulus(),
        decompress_from_field(s).is_some(),
    ensures
        ({
            let p = decompress_from_field(s).unwrap();
            let q = fq_modulus() as int;
            let si = s as int;
            let d = coeff_d() as int;
            &&& model_root(si, iv, d, q)
            &&& point_reduced(p)
            &&& p.z == 1
            &&& congruent(p.x as int, model_x(si, iv, d), q)
            &&& congruent(p.y as int, model_y(si, iv), q)
            &&& congruent(p.t as int, model_x(si, iv, d) * model_y(si, iv), q)
            &&& congruent(decoded_h(s) as int, model_h(si, iv), q)
            &&& decoded_h(s) < fq_modulus()
            &&& !fq_is_negative(decoded_h(s))
            &&& !fq_is_negative(s)
        }),
{
    let q = fq_modulus() as int;
    let d = coeff_d() as int;
    let si = s as int;
    let ss = fq_mul(s, s);
    let u1 = fq_sub(1, ss);
    let u1u1 = fq_mul(u1, u1);
    let four_d = fq_mul(4, coeff_d());
    let u2 = fq_sub(u1u1, fq_mul(four_d, ss));
    let den = fq_mul(u2, u1u1);
    let root = fq_sqrt_ratio_zeta(1, den);
    let two_s = fq_mul(2, s);
    let two_s_u1 = fq_mul(two_s, u1);
    let negate = fq_is_negative(fq_mul(two_s_u1, root.1));
    let v = decoded_root(s);
    let x = fq_mul(fq_mul(two_s_u1, fq_mul(v, v)), u2);
    let y = fq_mul(fq_mul(fq_add(1, ss), v), u1);
    let p = Point { x, y, t: fq_mul(x, y), z: 1 };
    assert(decompress_from_field(s).unwrap() == p);
    let i_u1 = 1 - si * si;
    let i_u2 = i_u1 * i_u1 - (4 * d) * (si * si);
    let r = root.1 as int;
    let iv = if negate {
        -r
    } else {
        r
    };
    lemma_fq_mul_follows(s, s, si, si);
    lemma_fq_sub_follows(1, ss, 1, si * si);
    lemma_fq_mul_follows(u1, u1, i_u1, i_u1);
    lemma_fq_mul_follows(4, coeff_d(), 4, d);
    lemma_fq_mul_follows(four_d, ss, 4 * d, si * si);
    lemma_fq_sub_follows(u1u1, fq_mul(four_d, ss), i_u1 * i_u1, (4 * d) * (si * si));
    lemma_fq_mul_follows(u2, u1u1, i_u2, i_u1 * i_u1);
    // the square root squares to the ratio
    lemma_sqrt_ratio_zeta_sound(1, den);
    lemma_root_is_residue(1, den);
    lemma_fq_mul_follows(root.1, root.1, r, r);
    lemma_fq_mul_follows(fq_mul(root.1, root.1), den, r * r, i_u2 * (i_u1 * i_u1));
    lemma_small_mod(1, fq_modulus());
    assert(congruent((r * r) * (i_u2 * (i_u1 * i_u1)), 1, q));
    if negate {
        lemma_fq_neg_follows(root.1, r);
    }
    assert(iv * iv == r * r) by (nonlinear_arith)
        requires
            iv == r || iv == -r,
    ;
    // x, y and t
    lemma_fq_mul_follows(2, s, 2, si);
    lemma_fq_mul_follows(two_s, u1, 2 * si, i_u1);
    lemma_fq_mul_follows(v, v, iv, iv);
    lemma_fq_mul_follows(two_s_u1, fq_mul(v, v), (2 * si) * i_u1, iv * iv);
    lemma_fq_mul_follows(
        fq_mul(two_s_u1, fq_mul(v, v)),
        u2,
        ((2 * si) * i_u1) * (iv * iv),
        i_u2,
    );
    lemma_fq_add_follows(1, ss, 1, si * si);
    lemma_fq_mul_follows(fq_add(1, ss), v, 1 + si * si, iv);
    lemma_fq_mul_follows(fq_mul(fq_add(1, ss), v), u1, (1 + si * si) * iv, i_u1);
    lemma_fq_mul_follows(x, y, model_x(si, iv, d), model_y(si, iv));
    // 2 s u1 v is not negative
    lemma_fq_mul_follows(two_s_u1, v, (2 * si) * i_u1, iv);
    if negate {
        let h0 = fq_mul(two_s_u1, root.1);
        lemma_fq_mul_follows(two_s_u1, root.1, (2 * si) * i_u1, r);
        lemma_fq_neg_follows(h0, ((2 * si) * i_u1) * r);
        assert(((2 * si) * i_u1) * (-r) == -(((2 * si) * i_u1) * r)) by (nonlinear_arith);
        lemma_fq_equal(decoded_h(s), fq_neg(h0));
        lemma_neg_of_negative(h0);
    }
    iv
}

/// The difference of the two curve coefficients is not zero, and it follows
/// `-1 - d`.
proof fn lemma_a_minus_d()
    ensures
        0 < a_minus_d() < fq_modulus(),
        congruent(a_minus_d() as int, -1 - coeff_d(), fq_modulus() as int),
{
    let q = fq_modulus() as int;
    lemma_fq_neg_follows(1, 1);
    lemma_fq_sub_follows(fq_neg(1), coeff_d(), -1, coeff_d() as int);
    lemma_fundamental_div_mod_converse(-1 - coeff_d(), q, -1, q - 1 - coeff_d());
}

/// Encoding a decoded point gives the field element that was decoded.
pub proof fn lemma_compress_of_decompressed(s: nat)
    requires
        s < fq_modulus(),
        decompress_from_field(s).is_some(),
    ensures
        compress_to_field(decompress_from_field(s).unwrap()) == s,
{
    lemma_fq_modulus_prime();
    let q = fq_modulus() as int;
    let d = coeff_d() as int;
    let si = s as int;
    let iv = lemma_decoded_model(s);
    let p = decompress_from_field(s).unwrap();
    let x = p.x;
    let t = p.t;
    let ix = model_x(si, iv, d);
    let iy = model_y(si, iv);
    let it = ix * iy;
    let w = model_w(si, iv, d);
    let hi = model_h(si, iv);
    let h = decoded_h(s);
    let amd = a_minus_d();
    let ai = -1 - d;
    lemma_a_minus_d();
    lemma_small_mod(0, fq_modulus());
    lemma_small_mod(1, fq_modulus());
    // u1 of encoding follows w h
    let u1 = fq_mul(fq_add(x, t), fq_sub(x, t));
    lemma_fq_add_follows(x, t, ix, it);
    lemma_fq_sub_follows(x, t, ix, it);
    lemma_fq_mul_follows(fq_add(x, t), fq_sub(x, t), ix + it, ix - it);
    assert((ix + it) * (ix - it) == ix * ix - it * it) by (nonlinear_arith);
    lemma_model_u1(si, iv, d, q);
    assert(congruent(u1 as int, w * hi, q));
    // the number under the root follows w^2
    let xx = fq_mul(x, x);
    let den = fq_mul(fq_mul(u1, amd), xx);
    lemma_fq_mul_follows(u1, amd, w * hi, ai);
    lemma_fq_mul_follows(x, x, ix, ix);
    lemma_fq_mul_follows(fq_mul(u1, amd), xx, (w * hi) * ai, ix * ix);
    lemma_model_denominator(si, iv, d, q);
    let wf = (w % q) as nat;
    lemma_reduce_congruent(w, q);
    lemma_fq_mul_follows(wf, wf, w, w);
    lemma_fq_equal(den, fq_mul(wf, wf));
    let v = fq_sqrt_ratio_zeta(1, den).1;
    let vi = v as int;
    lemma_root_is_residue(1, den);
    let u2 = fq_abs(fq_mul(v, u1));
    let u3 = fq_sub(fq_mul(u2, 1), t);
    let last = fq_mul(fq_mul(fq_mul(amd, v), u3), x);
    assert(compress_to_field(p) == fq_abs(last));
    lemma_fq_sub_follows(fq_mul(u2, 1), t, fq_mul(u2, 1) as int, t as int);
    if wf == 0 {
        assert(0 * 0 == 0);
        assert(den == 0);
        assert(v == 0);
        lemma_fq_mul_one_zero(amd);
        lemma_fq_mul_one_zero(u3);
        lemma_fq_mul_one_zero(x);
        assert(last == 0);
        // s is zero
        lemma_model_w_zero(si, iv, d, q);
        let c8 = fq_mul(8, amd);
        let s2 = fq_mul(s, s);
        let s3 = fq_mul(s, s2);
        lemma_fq_mul_follows(8, amd, 8, ai);
        lemma_fq_mul_follows(s, s, si, si);
        lemma_fq_mul_follows(s, s2, si, si * si);
        lemma_fq_mul_follows(c8, s3, 8 * ai, si * (si * si));
        lemma_fq_equal(fq_mul(c8, s3), 0);
        lemma_no_zero_divisors(c8, s3);
        if c8 == 0 {
            lemma_no_zero_divisors(8, amd);
        }
        lemma_no_zero_divisors(s, s2);
        if s2 == 0 {
            lemma_no_zero_divisors(s, s);
        }
    } else {
        // 1 / w is a square root, so the root of encoding is one
        lemma_prime_units(fq_modulus(), wf);
        lemma_fq_inverse(wf, 0);
        let r0 = fq_inv(wf);
        let ri = r0 as int;
        lemma_fq_mul_commutative(wf, r0);
        lemma_fq_mul_follows(r0, wf, ri, w);
        lemma_congruent_mul(ri * w, 1, ri * w, 1, q);
        lemma_fq_mul_follows(r0, r0, ri, ri);
        lemma_fq_mul_follows(fq_mul(r0, r0), den, ri * ri, w * w);
        assert((ri * ri) * (w * w) == (ri * w) * (ri * w)) by (nonlinear_arith);
        lemma_fq_equal(fq_mul(fq_mul(r0, r0), den), 1);
        assert(is_sqrt_ratio(r0, 1, den));
        assert(has_root(1, den));
        if den == 0 {
            lemma_no_zero_divisors(wf, wf);
        }
        lemma_root_cases(1, den);
        // so v w is one or minus one
        let eps = fq_mul(v, wf);
        lemma_fq_mul_follows(v, wf, vi, w);
        lemma_fq_mul_follows(eps, eps, vi * w, vi * w);
        lemma_fq_mul_follows(v, v, vi, vi);
        lemma_fq_mul_follows(fq_mul(v, v), den, vi * vi, w * w);
        assert((vi * vi) * (w * w) == (vi * w) * (vi * w)) by (nonlinear_arith);
        lemma_fq_equal(fq_mul(eps, eps), 1);
        lemma_roots_of_one(eps);
        let sg: int = if eps == 1 {
            1
        } else {
            -1
        };
        if eps != 1 {
            lemma_fundamental_div_mod_converse(-1, q, -1, q - 1);
            lemma_small_mod((q - 1) as nat, fq_modulus());
        }
        assert(congruent(vi * w, sg, q));
        // u2 is 2 s u1 v
        lemma_fq_mul_follows(v, u1, vi, w * hi);
        assert(vi * (w * hi) == (vi * w) * hi) by (nonlinear_arith);
        lemma_congruent_mul(vi * w, sg, hi, hi, q);
        lemma_fq_neg_follows(h, hi);
        if eps == 1 {
            assert(sg * hi == hi);
            lemma_fq_equal(fq_mul(v, u1), h);
        } else {
            assert(sg * hi == -hi);
            lemma_fq_equal(fq_mul(v, u1), fq_neg(h));
            lemma_abs_of_negative(h);
        }
        assert(u2 == h);
        // the last product is s or its negative
        let dd = hi - it;
        lemma_fq_mul_one_zero(h);
        lemma_fq_sub_follows(h, t, hi, it);
        assert(congruent(u3 as int, dd, q));
        lemma_fq_mul_follows(amd, v, ai, vi);
        lemma_fq_mul_follows(fq_mul(amd, v), u3, ai * vi, dd);
        lemma_fq_mul_follows(fq_mul(fq_mul(amd, v), u3), x, (ai * vi) * dd, ix);
        assert(((ai * vi) * dd) * ix == vi * ((ai * dd) * ix)) by (nonlinear_arith);
        lemma_model_last(si, iv, d, q);
        lemma_congruent_mul(vi, vi, (ai * dd) * ix, -(si * w), q);
        assert(vi * (-(si * w)) == -((vi * w) * si)) by (nonlinear_arith);
        lemma_congruent_mul(vi * w, sg, si, si, q);
        lemma_congruent_sub(0, 0, (vi * w) * si, sg * si, q);
        lemma_fq_neg_follows(s, si);
        if eps == 1 {
            assert(0 - sg * si == -si);
            lemma_fq_equal(last, fq_neg(s));
            lemma_abs_of_negative(s);
        } else {
            assert(0 - sg * si == si);
            lemma_fq_equal(last, s);
        }
    }
}

/// Encoding what a byte string decodes to gives the byte string back.
pub proof fn lemma_encode_of_decoded(bytes: Seq<u8>)
    requires
        decode_bytes(bytes).is_some(),
    ensures
        encode_point(decode_bytes(bytes).unwrap()) == bytes,
{
    lemma_fq_modulus_prime();
    lemma_compress_of_decompressed(le_value(bytes));
    lemma_le_bytes32(bytes);
}

/// Decoding the encoding of a point that stands for the group element of a
/// decoded point gives that decoded point, which is equal to the point as a
/// group element.
pub proof fn lemma_decode_of_encoded(p: Point, bytes: Seq<u8>, c: nat)
    requires
        decode_bytes(bytes).is_some(),
        0 < c < fq_modulus(),
        stands_for(p, decode_bytes(bytes).unwrap(), c),
    ensures
        encode_point(p) == bytes,
        decode_bytes(encode_point(p)) == decode_bytes(bytes),
        point_eq(p, decode_bytes(bytes).unwrap()),
{
    lemma_fq_modulus_prime();
    let r = decode_bytes(bytes).unwrap();
    let iv = lemma_decoded_model(le_value(bytes));
    lemma_encode_of_decoded(bytes);
    lemma_class_encoding(p, r, c);
}

} // verus!
