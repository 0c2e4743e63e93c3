//! The proof that every point that decoding gives lies on the curve.
//!
//! Decoding reconstructs `x = 2 s u1 v^2 u2` and `y = (1 + s^2) v u1` from the
//! encoded `s`, where `u1 = 1 - s^2`, `u2 = u1^2 - 4 d s^2`, and `v` is a square
//! root of `1 / (u2 u1^2)`. That `v^2 u2 u1^2 = 1` is all the proof needs.

use vstd::prelude::*;
use crate::congruence::{congruent, lemma_congruent_add, lemma_congruent_mul, lemma_congruent_sub};
use crate::polynomial::{lemma_distribute, lemma_product_2x2, lemma_product_3, lemma_swap_inner};

verus! {

/// With `u1 = 1 - s^2` and `u2 = u1^2 - 4 d s^2`:
/// `(1 + s^2)^2 u1^2 - 4 s^2 u2 - 4 d s^2 (1 + s^2)^2 = u1^2 u2`.
proof fn lemma_decode_bracket(ss: int, d: int)
    ensures
        ({
            let n = 1 + ss;
            let u1 = 1 - ss;
            let a = u1 * u1;
            let u2 = a - (4 * d) * ss;
            (n * n) * a - (4 * ss) * u2 - d * ((4 * ss) * (n * n)) == a * u2
        }),
{
    let n = 1 + ss;
    let u1 = 1 - ss;
    let a = u1 * u1;
    let u2 = a - (4 * d) * ss;
    let nn = n * n;
    let f = 4 * ss;
    lemma_product_2x2(1, ss, 1, ss);
    assert(nn == a + f);
    let df = d * f;
    assert((4 * d) * ss == df) by (nonlinear_arith)
        requires
            df == d * (4 * ss),
    ;
    // (a + f) a - f (a - df) - d (f (a + f)) == a (a - df)
    lemma_distribute(a, a, f);
    lemma_distribute(f, a, df);
    lemma_distribute(f, a, f);
    lemma_distribute(a, a, df);
    lemma_product_3(f, a, 1);
    lemma_product_3(d, f, a);
    lemma_product_3(d, f, f);
    lemma_distribute(d, f * a, f * f);
    assert(nn * a == a * a + a * f) by {
        lemma_product_3(a, nn, 1);
    }
    assert(f * u2 == f * a - f * df);
    assert(d * (f * nn) == d * (f * a) + d * (f * f));
    assert(a * u2 == a * a - a * df);
    assert(f * df == d * (f * f)) by (nonlinear_arith)
        requires
            df == d * f,
    ;
    assert(a * df == d * (f * a)) by (nonlinear_arith)
        requires
            df == d * f,
    ;
}

/// The curve equation of a decoded point, over the integers: if
/// `v^2 (u2 u1^2)` is congruent to one, then `x` and `y` as decoding computes
/// them satisfy `y^2 - x^2 = 1 + d (x y)^2` up to congruence.
pub proof fn lemma_decode_equation(s: int, v: int, d: int, m: int)
    requires
        m > 0,
        ({
            let u1 = 1 - s * s;
            let u2 = u1 * u1 - (4 * d) * (s * s);
            congruent((v * v) * (u2 * (u1 * u1)), 1, m)
        }),
    ensures
        ({
            let u1 = 1 - s * s;
            let u2 = u1 * u1 - (4 * d) * (s * s);
            let x = (((2 * s) * u1) * (v * v)) * u2;
            let y = ((1 + s * s) * v) * u1;
            congruent(y * y - x * x, 1 + d * ((x * y) * (x * y)), m)
        }),
{
    let ss = s * s;
    let n = 1 + ss;
    let u1 = 1 - ss;
    let a = u1 * u1;
    let u2 = a - (4 * d) * ss;
    let c = v * v;
    let alpha = c * (u2 * a);
    let x = (((2 * s) * u1) * c) * u2;
    let y = (n * v) * u1;
    let nn = n * n;
    let f = 4 * ss;
    let cb = c * u2;
    // x is 2 s times u1 times c u2
    lemma_product_3(2 * s, u1, c);
    lemma_product_3((2 * s) * u1, c, u2);
    lemma_product_3(2 * s, u1, cb);
    assert(x == (2 * s) * (u1 * cb)) by {
        lemma_product_3(u1, c, u2);
        assert(((2 * s) * u1) * c == (2 * s) * (u1 * c));
        assert(x == ((2 * s) * u1) * cb);
    }
    // the square of x is f (c u2) alpha
    lemma_swap_inner(2 * s, u1 * cb, 2 * s, u1 * cb);
    lemma_swap_inner(u1, cb, u1, cb);
    assert((2 * s) * (2 * s) == f) by (nonlinear_arith)
        requires
            f == 4 * (s * s),
    ;
    lemma_product_3(c, u2, a);
    assert(alpha == cb * a);
    lemma_product_3(cb, cb, a);
    lemma_product_3(a, cb * cb, 1);
    assert(x * x == f * (cb * alpha));
    // the square of y is n^2 c a
    lemma_swap_inner(n * v, u1, n * v, u1);
    lemma_swap_inner(n, v, n, v);
    assert(y * y == (nn * c) * a);
    // the square of x y is f n^2 c alpha^2
    lemma_swap_inner(x, y, x, y);
    let xx = x * x;
    let yy = y * y;
    assert((x * y) * (x * y) == xx * yy);
    let ncc = nn * c;
    assert(xx * yy == (f * ncc) * (alpha * alpha)) by {
        // (f (cb alpha)) ((nn c) a) == (f (nn c)) (alpha ((cb) a))
        lemma_swap_inner(f, cb * alpha, ncc, a);
        lemma_swap_inner(cb, alpha, a, 1);
        lemma_product_3(cb, alpha, a);
        lemma_product_3(alpha, cb, a);
        assert((cb * alpha) * a == alpha * (cb * a));
    }
    // put together, with alpha still in place
    let c0 = ncc * a;
    let c1 = f * cb;
    let c2 = f * ncc;
    lemma_product_3(f, cb, alpha);
    assert(xx == c1 * alpha);
    let lhs = yy - xx;
    let rhs = 1 + d * ((x * y) * (x * y));
    assert(lhs - rhs == c0 - c1 * alpha - 1 - d * (c2 * (alpha * alpha)));
    // alpha gives way to one
    lemma_congruent_mul(alpha, 1, alpha, 1, m);
    assert(1int * 1int == 1);
    lemma_congruent_mul(c1, c1, alpha, 1, m);
    lemma_congruent_mul(c2, c2, alpha * alpha, 1, m);
    lemma_congruent_mul(d, d, c2 * (alpha * alpha), c2 * 1, m);
    lemma_congruent_sub(c0, c0, c1 * alpha, c1 * 1, m);
    lemma_congruent_sub(c0 - c1 * alpha, c0 - c1 * 1, 1, 1, m);
    lemma_congruent_sub(
        c0 - c1 * alpha - 1,
        c0 - c1 * 1 - 1,
        d * (c2 * (alpha * alpha)),
        d * (c2 * 1),
        m,
    );
    assert(c1 * 1 == c1 && c2 * 1 == c2);
    assert(congruent(lhs - rhs, c0 - c1 - 1 - d * c2, m));
    // what is left is c times the bracket, less one: alpha less one
    lemma_decode_bracket(ss, d);
    let bracket = nn * a - f * u2 - d * (f * nn);
    assert(bracket == a * u2);
    assert(c0 - c1 - d * c2 == c * bracket) by {
        lemma_product_3(nn, c, a);
        lemma_product_3(c, nn, a);
        lemma_product_3(f, c, u2);
        lemma_product_3(c, f, u2);
        lemma_product_3(f, nn, c);
        lemma_product_3(c, f, nn);
        lemma_product_3(d, c, f * nn);
        lemma_product_3(c, d, f * nn);
        lemma_distribute(c, nn * a, f * u2);
        lemma_distribute(c, nn * a - f * u2, d * (f * nn));
        assert(c0 == c * (nn * a));
        assert(c1 == c * (f * u2));
        assert(c2 == c * (f * nn));
        assert(d * c2 == c * (d * (f * nn)));
    }
    lemma_product_3(a, u2, 1);
    assert(c * bracket == alpha);
    assert(c0 - c1 - 1 - d * c2 == alpha - 1);
    lemma_congruent_sub(alpha, 1, 1, 1, m);
    assert(congruent(lhs - rhs, 0, m));
    lemma_congruent_add(lhs - rhs, 0, rhs, rhs, m);
}

} // verus!
