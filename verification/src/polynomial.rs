//! Small identities between integer polynomials, from which the longer ones in
//! the proofs about the curve are put together step by step.

use vstd::prelude::*;

verus! {

/// The product of two sums or differences of two terms, written out.
pub proof fn lemma_product_2x2(a: int, b: int, c: int, d: int)
    ensures
        (a + b) * (c + d) == a * c + a * d + b * c + b * d,
        (a - b) * (c - d) == a * c - a * d - b * c + b * d,
        (a + b) * (c - d) == a * c - a * d + b * c - b * d,
        (a - b) * (c + d) == a * c + a * d - b * c - b * d,
{
    assert((a + b) * (c + d) == a * c + a * d + b * c + b * d) by (nonlinear_arith);
    assert((a - b) * (c - d) == a * c - a * d - b * c + b * d) by (nonlinear_arith);
    assert((a + b) * (c - d) == a * c - a * d + b * c - b * d) by (nonlinear_arith);
    assert((a - b) * (c + d) == a * c + a * d - b * c - b * d) by (nonlinear_arith);
}

/// The factors of a product of two products may be paired up anew.
pub proof fn lemma_swap_inner(a: int, b: int, c: int, d: int)
    ensures
        (a * b) * (c * d) == (a * c) * (b * d),
        (a * b) * (c * d) == (a * d) * (b * c),
{
    assert((a * b) * (c * d) == (a * c) * (b * d)) by (nonlinear_arith);
    assert((a * b) * (c * d) == (a * d) * (b * c)) by (nonlinear_arith);
}

/// A product of three factors in any grouping and order.
pub proof fn lemma_product_3(a: int, b: int, c: int)
    ensures
        (a * b) * c == a * (b * c),
        (a * b) * c == (a * c) * b,
        (a * b) * c == b * (a * c),
        a * b == b * a,
{
    assert((a * b) * c == a * (b * c)) by (nonlinear_arith);
    assert((a * b) * c == (a * c) * b) by (nonlinear_arith);
    assert((a * b) * c == b * (a * c)) by (nonlinear_arith);
    assert(a * b == b * a) by (nonlinear_arith);
}

/// A factor distributes over a sum and over a difference.
pub proof fn lemma_distribute(x: int, a: int, b: int)
    ensures
        x * (a + b) == x * a + x * b,
        x * (a - b) == x * a - x * b,
        (a + b) * x == a * x + b * x,
        (a - b) * x == a * x - b * x,
{
    assert(x * (a + b) == x * a + x * b) by (nonlinear_arith);
    assert(x * (a - b) == x * a - x * b) by (nonlinear_arith);
    assert((a + b) * x == a * x + b * x) by (nonlinear_arith);
    assert((a - b) * x == a * x - b * x) by (nonlinear_arith);
}

/// Squares and products of the two mixed sums `e = x1 y2 + y1 x2` and
/// `h = y1 y2 + x1 x2`, in terms of the squares and products of each pair.
pub proof fn lemma_mixed_sums(x1: int, y1: int, x2: int, y2: int)
    ensures
        ({
            let e = x1 * y2 + y1 * x2;
            let h = y1 * y2 + x1 * x2;
            &&& h * h - e * e == (y1 * y1 - x1 * x1) * (y2 * y2 - x2 * x2)
            &&& h * h + e * e == (x1 * x1 + y1 * y1) * (x2 * x2 + y2 * y2) + 4 * ((x1 * y1) * (x2
                * y2))
            &&& e * h == (x1 * y1) * (x2 * x2 + y2 * y2) + (x2 * y2) * (x1 * x1 + y1 * y1)
        }),
{
    let m1 = x1 * y2;
    let m2 = y1 * x2;
    let m3 = y1 * y2;
    let m4 = x1 * x2;
    let xx1 = x1 * x1;
    let yy1 = y1 * y1;
    let xx2 = x2 * x2;
    let yy2 = y2 * y2;
    let p1 = x1 * y1;
    let p2 = x2 * y2;
    lemma_product_2x2(m1, m2, m1, m2);
    lemma_product_2x2(m3, m4, m3, m4);
    lemma_product_2x2(m1, m2, m3, m4);
    lemma_product_2x2(yy1, xx1, yy2, xx2);
    lemma_product_2x2(xx1, yy1, xx2, yy2);
    lemma_distribute(p1, xx2, yy2);
    lemma_distribute(p2, xx1, yy1);
    // squares of the mixed products
    lemma_swap_inner(x1, y2, x1, y2);
    lemma_swap_inner(y1, x2, y1, x2);
    lemma_swap_inner(y1, y2, y1, y2);
    lemma_swap_inner(x1, x2, x1, x2);
    assert(m1 * m2 == p1 * p2) by (nonlinear_arith)
        requires
            m1 == x1 * y2,
            m2 == y1 * x2,
            p1 == x1 * y1,
            p2 == x2 * y2,
    ;
    assert(m3 * m4 == p1 * p2) by (nonlinear_arith)
        requires
            m3 == y1 * y2,
            m4 == x1 * x2,
            p1 == x1 * y1,
            p2 == x2 * y2,
    ;
    assert(m2 * m1 == m1 * m2) by (nonlinear_arith);
    assert(m4 * m3 == m3 * m4) by (nonlinear_arith);
    assert(m1 * m3 == p1 * yy2) by (nonlinear_arith)
        requires
            m1 == x1 * y2,
            m3 == y1 * y2,
            p1 == x1 * y1,
            yy2 == y2 * y2,
    ;
    assert(m1 * m4 == p2 * xx1) by (nonlinear_arith)
        requires
            m1 == x1 * y2,
            m4 == x1 * x2,
            p2 == x2 * y2,
            xx1 == x1 * x1,
    ;
    assert(m2 * m3 == p2 * yy1) by (nonlinear_arith)
        requires
            m2 == y1 * x2,
            m3 == y1 * y2,
            p2 == x2 * y2,
            yy1 == y1 * y1,
    ;
    assert(m2 * m4 == p1 * xx2) by (nonlinear_arith)
        requires
            m2 == y1 * x2,
            m4 == x1 * x2,
            p1 == x1 * y1,
            xx2 == x2 * x2,
    ;
    assert(yy1 * xx2 == xx2 * yy1 && xx1 * yy2 == yy2 * xx1) by (nonlinear_arith);
}

} // verus!
