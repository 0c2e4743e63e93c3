//! Congruence of integers modulo a positive number, and how reduced sums,
//! differences and products follow the integers they reduce.
//!
//! The laws of the fields and of the group are proved by these lemmas: each side
//! of a law is shown congruent to one integer polynomial, and two residues that
//! are congruent are equal.

use vstd::prelude::*;
use vstd::arithmetic::div_mod::{
    lemma_add_mod_noop, lemma_mod_bound, lemma_mod_twice, lemma_mul_mod_noop_general,
    lemma_small_mod, lemma_sub_mod_noop,
};

verus! {

/// Whether two integers leave the same remainder modulo `m`.
pub open spec fn congruent(x: int, y: int, m: int) -> bool {
    x % m == y % m
}

/// A reduced number is congruent to the number it reduces.
pub proof fn lemma_reduce_congruent(x: int, m: int)
    requires
        m > 0,
    ensures
        congruent(x % m, x, m),
        0 <= x % m < m,
{
    lemma_mod_twice(x, m);
    lemma_mod_bound(x, m);
}

/// Two residues that are congruent are equal.
pub proof fn lemma_congruent_residues(x: int, y: int, m: int)
    requires
        m > 0,
        0 <= x < m,
        0 <= y < m,
        congruent(x, y, m),
    ensures
        x == y,
{
    lemma_small_mod(x as nat, m as nat);
    lemma_small_mod(y as nat, m as nat);
}

/// Sums of congruent numbers are congruent.
pub proof fn lemma_congruent_add(x: int, x1: int, y: int, y1: int, m: int)
    requires
        m > 0,
        congruent(x, x1, m),
        congruent(y, y1, m),
    ensures
        congruent(x + y, x1 + y1, m),
{
    lemma_add_mod_noop(x, y, m);
    lemma_add_mod_noop(x1, y1, m);
}

/// Differences of congruent numbers are congruent.
pub proof fn lemma_congruent_sub(x: int, x1: int, y: int, y1: int, m: int)
    requires
        m > 0,
        congruent(x, x1, m),
        congruent(y, y1, m),
    ensures
        congruent(x - y, x1 - y1, m),
{
    lemma_sub_mod_noop(x, y, m);
    lemma_sub_mod_noop(x1, y1, m);
}

/// Products of congruent numbers are congruent.
pub proof fn lemma_congruent_mul(x: int, x1: int, y: int, y1: int, m: int)
    requires
        m > 0,
        congruent(x, x1, m),
        congruent(y, y1, m),
    ensures
        congruent(x * y, x1 * y1, m),
{
    lemma_mul_mod_noop_general(x, y, m);
    lemma_mul_mod_noop_general(x1, y1, m);
}

/// The reduced sum of two numbers follows the sum of what they are congruent to.
pub proof fn lemma_add_follows(a: int, b: int, x: int, y: int, m: int)
    requires
        m > 0,
        congruent(a, x, m),
        congruent(b, y, m),
    ensures
        congruent((a + b) % m, x + y, m),
        0 <= (a + b) % m < m,
{
    lemma_congruent_add(a, x, b, y, m);
    lemma_reduce_congruent(a + b, m);
}

/// The reduced difference of two numbers follows the difference of what they are
/// congruent to.
pub proof fn lemma_sub_follows(a: int, b: int, x: int, y: int, m: int)
    requires
        m > 0,
        congruent(a, x, m),
        congruent(b, y, m),
    ensures
        congruent((a - b) % m, x - y, m),
        0 <= (a - b) % m < m,
{
    lemma_congruent_sub(a, x, b, y, m);
    lemma_reduce_congruent(a - b, m);
}

/// The reduced product of two numbers follows the product of what they are
/// congruent to.
pub proof fn lemma_mul_follows(a: int, b: int, x: int, y: int, m: int)
    requires
        m > 0,
        congruent(a, x, m),
        congruent(b, y, m),
    ensures
        congruent((a * b) % m, x * y, m),
        0 <= (a * b) % m < m,
{
    lemma_congruent_mul(a, x, b, y, m);
    lemma_reduce_congruent(a * b, m);
}

/// The reduced negative of a number follows the negative of what it is
/// congruent to.
pub proof fn lemma_neg_follows(a: int, x: int, m: int)
    requires
        m > 0,
        congruent(a, x, m),
    ensures
        congruent((-a) % m, -x, m),
        0 <= (-a) % m < m,
{
    lemma_congruent_sub(0, 0, a, x, m);
    lemma_reduce_congruent(-a, m);
}

} // verus!
