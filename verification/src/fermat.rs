//! Fermat's little theorem: modulo a prime `p`, every residue but zero raised
//! to `p - 1` is one.
//!
//! Multiplication by a residue `a` that is not zero permutes the residues
//! `1, ..., p - 1`. So the product of all `a i` is the product of all `i`, and
//! it is also `a^(p-1)` times that product, which has an inverse.

use vstd::prelude::*;
use vstd::arithmetic::div_mod::{
    lemma_mod_bound, lemma_mul_mod_noop_general, lemma_mul_mod_noop_left, lemma_mul_mod_noop_right,
    lemma_small_mod,
};
use vstd::arithmetic::power::{lemma_pow0, lemma_pow1, lemma_pow_adds, pow};
use crate::modular::{
    is_inverse, is_prime, is_unit, lemma_inverse_of_product, lemma_mul_mod_assoc,
    lemma_mul_mod_comm, lemma_prime_units,
};

verus! {

/// The product of the members of `s` from 1 to `n`, reduced modulo `p`.
pub open spec fn set_product(s: Set<int>, n: nat, p: nat) -> nat
    decreases n,
{
    if n == 0 {
        1
    } else if s.contains(n as int) {
        (set_product(s, (n - 1) as nat, p) * n) % p
    } else {
        set_product(s, (n - 1) as nat, p)
    }
}

/// The product of `a i` reduced, for `i` from 1 to `n`, reduced modulo `p`.
pub open spec fn image_product(a: nat, n: nat, p: nat) -> nat
    decreases n,
{
    if n == 0 {
        1
    } else {
        (image_product(a, (n - 1) as nat, p) * ((a * n) % p)) % p
    }
}

/// The residues from 1 to `p - 1`.
pub open spec fn nonzero_residues(p: nat) -> Set<int> {
    Set::new(|y: int| 1 <= y < p)
}

/// The residues `a i` for `i` from 1 to `k`, told by their index: `b` is the
/// inverse of `a`, and the index of `y` is `y b` reduced.
pub open spec fn image_set(b: nat, k: nat, p: nat) -> Set<int> {
    Set::new(|y: int| 1 <= y < p && 1 <= (y * b) % (p as int) <= k)
}

/// A product is below the modulus.
proof fn lemma_set_product_bound(s: Set<int>, n: nat, p: nat)
    requires
        p > 1,
    ensures
        set_product(s, n, p) < p,
    decreases n,
{
    if n > 0 {
        lemma_set_product_bound(s, (n - 1) as nat, p);
        lemma_mod_bound((set_product(s, (n - 1) as nat, p) * n) as int, p as int);
    }
}

/// Two sets with the same members up to `n` have the same product up to `n`.
proof fn lemma_set_product_agrees(s: Set<int>, t: Set<int>, n: nat, p: nat)
    requires
        forall|y: int| 1 <= y <= n ==> s.contains(y) == t.contains(y),
    ensures
        set_product(s, n, p) == set_product(t, n, p),
    decreases n,
{
    if n > 0 {
        lemma_set_product_agrees(s, t, (n - 1) as nat, p);
    }
}

/// A member may be taken out of the product: the product of `s` is the member
/// times the product of the rest.
proof fn lemma_set_product_remove(s: Set<int>, x: nat, n: nat, p: nat)
    requires
        p > 1,
        1 <= x <= n,
        s.contains(x as int),
    ensures
        set_product(s, n, p) == (x * set_product(s.remove(x as int), n, p)) % p,
    decreases n,
{
    let rest = s.remove(x as int);
    let below = set_product(s, (n - 1) as nat, p);
    if n == x {
        lemma_set_product_agrees(s, rest, (n - 1) as nat, p);
        lemma_mul_mod_comm(below, n, p);
    } else {
        lemma_set_product_remove(s, x, (n - 1) as nat, p);
        let rb = set_product(rest, (n - 1) as nat, p);
        if s.contains(n as int) {
            // ((x rb) % p) n == x ((rb n) % p), all reduced
            lemma_mul_mod_noop_left((x * rb) as int, n as int, p as int);
            lemma_mul_mod_noop_right(x as int, (rb * n) as int, p as int);
            assert((x * rb) * n == x * (rb * n)) by (nonlinear_arith);
        }
    }
}

/// The product of the images is the power of `a` times the product of the
/// indices.
proof fn lemma_image_product_is_power(a: nat, n: nat, p: nat)
    requires
        p > 1,
        n < p,
    ensures
        image_product(a, n, p) == ((pow(a as int, n) % (p as int)) * set_product(
            nonzero_residues(p),
            n,
            p,
        )) % (p as int),
    decreases n,
{
    let pi = p as int;
    let s = nonzero_residues(p);
    if n == 0 {
        lemma_pow0(a as int);
        lemma_small_mod(1, p);
        assert(1 * 1 == 1) by (nonlinear_arith);
    } else {
        lemma_image_product_is_power(a, (n - 1) as nat, p);
        lemma_image_product_power_step(a, n, p);
    }
}

/// The step of `lemma_image_product_is_power`.
proof fn lemma_image_product_power_step(a: nat, n: nat, p: nat)
    requires
        p > 1,
        n > 0,
        n < p,
        image_product(a, (n - 1) as nat, p) == ((pow(a as int, (n - 1) as nat) % (p as int))
            * set_product(nonzero_residues(p), (n - 1) as nat, p)) % (p as int),
    ensures
        image_product(a, n, p) == ((pow(a as int, n) % (p as int)) * set_product(
            nonzero_residues(p),
            n,
            p,
        )) % (p as int),
{
    let pi = p as int;
    let ai = a as int;
    let s = nonzero_residues(p);
    let pw = pow(ai, (n - 1) as nat);
    let f = set_product(s, (n - 1) as nat, p) as int;
    let ni = n as int;
    assert(s.contains(ni));
    lemma_pow_adds(ai, (n - 1) as nat, 1);
    lemma_pow1(ai);
    assert(pow(ai, n) == pw * ai);
    // left: ((pw % p) f % p) ((a n) % p) % p, which follows (pw f) (a n)
    lemma_mul_mod_noop_left(pw, f, pi);
    lemma_mul_mod_noop_general(((pw % pi) * f), ai * ni, pi);
    lemma_mul_mod_noop_general(pw * f, ai * ni, pi);
    // right: ((pw a) % p) ((f n) % p) % p, which follows (pw a) (f n)
    lemma_mul_mod_noop_general(pw * ai, f * ni, pi);
    assert((pw * f) * (ai * ni) == (pw * ai) * (f * ni)) by (nonlinear_arith);
}

/// The index of an image is the index, and the image of an index is the
/// residue it was the index of: with `b` the inverse of `a`, `((a i) b)`
/// reduces to `i`, and `a ((y b) % p)` reduces to `y`.
proof fn lemma_index(a: nat, b: nat, i: nat, p: nat)
    requires
        p > 1,
        is_inverse(a, b, p),
        i < p,
    ensures
        (((a * i) % p) * b) % p == i,
        (a * ((i * b) % p)) % p == i,
{
    let pi = p as int;
    lemma_mul_mod_noop_left((a * i) as int, b as int, pi);
    assert((a * i) * b == (a * b) * i) by (nonlinear_arith);
    lemma_mul_mod_noop_left((a * b) as int, i as int, pi);
    assert(1 * i == i);
    lemma_small_mod(i, p);
    lemma_mul_mod_noop_right(a as int, (i * b) as int, pi);
    assert(a * (i * b) == (a * b) * i) by (nonlinear_arith);
}

/// The product of the images of `1, ..., k` is the product of the set of
/// those images.
proof fn lemma_image_product_is_set_product(a: nat, b: nat, k: nat, p: nat)
    requires
        p > 1,
        is_inverse(a, b, p),
        k < p,
    ensures
        image_product(a, k, p) == set_product(image_set(b, k, p), (p - 1) as nat, p),
    decreases k,
{
    let top = (p - 1) as nat;
    if k == 0 {
        lemma_set_product_agrees(image_set(b, 0, p), Set::empty(), top, p);
        lemma_set_product_empty(top, p);
    } else {
        let prev = (k - 1) as nat;
        lemma_image_product_is_set_product(a, b, prev, p);
        let y = (a * k) % p;
        lemma_mod_bound((a * k) as int, p as int);
        lemma_index(a, b, k, p);
        // the image of k is not zero, since zero has the index zero
        assert(y != 0) by {
            if y == 0 {
                assert(0 * b == 0);
                lemma_small_mod(0, p);
            }
        }
        let now = image_set(b, k, p);
        let before = image_set(b, prev, p);
        assert(now.contains(y as int));
        // taking the image of k out of the set leaves the set before
        assert forall|z: int| 1 <= z <= top implies now.remove(y as int).contains(z)
            == before.contains(z) by {
            if 1 <= z < p && (z * b) % (p as int) == k {
                lemma_index(a, b, z as nat, p);
            }
        }
        lemma_set_product_agrees(now.remove(y as int), before, top, p);
        lemma_set_product_remove(now, y, top, p);
        lemma_mul_mod_comm(y, set_product(before, top, p), p);
    }
}

/// The empty product is one.
proof fn lemma_set_product_empty(n: nat, p: nat)
    ensures
        set_product(Set::empty(), n, p) == 1,
    decreases n,
{
    if n > 0 {
        lemma_set_product_empty((n - 1) as nat, p);
    }
}

/// The product of `1, ..., n` has an inverse modulo a prime, for `n` below
/// the prime.
proof fn lemma_factorial_unit(n: nat, p: nat)
    requires
        is_prime(p),
        n < p,
    ensures
        is_unit(set_product(nonzero_residues(p), n, p), p),
    decreases n,
{
    if n == 0 {
        assert(1 * 1 == 1) by (nonlinear_arith);
        lemma_small_mod(1, p);
        assert(is_inverse(1, 1, p));
    } else {
        lemma_factorial_unit((n - 1) as nat, p);
        lemma_prime_units(p, n);
        let f = set_product(nonzero_residues(p), (n - 1) as nat, p);
        let fi = choose|c: nat| is_inverse(f, c, p);
        let ni = choose|c: nat| is_inverse(n, c, p);
        lemma_inverse_of_product(f, n, fi, ni, p);
        assert(nonzero_residues(p).contains(n as int));
    }
}

/// Fermat's little theorem.
pub proof fn lemma_fermat(a: nat, p: nat)
    requires
        is_prime(p),
        0 < a < p,
    ensures
        pow(a as int, (p - 1) as nat) % (p as int) == 1,
{
    let pi = p as int;
    let top = (p - 1) as nat;
    lemma_prime_units(p, a);
    let b = choose|c: nat| is_inverse(a, c, p);
    let full = nonzero_residues(p);
    let f = set_product(full, top, p);
    // the images of all indices are all residues but zero
    assert forall|y: int| 1 <= y <= top implies image_set(b, top, p).contains(y) == full.contains(
        y,
    ) by {
        let idx = (y * b) % pi;
        lemma_mod_bound(y * b, pi);
        lemma_index(a, b, y as nat, p);
        if idx == 0 {
            assert(a * 0 == 0);
            lemma_small_mod(0, p);
        }
    }
    lemma_set_product_agrees(image_set(b, top, p), full, top, p);
    lemma_image_product_is_set_product(a, b, top, p);
    lemma_image_product_is_power(a, top, p);
    let pw = (pow(a as int, top) % pi) as nat;
    lemma_mod_bound(pow(a as int, top), pi);
    assert(f == (pw * f) % p);
    // the product of all residues has an inverse, which takes it off both sides
    lemma_factorial_unit(top, p);
    let fi = choose|c: nat| is_inverse(f, c, p);
    lemma_mul_mod_assoc(pw, f, fi, p);
    lemma_small_mod(pw, p);
    assert(pw * 1 == pw);
    assert(((pw * f) % p) * fi % p == (f * fi) % p);
}

} // verus!
