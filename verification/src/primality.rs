//! Proofs that a number is prime, from a residue of known order.
//!
//! A number `n` that is not prime has a prime divisor `l` with `l^2 <= n`.
//! Modulo `l`, every residue but zero has an order that divides `l - 1`. So a
//! residue whose order modulo every prime divisor of `n` is a number `f` shows
//! `l > f`, and where `(f + 1)^2 > n` there is no such `l`. The order is
//! pinned down here in two cases: for `f` a power of two, by a residue whose
//! power `f / 2` is minus one; for `f` the square of a prime `x`, by a residue
//! `g` with `g^(x^2) = 1` and `g^x - 1` invertible.

use vstd::prelude::*;
use vstd::arithmetic::div_mod::{
    lemma_fundamental_div_mod, lemma_fundamental_div_mod_converse, lemma_mod_bound,
    lemma_mod_mod, lemma_mod_multiples_basic, lemma_mod_self_0, lemma_mul_mod_noop_general,
    lemma_small_mod,
};
use vstd::arithmetic::power2::{lemma_pow2_pos, lemma_pow2_unfold, pow2};
use vstd::arithmetic::power::{
    lemma0_pow, lemma1_pow, lemma_pow1, lemma_pow_adds, lemma_pow_mod_noop,
    lemma_pow_multiplies, lemma_square_is_pow2, pow,
};
use crate::fermat::lemma_fermat;
use crate::modular::{is_inverse, is_prime, lemma_prime_units};

verus! {

/// The least divisor of `n` that is at least `k`.
pub open spec fn least_divisor_from(n: nat, k: nat) -> nat
    decreases n - k,
{
    if k >= n || k == 0 || n % k == 0 {
        k
    } else {
        least_divisor_from(n, k + 1)
    }
}

/// The least divisor from `k` on divides `n`, and nothing from `k` up to it
/// does.
pub proof fn lemma_least_divisor_from(n: nat, k: nat)
    requires
        2 <= k <= n,
    ensures
        k <= least_divisor_from(n, k) <= n,
        n % least_divisor_from(n, k) == 0,
        forall|j: nat| k <= j < least_divisor_from(n, k) ==> #[trigger] (n % j) != 0,
    decreases n - k,
{
    if k >= n {
        lemma_mod_self_0(n as int);
    } else if n % k != 0 {
        lemma_least_divisor_from(n, k + 1);
    }
}

/// A divisor of a divisor is a divisor.
pub proof fn lemma_divides_transitive(e: nat, l: nat, n: nat)
    requires
        e > 0,
        l > 0,
        l % e == 0,
        n % l == 0,
    ensures
        n % e == 0,
{
    let a = (n / l) as int;
    let b = (l / e) as int;
    lemma_fundamental_div_mod(n as int, l as int);
    lemma_fundamental_div_mod(l as int, e as int);
    assert(n == (b * a) * e) by (nonlinear_arith)
        requires
            n == l * a,
            l == e * b,
    ;
    lemma_mod_multiples_basic(b * a, e as int);
}

/// A number from two on that is not prime has a prime divisor whose square is
/// at most the number.
pub proof fn lemma_least_prime_divisor(n: nat) -> (l: nat)
    requires
        n >= 2,
        !is_prime(n),
    ensures
        is_prime(l),
        n % l == 0,
        l * l <= n,
{
    let l = least_divisor_from(n, 2);
    lemma_least_divisor_from(n, 2);
    let d = choose|d: nat| 1 < d < n && #[trigger] (n % d) == 0;
    assert(l <= d);
    assert forall|e: nat| 1 < e < l implies #[trigger] (l % e) != 0 by {
        if l % e == 0 {
            lemma_divides_transitive(e, l, n);
        }
    }
    let m = n / l;
    lemma_fundamental_div_mod(n as int, l as int);
    assert(m >= 2) by (nonlinear_arith)
        requires
            n == l * m,
            l < n,
            l >= 2,
    ;
    assert(n == m * l) by (nonlinear_arith)
        requires
            n == l * m,
    ;
    lemma_mod_multiples_basic(l as int, m as int);
    assert(m >= l) by {
        if m < l {
            assert(n % m != 0);
        }
    }
    assert(l * l <= n) by (nonlinear_arith)
        requires
            n == l * m,
            m >= l,
    ;
    l
}

/// What is congruent modulo `n` is congruent modulo a divisor of `n`.
pub proof fn lemma_mod_of_divisor(y: int, n: nat, l: nat)
    requires
        l > 0,
        n > 0,
        n % l == 0,
    ensures
        (y % (n as int)) % (l as int) == y % (l as int),
{
    let m = (n / l) as int;
    lemma_fundamental_div_mod(n as int, l as int);
    assert(m > 0) by (nonlinear_arith)
        requires
            n == l * m,
            n > 0,
            l > 0,
    ;
    lemma_mod_mod(y, l as int, m);
}

/// A product with a factor congruent to one is congruent to the other factor.
pub proof fn lemma_times_one(a: int, b: int, l: nat)
    requires
        l >= 2,
        a % (l as int) == 1,
    ensures
        (a * b) % (l as int) == b % (l as int),
{
    let li = l as int;
    lemma_mul_mod_noop_general(a, b, li);
    assert(1 * (b % li) == b % li);
    lemma_mod_bound(b, li);
    lemma_small_mod((b % li) as nat, l);
}

/// A power of what is congruent to one is congruent to one.
pub proof fn lemma_power_of_one(a: int, e: nat, l: nat)
    requires
        l >= 2,
        a % (l as int) == 1,
    ensures
        pow(a, e) % (l as int) == 1,
{
    lemma_pow_mod_noop(a, e, l as int);
    lemma1_pow(e);
    lemma_small_mod(1, l);
}

/// Fermat's little theorem for a number that the prime does not divide.
pub proof fn lemma_fermat_of(a: int, l: nat)
    requires
        is_prime(l),
        a % (l as int) != 0,
    ensures
        pow(a, (l - 1) as nat) % (l as int) == 1,
{
    lemma_mod_bound(a, l as int);
    lemma_fermat((a % (l as int)) as nat, l);
    lemma_pow_mod_noop(a, (l - 1) as nat, l as int);
}

/// Minus one to an odd power is minus one.
pub proof fn lemma_minus_one_power(l: nat, r: nat)
    requires
        l > 2,
        r % 2 == 1,
    ensures
        pow(l - 1, r) % (l as int) == l - 1,
{
    let li = l as int;
    let k = (r / 2) as nat;
    let s = (li - 1) * (li - 1);
    assert(r == 2 * k + 1);
    lemma_pow_adds(li - 1, 2 * k, 1);
    lemma_pow1(li - 1);
    lemma_pow_multiplies(li - 1, 2, k);
    lemma_square_is_pow2(li - 1);
    assert(s == (li - 2) * li + 1) by (nonlinear_arith)
        requires
            s == (li - 1) * (li - 1),
    ;
    lemma_fundamental_div_mod_converse(s, li, li - 2, 1);
    lemma_power_of_one(s, k, l);
    lemma_times_one(pow(s, k), li - 1, l);
    lemma_small_mod((l - 1) as nat, l);
}

/// Modulo `l > 2`, a number `c` whose power `2^(n-1)` is minus one has order
/// `2^n`: it divides every `r` for which `c^r` is one.
pub proof fn lemma_two_power_order(c: int, l: nat, n: nat, r: nat)
    requires
        l > 2,
        n >= 1,
        pow(c, pow2((n - 1) as nat)) % (l as int) == l - 1,
        pow(c, r) % (l as int) == 1,
    ensures
        r % pow2(n) == 0,
    decreases n,
{
    let li = l as int;
    let e = pow2((n - 1) as nat);
    lemma_pow2_unfold(n);
    lemma_pow2_pos(n);
    if r % 2 == 1 {
        lemma_pow_multiplies(c, r, e);
        lemma_pow_multiplies(c, e, r);
        assert(r * e == e * r) by (nonlinear_arith);
        lemma_power_of_one(pow(c, r), e, l);
        lemma_pow_mod_noop(pow(c, e), r, li);
        lemma_minus_one_power(l, r);
        assert(false);
    } else {
        let h = (r / 2) as nat;
        assert(r == 2 * h);
        if n == 1 {
            vstd::arithmetic::power2::lemma2_to64();
        } else {
            let c2 = c * c;
            let e2 = pow2((n - 2) as nat);
            lemma_pow2_unfold((n - 1) as nat);
            lemma_square_is_pow2(c);
            lemma_pow_multiplies(c, 2, e2);
            lemma_pow_multiplies(c, 2, h);
            lemma_two_power_order(c2, l, (n - 1) as nat, h);
            let j = (h / e) as int;
            lemma_fundamental_div_mod(h as int, e as int);
            assert(r == j * (2 * e)) by (nonlinear_arith)
                requires
                    r == 2 * h,
                    h == e * j,
            ;
            lemma_mod_multiples_basic(j, (2 * e) as int);
        }
    }
}

/// Modulo `l`, for a prime `x`: a number `h` with `h^x` one and `h^t` one for
/// some `t` strictly between zero and `x` is one itself.
pub proof fn lemma_prime_order(h: int, l: nat, x: nat, t: nat)
    requires
        is_prime(x),
        l >= 2,
        pow(h, x) % (l as int) == 1,
        pow(h, t) % (l as int) == 1,
        0 < t < x,
    ensures
        h % (l as int) == 1,
{
    let li = l as int;
    lemma_prime_units(x, t);
    let s = choose|s: nat| is_inverse(t, s, x);
    let j = ((t * s) / x) as nat;
    lemma_fundamental_div_mod((t * s) as int, x as int);
    assert(t * s == x * j + 1);
    // h^(t s) is one
    lemma_pow_multiplies(h, t, s);
    lemma_power_of_one(pow(h, t), s, l);
    // h^(x j + 1) is h
    lemma_pow_adds(h, x * j, 1);
    lemma_pow1(h);
    lemma_pow_multiplies(h, x, j);
    lemma_power_of_one(pow(h, x), j, l);
    lemma_times_one(pow(h, x * j), h, l);
}

/// Modulo `l`, for a prime `x`: a number `g` with `g^(x^2)` one and `g^x` not
/// one has order `x^2`: it divides every `r` for which `g^r` is one.
pub proof fn lemma_prime_square_order(g: int, l: nat, x: nat, r: nat)
    requires
        is_prime(x),
        l >= 2,
        pow(g, x * x) % (l as int) == 1,
        pow(g, x) % (l as int) != 1,
        pow(g, r) % (l as int) == 1,
    ensures
        r % (x * x) == 0,
{
    let li = l as int;
    let xx = x * x;
    assert(xx > 0) by (nonlinear_arith)
        requires
            xx == x * x,
            x >= 2,
    ;
    let k = (r / xx) as nat;
    let r2 = (r % xx) as nat;
    lemma_fundamental_div_mod(r as int, xx as int);
    lemma_mod_bound(r as int, xx as int);
    // g^r2 is one
    assert(r == xx * k + r2);
    lemma_pow_adds(g, xx * k, r2);
    lemma_pow_multiplies(g, xx, k);
    lemma_power_of_one(pow(g, xx), k, l);
    lemma_times_one(pow(g, xx * k), pow(g, r2), l);
    assert(pow(g, r2) % li == 1);
    let h = pow(g, x);
    lemma_pow_multiplies(g, x, x);
    let r1 = (r2 / x) as nat;
    let r0 = (r2 % x) as nat;
    lemma_fundamental_div_mod(r2 as int, x as int);
    lemma_mod_bound(r2 as int, x as int);
    assert(r1 < x) by (nonlinear_arith)
        requires
            r2 == x * r1 + r0,
            r2 < x * x,
            r0 >= 0,
            x > 0,
    ;
    // h^r0 is one: raise g^r2 to the power x
    lemma_pow_multiplies(g, r2, x);
    lemma_power_of_one(pow(g, r2), x, l);
    assert(r2 * x == xx * r1 + x * r0) by (nonlinear_arith)
        requires
            r2 == x * r1 + r0,
            xx == x * x,
    ;
    lemma_pow_adds(g, xx * r1, x * r0);
    lemma_pow_multiplies(g, xx, r1);
    lemma_power_of_one(pow(g, xx), r1, l);
    lemma_pow_multiplies(g, x, r0);
    lemma_times_one(pow(g, xx * r1), pow(h, r0), l);
    assert(pow(h, r0) % li == 1);
    if r0 > 0 {
        lemma_prime_order(h, l, x, r0);
    }
    // h^r1 is one
    assert(r2 == x * r1);
    lemma_pow_multiplies(g, x, r1);
    if r1 > 0 {
        lemma_prime_order(h, l, x, r1);
    }
    assert(r2 == 0) by (nonlinear_arith)
        requires
            r2 == x * r1,
            r1 == 0,
    ;
}

/// An odd number `n` is prime where some `c` has `c^(2^(e-1)) = -1` modulo `n`
/// and `(2^e + 1)^2 > n`.
pub proof fn lemma_prime_by_two_power(n: nat, e: nat, c: nat)
    requires
        n >= 3,
        n % 2 == 1,
        e >= 1,
        pow(c as int, pow2((e - 1) as nat)) % (n as int) == n - 1,
        (pow2(e) + 1) * (pow2(e) + 1) > n,
    ensures
        is_prime(n),
{
    if !is_prime(n) {
        let l = lemma_least_prime_divisor(n);
        let li = l as int;
        let ci = c as int;
        let half = pow2((e - 1) as nat);
        lemma_pow2_pos((e - 1) as nat);
        lemma_pow2_pos(e);
        assert(l > 2);
        // c^(2^(e-1)) is minus one modulo l as well
        lemma_mod_of_divisor(pow(ci, half), n, l);
        let m = (n / l) as int;
        lemma_fundamental_div_mod(n as int, li);
        assert(n - 1 == l * (m - 1) + (l - 1)) by (nonlinear_arith)
            requires
                n == l * m,
        ;
        lemma_fundamental_div_mod_converse(n - 1, li, m - 1, li - 1);
        assert(pow(ci, half) % li == l - 1);
        if ci % li == 0 {
            lemma_pow_mod_noop(ci, half, li);
            lemma0_pow(half);
            lemma_small_mod(0, l);
        }
        lemma_fermat_of(ci, l);
        lemma_two_power_order(ci, l, e, (l - 1) as nat);
        // so l - 1 is at least 2^e
        let p = pow2(e) as int;
        let j = (l - 1) / p;
        lemma_fundamental_div_mod(l - 1, p);
        assert(l * l > n) by (nonlinear_arith)
            requires
                l - 1 == p * j,
                l > 2,
                p > 0,
                (p + 1) * (p + 1) > n,
        ;
    }
}

/// A number `n` is prime where, for some prime `x` with `(x^2 + 1)^2 > n`,
/// some `g` has `g^x = h` and `h^x = 1` modulo `n`, and `h - 1` has the inverse
/// `w` modulo `n`.
pub proof fn lemma_prime_by_prime_square(n: nat, x: nat, g: nat, h: nat, w: nat)
    requires
        n >= 2,
        is_prime(x),
        h >= 1,
        pow(g as int, x) % (n as int) == h,
        pow(h as int, x) % (n as int) == 1,
        ((h - 1) * w) % (n as int) == 1,
        (x * x + 1) * (x * x + 1) > n,
    ensures
        is_prime(n),
{
    if !is_prime(n) {
        let l = lemma_least_prime_divisor(n);
        let li = l as int;
        let ni = n as int;
        let gi = g as int;
        let xx = x * x;
        assert(xx > 0) by (nonlinear_arith)
            requires
                xx == x * x,
                x >= 2,
        ;
        lemma_small_mod(1, l);
        // g^(x^2) is one modulo n, and so modulo l
        lemma_pow_multiplies(gi, x, x);
        lemma_pow_mod_noop(pow(gi, x), x, ni);
        lemma_mod_of_divisor(pow(gi, xx), n, l);
        assert(pow(gi, xx) % li == 1);
        // g^x is not one modulo l: g^x - 1 has an inverse
        lemma_mod_of_divisor(pow(gi, x), n, l);
        lemma_mod_of_divisor((h - 1) * w, n, l);
        if pow(gi, x) % li == 1 {
            let t = (h / l) as int;
            lemma_fundamental_div_mod(h as int, li);
            assert((h - 1) * w == (t * w) * l) by (nonlinear_arith)
                requires
                    h == l * t + 1,
            ;
            lemma_mod_multiples_basic(t * w, li);
            assert(false);
        }
        if gi % li == 0 {
            lemma_pow_mod_noop(gi, xx, li);
            lemma0_pow(xx);
            lemma_small_mod(0, l);
        }
        lemma_fermat_of(gi, l);
        lemma_prime_square_order(gi, l, x, (l - 1) as nat);
        let j = (l - 1) / (xx as int);
        lemma_fundamental_div_mod(l - 1, xx as int);
        assert(l * l > n) by (nonlinear_arith)
            requires
                l - 1 == xx * j,
                l >= 2,
                xx > 0,
                (xx + 1) * (xx + 1) > n,
        ;
    }
}

/// One step of raising to a power by squaring: from `b^e` to `b^(2 e)`.
pub proof fn lemma_power_step_square(b: nat, e: nat, a: nat, a2: nat, n: nat)
    requires
        n > 0,
        pow(b as int, e) % (n as int) == a,
        (a * a) % n == a2,
    ensures
        pow(b as int, 2 * e) % (n as int) == a2,
{
    let p = pow(b as int, e);
    lemma_pow_multiplies(b as int, e, 2);
    lemma_square_is_pow2(p);
    lemma_mul_mod_noop_general(p, p, n as int);
    assert(e * 2 == 2 * e);
}

/// One step of raising to a power by multiplying: from `b^e` to `b^(e + 1)`.
pub proof fn lemma_power_step_next(b: nat, e: nat, a: nat, a2: nat, n: nat)
    requires
        n > 0,
        pow(b as int, e) % (n as int) == a,
        (a * b) % n == a2,
    ensures
        pow(b as int, e + 1) % (n as int) == a2,
{
    let p = pow(b as int, e);
    lemma_pow_adds(b as int, e, 1);
    lemma_pow1(b as int);
    lemma_mul_mod_noop_general(p, b as int, n as int);
    lemma_mul_mod_noop_general(a as int, b as int, n as int);
    lemma_mod_bound(p, n as int);
    lemma_small_mod(a, n);
}

} // verus!
