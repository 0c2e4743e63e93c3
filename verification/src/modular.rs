//! Arithmetic on 256-bit numbers modulo an odd modulus below 2^255.
//!
//! Every function takes the modulus as its last argument; the two fields of the
//! library call these functions with their own prime.

use vstd::prelude::*;
use vstd::arithmetic::div_mod::*;
use vstd::arithmetic::mul::*;
use vstd::arithmetic::power2::*;
use vstd::arithmetic::power::*;
use crate::bytes::{le_value, lemma_le_value_step};
use crate::u256::{U256, b128, b256};

verus! {

/// 2^255, the strict upper bound on a modulus.
pub open spec fn b255() -> nat {
    0x8000_0000_0000_0000_0000_0000_0000_0000_0000_0000_0000_0000_0000_0000_0000_0000nat
}

/// What the functions of this module ask of a modulus: odd, above one, below 2^255.
pub open spec fn modulus_ok(m: U256) -> bool {
    &&& m.value() % 2 == 1
    &&& 1 < m.value()
    &&& m.value() < b255()
}

/// `base` raised to `exp`, reduced modulo `m`.
pub open spec fn pow_mod(base: nat, exp: nat, m: nat) -> nat {
    (pow(base as int, exp) % (m as int)) as nat
}

/// Whether `b` is a multiplicative inverse of `a` modulo `m`.
pub open spec fn is_inverse(a: nat, b: nat, m: nat) -> bool {
    b < m && (a * b) % m == 1
}

/// Whether `a` has a multiplicative inverse modulo `m`.
pub open spec fn is_unit(a: nat, m: nat) -> bool {
    exists|b: nat| is_inverse(a, b, m)
}

/// The multiplicative inverse of `a` modulo `m`, and zero where `a` has none.
pub open spec fn inverse_or_zero(a: nat, m: nat) -> nat {
    if is_unit(a, m) {
        choose|b: nat| is_inverse(a, b, m)
    } else {
        0
    }
}

/// Whether `n` is a prime number.
pub open spec fn is_prime(n: nat) -> bool {
    n >= 2 && forall|d: nat| 1 < d < n ==> #[trigger] (n % d) != 0
}

/// Modulo a prime, every residue but zero has an inverse.
///
/// By induction on the residue `a`: the remainder `r` of the prime by `a` is
/// smaller than `a` and not zero, so it has an inverse `r'`, and then
/// `-(p / a) r'` is an inverse of `a`.
pub proof fn lemma_prime_units(p: nat, a: nat)
    requires
        is_prime(p),
        0 < a < p,
    ensures
        is_unit(a, p),
    decreases a,
{
    let pi = p as int;
    if a == 1 {
        assert(1 * 1 == 1) by (nonlinear_arith);
        lemma_small_mod(1, p);
        assert(is_inverse(a, 1, p));
    } else {
        let r = p % a;
        let k = p / a;
        assert(r != 0);
        lemma_fundamental_div_mod(pi, a as int);
        lemma_mod_bound(pi, a as int);
        lemma_prime_units(p, r);
        let r1 = choose|b: nat| is_inverse(r, b, p);
        // a k is congruent to -r, so a (k r1) is congruent to -(r r1), which is -1
        let kr = k * r1;
        let b = ((-(kr as int)) % pi) as nat;
        lemma_mod_bound(-(kr as int), pi);
        assert(a * kr == (p - r) * r1) by (nonlinear_arith)
            requires
                p == a * k + r,
                kr == k * r1,
        ;
        assert((p - r) * r1 == p * r1 - r * r1) by (nonlinear_arith);
        // a b is congruent to a (-kr) = r r1 - p r1
        lemma_mul_mod_noop_right(a as int, -(kr as int), pi);
        assert(a * (-(kr as int)) == r * r1 - p * r1) by (nonlinear_arith)
            requires
                a * kr == p * r1 - r * r1,
        ;
        lemma_mod_multiples_vanish(-(r1 as int), (r * r1) as int, pi);
        assert(p * (-(r1 as int)) + r * r1 == r * r1 - p * r1) by (nonlinear_arith);
        assert(pi * (-(r1 as int)) == p * (-(r1 as int)));
        assert((a * b) % p == 1);
        assert(is_inverse(a, b, p));
    }
}

/// Chooses between two limbs without branching: `a` when `flag` is 0, `b` when it is 1.
pub(crate) fn select_limb(a: u64, b: u64, flag: u64) -> (r: u64)
    requires
        flag <= 1,
    ensures
        r == if flag == 1 { b } else { a },
{
    let mask: u64 = 0u64.wrapping_sub(flag);
    let r: u64 = a ^ (mask & (a ^ b));
    assert(r == if flag == 1 { b } else { a }) by (bit_vector)
        requires
            flag <= 1,
            mask == 0u64.wrapping_sub(flag),
            r == a ^ (mask & (a ^ b)),
    ;
    r
}

/// Chooses between two numbers without branching: `a` when `flag` is 0, `b` when it is 1.
pub(crate) fn select(a: U256, b: U256, flag: u64) -> (r: U256)
    requires
        flag <= 1,
    ensures
        r == if flag == 1 { b } else { a },
{
    U256 {
        l0: select_limb(a.l0, b.l0, flag),
        l1: select_limb(a.l1, b.l1, flag),
        l2: select_limb(a.l2, b.l2, flag),
        l3: select_limb(a.l3, b.l3, flag),
    }
}

/// The sum of two residues.
pub(crate) fn add_mod(a: U256, b: U256, m: U256) -> (r: U256)
    requires
        modulus_ok(m),
        a.value() < m.value(),
        b.value() < m.value(),
    ensures
        r.value() == (a.value() + b.value()) % m.value(),
        r.value() < m.value(),
{
    let (s, _) = a.add_carry(b);
    let (d, borrow) = s.sub_borrow(m);
    proof {
        let sv = s.value() as int;
        let mv = m.value() as int;
        if sv < mv {
            lemma_small_mod(sv as nat, mv as nat);
        } else {
            lemma_fundamental_div_mod_converse(sv, mv, 1, sv - mv);
        }
    }
    select(d, s, borrow)
}

/// The difference of two residues.
pub(crate) fn sub_mod(a: U256, b: U256, m: U256) -> (r: U256)
    requires
        modulus_ok(m),
        a.value() < m.value(),
        b.value() < m.value(),
    ensures
        r.value() == (a.value() - b.value()) % (m.value() as int),
        r.value() < m.value(),
{
    let (d, borrow) = a.sub_borrow(b);
    let (e, _) = d.add_carry(m);
    proof {
        let diff = a.value() - b.value();
        let mv = m.value() as int;
        if diff < 0 {
            lemma_fundamental_div_mod_converse(diff, mv, -1, diff + mv);
        } else {
            lemma_small_mod(diff as nat, mv as nat);
        }
    }
    select(d, e, borrow)
}

/// The additive inverse of a residue.
pub(crate) fn neg_mod(a: U256, m: U256) -> (r: U256)
    requires
        modulus_ok(m),
        a.value() < m.value(),
    ensures
        r.value() == (-(a.value() as int)) % (m.value() as int),
        r.value() < m.value(),
        r.value() == if a.value() == 0 { 0 } else { m.value() - a.value() },
{
    let r = sub_mod(U256::zero(), a, m);
    proof {
        let mv = m.value() as int;
        let av = a.value() as int;
        if av == 0 {
            lemma_small_mod(0, mv as nat);
        } else {
            lemma_fundamental_div_mod_converse(-av, mv, -1, mv - av);
        }
    }
    r
}

/// Twice a residue.
pub(crate) fn double_mod(a: U256, m: U256) -> (r: U256)
    requires
        modulus_ok(m),
        a.value() < m.value(),
    ensures
        r.value() == (2 * a.value()) % m.value(),
        r.value() < m.value(),
{
    add_mod(a, a, m)
}

/// Half a residue: the residue whose double is `a`.
pub(crate) fn half_mod(a: U256, m: U256) -> (r: U256)
    requires
        modulus_ok(m),
        a.value() < m.value(),
    ensures
        r.value() < m.value(),
        2 * r.value() == if a.value() % 2 == 0 { a.value() } else { a.value() + m.value() },
{
    let (s, _) = a.add_carry(m);
    select(a, s, a.low_bit()).shr1()
}


/// The library's literal for 2^256 is vstd's `pow2(256)`.
pub proof fn lemma_pow2_256()
    ensures
        pow2(256) == b256(),
        pow2(0) == 1,
{
    lemma2_to64();
    lemma_pow2_adds(64, 64);
    lemma_pow2_adds(128, 128);
    let p64 = pow2(64);
    let p128 = pow2(128);
    assert(p64 * p64 == b128()) by (nonlinear_arith)
        requires
            p64 == 0x1_0000_0000_0000_0000nat,
    ;
    assert(p128 * p128 == b256()) by (nonlinear_arith)
        requires
            p128 == 0x1_0000_0000_0000_0000_0000_0000_0000_0000nat,
    ;
}

/// What binary multiplication keeps fixed from round to round: `acc + x * y`,
/// reduced.
#[verifier::opaque]
pub open spec fn mul_state(acc: nat, x: nat, y: nat, m: nat) -> nat {
    (acc + x * y) % m
}

/// The state before the first round and after the last.
pub proof fn lemma_mul_state_ends(acc: nat, x: nat, y: nat, m: nat)
    requires
        m > 0,
        acc < m,
    ensures
        mul_state(0, x, y, m) == (x * y) % m,
        mul_state(acc, x, 0, m) == acc,
{
    reveal(mul_state);
    assert(x * 0 == 0);
    lemma_small_mod(acc, m);
}

/// One round of binary multiplication keeps the state.
pub proof fn lemma_mul_round(acc: nat, x: nat, y: nat, m: nat)
    requires
        m > 0,
        acc < m,
    ensures
        ({
            let acc1 = if y % 2 == 1 { (acc + x) % m } else { acc };
            let x1 = (2 * x) % m;
            mul_state(acc1, x1, y / 2, m) == mul_state(acc, x, y, m)
        }),
{
    reveal(mul_state);
    let bit = y % 2;
    let h = y / 2;
    let mi = m as int;
    let big_a = (acc + bit * x) as int;
    let big_b = (2 * x * h) as int;
    let acc1 = if y % 2 == 1 { (acc + x) % m } else { acc };
    let x1 = (2 * x) % m;
    assert(bit * x == if bit == 1 { x } else { 0 }) by (nonlinear_arith)
        requires
            bit == 0 || bit == 1,
    ;
    lemma_small_mod(acc, m);
    assert(acc1 as int == big_a % mi);
    assert(acc + x * y == big_a + big_b) by (nonlinear_arith)
        requires
            y == 2 * h + bit,
            big_a == acc + bit * x,
            big_b == 2 * x * h,
    ;
    lemma_mul_mod_noop_left((2 * x) as int, h as int, mi);
    assert(((x1 * h) as int) % mi == big_b % mi);
    lemma_add_mod_noop(big_a, big_b, mi);
    lemma_add_mod_noop(acc1 as int, (x1 * h) as int, mi);
    lemma_mod_twice(big_a, mi);
}

/// The product of a residue and any 256-bit number, reduced.
pub(crate) fn mul_mod(a: U256, b: U256, m: U256) -> (r: U256)
    requires
        modulus_ok(m),
        a.value() < m.value(),
    ensures
        r.value() == (a.value() * b.value()) % m.value(),
        r.value() < m.value(),
{
    let mut acc = U256::zero();
    let mut x = a;
    let mut y = b;
    let mut i: u32 = 0;
    proof {
        lemma_pow2_256();
        U256::lemma_value_bound(b);
    }
    while i < 256
        invariant
            modulus_ok(m),
            i <= 256,
            acc.value() < m.value(),
            x.value() < m.value(),
            y.value() < pow2((256 - i) as nat),
            mul_state(acc.value(), x.value(), y.value(), m.value()) == mul_state(
                0,
                a.value(),
                b.value(),
                m.value(),
            ),
        decreases 256 - i,
    {
        proof {
            lemma_mul_round(acc.value(), x.value(), y.value(), m.value());
            lemma_pow2_unfold((256 - i) as nat);
        }
        let bit: u64 = y.low_bit();
        let sum = add_mod(acc, x, m);
        acc = select(acc, sum, bit);
        x = double_mod(x, m);
        y = y.shr1();
        i = i + 1;
    }
    proof {
        assert(y.value() == 0);
        lemma_mul_state_ends(acc.value(), x.value(), 0, m.value());
        lemma_mul_state_ends(0, a.value(), b.value(), m.value());
    }
    acc
}

/// Any 256-bit number reduced to its residue.
pub(crate) fn reduce(a: U256, m: U256) -> (r: U256)
    requires
        modulus_ok(m),
    ensures
        r.value() == a.value() % m.value(),
        r.value() < m.value(),
{
    let r = mul_mod(U256::from_u64(1), a, m);
    proof {
        assert(1 * a.value() == a.value());
    }
    r
}

/// What binary exponentiation keeps fixed from round to round: `acc * x^y`,
/// reduced.
#[verifier::opaque]
pub open spec fn pow_state(acc: nat, x: nat, y: nat, m: nat) -> int {
    (acc * pow(x as int, y)) % (m as int)
}

/// The state before the first round and after the last.
pub proof fn lemma_pow_state_ends(acc: nat, x: nat, y: nat, m: nat)
    requires
        m > 1,
        acc < m,
    ensures
        pow_state(1, x, y, m) == pow_mod(x, y, m),
        pow_state(acc, x, 0, m) == acc,
{
    reveal(pow_state);
    lemma_pow0(x as int);
    assert(acc * 1 == acc);
    assert(1 * pow(x as int, y) == pow(x as int, y));
    lemma_small_mod(acc, m);
    lemma_mod_bound(pow(x as int, y), m as int);
}

/// One round of binary exponentiation keeps the state.
pub proof fn lemma_pow_round(acc: nat, x: nat, y: nat, m: nat)
    requires
        m > 0,
        acc < m,
    ensures
        ({
            let acc1 = if y % 2 == 1 { (acc * x) % m } else { acc };
            let x1 = (x * x) % m;
            pow_state(acc1, x1, y / 2, m) == pow_state(acc, x, y, m)
        }),
{
    reveal(pow_state);
    let bit = y % 2;
    let h = y / 2;
    let mi = m as int;
    let xi = x as int;
    let acc1 = if y % 2 == 1 { (acc * x) % m } else { acc };
    let x1 = (x * x) % m;
    let sq = pow(xi * xi, h);
    // pow(x, y) == pow(x * x, h) * x^bit
    lemma_square_is_pow2(xi);
    lemma_pow_multiplies(xi, 2, h);
    lemma_pow_adds(xi, 2 * h, bit);
    assert(pow(xi, y) == sq * pow(xi, bit));
    lemma_pow0(xi);
    lemma_pow1(xi);
    let f: int = if bit == 1 { xi } else { 1 };
    assert(pow(xi, bit) == f);
    // the squared base may be reduced first
    lemma_pow_mod_noop(xi * xi, h, mi);
    assert(pow(x1 as int, h) % mi == sq % mi);
    // acc1 is acc * f reduced
    lemma_small_mod(acc, m);
    assert(acc1 as int == (acc * f) % mi) by {
        if bit == 1 {
        } else {
            assert(acc * 1 == acc);
        }
    }
    lemma_mul_mod_noop_general(acc * f, sq, mi);
    lemma_mul_mod_noop_general(acc1 as int, pow(x1 as int, h), mi);
    lemma_mod_twice(acc * f, mi);
    assert((acc * f) * sq == acc * (sq * f)) by (nonlinear_arith);
}

/// A residue raised to any 256-bit exponent.
pub(crate) fn pow_mod_exec(a: U256, e: U256, m: U256) -> (r: U256)
    requires
        modulus_ok(m),
        a.value() < m.value(),
    ensures
        r.value() == pow_mod(a.value(), e.value(), m.value()),
        r.value() < m.value(),
{
    let mut acc = U256::from_u64(1);
    let mut x = a;
    let mut y = e;
    let mut i: u32 = 0;
    proof {
        lemma_pow2_256();
        U256::lemma_value_bound(e);
    }
    while i < 256
        invariant
            modulus_ok(m),
            i <= 256,
            acc.value() < m.value(),
            x.value() < m.value(),
            y.value() < pow2((256 - i) as nat),
            pow_state(acc.value(), x.value(), y.value(), m.value()) == pow_state(
                1,
                a.value(),
                e.value(),
                m.value(),
            ),
        decreases 256 - i,
    {
        proof {
            lemma_pow_round(acc.value(), x.value(), y.value(), m.value());
            lemma_pow2_unfold((256 - i) as nat);
        }
        let bit: u64 = y.low_bit();
        let prod = mul_mod(acc, x, m);
        acc = select(acc, prod, bit);
        x = mul_mod(x, x, m);
        y = y.shr1();
        i = i + 1;
    }
    proof {
        assert(y.value() == 0);
        lemma_pow_state_ends(acc.value(), x.value(), 0, m.value());
        lemma_pow_state_ends(1, a.value(), e.value(), m.value());
    }
    acc
}


/// A residue has at most one inverse.
pub proof fn lemma_inverse_unique(a: nat, b: nat, c: nat, m: nat)
    requires
        m > 1,
        is_inverse(a, b, m),
        is_inverse(a, c, m),
    ensures
        b == c,
{
    let mi = m as int;
    let t = (b * a * c) as int;
    // t reduces to b, since a * c reduces to 1
    lemma_mul_mod_noop_right(b as int, (a * c) as int, mi);
    assert(b * (a * c) == t) by (nonlinear_arith)
        requires
            t == b * a * c,
    ;
    assert(b * 1 == b);
    lemma_small_mod(b, m);
    assert(t % mi == b);
    // t reduces to c, since b * a reduces to 1
    lemma_mul_mod_noop_left((b * a) as int, c as int, mi);
    assert(b * a == a * b) by (nonlinear_arith);
    assert(1 * c == c);
    lemma_small_mod(c, m);
    assert(t % mi == c);
}

/// The inverse that a witness shows is the one that `inverse_or_zero` names.
pub proof fn lemma_inverse_is_chosen(a: nat, b: nat, m: nat)
    requires
        m > 1,
        is_inverse(a, b, m),
    ensures
        is_unit(a, m),
        inverse_or_zero(a, m) == b,
{
    let c = choose|c: nat| is_inverse(a, c, m);
    lemma_inverse_unique(a, b, c, m);
}

/// Zero has no inverse.
pub proof fn lemma_zero_not_unit(m: nat)
    requires
        m > 1,
    ensures
        !is_unit(0, m),
{
    assert forall|b: nat| !is_inverse(0, b, m) by {
        assert(0 * b == 0);
        lemma_small_mod(0, m);
    }
}

/// An odd number divides a product by two only through the other factor.
proof fn lemma_odd_factor(k: int, m: int)
    requires
        m % 2 == 1,
        (k * m) % 2 == 0,
    ensures
        k % 2 == 0,
{
    lemma_mul_mod_noop_general(k, m, 2);
    assert((k % 2) * 1 == k % 2);
}

/// What the inversion keeps of each of its two running pairs: `x * a` differs
/// from `u` by the multiple `k * m` of the modulus.
#[verifier::opaque]
pub open spec fn bezout(x: nat, a: nat, u: nat, k: int, m: nat) -> bool {
    x * a == u + k * m
}

/// That `val` is the combination `p * u + q * v`.
#[verifier::opaque]
pub open spec fn combination(val: nat, p: int, u: nat, q: int, v: nat) -> bool {
    val == p * u + q * v
}

/// The state that the inversion starts from.
proof fn lemma_inv_start(a: nat, m: nat)
    ensures
        bezout(1, a, a, 0, m),
        bezout(0, a, m, -1, m),
        combination(a, 1, a, 0, m),
        combination(m, 0, a, 1, m),
{
    reveal(bezout);
    reveal(combination);
    assert(1 * a == a + 0 * m);
    assert(0 * a == m + (-1) * m);
    assert(a == 1 * a + 0 * m);
    assert(m == 0 * a + 1 * m);
}

/// Halving step of the inversion: with `u` even and `2 * x_new` equal to `x` or
/// `x + m`, the halves are a pair again.
proof fn lemma_inv_halve(x: nat, a: nat, u: nat, k: int, m: nat, x_new: nat) -> (k_new: int)
    requires
        m % 2 == 1,
        u % 2 == 0,
        bezout(x, a, u, k, m),
        2 * x_new == (if x % 2 == 0 { x } else { x + m }),
    ensures
        bezout(x_new, a, u / 2, k_new, m),
{
    reveal(bezout);
    let h = u / 2;
    if x % 2 == 0 {
        assert(2 * (x_new * a) == x * a) by (nonlinear_arith)
            requires
                2 * x_new == x,
        ;
        assert(k * m == 2 * (x_new * a - h));
        lemma_odd_factor(k, m as int);
        let kn = k / 2;
        assert(x_new * a == h + kn * m) by (nonlinear_arith)
            requires
                2 * (x_new * a) == 2 * h + k * m,
                k == 2 * kn,
        ;
        kn
    } else {
        assert(2 * (x_new * a) == x * a + m * a) by (nonlinear_arith)
            requires
                2 * x_new == x + m,
        ;
        assert((k + a) * m == k * m + m * a) by (nonlinear_arith);
        assert((k + a) * m == 2 * (x_new * a - h));
        lemma_odd_factor(k + a, m as int);
        let kn = (k + a) / 2;
        assert(x_new * a == h + kn * m) by (nonlinear_arith)
            requires
                2 * (x_new * a) == 2 * h + (k + a) * m,
                k + a == 2 * kn,
        ;
        kn
    }
}

/// Halving step of the inversion, for the combinations: halving `u` doubles its
/// coefficient.
proof fn lemma_combination_halve(val: nat, p: int, u: nat, q: int, v: nat)
    requires
        u % 2 == 0,
        combination(val, p, u, q, v),
    ensures
        combination(val, 2 * p, u / 2, q, v),
{
    reveal(combination);
    assert((2 * p) * (u / 2) == p * u) by (nonlinear_arith)
        requires
            u % 2 == 0,
    ;
}

/// Subtracting step of the inversion: the differences of two pairs are a pair.
proof fn lemma_inv_subtract(
    x1: nat,
    x2: nat,
    a: nat,
    u: nat,
    v: nat,
    k1: int,
    k2: int,
    m: nat,
    x_new: nat,
) -> (k_new: int)
    requires
        m > 0,
        x1 < m,
        x2 < m,
        v <= u,
        bezout(x1, a, u, k1, m),
        bezout(x2, a, v, k2, m),
        x_new == (x1 - x2) % (m as int),
    ensures
        bezout(x_new, a, (u - v) as nat, k_new, m),
{
    reveal(bezout);
    let c: int = if x1 < x2 { 1 } else { 0 };
    if x1 < x2 {
        lemma_fundamental_div_mod_converse(x1 - x2, m as int, -1, x1 - x2 + m);
    } else {
        lemma_small_mod((x1 - x2) as nat, m);
    }
    assert(x_new == x1 - x2 + c * m);
    let kn = k1 - k2 + c * a;
    assert(x_new * a == (u - v) + kn * m) by (nonlinear_arith)
        requires
            x_new == x1 - x2 + c * m,
            x1 * a == u + k1 * m,
            x2 * a == v + k2 * m,
            kn == k1 - k2 + c * a,
    ;
    kn
}

/// Subtracting step of the inversion, for the combinations: taking `v` off `u`
/// adds the coefficient of `u` to that of `v`.
proof fn lemma_combination_subtract(val: nat, p: int, u: nat, q: int, v: nat)
    requires
        v <= u,
        combination(val, p, u, q, v),
    ensures
        combination(val, p, (u - v) as nat, p + q, v),
{
    reveal(combination);
    assert(p * (u - v) + (p + q) * v == p * u + q * v) by (nonlinear_arith);
}

/// A combination may be read with its two terms exchanged.
proof fn lemma_combination_swap(val: nat, p: int, u: nat, q: int, v: nat)
    requires
        combination(val, p, u, q, v),
    ensures
        combination(val, q, v, p, u),
{
    reveal(combination);
}

/// A pair whose `u` is one gives the inverse.
proof fn lemma_inv_found(x: nat, a: nat, k: int, m: nat)
    requires
        m > 1,
        x < m,
        bezout(x, a, 1, k, m),
    ensures
        is_inverse(a, x, m),
{
    reveal(bezout);
    assert(a * x == x * a) by (nonlinear_arith);
    lemma_fundamental_div_mod_converse((a * x) as int, m as int, k, 1);
}

/// A common divisor above one of `a` and `m` rules out an inverse of `a`.
proof fn lemma_common_divisor_no_inverse(a: nat, m: nat, g: nat, p: int, q: int, r: int, s: int)
    requires
        m > 1,
        g >= 2,
        combination(a, p, 0, q, g),
        combination(m, r, 0, s, g),
    ensures
        !is_unit(a, m),
{
    reveal(combination);
    assert(p * 0 == 0);
    assert(r * 0 == 0);
    assert forall|b: nat| !is_inverse(a, b, m) by {
        if is_inverse(a, b, m) {
            let t = ((a * b) as int) / (m as int);
            lemma_fundamental_div_mod((a * b) as int, m as int);
            assert(a * b == m * t + 1);
            let z = q * b - s * t;
            assert(g * z == 1) by (nonlinear_arith)
                requires
                    a * b == m * t + 1,
                    a == q * g,
                    m == s * g,
                    z == q * b - s * t,
            ;
            assert(false) by (nonlinear_arith)
                requires
                    g >= 2,
                    g * z == 1,
            ;
        }
    }
}

/// The multiplicative inverse of a residue, where it has one.
///
/// Returns the inverse exactly when one exists; zero never has one. The search
/// is the binary form of Euclid's algorithm: it keeps two pairs `(u, x1)` and
/// `(v, x2)` with `x * a = u (mod m)`, halves and subtracts until `u` is zero,
/// and then holds in `v` the greatest common divisor of `a` and `m`.
pub(crate) fn inv_mod(a: U256, m: U256) -> (r: Option<U256>)
    requires
        modulus_ok(m),
        a.value() < m.value(),
    ensures
        r.is_some() == is_unit(a.value(), m.value()),
        r.is_some() ==> is_inverse(a.value(), r.unwrap().value(), m.value()),
        r.is_some() ==> r.unwrap().value() == inverse_or_zero(a.value(), m.value()),
        a.value() == 0 ==> r.is_none(),
        is_prime(m.value()) && a.value() != 0 ==> r.is_some(),
{
    let mut u = a;
    let mut v = m;
    let mut x1 = U256::from_u64(1);
    let mut x2 = U256::zero();
    let ghost av = a.value();
    let ghost mv = m.value();
    let ghost mut k1: int = 0;
    let ghost mut k2: int = -1;
    let ghost mut p: int = 1;
    let ghost mut q: int = 0;
    let ghost mut r: int = 0;
    let ghost mut s: int = 1;
    proof {
        lemma_inv_start(av, mv);
    }
    while !u.is_zero()
        invariant
            modulus_ok(m),
            av == a.value(),
            mv == m.value(),
            av < mv,
            u.value() <= mv,
            1 <= v.value() <= mv,
            x1.value() < mv,
            x2.value() < mv,
            bezout(x1.value(), av, u.value(), k1, mv),
            bezout(x2.value(), av, v.value(), k2, mv),
            combination(av, p, u.value(), q, v.value()),
            combination(mv, r, u.value(), s, v.value()),
        decreases u.value() + v.value(),
    {
        let ghost u0 = u.value();
        let ghost v0 = v.value();
        if !u.is_odd() {
            let x_new = half_mod(x1, m);
            proof {
                k1 = lemma_inv_halve(x1.value(), av, u0, k1, mv, x_new.value());
                lemma_combination_halve(av, p, u0, q, v0);
                lemma_combination_halve(mv, r, u0, s, v0);
                p = 2 * p;
                r = 2 * r;
            }
            u = u.shr1();
            x1 = x_new;
        } else if !v.is_odd() {
            let x_new = half_mod(x2, m);
            proof {
                k2 = lemma_inv_halve(x2.value(), av, v0, k2, mv, x_new.value());
                lemma_combination_swap(av, p, u0, q, v0);
                lemma_combination_swap(mv, r, u0, s, v0);
                lemma_combination_halve(av, q, v0, p, u0);
                lemma_combination_halve(mv, s, v0, r, u0);
                lemma_combination_swap(av, 2 * q, v0 / 2, p, u0);
                lemma_combination_swap(mv, 2 * s, v0 / 2, r, u0);
                q = 2 * q;
                s = 2 * s;
            }
            v = v.shr1();
            x2 = x_new;
        } else if !u.lt(v) {
            let x_new = sub_mod(x1, x2, m);
            let (d, _) = u.sub_borrow(v);
            proof {
                k1 = lemma_inv_subtract(
                    x1.value(),
                    x2.value(),
                    av,
                    u0,
                    v0,
                    k1,
                    k2,
                    mv,
                    x_new.value(),
                );
                lemma_combination_subtract(av, p, u0, q, v0);
                lemma_combination_subtract(mv, r, u0, s, v0);
                q = p + q;
                s = r + s;
            }
            u = d;
            x1 = x_new;
        } else {
            let x_new = sub_mod(x2, x1, m);
            let (d, _) = v.sub_borrow(u);
            proof {
                k2 = lemma_inv_subtract(
                    x2.value(),
                    x1.value(),
                    av,
                    v0,
                    u0,
                    k2,
                    k1,
                    mv,
                    x_new.value(),
                );
                lemma_combination_swap(av, p, u0, q, v0);
                lemma_combination_swap(mv, r, u0, s, v0);
                lemma_combination_subtract(av, q, v0, p, u0);
                lemma_combination_subtract(mv, s, v0, r, u0);
                lemma_combination_swap(av, q, (v0 - u0) as nat, q + p, u0);
                lemma_combination_swap(mv, s, (v0 - u0) as nat, s + r, u0);
                p = q + p;
                r = s + r;
            }
            v = d;
            x2 = x_new;
        }
    }
    let (w, _) = v.sub_borrow(U256::from_u64(1));
    if w.is_zero() {
        proof {
            lemma_inv_found(x2.value(), av, k2, mv);
            lemma_inverse_is_chosen(av, x2.value(), mv);
            if av == 0 {
                lemma_zero_not_unit(mv);
            }
        }
        Some(x2)
    } else {
        proof {
            lemma_common_divisor_no_inverse(av, mv, v.value(), p, q, r, s);
            if is_prime(mv) && av != 0 {
                lemma_prime_units(mv, av);
            }
        }
        None
    }
}

/// A little-endian byte string of any length, reduced to its residue.
pub(crate) fn reduce_le_bytes(bytes: &[u8], m: U256) -> (r: U256)
    requires
        modulus_ok(m),
        m.value() > 255,
    ensures
        r.value() == le_value(bytes@) % m.value(),
        r.value() < m.value(),
{
    let mut acc = U256::zero();
    let mut i: usize = bytes.len();
    let c256 = U256::from_u64(256);
    proof {
        assert(bytes@.subrange(i as int, bytes@.len() as int).len() == 0);
        lemma_small_mod(0, m.value());
    }
    while i > 0
        invariant
            modulus_ok(m),
            m.value() > 255,
            c256.value() == 256,
            i <= bytes.len(),
            acc.value() < m.value(),
            acc.value() == le_value(bytes@.subrange(i as int, bytes@.len() as int)) % m.value(),
        decreases i,
    {
        let ghost rest = le_value(bytes@.subrange(i as int, bytes@.len() as int));
        i = i - 1;
        let t = mul_mod(acc, c256, m);
        let b = U256::from_u64(bytes[i] as u64);
        proof {
            let mi = m.value() as int;
            let bv = bytes@[i as int] as int;
            lemma_le_value_step(bytes@, i as int);
            lemma_mul_mod_noop_left(rest as int, 256, mi);
            lemma_add_mod_noop((rest * 256) as int, bv, mi);
            lemma_small_mod(bv as nat, m.value());
        }
        acc = add_mod(t, b, m);
    }
    proof {
        assert(bytes@.subrange(0, bytes@.len() as int) =~= bytes@);
    }
    acc
}


/// Reduced multiplication is associative.
pub proof fn lemma_mul_mod_assoc(a: nat, b: nat, c: nat, m: nat)
    requires
        m > 0,
    ensures
        (((a * b) % m) * c) % m == (a * ((b * c) % m)) % m,
        (((a * b) % m) * c) % m == (a * b * c) % m,
{
    let mi = m as int;
    lemma_mul_mod_noop_left((a * b) as int, c as int, mi);
    lemma_mul_mod_noop_right(a as int, (b * c) as int, mi);
    assert(a * (b * c) == a * b * c) by (nonlinear_arith);
}

/// Reduced multiplication is commutative.
pub proof fn lemma_mul_mod_comm(a: nat, b: nat, m: nat)
    ensures
        (a * b) % m == (b * a) % m,
{
    assert(a * b == b * a) by (nonlinear_arith);
}

/// The product of two inverses is the inverse of the product.
pub proof fn lemma_inverse_of_product(a: nat, b: nat, ia: nat, ib: nat, m: nat)
    requires
        m > 1,
        is_inverse(a, ia, m),
        is_inverse(b, ib, m),
    ensures
        is_inverse((a * b) % m, (ia * ib) % m, m),
{
    let mi = m as int;
    lemma_mul_mod_noop_general((a * b) as int, (ia * ib) as int, mi);
    assert((a * b) * (ia * ib) == (a * ia) * (b * ib)) by (nonlinear_arith);
    lemma_mul_mod_noop_general((a * ia) as int, (b * ib) as int, mi);
    lemma_small_mod(1, m);
    lemma_mod_bound((ia * ib) as int, mi);
}

/// A factor of a unit is a unit: if `c` inverts `a * b`, then `b * c` inverts `a`.
pub proof fn lemma_inverse_of_factor(a: nat, b: nat, c: nat, m: nat)
    requires
        m > 1,
        is_inverse((a * b) % m, c, m),
    ensures
        is_inverse(a, (b * c) % m, m),
{
    let mi = m as int;
    lemma_mul_mod_noop_left((a * b) as int, c as int, mi);
    lemma_mul_mod_noop_right(a as int, (b * c) as int, mi);
    assert(a * (b * c) == (a * b) * c) by (nonlinear_arith);
    lemma_mod_bound((b * c) as int, mi);
}

} // verus!
