//! Little-endian byte strings and the numbers they stand for.

use vstd::prelude::*;
use crate::u256::{U256, b64, b128, b192, b256};

verus! {

/// The number that a byte string stands for, least significant byte first.
pub open spec fn le_value(s: Seq<u8>) -> nat
    decreases s.len(),
{
    if s.len() == 0 {
        0
    } else {
        s[0] as nat + 256 * le_value(s.subrange(1, s.len() as int))
    }
}

/// The number that the bytes from position `k` on stand for splits into the byte
/// at `k` and the rest.
pub proof fn lemma_le_value_step(s: Seq<u8>, k: int)
    requires
        0 <= k < s.len(),
    ensures
        le_value(s.subrange(k, s.len() as int)) == s[k] as nat + 256 * le_value(
            s.subrange(k + 1, s.len() as int),
        ),
{
    let t = s.subrange(k, s.len() as int);
    assert(t.subrange(1, t.len() as int) =~= s.subrange(k + 1, s.len() as int));
}

/// The eight bytes from position `k` on, read as one limb.
pub open spec fn limb_at(s: Seq<u8>, k: int) -> nat {
    (s[k] + s[k + 1] * 0x100 + s[k + 2] * 0x1_0000 + s[k + 3] * 0x100_0000 + s[k + 4]
        * 0x1_0000_0000 + s[k + 5] * 0x100_0000_0000 + s[k + 6] * 0x1_0000_0000_0000 + s[k + 7]
        * 0x100_0000_0000_0000) as nat
}

/// Eight bytes peel off the front of a byte string as one limb.
pub proof fn lemma_le_value_limb(s: Seq<u8>, k: int)
    requires
        0 <= k,
        k + 8 <= s.len(),
    ensures
        le_value(s.subrange(k, s.len() as int)) == limb_at(s, k) + b64() * le_value(
            s.subrange(k + 8, s.len() as int),
        ),
{
    lemma_le_value_step(s, k);
    lemma_le_value_step(s, k + 1);
    lemma_le_value_step(s, k + 2);
    lemma_le_value_step(s, k + 3);
    lemma_le_value_step(s, k + 4);
    lemma_le_value_step(s, k + 5);
    lemma_le_value_step(s, k + 6);
    lemma_le_value_step(s, k + 7);
}

/// A string of 32 bytes stands for its four limbs.
pub proof fn lemma_le_value_32(s: Seq<u8>)
    requires
        s.len() == 32,
    ensures
        le_value(s) == limb_at(s, 0) + b64() * limb_at(s, 8) + b128() * limb_at(s, 16) + b192()
            * limb_at(s, 24),
        le_value(s) < b256(),
{
    lemma_le_value_limb(s, 0);
    lemma_le_value_limb(s, 8);
    lemma_le_value_limb(s, 16);
    lemma_le_value_limb(s, 24);
    assert(s.subrange(0, 32) =~= s);
    assert(s.subrange(32, 32).len() == 0);
}

/// Reads one limb from eight bytes, least significant first.
pub(crate) fn limb_from_bytes(b: &[u8], k: usize) -> (r: u64)
    requires
        k + 8 <= b.len(),
    ensures
        r == limb_at(b@, k as int),
{
    let b0: u64 = b[k] as u64;
    let b1: u64 = b[k + 1] as u64;
    let b2: u64 = b[k + 2] as u64;
    let b3: u64 = b[k + 3] as u64;
    let b4: u64 = b[k + 4] as u64;
    let b5: u64 = b[k + 5] as u64;
    let b6: u64 = b[k + 6] as u64;
    let b7: u64 = b[k + 7] as u64;
    let r: u64 = b0 | (b1 << 8) | (b2 << 16) | (b3 << 24) | (b4 << 32) | (b5 << 40) | (b6 << 48) | (
    b7 << 56);
    assert(r == b0 + b1 * 0x100 + b2 * 0x1_0000 + b3 * 0x100_0000 + b4 * 0x1_0000_0000 + b5
        * 0x100_0000_0000 + b6 * 0x1_0000_0000_0000 + b7 * 0x100_0000_0000_0000) by (bit_vector)
        requires
            b0 < 256,
            b1 < 256,
            b2 < 256,
            b3 < 256,
            b4 < 256,
            b5 < 256,
            b6 < 256,
            b7 < 256,
            r == b0 | (b1 << 8) | (b2 << 16) | (b3 << 24) | (b4 << 32) | (b5 << 40) | (b6 << 48)
                | (b7 << 56),
    ;
    r
}

/// Splits one limb into its eight bytes, least significant first.
pub(crate) fn limb_bytes(l: u64) -> (r: (u8, u8, u8, u8, u8, u8, u8, u8))
    ensures
        l == r.0 + r.1 * 0x100 + r.2 * 0x1_0000 + r.3 * 0x100_0000 + r.4 * 0x1_0000_0000 + r.5
            * 0x100_0000_0000 + r.6 * 0x1_0000_0000_0000 + r.7 * 0x100_0000_0000_0000,
{
    let b0: u8 = #[verifier::truncate] (l as u8);
    let b1: u8 = #[verifier::truncate] ((l >> 8) as u8);
    let b2: u8 = #[verifier::truncate] ((l >> 16) as u8);
    let b3: u8 = #[verifier::truncate] ((l >> 24) as u8);
    let b4: u8 = #[verifier::truncate] ((l >> 32) as u8);
    let b5: u8 = #[verifier::truncate] ((l >> 40) as u8);
    let b6: u8 = #[verifier::truncate] ((l >> 48) as u8);
    let b7: u8 = #[verifier::truncate] ((l >> 56) as u8);
    assert(l == b0 as u64 + (b1 as u64) * 0x100 + (b2 as u64) * 0x1_0000 + (b3 as u64)
        * 0x100_0000 + (b4 as u64) * 0x1_0000_0000 + (b5 as u64) * 0x100_0000_0000 + (b6 as u64)
        * 0x1_0000_0000_0000 + (b7 as u64) * 0x100_0000_0000_0000) by (bit_vector)
        requires
            b0 == l as u8,
            b1 == (l >> 8) as u8,
            b2 == (l >> 16) as u8,
            b3 == (l >> 24) as u8,
            b4 == (l >> 32) as u8,
            b5 == (l >> 40) as u8,
            b6 == (l >> 48) as u8,
            b7 == (l >> 56) as u8,
    ;
    (b0, b1, b2, b3, b4, b5, b6, b7)
}

/// Reads a 256-bit number from 32 bytes, least significant first.
pub(crate) fn u256_from_le_bytes(b: &[u8]) -> (r: U256)
    requires
        b.len() == 32,
    ensures
        r.value() == le_value(b@),
{
    proof {
        lemma_le_value_32(b@);
        reveal(U256::value);
    }
    U256 {
        l0: limb_from_bytes(b, 0),
        l1: limb_from_bytes(b, 8),
        l2: limb_from_bytes(b, 16),
        l3: limb_from_bytes(b, 24),
    }
}

/// Writes a 256-bit number as 32 bytes, least significant first.
pub(crate) fn u256_to_le_bytes(x: U256) -> (r: [u8; 32])
    ensures
        le_value(r@) == x.value(),
        r@ == le_bytes32(x.value()),
{
    let a = limb_bytes(x.l0);
    let b = limb_bytes(x.l1);
    let c = limb_bytes(x.l2);
    let d = limb_bytes(x.l3);
    let r: [u8; 32] = [
        a.0, a.1, a.2, a.3, a.4, a.5, a.6, a.7,
        b.0, b.1, b.2, b.3, b.4, b.5, b.6, b.7,
        c.0, c.1, c.2, c.3, c.4, c.5, c.6, c.7,
        d.0, d.1, d.2, d.3, d.4, d.5, d.6, d.7,
    ];
    proof {
        reveal(U256::value);
        lemma_le_value_32(r@);
        assert(limb_at(r@, 0) == x.l0);
        assert(limb_at(r@, 8) == x.l1);
        assert(limb_at(r@, 16) == x.l2);
        assert(limb_at(r@, 24) == x.l3);
        lemma_le_bytes32(r@);
    }
    r
}


/// Eight bytes that read as the same limb are the same bytes.
pub proof fn lemma_limb_at_injective(s: Seq<u8>, t: Seq<u8>, k: int)
    requires
        0 <= k,
        k + 8 <= s.len(),
        k + 8 <= t.len(),
        limb_at(s, k) == limb_at(t, k),
    ensures
        s[k] == t[k],
        s[k + 1] == t[k + 1],
        s[k + 2] == t[k + 2],
        s[k + 3] == t[k + 3],
        s[k + 4] == t[k + 4],
        s[k + 5] == t[k + 5],
        s[k + 6] == t[k + 6],
        s[k + 7] == t[k + 7],
{
    let d0 = s[k] - t[k];
    let d1 = s[k + 1] - t[k + 1];
    let d2 = s[k + 2] - t[k + 2];
    let d3 = s[k + 3] - t[k + 3];
    let d4 = s[k + 4] - t[k + 4];
    let d5 = s[k + 5] - t[k + 5];
    let d6 = s[k + 6] - t[k + 6];
    let d7 = s[k + 7] - t[k + 7];
    let r7 = d7;
    let r6 = d6 + 256 * r7;
    let r5 = d5 + 256 * r6;
    let r4 = d4 + 256 * r5;
    let r3 = d3 + 256 * r4;
    let r2 = d2 + 256 * r3;
    let r1 = d1 + 256 * r2;
    assert(d0 + 256 * r1 == 0);
    assert(r1 == 0);
    assert(r2 == 0);
    assert(r3 == 0);
    assert(r4 == 0);
    assert(r5 == 0);
    assert(r6 == 0);
}

/// The four limbs that a string of 32 bytes holds.
pub open spec fn limbs_of(s: Seq<u8>) -> U256 {
    U256 {
        l0: limb_at(s, 0) as u64,
        l1: limb_at(s, 8) as u64,
        l2: limb_at(s, 16) as u64,
        l3: limb_at(s, 24) as u64,
    }
}

/// The limbs of a string of 32 bytes stand for the same number as the string.
pub proof fn lemma_limbs_of_value(s: Seq<u8>)
    requires
        s.len() == 32,
    ensures
        limbs_of(s).value() == le_value(s),
        limbs_of(s).l0 == limb_at(s, 0),
        limbs_of(s).l1 == limb_at(s, 8),
        limbs_of(s).l2 == limb_at(s, 16),
        limbs_of(s).l3 == limb_at(s, 24),
{
    lemma_le_value_32(s);
    assert(limb_at(s, 0) < 0x1_0000_0000_0000_0000);
    assert(limb_at(s, 8) < 0x1_0000_0000_0000_0000);
    assert(limb_at(s, 16) < 0x1_0000_0000_0000_0000);
    assert(limb_at(s, 24) < 0x1_0000_0000_0000_0000);
    reveal(U256::value);
}

/// Two strings of 32 bytes that stand for the same number are the same string.
pub proof fn lemma_le_value_injective(s: Seq<u8>, t: Seq<u8>)
    requires
        s.len() == 32,
        t.len() == 32,
        le_value(s) == le_value(t),
    ensures
        s == t,
{
    lemma_limbs_of_value(s);
    lemma_limbs_of_value(t);
    U256::lemma_value_injective(limbs_of(s), limbs_of(t));
    lemma_limb_at_injective(s, t, 0);
    lemma_limb_at_injective(s, t, 8);
    lemma_limb_at_injective(s, t, 16);
    lemma_limb_at_injective(s, t, 24);
    assert(s =~= t);
}

/// The 32 bytes that stand for a number below 2^256, least significant first.
pub open spec fn le_bytes32(v: nat) -> Seq<u8> {
    choose|b: Seq<u8>| b.len() == 32 && le_value(b) == v
}

/// The 32 bytes of the number that 32 bytes stand for are those bytes.
pub proof fn lemma_le_bytes32(b: Seq<u8>)
    requires
        b.len() == 32,
    ensures
        le_bytes32(le_value(b)) == b,
{
    let c = le_bytes32(le_value(b));
    lemma_le_value_injective(b, c);
}

/// 256 to the power `n`.
pub open spec fn radix(n: nat) -> nat
    decreases n,
{
    if n == 0 {
        1
    } else {
        256 * radix((n - 1) as nat)
    }
}

/// The `n` lowest digits of a number to the base 256, least significant first.
pub open spec fn le_digits(v: nat, n: nat) -> Seq<u8>
    decreases n,
{
    if n == 0 {
        Seq::empty()
    } else {
        seq![(v % 256) as u8] + le_digits(v / 256, (n - 1) as nat)
    }
}

/// The `n` lowest digits of a number stand for the number modulo `256^n`.
pub proof fn lemma_le_digits(v: nat, n: nat)
    ensures
        le_digits(v, n).len() == n,
        le_value(le_digits(v, n)) == v % radix(n),
    decreases n,
{
    if n == 0 {
    } else {
        let rest = le_digits(v / 256, (n - 1) as nat);
        let s = le_digits(v, n);
        lemma_le_digits(v / 256, (n - 1) as nat);
        assert(s.subrange(1, s.len() as int) =~= rest);
        assert(s[0] == (v % 256) as u8);
        lemma_radix_positive((n - 1) as nat);
        vstd::arithmetic::div_mod::lemma_mod_breakdown(
            v as int,
            256,
            radix((n - 1) as nat) as int,
        );
    }
}

/// Every power of 256 is positive.
pub proof fn lemma_radix_positive(n: nat)
    ensures
        radix(n) > 0,
    decreases n,
{
    if n > 0 {
        lemma_radix_positive((n - 1) as nat);
    }
}

/// 256 to the power 32 is 2^256.
pub proof fn lemma_radix_32()
    ensures
        radix(32) == b256(),
{
    assert(radix(8) == b64()) by {
        reveal_with_fuel(radix, 9);
    }
    lemma_radix_adds(8, 8);
    lemma_radix_adds(16, 16);
    let r8 = radix(8);
    let r16 = radix(16);
    assert(r8 * r8 == b128()) by (nonlinear_arith)
        requires
            r8 == 0x1_0000_0000_0000_0000nat,
    ;
    assert(r16 * r16 == b256()) by (nonlinear_arith)
        requires
            r16 == 0x1_0000_0000_0000_0000_0000_0000_0000_0000nat,
    ;
}

/// Powers of 256 multiply as their exponents add.
pub proof fn lemma_radix_adds(a: nat, b: nat)
    ensures
        radix(a + b) == radix(a) * radix(b),
    decreases a,
{
    if a == 0 {
        assert(1 * radix(b) == radix(b));
    } else {
        lemma_radix_adds((a - 1) as nat, b);
        let ra = radix((a - 1) as nat);
        let rb = radix(b);
        assert(256 * (ra * rb) == (256 * ra) * rb) by (nonlinear_arith);
        assert(radix(a + b) == 256 * radix((a + b - 1) as nat));
    }
}

/// Every number below 2^256 has its 32 bytes: they stand for it.
pub proof fn lemma_le_bytes32_exists(v: nat)
    requires
        v < b256(),
    ensures
        le_bytes32(v).len() == 32,
        le_value(le_bytes32(v)) == v,
{
    lemma_le_digits(v, 32);
    lemma_radix_32();
    vstd::arithmetic::div_mod::lemma_small_mod(v, b256());
    let w = le_digits(v, 32);
    assert(w.len() == 32 && le_value(w) == v);
}

} // verus!
