//! Fixed-width 256-bit natural numbers held as four 64-bit limbs.

use vstd::prelude::*;
use vstd::arithmetic::div_mod::lemma_div_denominator;
use vstd::arithmetic::power2::{lemma2_to64, lemma_pow2_pos, lemma_pow2_unfold, pow2};
use crate::ct::{ct_select_u64, zeroize_u64};

verus! {

/// 2^64, the weight of the second limb.
pub open spec fn b64() -> nat {
    0x1_0000_0000_0000_0000nat
}

/// 2^128, the weight of the third limb.
pub open spec fn b128() -> nat {
    0x1_0000_0000_0000_0000_0000_0000_0000_0000nat
}

/// 2^192, the weight of the fourth limb.
pub open spec fn b192() -> nat {
    0x1_0000_0000_0000_0000_0000_0000_0000_0000_0000_0000_0000_0000nat
}

/// 2^256, one more than the largest value four limbs can hold.
pub open spec fn b256() -> nat {
    0x1_0000_0000_0000_0000_0000_0000_0000_0000_0000_0000_0000_0000_0000_0000_0000_0000nat
}

/// A 256-bit natural number, least significant limb first.
#[derive(Clone, Copy, Debug, PartialEq, Eq, Structural, Hash)]
pub struct U256 {
    pub l0: u64,
    pub l1: u64,
    pub l2: u64,
    pub l3: u64,
}

/// Adds two limbs and an incoming carry, returning the low limb and the carry out.
pub(crate) fn adc(a: u64, b: u64, carry: u64) -> (r: (u64, u64))
    requires
        carry <= 1,
    ensures
        r.0 + r.1 * b64() == a + b + carry,
        r.1 <= 1,
{
    let t: u128 = a as u128 + b as u128 + carry as u128;
    let lo: u64 = #[verifier::truncate] (t as u64);
    let hi: u64 = (t >> 64) as u64;
    assert(lo == t % 0x1_0000_0000_0000_0000 && (t >> 64) == t / 0x1_0000_0000_0000_0000) by (bit_vector)
        requires
            lo == t as u64,
    ;
    (lo, hi)
}

/// Subtracts a limb and an incoming borrow from a limb, returning the low limb
/// and the borrow out.
pub(crate) fn sbb(a: u64, b: u64, borrow: u64) -> (r: (u64, u64))
    requires
        borrow <= 1,
    ensures
        r.0 - r.1 * b64() == a - b - borrow,
        r.1 <= 1,
{
    let t: u128 = (0x1_0000_0000_0000_0000u128 + a as u128) - b as u128 - borrow as u128;
    let lo: u64 = #[verifier::truncate] (t as u64);
    let hi: u64 = (t >> 64) as u64;
    assert(lo == t % 0x1_0000_0000_0000_0000 && (t >> 64) == t / 0x1_0000_0000_0000_0000) by (bit_vector)
        requires
            lo == t as u64,
    ;
    (lo, 1 - hi)
}

/// One limb of a right shift by one bit: the limb halved, with the lowest bit of
/// the next higher limb moved into its top bit.
pub(crate) fn shr1_limb(lo: u64, hi: u64) -> (r: u64)
    ensures
        r == lo / 2 + (hi % 2) * 0x8000_0000_0000_0000,
{
    let r: u64 = (lo >> 1) | (hi << 63);
    assert(r == lo / 2 + (hi % 2) * 0x8000_0000_0000_0000) by (bit_vector)
        requires
            r == (lo >> 1) | (hi << 63),
    ;
    r
}

impl U256 {
    /// The number that the four limbs stand for.
    #[verifier::opaque]
    pub open spec fn value(self) -> nat {
        (self.l0 + self.l1 * b64() + self.l2 * b128() + self.l3 * b192()) as nat
    }

    /// The number zero.
    pub fn zero() -> (r: U256)
        ensures
            r.value() == 0,
    {
        proof {
            reveal(U256::value);
        }
        U256 { l0: 0, l1: 0, l2: 0, l3: 0 }
    }

    /// A number that fits in one limb.
    pub fn from_u64(x: u64) -> (r: U256)
        ensures
            r.value() == x,
    {
        proof {
            reveal(U256::value);
        }
        U256 { l0: x, l1: 0, l2: 0, l3: 0 }
    }

    /// Two numbers with the same value have the same limbs.
    pub proof fn lemma_value_injective(a: U256, b: U256)
        requires
            a.value() == b.value(),
        ensures
            a == b,
    {
        reveal(U256::value);
        let k0 = (b.l1 - a.l1) + b64() * (b.l2 - a.l2) + b128() * (b.l3 - a.l3);
        assert(a.l0 - b.l0 == b64() * k0);
        assert(k0 == 0);
        let k1 = (b.l2 - a.l2) + b64() * (b.l3 - a.l3);
        assert(a.l1 - b.l1 == b64() * k1);
        assert(k1 == 0);
        let k2 = b.l3 - a.l3;
        assert(a.l2 - b.l2 == b64() * k2);
        assert(k2 == 0);
    }

    /// Every value lies below 2^256.
    pub proof fn lemma_value_bound(a: U256)
        ensures
            a.value() < b256(),
    {
        reveal(U256::value);
    }

    /// Full addition: the sum modulo 2^256 and the carry out.
    pub fn add_carry(self, other: U256) -> (r: (U256, u64))
        ensures
            r.0.value() + r.1 * b256() == self.value() + other.value(),
            r.0.value() < b256(),
            r.1 <= 1,
    {
        proof {
            reveal(U256::value);
        }
        let (l0, c0) = adc(self.l0, other.l0, 0);
        let (l1, c1) = adc(self.l1, other.l1, c0);
        let (l2, c2) = adc(self.l2, other.l2, c1);
        let (l3, c3) = adc(self.l3, other.l3, c2);
        (U256 { l0, l1, l2, l3 }, c3)
    }

    /// Full subtraction: the difference modulo 2^256 and the borrow out.
    pub fn sub_borrow(self, other: U256) -> (r: (U256, u64))
        ensures
            r.0.value() - r.1 * b256() == self.value() - other.value(),
            r.0.value() < b256(),
            r.1 <= 1,
            (r.1 == 1) == (self.value() < other.value()),
    {
        proof {
            reveal(U256::value);
        }
        let (l0, c0) = sbb(self.l0, other.l0, 0);
        let (l1, c1) = sbb(self.l1, other.l1, c0);
        let (l2, c2) = sbb(self.l2, other.l2, c1);
        let (l3, c3) = sbb(self.l3, other.l3, c2);
        (U256 { l0, l1, l2, l3 }, c3)
    }

    /// Whether the number is zero.
    pub fn is_zero(self) -> (r: bool)
        ensures
            r == (self.value() == 0),
    {
        proof {
            reveal(U256::value);
        }
        let a: u64 = self.l0;
        let b: u64 = self.l1;
        let c: u64 = self.l2;
        let d: u64 = self.l3;
        assert(((a | b | c | d) == 0) == (a == 0 && b == 0 && c == 0 && d == 0)) by (bit_vector);
        (a | b | c | d) == 0
    }

    /// The number that four limbs stand for, least significant first.
    pub fn new(l0: u64, l1: u64, l2: u64, l3: u64) -> (r: U256)
        ensures
            r.value() == l0 + l1 * b64() + l2 * b128() + l3 * b192(),
            r == (U256 { l0, l1, l2, l3 }),
    {
        proof {
            reveal(U256::value);
        }
        U256 { l0, l1, l2, l3 }
    }

    /// Whether the number is one.
    pub fn is_one(self) -> (r: bool)
        ensures
            r == (self.value() == 1),
    {
        proof {
            reveal(U256::value);
        }
        let a: u64 = self.l0;
        let b: u64 = self.l1;
        let c: u64 = self.l2;
        let d: u64 = self.l3;
        assert((((a ^ 1) | b | c | d) == 0) == (a == 1 && b == 0 && c == 0 && d == 0))
            by (bit_vector);
        ((a ^ 1) | b | c | d) == 0
    }

    /// The lowest bit of the number.
    pub fn low_bit(self) -> (r: u64)
        ensures
            r == self.value() % 2,
            r <= 1,
    {
        proof {
            reveal(U256::value);
        }
        let a: u64 = self.l0;
        let b: u64 = a & 1;
        assert(b == a % 2) by (bit_vector)
            requires
                b == a & 1,
        ;
        b
    }

    /// Whether the number is odd.
    pub fn is_odd(self) -> (r: bool)
        ensures
            r == (self.value() % 2 == 1),
    {
        proof {
            reveal(U256::value);
        }
        let a: u64 = self.l0;
        let b: u64 = a & 1;
        assert(b == a % 2) by (bit_vector)
            requires
                b == a & 1,
        ;
        b == 1
    }

    /// Whether `self` is strictly below `other`.
    pub fn lt(self, other: U256) -> (r: bool)
        ensures
            r == (self.value() < other.value()),
    {
        let (_, borrow) = self.sub_borrow(other);
        borrow == 1
    }

    /// The number halved, rounding down.
    pub fn shr1(self) -> (r: U256)
        ensures
            r.value() == self.value() / 2,
    {
        proof {
            reveal(U256::value);
        }
        let l0: u64 = shr1_limb(self.l0, self.l1);
        let l1: u64 = shr1_limb(self.l1, self.l2);
        let l2: u64 = shr1_limb(self.l2, self.l3);
        let l3: u64 = shr1_limb(self.l3, 0);
        U256 { l0, l1, l2, l3 }
    }

    /// The 256 bits of the number, least significant first.
    pub fn to_le_bits(self) -> (r: [bool; 256])
        ensures
            forall|i: int| 0 <= i < 256 ==> r[i] == ((self.value() / pow2(i as nat)) % 2 == 1),
    {
        let mut bits = [false; 256];
        let mut y = self;
        let mut i: usize = 0;
        proof {
            lemma2_to64();
            assert(self.value() / 1 == self.value());
        }
        while i < 256
            invariant
                i <= 256,
                y.value() == self.value() / pow2(i as nat),
                forall|j: int|
                    0 <= j < i ==> bits[j] == ((self.value() / pow2(j as nat)) % 2 == 1),
            decreases 256 - i,
        {
            proof {
                lemma_pow2_unfold((i + 1) as nat);
                lemma_pow2_pos(i as nat);
                lemma_div_denominator(self.value() as int, pow2(i as nat) as int, 2);
                assert(pow2(i as nat) * 2 == 2 * pow2(i as nat)) by (nonlinear_arith);
            }
            bits[i] = y.is_odd();
            y = y.shr1();
            i = i + 1;
        }
        bits
    }

    /// Chooses `a` when `choice` is unset and `b` when it is set, limb by limb and
    /// without branching on the choice.
    pub fn conditional_select(a: &U256, b: &U256, choice: bool) -> (r: U256)
        ensures
            r == if choice { *b } else { *a },
    {
        U256 {
            l0: ct_select_u64(a.l0, b.l0, choice),
            l1: ct_select_u64(a.l1, b.l1, choice),
            l2: ct_select_u64(a.l2, b.l2, choice),
            l3: ct_select_u64(a.l3, b.l3, choice),
        }
    }

    /// Overwrites every limb with zero.
    pub fn zeroize(&mut self)
        ensures
            final(self).value() == 0,
        no_unwind
    {
        proof {
            reveal(U256::value);
        }
        zeroize_u64(&mut self.l0);
        zeroize_u64(&mut self.l1);
        zeroize_u64(&mut self.l2);
        zeroize_u64(&mut self.l3);
    }

    /// The four limbs as an array, least significant first.
    pub fn to_limbs(self) -> (r: [u64; 4])
        ensures
            limbs_value(r@) == self.value(),
            r@ == seq![self.l0, self.l1, self.l2, self.l3],
    {
        proof {
            reveal(U256::value);
        }
        [self.l0, self.l1, self.l2, self.l3]
    }

    /// The number that an array of four limbs holds, least significant first.
    pub fn from_limbs(limbs: [u64; 4]) -> (r: U256)
        ensures
            r.value() == limbs_value(limbs@),
    {
        proof {
            reveal(U256::value);
        }
        U256 { l0: limbs[0], l1: limbs[1], l2: limbs[2], l3: limbs[3] }
    }
}

/// The number that a sequence of four limbs stands for, least significant first.
pub open spec fn limbs_value(s: Seq<u64>) -> nat {
    (s[0] + s[1] * b64() + s[2] * b128() + s[3] * b192()) as nat
}

/// The four limbs of a number below 2^256.
pub open spec fn u256_of(v: nat) -> U256 {
    U256 {
        l0: (v % b64()) as u64,
        l1: ((v / b64()) % b64()) as u64,
        l2: ((v / b128()) % b64()) as u64,
        l3: ((v / b192()) % b64()) as u64,
    }
}

/// The limbs of a number's value are the number's limbs.
pub proof fn lemma_u256_of_value(x: U256)
    ensures
        u256_of(x.value()) == x,
{
    reveal(U256::value);
    let v = x.value() as int;
    let h1 = x.l1 + x.l2 * b64() + x.l3 * b128();
    let h2 = x.l2 + x.l3 * b64();
    assert(v == b64() * h1 + x.l0);
    vstd::arithmetic::div_mod::lemma_fundamental_div_mod_converse(v, b64() as int, h1, x.l0 as int);
    assert(h1 == b64() * h2 + x.l1);
    vstd::arithmetic::div_mod::lemma_fundamental_div_mod_converse(h1, b64() as int, h2, x.l1 as int);
    assert(v == b128() * h2 + (x.l0 + x.l1 * b64()));
    vstd::arithmetic::div_mod::lemma_fundamental_div_mod_converse(
        v,
        b128() as int,
        h2,
        x.l0 + x.l1 * b64(),
    );
    assert(h2 == b64() * x.l3 + x.l2);
    vstd::arithmetic::div_mod::lemma_fundamental_div_mod_converse(
        h2,
        b64() as int,
        x.l3 as int,
        x.l2 as int,
    );
    assert(v == b192() * x.l3 + (x.l0 + x.l1 * b64() + x.l2 * b128()));
    vstd::arithmetic::div_mod::lemma_fundamental_div_mod_converse(
        v,
        b192() as int,
        x.l3 as int,
        x.l0 + x.l1 * b64() + x.l2 * b128(),
    );
    vstd::arithmetic::div_mod::lemma_small_mod(x.l3 as nat, b64());
}

/// The limbs of a number below 2^256 stand for the number.
pub proof fn lemma_u256_of(v: nat)
    requires
        v < b256(),
    ensures
        u256_of(v).value() == v,
{
    reveal(U256::value);
    let vi = v as int;
    let d1 = vi / (b64() as int);
    let d2 = vi / (b128() as int);
    let d3 = vi / (b192() as int);
    vstd::arithmetic::div_mod::lemma_fundamental_div_mod(vi, b64() as int);
    vstd::arithmetic::div_mod::lemma_fundamental_div_mod(d1, b64() as int);
    vstd::arithmetic::div_mod::lemma_fundamental_div_mod(d2, b64() as int);
    vstd::arithmetic::div_mod::lemma_div_denominator(vi, b64() as int, b64() as int);
    vstd::arithmetic::div_mod::lemma_div_denominator(vi, b128() as int, b64() as int);
    assert(b64() * b64() == b128() && b128() * b64() == b192()) by (nonlinear_arith);
    assert(d1 / (b64() as int) == d2);
    assert(d2 / (b64() as int) == d3);
    vstd::arithmetic::div_mod::lemma_mod_bound(vi, b64() as int);
    vstd::arithmetic::div_mod::lemma_mod_bound(d1, b64() as int);
    vstd::arithmetic::div_mod::lemma_mod_bound(d2, b64() as int);
    assert(0 <= d3 < b64()) by {
        vstd::arithmetic::div_mod::lemma_div_pos_is_pos(vi, b192() as int);
        vstd::arithmetic::div_mod::lemma_fundamental_div_mod(vi, b192() as int);
        vstd::arithmetic::div_mod::lemma_mod_bound(vi, b192() as int);
        if d3 >= b64() {
            assert(b192() * d3 >= b192() * b64()) by (nonlinear_arith)
                requires
                    d3 >= b64(),
            ;
            assert(b192() * b64() == b256()) by (nonlinear_arith);
        }
    }
    vstd::arithmetic::div_mod::lemma_small_mod(d3 as nat, b64());
    assert(vi == (vi % (b64() as int)) + b64() * ((d1 % (b64() as int)) + b64() * ((d2 % (b64()
        as int)) + b64() * d3))) by (nonlinear_arith)
        requires
            vi == b64() * d1 + vi % (b64() as int),
            d1 == b64() * d2 + d1 % (b64() as int),
            d2 == b64() * d3 + d2 % (b64() as int),
    ;
    let l0 = vi % (b64() as int);
    let l1 = d1 % (b64() as int);
    let l2 = d2 % (b64() as int);
    assert(l0 + b64() * (l1 + b64() * (l2 + b64() * d3)) == l0 + l1 * b64() + l2 * b128() + d3
        * b192()) by (nonlinear_arith);
}

} // verus!
