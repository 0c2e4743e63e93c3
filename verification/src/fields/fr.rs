//! The scalar field of the group: the integers modulo the prime `r`, the group's order.

use vstd::prelude::*;
use vstd::arithmetic::div_mod::lemma_small_mod;
use crate::bytes::{
    le_bytes32, le_value, lemma_le_bytes32, lemma_le_bytes32_exists, lemma_le_value_injective,
    u256_from_le_bytes, u256_to_le_bytes,
};
use crate::congruence::{
    congruent, lemma_add_follows, lemma_congruent_residues, lemma_mul_follows, lemma_neg_follows,
    lemma_sub_follows,
};
use crate::ct::ct_eq_bytes;
use crate::error::Error;
use crate::modular::{
    add_mod, double_mod, inv_mod, inverse_or_zero, is_prime, is_unit, lemma_inverse_is_chosen,
    lemma_mul_mod_assoc, lemma_mul_mod_comm, modulus_ok, mul_mod, neg_mod, pow_mod, pow_mod_exec,
    reduce, reduce_le_bytes, sub_mod,
};
use crate::u256::{lemma_u256_of, lemma_u256_of_value, limbs_value, u256_of, U256};
use vstd::arithmetic::power2::pow2;

verus! {

/// The prime modulus of the field.
pub open spec fn fr_modulus() -> nat {
    0x04aa_d957_a68b_2955_982d_1347_970d_ec00_5293_a3af_c43c_8afe_b95a_ee9a_c33f_d9ffnat
}

/// The sum of two residues.
pub open spec fn fr_add(a: nat, b: nat) -> nat {
    (a + b) % fr_modulus()
}

/// The difference of two residues.
pub open spec fn fr_sub(a: nat, b: nat) -> nat {
    ((a as int - b as int) % (fr_modulus() as int)) as nat
}

/// The product of two residues.
pub open spec fn fr_mul(a: nat, b: nat) -> nat {
    (a * b) % fr_modulus()
}

/// The additive inverse of a residue.
pub open spec fn fr_neg(a: nat) -> nat {
    ((-(a as int)) % (fr_modulus() as int)) as nat
}

/// Whether a residue has a multiplicative inverse.
pub open spec fn fr_is_unit(a: nat) -> bool {
    is_unit(a, fr_modulus())
}

/// The multiplicative inverse of a residue, and zero where it has none.
pub open spec fn fr_inv(a: nat) -> nat {
    inverse_or_zero(a, fr_modulus())
}

/// A residue raised to a power.
pub open spec fn fr_pow(a: nat, e: nat) -> nat {
    pow_mod(a, e, fr_modulus())
}

/// The reduced sum follows the sum of what its terms are congruent to.
pub proof fn lemma_fr_add_follows(a: nat, b: nat, x: int, y: int)
    requires
        congruent(a as int, x, fr_modulus() as int),
        congruent(b as int, y, fr_modulus() as int),
    ensures
        congruent(fr_add(a, b) as int, x + y, fr_modulus() as int),
        fr_add(a, b) < fr_modulus(),
{
    lemma_add_follows(a as int, b as int, x, y, fr_modulus() as int);
}

/// The reduced difference follows the difference of what its terms are
/// congruent to.
pub proof fn lemma_fr_sub_follows(a: nat, b: nat, x: int, y: int)
    requires
        congruent(a as int, x, fr_modulus() as int),
        congruent(b as int, y, fr_modulus() as int),
    ensures
        congruent(fr_sub(a, b) as int, x - y, fr_modulus() as int),
        fr_sub(a, b) < fr_modulus(),
{
    lemma_sub_follows(a as int, b as int, x, y, fr_modulus() as int);
}

/// The reduced product follows the product of what its factors are congruent to.
pub proof fn lemma_fr_mul_follows(a: nat, b: nat, x: int, y: int)
    requires
        congruent(a as int, x, fr_modulus() as int),
        congruent(b as int, y, fr_modulus() as int),
    ensures
        congruent(fr_mul(a, b) as int, x * y, fr_modulus() as int),
        fr_mul(a, b) < fr_modulus(),
{
    lemma_mul_follows(a as int, b as int, x, y, fr_modulus() as int);
}

/// The reduced negative follows the negative of what its argument is congruent
/// to.
pub proof fn lemma_fr_neg_follows(a: nat, x: int)
    requires
        congruent(a as int, x, fr_modulus() as int),
    ensures
        congruent(fr_neg(a) as int, -x, fr_modulus() as int),
        fr_neg(a) < fr_modulus(),
{
    lemma_neg_follows(a as int, x, fr_modulus() as int);
}

/// Two residues of the field that are congruent are equal.
pub proof fn lemma_fr_equal(a: nat, b: nat)
    requires
        a < fr_modulus(),
        b < fr_modulus(),
        congruent(a as int, b as int, fr_modulus() as int),
    ensures
        a == b,
{
    lemma_congruent_residues(a as int, b as int, fr_modulus() as int);
}

/// Addition in the field is commutative.
pub proof fn lemma_fr_add_commutative(a: nat, b: nat)
    ensures
        fr_add(a, b) == fr_add(b, a),
{
}

/// Addition in the field is associative.
pub proof fn lemma_fr_add_associative(a: nat, b: nat, c: nat)
    ensures
        fr_add(fr_add(a, b), c) == fr_add(a, fr_add(b, c)),
{
    let m = fr_modulus() as int;
    lemma_fr_add_follows(a, b, a as int, b as int);
    lemma_fr_add_follows(fr_add(a, b), c, (a + b) as int, c as int);
    lemma_fr_add_follows(b, c, b as int, c as int);
    lemma_fr_add_follows(a, fr_add(b, c), a as int, (b + c) as int);
    lemma_fr_equal(fr_add(fr_add(a, b), c), fr_add(a, fr_add(b, c)));
}

/// Zero is neutral for addition.
pub proof fn lemma_fr_add_zero(a: nat)
    requires
        a < fr_modulus(),
    ensures
        fr_add(a, 0) == a,
        fr_add(0, a) == a,
{
    lemma_small_mod(a, fr_modulus());
}

/// An element and its negative add up to zero.
pub proof fn lemma_fr_add_negative(a: nat)
    ensures
        fr_add(a, fr_neg(a)) == 0,
{
    lemma_fr_neg_follows(a, a as int);
    lemma_fr_add_follows(a, fr_neg(a), a as int, -(a as int));
    lemma_small_mod(0, fr_modulus());
    lemma_fr_equal(fr_add(a, fr_neg(a)), 0);
}

/// Subtracting is adding the negative.
pub proof fn lemma_fr_sub_is_add_negative(a: nat, b: nat)
    ensures
        fr_sub(a, b) == fr_add(a, fr_neg(b)),
{
    lemma_fr_neg_follows(b, b as int);
    lemma_fr_add_follows(a, fr_neg(b), a as int, -(b as int));
    lemma_fr_sub_follows(a, b, a as int, b as int);
    lemma_fr_equal(fr_sub(a, b), fr_add(a, fr_neg(b)));
}

/// Multiplication in the field is commutative.
pub proof fn lemma_fr_mul_commutative(a: nat, b: nat)
    ensures
        fr_mul(a, b) == fr_mul(b, a),
{
    lemma_mul_mod_comm(a, b, fr_modulus());
}

/// Multiplication in the field is associative.
pub proof fn lemma_fr_mul_associative(a: nat, b: nat, c: nat)
    ensures
        fr_mul(fr_mul(a, b), c) == fr_mul(a, fr_mul(b, c)),
{
    lemma_mul_mod_assoc(a, b, c, fr_modulus());
}

/// One is neutral for multiplication, and zero absorbs.
pub proof fn lemma_fr_mul_one_zero(a: nat)
    requires
        a < fr_modulus(),
    ensures
        fr_mul(a, 1) == a,
        fr_mul(1, a) == a,
        fr_mul(a, 0) == 0,
        fr_mul(0, a) == 0,
{
    assert(a * 1 == a);
    assert(1 * a == a);
    assert(a * 0 == 0);
    assert(0 * a == 0);
    lemma_small_mod(a, fr_modulus());
    lemma_small_mod(0, fr_modulus());
}

/// Multiplication distributes over addition.
pub proof fn lemma_fr_distributive(a: nat, b: nat, c: nat)
    ensures
        fr_mul(a, fr_add(b, c)) == fr_add(fr_mul(a, b), fr_mul(a, c)),
{
    lemma_fr_add_follows(b, c, b as int, c as int);
    lemma_fr_mul_follows(a, fr_add(b, c), a as int, (b + c) as int);
    lemma_fr_mul_follows(a, b, a as int, b as int);
    lemma_fr_mul_follows(a, c, a as int, c as int);
    lemma_fr_add_follows(fr_mul(a, b), fr_mul(a, c), (a * b) as int, (a * c) as int);
    assert(a * (b + c) == a * b + a * c) by (nonlinear_arith);
    lemma_fr_equal(fr_mul(a, fr_add(b, c)), fr_add(fr_mul(a, b), fr_mul(a, c)));
}

/// An element that has an inverse, times its inverse, is one; and the inverse
/// is the only element with that product.
pub proof fn lemma_fr_inverse(a: nat, b: nat)
    requires
        fr_is_unit(a),
    ensures
        fr_mul(a, fr_inv(a)) == 1,
        fr_inv(a) < fr_modulus(),
        b < fr_modulus() && fr_mul(a, b) == 1 ==> b == fr_inv(a),
{
    if b < fr_modulus() && fr_mul(a, b) == 1 {
        lemma_inverse_is_chosen(a, b, fr_modulus());
    }
}

/// Negating twice gives the element back.
pub proof fn lemma_fr_neg_involution(a: nat)
    requires
        a < fr_modulus(),
    ensures
        fr_neg(fr_neg(a)) == a,
{
    lemma_fr_neg_follows(a, a as int);
    lemma_fr_neg_follows(fr_neg(a), -(a as int));
    lemma_fr_equal(fr_neg(fr_neg(a)), a);
}

/// The residue that a byte string encodes, if it is the canonical encoding of
/// one: 32 bytes that stand for a number below the modulus.
pub open spec fn fr_decode(bytes: Seq<u8>) -> Option<nat> {
    if bytes.len() == 32 && le_value(bytes) < fr_modulus() {
        Some(le_value(bytes))
    } else {
        None
    }
}

/// The canonical encoding of a residue.
pub open spec fn fr_encode(v: nat) -> Seq<u8> {
    le_bytes32(v)
}

/// Decoding undoes encoding, and encoding undoes decoding: every residue decodes
/// from its encoding, and a byte string that decodes is the encoding of what it
/// decodes to.
pub proof fn lemma_fr_encoding_round_trip(v: nat, bytes: Seq<u8>)
    ensures
        v < fr_modulus() ==> fr_decode(fr_encode(v)) == Some(v),
        fr_decode(bytes).is_some() ==> fr_encode(fr_decode(bytes).unwrap()) == bytes,
{
    if v < fr_modulus() {
        lemma_le_bytes32_exists(v);
    }
    if fr_decode(bytes).is_some() {
        lemma_le_bytes32(bytes);
    }
}

/// A byte string that stands for a residue's canonical value with the modulus
/// added to it does not decode.
pub proof fn lemma_fr_noncanonical_rejected(bytes: Seq<u8>, canonical: nat)
    requires
        le_value(bytes) == canonical + fr_modulus(),
    ensures
        fr_decode(bytes).is_none(),
{
}

/// An element of the field: a residue below the modulus, held in canonical form.
#[derive(Clone, Copy, Debug, PartialEq, Eq, Structural, Hash)]
pub struct Fr {
    pub(crate) limbs: U256,
}

impl View for Fr {
    type V = nat;

    closed spec fn view(&self) -> nat {
        self.limbs.value()
    }
}

impl Fr {
    /// Every element is a residue below the modulus.
    #[verifier::type_invariant]
    pub closed spec fn is_residue(&self) -> bool {
        self.limbs.value() < fr_modulus()
    }

    /// What the type invariant says of the view.
    pub proof fn lemma_residue(&self)
        requires
            self.is_residue(),
        ensures
            self@ < fr_modulus(),
    {
    }

    /// Two elements with the same residue are the same element.
    pub proof fn lemma_view_injective(a: Fr, b: Fr)
        requires
            a@ == b@,
        ensures
            a == b,
    {
        U256::lemma_value_injective(a.limbs, b.limbs);
    }

    /// The element with the given residue.
    pub closed spec fn of_residue(v: nat) -> Fr {
        Fr { limbs: u256_of(v) }
    }

    /// The element with a residue below the modulus has that residue.
    pub proof fn lemma_of_residue_view(v: nat)
        requires
            v < fr_modulus(),
        ensures
            Fr::of_residue(v)@ == v,
            Fr::of_residue(v).is_residue(),
    {
        lemma_u256_of(v);
    }

    /// An element is the element with its residue.
    pub proof fn lemma_of_residue(a: Fr)
        ensures
            a == Fr::of_residue(a@),
    {
        lemma_u256_of_value(a.limbs);
    }

    /// The modulus as a 256-bit number.
    pub fn modulus() -> (m: U256)
        ensures
            m.value() == fr_modulus(),
            modulus_ok(m),
            m.value() > 255,
    {
        U256::new(0xb95a_ee9a_c33f_d9ffu64, 0x5293_a3af_c43c_8afeu64, 0x982d_1347_970d_ec00u64, 0x04aa_d957_a68b_2955u64)
    }

    /// The element that a 256-bit number below the modulus stands for.
    pub(crate) fn from_u256(x: U256) -> (r: Fr)
        requires
            x.value() < fr_modulus(),
        ensures
            r@ == x.value(),
    {
        Fr { limbs: x }
    }

    /// The canonical residue as a 256-bit number.
    pub(crate) fn to_u256(&self) -> (r: U256)
        ensures
            r.value() == self@,
            r.value() < fr_modulus(),
    {
        proof {
            use_type_invariant(self);
        }
        self.limbs
    }

    /// The additive identity.
    pub fn zero() -> (r: Fr)
        ensures
            r@ == 0,
    {
        Fr { limbs: U256::zero() }
    }

    /// The multiplicative identity.
    pub fn one() -> (r: Fr)
        ensures
            r@ == 1,
    {
        Fr { limbs: U256::from_u64(1) }
    }

    /// The element that a 64-bit number stands for.
    pub fn from_u64(x: u64) -> (r: Fr)
        ensures
            r@ == x,
    {
        Fr { limbs: U256::from_u64(x) }
    }

    /// The element that a 128-bit number stands for.
    pub fn from_u128(x: u128) -> (r: Fr)
        ensures
            r@ == x,
    {
        let lo: u64 = #[verifier::truncate] (x as u64);
        let hi: u64 = (x >> 64) as u64;
        assert(lo == x % 0x1_0000_0000_0000_0000 && (x >> 64) == x / 0x1_0000_0000_0000_0000)
            by (bit_vector)
            requires
                lo == x as u64,
        ;
        Fr { limbs: U256::new(lo, hi, 0, 0) }
    }

    /// The element that four limbs stand for, least significant first, reduced
    /// modulo the field's prime.
    pub fn from_le_limbs(limbs: [u64; 4]) -> (r: Fr)
        ensures
            r@ == limbs_value(limbs@) % fr_modulus(),
    {
        Fr { limbs: reduce(U256::from_limbs(limbs), Self::modulus()) }
    }

    /// The canonical residue as four limbs, least significant first.
    pub fn to_le_limbs(&self) -> (r: [u64; 4])
        ensures
            limbs_value(r@) == self@,
    {
        self.limbs.to_limbs()
    }

    /// Decodes the canonical 32-byte little-endian encoding of an element.
    ///
    /// Fails on any other length and on a value that is not below the modulus.
    pub fn from_bytes_checked(bytes: &[u8]) -> (r: Result<Fr, Error>)
        ensures
            match r {
                Ok(v) => fr_decode(bytes@) == Some(v@),
                Err(e) => fr_decode(bytes@).is_none() && e == Error::InvalidEncoding,
            },
    {
        if bytes.len() != 32 {
            return Err(Error::InvalidEncoding);
        }
        let x = u256_from_le_bytes(bytes);
        if x.lt(Self::modulus()) {
            Ok(Fr { limbs: x })
        } else {
            Err(Error::InvalidEncoding)
        }
    }

    /// The canonical 32-byte little-endian encoding of the element.
    pub fn to_bytes_le(&self) -> (r: [u8; 32])
        ensures
            le_value(r@) == self@,
            r@ == fr_encode(self@),
    {
        u256_to_le_bytes(self.limbs)
    }

    /// The element that a little-endian byte string of any length stands for,
    /// reduced modulo the field's prime.
    pub fn from_le_bytes_mod_order(bytes: &[u8]) -> (r: Fr)
        ensures
            r@ == le_value(bytes@) % fr_modulus(),
    {
        Fr { limbs: reduce_le_bytes(bytes, Self::modulus()) }
    }

    /// Whether the element is the additive identity.
    pub fn is_zero(&self) -> (r: bool)
        ensures
            r == (self@ == 0),
    {
        self.limbs.is_zero()
    }

    /// Whether the element is the multiplicative identity.
    pub fn is_one(&self) -> (r: bool)
        ensures
            r == (self@ == 1),
    {
        self.limbs.is_one()
    }

    /// The sum of two elements.
    pub fn add(&self, other: &Fr) -> (r: Fr)
        ensures
            r@ == fr_add(self@, other@),
    {
        proof {
            use_type_invariant(self);
            use_type_invariant(other);
        }
        Fr { limbs: add_mod(self.limbs, other.limbs, Self::modulus()) }
    }

    /// The difference of two elements.
    pub fn sub(&self, other: &Fr) -> (r: Fr)
        ensures
            r@ == fr_sub(self@, other@),
    {
        proof {
            use_type_invariant(self);
            use_type_invariant(other);
        }
        Fr { limbs: sub_mod(self.limbs, other.limbs, Self::modulus()) }
    }

    /// The product of two elements.
    pub fn mul(&self, other: &Fr) -> (r: Fr)
        ensures
            r@ == fr_mul(self@, other@),
    {
        proof {
            use_type_invariant(self);
        }
        Fr { limbs: mul_mod(self.limbs, other.limbs, Self::modulus()) }
    }

    /// The additive inverse of the element.
    pub fn neg(&self) -> (r: Fr)
        ensures
            r@ == fr_neg(self@),
            r@ == if self@ == 0 { 0 } else { fr_modulus() - self@ },
    {
        proof {
            use_type_invariant(self);
        }
        Fr { limbs: neg_mod(self.limbs, Self::modulus()) }
    }

    /// The element times itself.
    pub fn square(&self) -> (r: Fr)
        ensures
            r@ == fr_mul(self@, self@),
    {
        self.mul(self)
    }

    /// The element plus itself.
    pub fn double(&self) -> (r: Fr)
        ensures
            r@ == fr_add(self@, self@),
    {
        proof {
            use_type_invariant(self);
        }
        Fr { limbs: double_mod(self.limbs, Self::modulus()) }
    }

    /// The multiplicative inverse, where the element has one.
    ///
    /// Zero has none. Every other element has one if the modulus is prime.
    pub fn inverse(&self) -> (r: Option<Fr>)
        ensures
            r.is_some() == fr_is_unit(self@),
            r.is_some() ==> r.unwrap()@ == fr_inv(self@) && fr_mul(self@, r.unwrap()@) == 1,
            self@ == 0 ==> r.is_none(),
            is_prime(fr_modulus()) && self@ != 0 ==> r.is_some(),
    {
        proof {
            use_type_invariant(self);
        }
        match inv_mod(self.limbs, Self::modulus()) {
            Some(x) => Some(Fr { limbs: x }),
            None => None,
        }
    }

    /// The multiplicative inverse, or the failure to find one, by a fixed sequence
    /// of multiplications wherever an inverse exists.
    ///
    /// The candidate is the power of the element to the modulus less two. It is
    /// tested by one multiplication; only an element that fails the test, as zero
    /// does, is handed to the search that `inverse` makes.
    pub fn invert(&self) -> (r: Result<Fr, Error>)
        ensures
            match r {
                Ok(v) => fr_is_unit(self@) && v@ == fr_inv(self@) && fr_mul(self@, v@) == 1,
                Err(e) => !fr_is_unit(self@) && e == Error::NoInverse,
            },
            self@ == 0 ==> r.is_err(),
            is_prime(fr_modulus()) && self@ != 0 ==> r.is_ok(),
    {
        let (exponent, _) = Self::modulus().sub_borrow(U256::from_u64(2));
        let candidate = self.pow(exponent.to_limbs());
        if self.mul(&candidate).is_one() {
            proof {
                use_type_invariant(&candidate);
                lemma_inverse_is_chosen(self@, candidate@, fr_modulus());
                if self@ == 0 {
                    assert(0 * candidate@ == 0);
                    lemma_small_mod(0, fr_modulus());
                }
            }
            Ok(candidate)
        } else {
            match self.inverse() {
                Some(v) => Ok(v),
                None => Err(Error::NoInverse),
            }
        }
    }

    /// The quotient of two elements, or the failure to invert the divisor.
    pub fn div(&self, other: &Fr) -> (r: Result<Fr, Error>)
        ensures
            match r {
                Ok(v) => fr_is_unit(other@) && v@ == fr_mul(self@, fr_inv(other@)),
                Err(e) => !fr_is_unit(other@) && e == Error::NoInverse,
            },
            other@ == 0 ==> r.is_err(),
    {
        match other.inverse() {
            Some(v) => Ok(self.mul(&v)),
            None => Err(Error::NoInverse),
        }
    }

    /// The element raised to the power that four limbs stand for, least
    /// significant first.
    pub fn pow(&self, exp: [u64; 4]) -> (r: Fr)
        ensures
            r@ == fr_pow(self@, limbs_value(exp@)),
    {
        proof {
            use_type_invariant(self);
        }
        Fr { limbs: pow_mod_exec(self.limbs, U256::from_limbs(exp), Self::modulus()) }
    }

    /// Chooses `a` when `choice` is unset and `b` when it is set, without
    /// branching on the choice.
    pub fn conditional_select(a: &Fr, b: &Fr, choice: bool) -> (r: Fr)
        ensures
            r == if choice { *b } else { *a },
    {
        proof {
            use_type_invariant(a);
            use_type_invariant(b);
        }
        Fr { limbs: U256::conditional_select(&a.limbs, &b.limbs, choice) }
    }

    /// Whether two elements are equal, found by comparing their encodings in
    /// time that does not depend on where they differ.
    pub fn ct_eq(&self, other: &Fr) -> (r: bool)
        ensures
            r == (self@ == other@),
            r == (*self == *other),
    {
        let a = self.to_bytes_le();
        let b = other.to_bytes_le();
        proof {
            if self@ == other@ {
                lemma_le_value_injective(a@, b@);
                Self::lemma_view_injective(*self, *other);
            }
        }
        ct_eq_bytes(&a, &b)
    }

    /// Overwrites the element with zero.
    pub fn zeroize(&mut self)
        ensures
            final(self)@ == 0,
        no_unwind
    {
        self.limbs.zeroize();
    }
}

impl Default for Fr {
    /// The additive identity.
    fn default() -> (r: Fr)
        ensures
            r@ == 0,
    {
        Fr::zero()
    }
}

impl Fr {
    /// The 256 bits of the canonical residue, least significant first.
    pub fn to_le_bits(&self) -> (r: [bool; 256])
        ensures
            forall|i: int| 0 <= i < 256 ==> r[i] == ((self@ / pow2(i as nat)) % 2 == 1),
    {
        self.limbs.to_le_bits()
    }

    /// The 256 bits of the field's modulus, least significant first.
    pub fn char_le_bits() -> (r: [bool; 256])
        ensures
            forall|i: int| 0 <= i < 256 ==> r[i] == ((fr_modulus() / pow2(i as nat)) % 2 == 1),
    {
        Fr::modulus().to_le_bits()
    }

    /// Whether the canonical residue is odd.
    pub fn is_odd(&self) -> (r: bool)
        ensures
            r == (self@ % 2 == 1),
    {
        self.limbs.is_odd()
    }

    /// The product of a sequence of elements, which is one for the empty
    /// sequence.
    pub fn product(items: &[Fr]) -> (r: Fr)
        ensures
            r@ == fr_product(items@, items@.len()),
    {
        let mut acc = Fr::one();
        let mut i: usize = 0;
        while i < items.len()
            invariant
                i <= items.len(),
                acc@ == fr_product(items@, i as nat),
            decreases items.len() - i,
        {
            acc = acc.mul(&items[i]);
            i = i + 1;
        }
        acc
    }

    /// The sum of a sequence of elements.
    pub fn sum(items: &[Fr]) -> (r: Fr)
        ensures
            r@ == fr_sum(items@, items@.len()),
    {
        let mut acc = Fr::zero();
        let mut i: usize = 0;
        while i < items.len()
            invariant
                i <= items.len(),
                acc@ == fr_sum(items@, i as nat),
            decreases items.len() - i,
        {
            acc = acc.add(&items[i]);
            i = i + 1;
        }
        acc
    }
}

/// The product of the first `n` elements of a sequence, accumulated from the
/// left, and one for none.
pub open spec fn fr_product(items: Seq<Fr>, n: nat) -> nat
    decreases n,
{
    if n == 0 {
        1
    } else {
        fr_mul(fr_product(items, (n - 1) as nat), items[n - 1]@)
    }
}

/// The sum of the first `n` elements of a sequence, accumulated from the left.
pub open spec fn fr_sum(items: Seq<Fr>, n: nat) -> nat
    decreases n,
{
    if n == 0 {
        0
    } else {
        fr_add(fr_sum(items, (n - 1) as nat), items[n - 1]@)
    }
}

} // verus!
