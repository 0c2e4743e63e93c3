//! The base field of the curve: the integers modulo the prime `q`.

use vstd::prelude::*;
use vstd::arithmetic::div_mod::lemma_small_mod;
use crate::bytes::{
    le_bytes32, le_value, lemma_le_bytes32, lemma_le_bytes32_exists, lemma_le_value_injective,
    u256_from_le_bytes, u256_to_le_bytes,
};
use crate::congruence::{
    congruent, lemma_add_follows, lemma_congruent_residues, lemma_mul_follows, lemma_neg_follows,
    lemma_sub_follows,
};
use crate::ct::ct_eq_bytes;
use crate::error::Error;
use crate::modular::{
    add_mod, double_mod, inv_mod, inverse_or_zero, is_unit, lemma_inverse_is_chosen,
    lemma_mul_mod_assoc, lemma_mul_mod_comm, modulus_ok, mul_mod, neg_mod, pow_mod, pow_mod_exec,
    reduce, reduce_le_bytes, sub_mod,
};
use crate::prime_modulus::lemma_fq_modulus_prime;
use crate::sqrt_proof::lemma_sqrt_ratio_zeta_complete;
use crate::u256::{lemma_u256_of, lemma_u256_of_value, limbs_value, u256_of, U256};

verus! {

/// The prime modulus of the field.
pub open spec fn fq_modulus() -> nat {
    0x12ab_655e_9a2c_a556_60b4_4d1e_5c37_b001_59aa_76fe_d000_0001_0a11_8000_0000_0001nat
}

/// The sum of two residues.
pub open spec fn fq_add(a: nat, b: nat) -> nat {
    (a + b) % fq_modulus()
}

/// The difference of two residues.
pub open spec fn fq_sub(a: nat, b: nat) -> nat {
    ((a as int - b as int) % (fq_modulus() as int)) as nat
}

/// The product of two residues.
pub open spec fn fq_mul(a: nat, b: nat) -> nat {
    (a * b) % fq_modulus()
}

/// The additive inverse of a residue.
pub open spec fn fq_neg(a: nat) -> nat {
    ((-(a as int)) % (fq_modulus() as int)) as nat
}

/// Whether a residue has a multiplicative inverse.
pub open spec fn fq_is_unit(a: nat) -> bool {
    is_unit(a, fq_modulus())
}

/// The multiplicative inverse of a residue, and zero where it has none.
pub open spec fn fq_inv(a: nat) -> nat {
    inverse_or_zero(a, fq_modulus())
}

/// A residue raised to a power.
pub open spec fn fq_pow(a: nat, e: nat) -> nat {
    pow_mod(a, e, fq_modulus())
}

/// The reduced sum follows the sum of what its terms are congruent to.
pub proof fn lemma_fq_add_follows(a: nat, b: nat, x: int, y: int)
    requires
        congruent(a as int, x, fq_modulus() as int),
        congruent(b as int, y, fq_modulus() as int),
    ensures
        congruent(fq_add(a, b) as int, x + y, fq_modulus() as int),
        fq_add(a, b) < fq_modulus(),
{
    lemma_add_follows(a as int, b as int, x, y, fq_modulus() as int);
}

/// The reduced difference follows the difference of what its terms are
/// congruent to.
pub proof fn lemma_fq_sub_follows(a: nat, b: nat, x: int, y: int)
    requires
        congruent(a as int, x, fq_modulus() as int),
        congruent(b as int, y, fq_modulus() as int),
    ensures
        congruent(fq_sub(a, b) as int, x - y, fq_modulus() as int),
        fq_sub(a, b) < fq_modulus(),
{
    lemma_sub_follows(a as int, b as int, x, y, fq_modulus() as int);
}

/// The reduced product follows the product of what its factors are congruent to.
pub proof fn lemma_fq_mul_follows(a: nat, b: nat, x: int, y: int)
    requires
        congruent(a as int, x, fq_modulus() as int),
        congruent(b as int, y, fq_modulus() as int),
    ensures
        congruent(fq_mul(a, b) as int, x * y, fq_modulus() as int),
        fq_mul(a, b) < fq_modulus(),
{
    lemma_mul_follows(a as int, b as int, x, y, fq_modulus() as int);
}

/// The reduced negative follows the negative of what its argument is congruent
/// to.
pub proof fn lemma_fq_neg_follows(a: nat, x: int)
    requires
        congruent(a as int, x, fq_modulus() as int),
    ensures
        congruent(fq_neg(a) as int, -x, fq_modulus() as int),
        fq_neg(a) < fq_modulus(),
{
    lemma_neg_follows(a as int, x, fq_modulus() as int);
}

/// Two residues of the field that are congruent are equal.
pub proof fn lemma_fq_equal(a: nat, b: nat)
    requires
        a < fq_modulus(),
        b < fq_modulus(),
        congruent(a as int, b as int, fq_modulus() as int),
    ensures
        a == b,
{
    lemma_congruent_residues(a as int, b as int, fq_modulus() as int);
}

/// Addition in the field is commutative.
pub proof fn lemma_fq_add_commutative(a: nat, b: nat)
    ensures
        fq_add(a, b) == fq_add(b, a),
{
}

/// Addition in the field is associative.
pub proof fn lemma_fq_add_associative(a: nat, b: nat, c: nat)
    ensures
        fq_add(fq_add(a, b), c) == fq_add(a, fq_add(b, c)),
{
    let m = fq_modulus() as int;
    lemma_fq_add_follows(a, b, a as int, b as int);
    lemma_fq_add_follows(fq_add(a, b), c, (a + b) as int, c as int);
    lemma_fq_add_follows(b, c, b as int, c as int);
    lemma_fq_add_follows(a, fq_add(b, c), a as int, (b + c) as int);
    lemma_fq_equal(fq_add(fq_add(a, b), c), fq_add(a, fq_add(b, c)));
}

/// Zero is neutral for addition.
pub proof fn lemma_fq_add_zero(a: nat)
    requires
        a < fq_modulus(),
    ensures
        fq_add(a, 0) == a,
        fq_add(0, a) == a,
{
    lemma_small_mod(a, fq_modulus());
}

/// An element and its negative add up to zero.
pub proof fn lemma_fq_add_negative(a: nat)
    ensures
        fq_add(a, fq_neg(a)) == 0,
{
    lemma_fq_neg_follows(a, a as int);
    lemma_fq_add_follows(a, fq_neg(a), a as int, -(a as int));
    lemma_small_mod(0, fq_modulus());
    lemma_fq_equal(fq_add(a, fq_neg(a)), 0);
}

/// Subtracting is adding the negative.
pub proof fn lemma_fq_sub_is_add_negative(a: nat, b: nat)
    ensures
        fq_sub(a, b) == fq_add(a, fq_neg(b)),
{
    lemma_fq_neg_follows(b, b as int);
    lemma_fq_add_follows(a, fq_neg(b), a as int, -(b as int));
    lemma_fq_sub_follows(a, b, a as int, b as int);
    lemma_fq_equal(fq_sub(a, b), fq_add(a, fq_neg(b)));
}

/// Multiplication in the field is commutative.
pub proof fn lemma_fq_mul_commutative(a: nat, b: nat)
    ensures
        fq_mul(a, b) == fq_mul(b, a),
{
    lemma_mul_mod_comm(a, b, fq_modulus());
}

/// Multiplication in the field is associative.
pub proof fn lemma_fq_mul_associative(a: nat, b: nat, c: nat)
    ensures
        fq_mul(fq_mul(a, b), c) == fq_mul(a, fq_mul(b, c)),
{
    lemma_mul_mod_assoc(a, b, c, fq_modulus());
}

/// One is neutral for multiplication, and zero absorbs.
pub proof fn lemma_fq_mul_one_zero(a: nat)
    requires
        a < fq_modulus(),
    ensures
        fq_mul(a, 1) == a,
        fq_mul(1, a) == a,
        fq_mul(a, 0) == 0,
        fq_mul(0, a) == 0,
{
    assert(a * 1 == a);
    assert(1 * a == a);
    assert(a * 0 == 0);
    assert(0 * a == 0);
    lemma_small_mod(a, fq_modulus());
    lemma_small_mod(0, fq_modulus());
}

/// Multiplication distributes over addition.
pub proof fn lemma_fq_distributive(a: nat, b: nat, c: nat)
    ensures
        fq_mul(a, fq_add(b, c)) == fq_add(fq_mul(a, b), fq_mul(a, c)),
{
    lemma_fq_add_follows(b, c, b as int, c as int);
    lemma_fq_mul_follows(a, fq_add(b, c), a as int, (b + c) as int);
    lemma_fq_mul_follows(a, b, a as int, b as int);
    lemma_fq_mul_follows(a, c, a as int, c as int);
    lemma_fq_add_follows(fq_mul(a, b), fq_mul(a, c), (a * b) as int, (a * c) as int);
    assert(a * (b + c) == a * b + a * c) by (nonlinear_arith);
    lemma_fq_equal(fq_mul(a, fq_add(b, c)), fq_add(fq_mul(a, b), fq_mul(a, c)));
}

/// An element that has an inverse, times its inverse, is one; and the inverse
/// is the only element with that product.
pub proof fn lemma_fq_inverse(a: nat, b: nat)
    requires
        fq_is_unit(a),
    ensures
        fq_mul(a, fq_inv(a)) == 1,
        fq_inv(a) < fq_modulus(),
        b < fq_modulus() && fq_mul(a, b) == 1 ==> b == fq_inv(a),
{
    if b < fq_modulus() && fq_mul(a, b) == 1 {
        lemma_inverse_is_chosen(a, b, fq_modulus());
    }
}

/// Negating twice gives the element back.
pub proof fn lemma_fq_neg_involution(a: nat)
    requires
        a < fq_modulus(),
    ensures
        fq_neg(fq_neg(a)) == a,
{
    lemma_fq_neg_follows(a, a as int);
    lemma_fq_neg_follows(fq_neg(a), -(a as int));
    lemma_fq_equal(fq_neg(fq_neg(a)), a);
}

/// The residue that a byte string encodes, if it is the canonical encoding of
/// one: 32 bytes that stand for a number below the modulus.
pub open spec fn fq_decode(bytes: Seq<u8>) -> Option<nat> {
    if bytes.len() == 32 && le_value(bytes) < fq_modulus() {
        Some(le_value(bytes))
    } else {
        None
    }
}

/// The canonical encoding of a residue.
pub open spec fn fq_encode(v: nat) -> Seq<u8> {
    le_bytes32(v)
}

/// Decoding undoes encoding, and encoding undoes decoding: every residue decodes
/// from its encoding, and a byte string that decodes is the encoding of what it
/// decodes to.
pub proof fn lemma_fq_encoding_round_trip(v: nat, bytes: Seq<u8>)
    ensures
        v < fq_modulus() ==> fq_decode(fq_encode(v)) == Some(v),
        fq_decode(bytes).is_some() ==> fq_encode(fq_decode(bytes).unwrap()) == bytes,
{
    if v < fq_modulus() {
        lemma_le_bytes32_exists(v);
    }
    if fq_decode(bytes).is_some() {
        lemma_le_bytes32(bytes);
    }
}

/// A byte string that stands for a residue's canonical value with the modulus
/// added to it does not decode.
pub proof fn lemma_fq_noncanonical_rejected(bytes: Seq<u8>, canonical: nat)
    requires
        le_value(bytes) == canonical + fq_modulus(),
    ensures
        fq_decode(bytes).is_none(),
{
}

/// An element of the field: a residue below the modulus, held in canonical form.
#[derive(Clone, Copy, Debug, PartialEq, Eq, Structural, Hash)]
pub struct Fq {
    pub(crate) limbs: U256,
}

impl View for Fq {
    type V = nat;

    closed spec fn view(&self) -> nat {
        self.limbs.value()
    }
}

impl Fq {
    /// Every element is a residue below the modulus.
    #[verifier::type_invariant]
    pub closed spec fn is_residue(&self) -> bool {
        self.limbs.value() < fq_modulus()
    }

    /// What the type invariant says of the view.
    pub proof fn lemma_residue(&self)
        requires
            self.is_residue(),
        ensures
            self@ < fq_modulus(),
    {
    }

    /// Two elements with the same residue are the same element.
    pub proof fn lemma_view_injective(a: Fq, b: Fq)
        requires
            a@ == b@,
        ensures
            a == b,
    {
        U256::lemma_value_injective(a.limbs, b.limbs);
    }

    /// The element with the given residue.
    pub closed spec fn of_residue(v: nat) -> Fq {
        Fq { limbs: u256_of(v) }
    }

    /// The element with a residue below the modulus has that residue.
    pub proof fn lemma_of_residue_view(v: nat)
        requires
            v < fq_modulus(),
        ensures
            Fq::of_residue(v)@ == v,
            Fq::of_residue(v).is_residue(),
    {
        lemma_u256_of(v);
    }

    /// An element is the element with its residue.
    pub proof fn lemma_of_residue(a: Fq)
        ensures
            a == Fq::of_residue(a@),
    {
        lemma_u256_of_value(a.limbs);
    }

    /// The modulus as a 256-bit number.
    pub fn modulus() -> (m: U256)
        ensures
            m.value() == fq_modulus(),
            modulus_ok(m),
            m.value() > 255,
    {
        U256::new(0x0a11_8000_0000_0001u64, 0x59aa_76fe_d000_0001u64, 0x60b4_4d1e_5c37_b001u64, 0x12ab_655e_9a2c_a556u64)
    }

    /// The element that a 256-bit number below the modulus stands for.
    pub(crate) fn from_u256(x: U256) -> (r: Fq)
        requires
            x.value() < fq_modulus(),
        ensures
            r@ == x.value(),
    {
        Fq { limbs: x }
    }

    /// The canonical residue as a 256-bit number.
    pub(crate) fn to_u256(&self) -> (r: U256)
        ensures
            r.value() == self@,
            r.value() < fq_modulus(),
    {
        proof {
            use_type_invariant(self);
        }
        self.limbs
    }

    /// The additive identity.
    pub fn zero() -> (r: Fq)
        ensures
            r@ == 0,
    {
        Fq { limbs: U256::zero() }
    }

    /// The multiplicative identity.
    pub fn one() -> (r: Fq)
        ensures
            r@ == 1,
    {
        Fq { limbs: U256::from_u64(1) }
    }

    /// The element that a 64-bit number stands for.
    pub fn from_u64(x: u64) -> (r: Fq)
        ensures
            r@ == x,
    {
        Fq { limbs: U256::from_u64(x) }
    }

    /// The element that a 128-bit number stands for.
    pub fn from_u128(x: u128) -> (r: Fq)
        ensures
            r@ == x,
    {
        let lo: u64 = #[verifier::truncate] (x as u64);
        let hi: u64 = (x >> 64) as u64;
        assert(lo == x % 0x1_0000_0000_0000_0000 && (x >> 64) == x / 0x1_0000_0000_0000_0000)
            by (bit_vector)
            requires
                lo == x as u64,
        ;
        Fq { limbs: U256::new(lo, hi, 0, 0) }
    }

    /// The element that four limbs stand for, least significant first, reduced
    /// modulo the field's prime.
    pub fn from_le_limbs(limbs: [u64; 4]) -> (r: Fq)
        ensures
            r@ == limbs_value(limbs@) % fq_modulus(),
    {
        Fq { limbs: reduce(U256::from_limbs(limbs), Self::modulus()) }
    }

    /// The canonical residue as four limbs, least significant first.
    pub fn to_le_limbs(&self) -> (r: [u64; 4])
        ensures
            limbs_value(r@) == self@,
    {
        self.limbs.to_limbs()
    }

    /// Decodes the canonical 32-byte little-endian encoding of an element.
    ///
    /// Fails on any other length and on a value that is not below the modulus.
    pub fn from_bytes_checked(bytes: &[u8]) -> (r: Result<Fq, Error>)
        ensures
            match r {
                Ok(v) => fq_decode(bytes@) == Some(v@),
                Err(e) => fq_decode(bytes@).is_none() && e == Error::InvalidEncoding,
            },
    {
        if bytes.len() != 32 {
            return Err(Error::InvalidEncoding);
        }
        let x = u256_from_le_bytes(bytes);
        if x.lt(Self::modulus()) {
            Ok(Fq { limbs: x })
        } else {
            Err(Error::InvalidEncoding)
        }
    }

    /// The canonical 32-byte little-endian encoding of the element.
    pub fn to_bytes_le(&self) -> (r: [u8; 32])
        ensures
            le_value(r@) == self@,
            r@ == fq_encode(self@),
    {
        u256_to_le_bytes(self.limbs)
    }

    /// The element that a little-endian byte string of any length stands for,
    /// reduced modulo the field's prime.
    pub fn from_le_bytes_mod_order(bytes: &[u8]) -> (r: Fq)
        ensures
            r@ == le_value(bytes@) % fq_modulus(),
    {
        Fq { limbs: reduce_le_bytes(bytes, Self::modulus()) }
    }

    /// Whether the element is the additive identity.
    pub fn is_zero(&self) -> (r: bool)
        ensures
            r == (self@ == 0),
    {
        self.limbs.is_zero()
    }

    /// Whether the element is the multiplicative identity.
    pub fn is_one(&self) -> (r: bool)
        ensures
            r == (self@ == 1),
    {
        self.limbs.is_one()
    }

    /// The sum of two elements.
    pub fn add(&self, other: &Fq) -> (r: Fq)
        ensures
            r@ == fq_add(self@, other@),
    {
        proof {
            use_type_invariant(self);
            use_type_invariant(other);
        }
        Fq { limbs: add_mod(self.limbs, other.limbs, Self::modulus()) }
    }

    /// The difference of two elements.
    pub fn sub(&self, other: &Fq) -> (r: Fq)
        ensures
            r@ == fq_sub(self@, other@),
    {
        proof {
            use_type_invariant(self);
            use_type_invariant(other);
        }
        Fq { limbs: sub_mod(self.limbs, other.limbs, Self::modulus()) }
    }

    /// The product of two elements.
    pub fn mul(&self, other: &Fq) -> (r: Fq)
        ensures
            r@ == fq_mul(self@, other@),
    {
        proof {
            use_type_invariant(self);
        }
        Fq { limbs: mul_mod(self.limbs, other.limbs, Self::modulus()) }
    }

    /// The additive inverse of the element.
    pub fn neg(&self) -> (r: Fq)
        ensures
            r@ == fq_neg(self@),
            r@ == if self@ == 0 { 0 } else { fq_modulus() - self@ },
    {
        proof {
            use_type_invariant(self);
        }
        Fq { limbs: neg_mod(self.limbs, Self::modulus()) }
    }

    /// The element times itself.
    pub fn square(&self) -> (r: Fq)
        ensures
            r@ == fq_mul(self@, self@),
    {
        self.mul(self)
    }

    /// The element plus itself.
    pub fn double(&self) -> (r: Fq)
        ensures
            r@ == fq_add(self@, self@),
    {
        proof {
            use_type_invariant(self);
        }
        Fq { limbs: double_mod(self.limbs, Self::modulus()) }
    }

    /// The multiplicative inverse, where the element has one.
    ///
    /// Zero has none, and every other element has one.
    pub fn inverse(&self) -> (r: Option<Fq>)
        ensures
            r.is_some() == fq_is_unit(self@),
            r.is_some() ==> r.unwrap()@ == fq_inv(self@) && fq_mul(self@, r.unwrap()@) == 1,
            r.is_some() == (self@ != 0),
    {
        proof {
            use_type_invariant(self);
            lemma_fq_modulus_prime();
        }
        match inv_mod(self.limbs, Self::modulus()) {
            Some(x) => Some(Fq { limbs: x }),
            None => None,
        }
    }

    /// The multiplicative inverse, or the failure to find one, by a fixed sequence
    /// of multiplications wherever an inverse exists.
    ///
    /// The candidate is the power of the element to the modulus less two. It is
    /// tested by one multiplication; only an element that fails the test, as zero
    /// does, is handed to the search that `inverse` makes.
    pub fn invert(&self) -> (r: Result<Fq, Error>)
        ensures
            match r {
                Ok(v) => fq_is_unit(self@) && v@ == fq_inv(self@) && fq_mul(self@, v@) == 1,
                Err(e) => !fq_is_unit(self@) && e == Error::NoInverse,
            },
            r.is_ok() == (self@ != 0),
    {
        proof {
            lemma_fq_modulus_prime();
        }
        let (exponent, _) = Self::modulus().sub_borrow(U256::from_u64(2));
        let candidate = self.pow(exponent.to_limbs());
        if self.mul(&candidate).is_one() {
            proof {
                use_type_invariant(&candidate);
                lemma_inverse_is_chosen(self@, candidate@, fq_modulus());
                if self@ == 0 {
                    assert(0 * candidate@ == 0);
                    lemma_small_mod(0, fq_modulus());
                }
            }
            Ok(candidate)
        } else {
            match self.inverse() {
                Some(v) => Ok(v),
                None => Err(Error::NoInverse),
            }
        }
    }

    /// The quotient of two elements, or the failure to invert the divisor.
    pub fn div(&self, other: &Fq) -> (r: Result<Fq, Error>)
        ensures
            match r {
                Ok(v) => fq_is_unit(other@) && v@ == fq_mul(self@, fq_inv(other@)),
                Err(e) => !fq_is_unit(other@) && e == Error::NoInverse,
            },
            other@ == 0 ==> r.is_err(),
    {
        match other.inverse() {
            Some(v) => Ok(self.mul(&v)),
            None => Err(Error::NoInverse),
        }
    }

    /// The element raised to the power that four limbs stand for, least
    /// significant first.
    pub fn pow(&self, exp: [u64; 4]) -> (r: Fq)
        ensures
            r@ == fq_pow(self@, limbs_value(exp@)),
    {
        proof {
            use_type_invariant(self);
        }
        Fq { limbs: pow_mod_exec(self.limbs, U256::from_limbs(exp), Self::modulus()) }
    }

    /// Chooses `a` when `choice` is unset and `b` when it is set, without
    /// branching on the choice.
    pub fn conditional_select(a: &Fq, b: &Fq, choice: bool) -> (r: Fq)
        ensures
            r == if choice { *b } else { *a },
    {
        proof {
            use_type_invariant(a);
            use_type_invariant(b);
        }
        Fq { limbs: U256::conditional_select(&a.limbs, &b.limbs, choice) }
    }

    /// Whether two elements are equal, found by comparing their encodings in
    /// time that does not depend on where they differ.
    pub fn ct_eq(&self, other: &Fq) -> (r: bool)
        ensures
            r == (self@ == other@),
            r == (*self == *other),
    {
        let a = self.to_bytes_le();
        let b = other.to_bytes_le();
        proof {
            if self@ == other@ {
                lemma_le_value_injective(a@, b@);
                Self::lemma_view_injective(*self, *other);
            }
        }
        ct_eq_bytes(&a, &b)
    }

    /// Overwrites the element with zero.
    pub fn zeroize(&mut self)
        ensures
            final(self)@ == 0,
        no_unwind
    {
        self.limbs.zeroize();
    }
}

impl Default for Fq {
    /// The additive identity.
    fn default() -> (r: Fq)
        ensures
            r@ == 0,
    {
        Fq::zero()
    }
}

/// The fixed quadratic non-residue `zeta`, a primitive 2^47-th root of unity.
pub open spec fn zeta() -> nat {
    0x0648_55a8_bf68_7f44_3851_0097_a2fb_8dd9_4140_d0ce_0986_e33b_f461_9c45_7ae0_e1e8nat
}

/// The number of times two divides `q - 1`.
pub open spec fn two_adicity() -> nat {
    47
}

/// `(m - 1) / 2`, where `m` is the odd part of `q - 1`.
pub open spec fn odd_part_half() -> nat {
    0x12ab_655e_9a2c_a556_60b4_4d1e_5c37_b001_59aa_76fe_d000_0001_0a11nat
}

/// `zeta` raised to the odd part of `q - 1`: the root of unity that the square
/// root descent starts from.
pub open spec fn two_adic_root() -> nat {
    0x0a76_903b_4d0d_553a_ae3e_61f8_e561_5942_5278_cf95_c591_505e_d88d_d0ac_2af1_1e36nat
}

/// Whether a residue counts as negative: whether it is odd.
pub open spec fn fq_is_negative(a: nat) -> bool {
    a % 2 == 1
}

/// The non-negative one of a residue and its negative.
pub open spec fn fq_abs(a: nat) -> nat {
    if fq_is_negative(a) {
        fq_neg(a)
    } else {
        a
    }
}

/// A residue squared `j` times over.
pub open spec fn sq_iter(z: nat, j: nat) -> nat
    decreases j,
{
    if j == 0 {
        z
    } else {
        sq_iter(fq_mul(z, z), (j - 1) as nat)
    }
}

/// The number of squarings that take `b` to one, counted up to `limit`.
pub open spec fn order_log(b: nat, limit: nat) -> nat
    decreases limit,
{
    if b == 1 || limit == 0 {
        0
    } else {
        1 + order_log(fq_mul(b, b), (limit - 1) as nat)
    }
}

/// The Tonelli-Shanks descent. It starts from `x` and `b` with `x^2 = w * b` and
/// from a root of unity `z` of order `2^v`; each round multiplies a power of `z`
/// into `x` and its square into `b`, which lowers the order of `b`, and it ends
/// with `x` when `b` is one. It gives up when the order of `b` is not below `2^v`.
pub open spec fn ts_descent(x: nat, b: nat, z: nat, v: nat) -> Option<nat>
    decreases v,
{
    if b == 1 {
        Some(x)
    } else {
        let k = order_log(b, v);
        if k >= v {
            None
        } else {
            let zz = sq_iter(z, (v - k - 1) as nat);
            let z2 = fq_mul(zz, zz);
            ts_descent(fq_mul(x, zz), fq_mul(b, z2), z2, k)
        }
    }
}

/// The candidate square root of `w` that the descent reaches, if it reaches one.
pub open spec fn sqrt_candidate(w: nat) -> Option<nat> {
    let t = fq_pow(w, odd_part_half());
    let x = fq_mul(t, w);
    let b = fq_mul(x, t);
    ts_descent(x, b, two_adic_root(), two_adicity())
}

/// Whether `c` is a square root of `num / den`: whether `c^2 * den == num`.
pub open spec fn is_sqrt_ratio(c: nat, num: nat, den: nat) -> bool {
    fq_mul(fq_mul(c, c), den) == num
}

/// The candidate for a square root of `w * den^-1` if it passes the test against
/// `num` and `den`.
pub open spec fn checked_candidate(w: nat, num: nat, den: nat) -> Option<nat> {
    match sqrt_candidate(w) {
        Some(c) => if is_sqrt_ratio(c, num, den) {
            Some(c)
        } else {
            None
        },
        None => None,
    }
}

/// The square root of a ratio, or of `zeta` times the ratio.
///
/// The result is `(true, 0)` for a zero numerator and `(false, 0)` for a zero
/// denominator under a non-zero numerator. Otherwise it is `(true, c)` where the
/// descent finds `c` with `c^2 * den == num`, else `(false, c)` where it finds
/// `c` with `c^2 * den == zeta * num`, else `(false, 0)`.
///
/// The descent finds a root wherever there is one, since the modulus is prime:
/// the flag says whether `num / den` has a square root at all, which is proved
/// where the descent is taken to its end, in the module `sqrt_proof`.
pub open spec fn fq_sqrt_ratio_zeta(num: nat, den: nat) -> (bool, nat) {
    if num == 0 {
        (true, 0)
    } else if den == 0 {
        (false, 0)
    } else {
        let w = fq_mul(num, fq_inv(den));
        match checked_candidate(w, num, den) {
            Some(c) => (true, c),
            None => match checked_candidate(fq_mul(zeta(), w), fq_mul(zeta(), num), den) {
                Some(c) => (false, c),
                None => (false, 0),
            },
        }
    }
}

/// Where the square root of a ratio reports a square, its root squares to the ratio.
pub proof fn lemma_sqrt_ratio_zeta_sound(num: nat, den: nat)
    requires
        num < fq_modulus(),
    ensures
        fq_sqrt_ratio_zeta(num, den).0 ==> is_sqrt_ratio(fq_sqrt_ratio_zeta(num, den).1, num, den),
        !fq_sqrt_ratio_zeta(num, den).0 && fq_sqrt_ratio_zeta(num, den).1 != 0 ==> is_sqrt_ratio(
            fq_sqrt_ratio_zeta(num, den).1,
            fq_mul(zeta(), num),
            den,
        ),
{
    if num == 0 {
        assert(0 * 0 == 0);
        assert(0 * den == 0);
        lemma_small_mod(0, fq_modulus());
    }
}

impl Fq {
    /// The fixed quadratic non-residue `zeta`.
    pub fn zeta() -> (r: Fq)
        ensures
            r@ == zeta(),
    {
        Fq::from_u256(
            U256::new(0xf461_9c45_7ae0_e1e8, 0x4140_d0ce_0986_e33b, 0x3851_0097_a2fb_8dd9, 0x0648_55a8_bf68_7f44),
        )
    }

    /// Whether the element counts as negative: whether its canonical residue is odd.
    pub fn is_negative(&self) -> (r: bool)
        ensures
            r == fq_is_negative(self@),
    {
        self.limbs.is_odd()
    }

    /// The non-negative one of the element and its negative.
    pub fn abs(&self) -> (r: Fq)
        ensures
            r@ == fq_abs(self@),
            !fq_is_negative(r@),
    {
        proof {
            use_type_invariant(self);
        }
        let n = self.neg();
        Fq::conditional_select(self, &n, self.is_negative())
    }

    /// The number of squarings that take the element to one, counted up to `limit`.
    fn order_log(&self, limit: u32) -> (k: u32)
        ensures
            k == order_log(self@, limit as nat),
            k <= limit,
    {
        let mut k: u32 = 0;
        let mut b = *self;
        while !b.is_one() && k < limit
            invariant
                k <= limit,
                order_log(self@, limit as nat) == k + order_log(b@, (limit - k) as nat),
            decreases limit - k,
        {
            b = b.square();
            k = k + 1;
        }
        k
    }

    /// The element squared `j` times over.
    fn square_times(&self, j: u32) -> (r: Fq)
        ensures
            r@ == sq_iter(self@, j as nat),
    {
        let mut r = *self;
        let mut i: u32 = 0;
        while i < j
            invariant
                i <= j,
                sq_iter(self@, j as nat) == sq_iter(r@, (j - i) as nat),
            decreases j - i,
        {
            r = r.square();
            i = i + 1;
        }
        r
    }

    /// The candidate square root that the Tonelli-Shanks descent reaches.
    fn sqrt_candidate(&self) -> (r: Option<Fq>)
        ensures
            match r {
                Some(c) => sqrt_candidate(self@) == Some(c@),
                None => sqrt_candidate(self@).is_none(),
            },
    {
        let half = U256::new(0x76fe_d000_0001_0a11, 0x4d1e_5c37_b001_59aa, 0x655e_9a2c_a556_60b4, 0x0000_0000_0000_12ab);
        let t = self.pow(half.to_limbs());
        let mut x = t.mul(self);
        let mut b = x.mul(&t);
        let mut z = Fq::from_u256(
            U256::new(0xd88d_d0ac_2af1_1e36, 0x5278_cf95_c591_505e, 0xae3e_61f8_e561_5942, 0x0a76_903b_4d0d_553a),
        );
        let mut v: u32 = 47;
        while !b.is_one()
            invariant
                v <= 47,
                ts_descent(x@, b@, z@, v as nat) == sqrt_candidate(self@),
            decreases v,
        {
            let k = b.order_log(v);
            if k >= v {
                return None;
            }
            let zz = z.square_times(v - k - 1);
            let z2 = zz.square();
            x = x.mul(&zz);
            b = b.mul(&z2);
            z = z2;
            v = k;
        }
        Some(x)
    }

    /// The candidate square root of the element, if it passes the test against
    /// `num` and `den`.
    fn checked_candidate(&self, num: &Fq, den: &Fq) -> (r: Option<Fq>)
        ensures
            match r {
                Some(c) => checked_candidate(self@, num@, den@) == Some(c@),
                None => checked_candidate(self@, num@, den@).is_none(),
            },
    {
        match self.sqrt_candidate() {
            Some(c) => {
                let lhs = c.square().mul(den);
                if lhs.ct_eq(num) {
                    Some(c)
                } else {
                    None
                }
            },
            None => None,
        }
    }

    /// The square root of `num / den`, or of `zeta * num / den` where the ratio
    /// is no square.
    ///
    /// The flag says which of the two was found, and it is set exactly where
    /// `num / den` has a square root. A zero numerator gives `(true, 0)`, a zero
    /// denominator under a non-zero numerator `(false, 0)`.
    pub fn sqrt_ratio_zeta(num: &Fq, den: &Fq) -> (r: (bool, Fq))
        ensures
            (r.0, r.1@) == fq_sqrt_ratio_zeta(num@, den@),
            r.0 == (exists|c: nat| is_sqrt_ratio(c, num@, den@)),
            r.0 ==> is_sqrt_ratio(r.1@, num@, den@),
            !r.0 && r.1@ != 0 ==> is_sqrt_ratio(r.1@, fq_mul(zeta(), num@), den@),
    {
        proof {
            use_type_invariant(num);
            use_type_invariant(den);
            lemma_sqrt_ratio_zeta_sound(num@, den@);
            lemma_sqrt_ratio_zeta_complete(num@, den@);
        }
        if num.is_zero() {
            return (true, Fq::zero());
        }
        if den.is_zero() {
            return (false, Fq::zero());
        }
        let den_inv = match den.inverse() {
            Some(v) => v,
            None => Fq::zero(),
        };
        let w = num.mul(&den_inv);
        match w.checked_candidate(num, den) {
            Some(c) => (true, c),
            None => {
                let zw = Fq::zeta().mul(&w);
                let znum = Fq::zeta().mul(num);
                match zw.checked_candidate(&znum, den) {
                    Some(c) => (false, c),
                    None => (false, Fq::zero()),
                }
            },
        }
    }

    /// The number of squarings that take the element to one, counted up to
    /// `limit`, found by a fixed number of squarings: once the count stands,
    /// the squarings go on and are thrown away.
    fn order_log_fixed(&self, limit: u32) -> (k: u32)
        requires
            limit <= 47,
        ensures
            k == order_log(self@, limit as nat),
            k <= limit,
    {
        let mut k: u32 = 0;
        let mut b = *self;
        let mut j: u32 = 0;
        while j < 47
            invariant
                j <= 47,
                limit <= 47,
                k <= limit,
                k <= j,
                order_log(self@, limit as nat) == k + order_log(b@, (limit - k) as nat),
                k < j ==> b@ == 1 || k == limit,
            decreases 47 - j,
        {
            let active = !b.is_one() && k < limit;
            let squared = b.square();
            b = Fq::conditional_select(&b, &squared, active);
            k = if active {
                k + 1
            } else {
                k
            };
            j = j + 1;
        }
        k
    }

    /// The element squared `j` times over, found by a fixed number of
    /// squarings.
    fn square_times_fixed(&self, j: u32) -> (r: Fq)
        requires
            j <= 47,
        ensures
            r@ == sq_iter(self@, j as nat),
    {
        let mut r = *self;
        let mut i: u32 = 0;
        let mut done: u32 = 0;
        while i < 47
            invariant
                i <= 47,
                j <= 47,
                done <= j,
                done == if i < j { i } else { j },
                sq_iter(self@, j as nat) == sq_iter(r@, (j - done) as nat),
            decreases 47 - i,
        {
            let active = i < j;
            let squared = r.square();
            r = Fq::conditional_select(&r, &squared, active);
            done = if active {
                done + 1
            } else {
                done
            };
            i = i + 1;
        }
        r
    }

    /// The candidate square root that the Tonelli-Shanks descent reaches, found
    /// by a fixed sequence of field operations: every round of the descent is
    /// run, and a round that has nothing left to do leaves the state as it is.
    fn sqrt_candidate_fixed(&self) -> (r: Option<Fq>)
        ensures
            match r {
                Some(c) => sqrt_candidate(self@) == Some(c@),
                None => sqrt_candidate(self@).is_none(),
            },
    {
        let half = U256::new(
            0x76fe_d000_0001_0a11,
            0x4d1e_5c37_b001_59aa,
            0x655e_9a2c_a556_60b4,
            0x0000_0000_0000_12ab,
        );
        let t = self.pow(half.to_limbs());
        let mut x = t.mul(self);
        let mut b = x.mul(&t);
        let mut z = Fq::from_u256(
            U256::new(
                0xd88d_d0ac_2af1_1e36,
                0x5278_cf95_c591_505e,
                0xae3e_61f8_e561_5942,
                0x0a76_903b_4d0d_553a,
            ),
        );
        let mut v: u32 = 47;
        let mut failed = false;
        let mut i: u32 = 0;
        while i < 48
            invariant
                i <= 48,
                v <= 47,
                failed ==> sqrt_candidate(self@).is_none(),
                !failed ==> ts_descent(x@, b@, z@, v as nat) == sqrt_candidate(self@),
                !failed && b@ != 1 ==> v + i <= 47,
            decreases 48 - i,
        {
            let active = !b.is_one() && !failed;
            let k = b.order_log_fixed(v);
            let fail_now = active && k >= v;
            let step = active && k < v;
            let e: u32 = if k < v {
                v - k - 1
            } else {
                0
            };
            let zz = z.square_times_fixed(e);
            let z2 = zz.square();
            x = Fq::conditional_select(&x, &x.mul(&zz), step);
            b = Fq::conditional_select(&b, &b.mul(&z2), step);
            z = Fq::conditional_select(&z, &z2, step);
            v = if step {
                k
            } else {
                v
            };
            failed = failed || fail_now;
            i = i + 1;
        }
        if failed {
            None
        } else {
            Some(x)
        }
    }

    /// The candidate square root of the element if it passes the test against
    /// `num` and `den`, and zero with the flag unset if it does not; by a fixed
    /// sequence of field operations.
    fn checked_candidate_fixed(&self, num: &Fq, den: &Fq) -> (r: (bool, Fq))
        ensures
            r.0 ==> checked_candidate(self@, num@, den@) == Some(r.1@),
            !r.0 ==> checked_candidate(self@, num@, den@).is_none() && r.1@ == 0,
    {
        let zero = Fq::zero();
        let candidate = self.sqrt_candidate_fixed();
        let (found, c) = match candidate {
            Some(c) => (true, c),
            None => (false, zero),
        };
        let passes = c.square().mul(den).ct_eq(num);
        let ok = found && passes;
        (ok, Fq::conditional_select(&zero, &c, ok))
    }

    /// The square root of `num / den`, or of `zeta * num / den` where the ratio
    /// is no square, by a fixed sequence of field operations: the same result as
    /// `sqrt_ratio_zeta`, with both candidates always computed.
    ///
    /// Only the inverse of a denominator that fails the test of `invert`, as
    /// zero does, is searched for on a path of its own.
    pub fn sqrt_ratio_zeta_fixed(num: &Fq, den: &Fq) -> (r: (bool, Fq))
        ensures
            (r.0, r.1@) == fq_sqrt_ratio_zeta(num@, den@),
            r.0 == (exists|c: nat| is_sqrt_ratio(c, num@, den@)),
            r.0 ==> is_sqrt_ratio(r.1@, num@, den@),
            !r.0 && r.1@ != 0 ==> is_sqrt_ratio(r.1@, fq_mul(zeta(), num@), den@),
    {
        proof {
            use_type_invariant(num);
            use_type_invariant(den);
            lemma_sqrt_ratio_zeta_sound(num@, den@);
            lemma_sqrt_ratio_zeta_complete(num@, den@);
        }
        let zero = Fq::zero();
        let den_inv = match den.invert() {
            Ok(v) => v,
            Err(_) => zero,
        };
        let w = num.mul(&den_inv);
        let zw = Fq::zeta().mul(&w);
        let znum = Fq::zeta().mul(num);
        let (found1, c1) = w.checked_candidate_fixed(num, den);
        let (found2, c2) = zw.checked_candidate_fixed(&znum, den);
        let num_zero = num.is_zero();
        let den_zero = den.is_zero();
        let regular = !num_zero && !den_zero;
        let was_square = num_zero || (regular && found1);
        let second = Fq::conditional_select(&zero, &c2, found2);
        let either = Fq::conditional_select(&second, &c1, found1);
        let root = Fq::conditional_select(&zero, &either, regular);
        (was_square, root)
    }
}

} // verus!
