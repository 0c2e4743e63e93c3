//! The canonical 32-byte encoding of group elements.
//!
//! Encoding picks one point out of each class of equal elements by a sign
//! convention and writes one field element that stands for it. Decoding accepts
//! a byte string only if it is the canonical encoding of a field element that is
//! non-negative and leads to a point of the curve.

use vstd::prelude::*;
use vstd::arithmetic::div_mod::lemma_small_mod;
use crate::bytes::{le_bytes32, le_value};
use crate::congruence::congruent;
use crate::ct::ct_eq_bytes;
use crate::curve::{lemma_on_curve_from_model, point_on_curve};
use crate::decode_proof::lemma_decode_equation;
use crate::element::{coeff_d, Element, Point};
use crate::error::Error;
use crate::fields::fq::{
    fq_abs, fq_add, fq_is_negative, fq_modulus, fq_mul, fq_neg, fq_sqrt_ratio_zeta, fq_sub,
    lemma_fq_add_follows, lemma_fq_equal, lemma_fq_mul_follows, lemma_fq_neg_follows,
    lemma_fq_sub_follows, lemma_sqrt_ratio_zeta_sound, Fq,
};
use crate::laws::{point_twin, IntPoint};
use crate::round_trip::{lemma_compress_of_decompressed, lemma_encode_of_decoded};

verus! {

/// The curve coefficient `a` less the coefficient `d`, for `a = -1`.
pub open spec fn a_minus_d() -> nat {
    fq_sub(fq_neg(1), coeff_d())
}

/// The field element that encodes a point.
pub open spec fn compress_to_field(p: Point) -> nat {
    let u1 = fq_mul(fq_add(p.x, p.t), fq_sub(p.x, p.t));
    let v = fq_sqrt_ratio_zeta(1, fq_mul(fq_mul(u1, a_minus_d()), fq_mul(p.x, p.x))).1;
    let u2 = fq_abs(fq_mul(v, u1));
    let u3 = fq_sub(fq_mul(u2, p.z), p.t);
    fq_abs(fq_mul(fq_mul(fq_mul(a_minus_d(), v), u3), p.x))
}

/// The canonical 32 bytes of a point: the bytes of the field element that
/// encodes it.
pub open spec fn encode_point(p: Point) -> Seq<u8> {
    le_bytes32(compress_to_field(p))
}

/// The point that a field element encodes, if it encodes one.
pub open spec fn decompress_from_field(s: nat) -> Option<Point> {
    let ss = fq_mul(s, s);
    let u1 = fq_sub(1, ss);
    let u2 = fq_sub(fq_mul(u1, u1), fq_mul(fq_mul(4, coeff_d()), ss));
    let root = fq_sqrt_ratio_zeta(1, fq_mul(u2, fq_mul(u1, u1)));
    let two_s_u1 = fq_mul(fq_mul(2, s), u1);
    let v = if fq_is_negative(fq_mul(two_s_u1, root.1)) {
        fq_neg(root.1)
    } else {
        root.1
    };
    let x = fq_mul(fq_mul(two_s_u1, fq_mul(v, v)), u2);
    let y = fq_mul(fq_mul(fq_add(1, ss), v), u1);
    if fq_is_negative(s) || !root.0 {
        None
    } else {
        Some(Point { x, y, t: fq_mul(x, y), z: 1 })
    }
}

/// The point that a byte string encodes, if it encodes one: the string must hold
/// 32 bytes, stand for a number below the field's modulus, and that field element
/// must encode a point.
pub open spec fn decode_bytes(bytes: Seq<u8>) -> Option<Point> {
    if bytes.len() == 32 && le_value(bytes) < fq_modulus() {
        decompress_from_field(le_value(bytes))
    } else {
        None
    }
}

/// Every point that a field element decodes to lies on the curve.
pub proof fn lemma_decompress_on_curve(s: nat)
    ensures
        decompress_from_field(s).is_some() ==> point_on_curve(decompress_from_field(s).unwrap()),
{
    if decompress_from_field(s).is_some() {
        let q = fq_modulus() as int;
        let d = coeff_d() as int;
        let si = s as int;
        let ss = fq_mul(s, s);
        let u1 = fq_sub(1, ss);
        let u1u1 = fq_mul(u1, u1);
        let four_d = fq_mul(4, coeff_d());
        let u2 = fq_sub(u1u1, fq_mul(four_d, ss));
        let den = fq_mul(u2, u1u1);
        let root = fq_sqrt_ratio_zeta(1, den);
        let two_s = fq_mul(2, s);
        let two_s_u1 = fq_mul(two_s, u1);
        let negate = fq_is_negative(fq_mul(two_s_u1, root.1));
        let v = if negate {
            fq_neg(root.1)
        } else {
            root.1
        };
        let x = fq_mul(fq_mul(two_s_u1, fq_mul(v, v)), u2);
        let y = fq_mul(fq_mul(fq_add(1, ss), v), u1);
        let p = Point { x, y, t: fq_mul(x, y), z: 1 };
        assert(decompress_from_field(s).unwrap() == p);
        // the integers that the field elements follow
        let i_u1 = 1 - si * si;
        let i_u2 = i_u1 * i_u1 - (4 * d) * (si * si);
        let r = root.1 as int;
        let i_v = if negate {
            -r
        } else {
            r
        };
        lemma_fq_mul_follows(s, s, si, si);
        lemma_fq_sub_follows(1, ss, 1, si * si);
        lemma_fq_mul_follows(u1, u1, i_u1, i_u1);
        lemma_fq_mul_follows(4, coeff_d(), 4, d);
        lemma_fq_mul_follows(four_d, ss, 4 * d, si * si);
        lemma_fq_sub_follows(u1u1, fq_mul(four_d, ss), i_u1 * i_u1, (4 * d) * (si * si));
        lemma_fq_mul_follows(u2, u1u1, i_u2, i_u1 * i_u1);
        // the square root squares to the ratio
        lemma_sqrt_ratio_zeta_sound(1, den);
        lemma_fq_mul_follows(root.1, root.1, r, r);
        lemma_fq_mul_follows(fq_mul(root.1, root.1), den, r * r, i_u2 * (i_u1 * i_u1));
        lemma_small_mod(1, fq_modulus());
        assert(congruent((r * r) * (i_u2 * (i_u1 * i_u1)), 1, q));
        if negate {
            lemma_fq_neg_follows(root.1, r);
        }
        assert(i_v * i_v == r * r) by (nonlinear_arith)
            requires
                i_v == r || i_v == -r,
        ;
        // x, y and t
        lemma_fq_mul_follows(2, s, 2, si);
        lemma_fq_mul_follows(two_s, u1, 2 * si, i_u1);
        lemma_fq_mul_follows(v, v, i_v, i_v);
        lemma_fq_mul_follows(two_s_u1, fq_mul(v, v), (2 * si) * i_u1, i_v * i_v);
        lemma_fq_mul_follows(
            fq_mul(two_s_u1, fq_mul(v, v)),
            u2,
            ((2 * si) * i_u1) * (i_v * i_v),
            i_u2,
        );
        lemma_fq_add_follows(1, ss, 1, si * si);
        lemma_fq_mul_follows(fq_add(1, ss), v, 1 + si * si, i_v);
        lemma_fq_mul_follows(fq_mul(fq_add(1, ss), v), u1, (1 + si * si) * i_v, i_u1);
        let i_x = (((2 * si) * i_u1) * (i_v * i_v)) * i_u2;
        let i_y = ((1 + si * si) * i_v) * i_u1;
        lemma_fq_mul_follows(x, y, i_x, i_y);
        lemma_decode_equation(si, i_v, d, q);
        let model = IntPoint { x: i_x, y: i_y, t: i_x * i_y, z: 1 };
        assert(model.z * model.z == 1 && model.z * model.t == model.t);
        lemma_on_curve_from_model(model, p);
    }
}

/// The two points of the curve that stand for one group element have the same
/// encoding: negating `X` and `Y` leaves the encoded field element as it is.
pub proof fn lemma_twin_encoding(p: Point)
    ensures
        compress_to_field(point_twin(p)) == compress_to_field(p),
        encode_point(point_twin(p)) == encode_point(p),
{
    let w = point_twin(p);
    let q = fq_modulus() as int;
    let x = p.x as int;
    let t = p.t as int;
    // u1 is the same: (-X + T)(-X - T) = (X + T)(X - T)
    lemma_fq_neg_follows(p.x, x);
    lemma_fq_add_follows(w.x, w.t, -x, t);
    lemma_fq_sub_follows(w.x, w.t, -x, t);
    lemma_fq_mul_follows(fq_add(w.x, w.t), fq_sub(w.x, w.t), -x + t, -x - t);
    lemma_fq_add_follows(p.x, p.t, x, t);
    lemma_fq_sub_follows(p.x, p.t, x, t);
    lemma_fq_mul_follows(fq_add(p.x, p.t), fq_sub(p.x, p.t), x + t, x - t);
    assert((-x + t) * (-x - t) == (x + t) * (x - t)) by (nonlinear_arith);
    let u1 = fq_mul(fq_add(p.x, p.t), fq_sub(p.x, p.t));
    lemma_fq_equal(fq_mul(fq_add(w.x, w.t), fq_sub(w.x, w.t)), u1);
    // X^2 is the same
    lemma_fq_mul_follows(w.x, w.x, -x, -x);
    lemma_fq_mul_follows(p.x, p.x, x, x);
    assert((-x) * (-x) == x * x) by (nonlinear_arith);
    lemma_fq_equal(fq_mul(w.x, w.x), fq_mul(p.x, p.x));
    // so the square root, u2 and u3 are the same, and the last product changes
    // its sign, which the absolute value takes away
    let v = fq_sqrt_ratio_zeta(1, fq_mul(fq_mul(u1, a_minus_d()), fq_mul(p.x, p.x))).1;
    let u2 = fq_abs(fq_mul(v, u1));
    let u3 = fq_sub(fq_mul(u2, p.z), p.t);
    let c = fq_mul(fq_mul(a_minus_d(), v), u3);
    let ci = c as int;
    lemma_fq_mul_follows(c, w.x, ci, -x);
    lemma_fq_mul_follows(c, p.x, ci, x);
    lemma_fq_neg_follows(fq_mul(c, p.x), ci * x);
    assert(ci * (-x) == -(ci * x)) by (nonlinear_arith);
    lemma_fq_equal(fq_mul(c, w.x), fq_neg(fq_mul(c, p.x)));
    lemma_abs_of_negative(fq_mul(c, p.x));
}

/// A residue and its negative have the same absolute value.
pub proof fn lemma_abs_of_negative(a: nat)
    requires
        a < fq_modulus(),
    ensures
        fq_abs(fq_neg(a)) == fq_abs(a),
{
    let q = fq_modulus() as int;
    if a == 0 {
        lemma_small_mod(0, fq_modulus());
    } else {
        vstd::arithmetic::div_mod::lemma_fundamental_div_mod_converse(-(a as int), q, -1, q - a);
        crate::fields::fq::lemma_fq_neg_involution(a);
    }
}

/// A byte string that stands for a number at or above the field's modulus is no
/// encoding, whatever the number is congruent to: the canonical value of an
/// element with the modulus added to it does not decode.
pub proof fn lemma_noncanonical_rejected(bytes: Seq<u8>, canonical: nat)
    requires
        le_value(bytes) == canonical + fq_modulus(),
    ensures
        decode_bytes(bytes).is_none(),
{
}

/// A candidate encoding of a group element: 32 bytes that may or may not decode.
#[derive(Clone, Copy, Debug, PartialEq, Eq, Hash)]
pub struct Encoding(pub [u8; 32]);

impl Element {
    /// The field element that encodes the element.
    pub fn vartime_compress_to_field(&self) -> (s: Fq)
        ensures
            s@ == compress_to_field(self@),
            !fq_is_negative(s@),
    {
        let (x, _, t, z) = self.coordinates();
        let a_minus_d = Fq::one().neg().sub(&Fq::from_u64(3021));
        let u1 = x.add(&t).mul(&x.sub(&t));
        let (_, v) = Fq::sqrt_ratio_zeta(&Fq::one(), &u1.mul(&a_minus_d).mul(&x.square()));
        let u2 = v.mul(&u1).abs();
        let u3 = u2.mul(&z).sub(&t);
        a_minus_d.mul(&v).mul(&u3).mul(&x).abs()
    }

    /// The canonical encoding of the element.
    pub fn vartime_compress(&self) -> (e: Encoding)
        ensures
            le_value(e.0@) == compress_to_field(self@),
            e.0@ == encode_point(self@),
    {
        Encoding(self.vartime_compress_to_field().to_bytes_le())
    }

    /// The canonical 32 bytes of the element.
    pub fn to_bytes(&self) -> (r: [u8; 32])
        ensures
            le_value(r@) == compress_to_field(self@),
            r@ == encode_point(self@),
    {
        self.vartime_compress_to_field().to_bytes_le()
    }

    /// Whether two elements have the same encoding, found by comparing the
    /// encodings in time that does not depend on where they differ.
    pub fn ct_eq(&self, other: &Element) -> (r: bool)
        ensures
            r == (encode_point(self@) == encode_point(other@)),
    {
        let a = self.to_bytes();
        let b = other.to_bytes();
        ct_eq_bytes(&a, &b)
    }

    /// The element that a field element encodes, found by the shortest way:
    /// the work stops at the first test that fails.
    pub fn vartime_decompress_from_field(s: &Fq) -> (r: Result<Element, Error>)
        ensures
            match r {
                Ok(e) => decompress_from_field(s@) == Some(e@) && compress_to_field(e@) == s@,
                Err(e) => decompress_from_field(s@).is_none() && e == Error::InvalidEncoding,
            },
    {
        proof {
            use_type_invariant(s);
            s.lemma_residue();
            if decompress_from_field(s@).is_some() {
                lemma_compress_of_decompressed(s@);
            }
        }
        if s.is_negative() {
            return Err(Error::InvalidEncoding);
        }
        let ss = s.square();
        let u1 = Fq::one().sub(&ss);
        let u2 = u1.square().sub(&Fq::from_u64(4).mul(&Fq::from_u64(3021)).mul(&ss));
        let (was_square, root) = Fq::sqrt_ratio_zeta(&Fq::one(), &u2.mul(&u1.square()));
        if !was_square {
            return Err(Error::InvalidEncoding);
        }
        let two_s_u1 = Fq::from_u64(2).mul(s).mul(&u1);
        let v = if two_s_u1.mul(&root).is_negative() {
            root.neg()
        } else {
            root
        };
        let x = two_s_u1.mul(&v.square()).mul(&u2);
        let y = Fq::one().add(&ss).mul(&v).mul(&u1);
        proof {
            lemma_decompress_on_curve(s@);
        }
        Ok(Element::from_coordinates(x, y, x.mul(&y), Fq::one()))
    }

    /// The element that a field element encodes, found by one fixed sequence of
    /// field operations: every test is carried to the end before the outcome is
    /// looked at, and the square root runs every round of its descent.
    pub fn decompress_from_field(s: &Fq) -> (r: Result<Element, Error>)
        ensures
            match r {
                Ok(e) => decompress_from_field(s@) == Some(e@) && compress_to_field(e@) == s@,
                Err(e) => decompress_from_field(s@).is_none() && e == Error::InvalidEncoding,
            },
    {
        proof {
            use_type_invariant(s);
            s.lemma_residue();
            if decompress_from_field(s@).is_some() {
                lemma_compress_of_decompressed(s@);
            }
        }
        let negative = s.is_negative();
        let ss = s.square();
        let u1 = Fq::one().sub(&ss);
        let u2 = u1.square().sub(&Fq::from_u64(4).mul(&Fq::from_u64(3021)).mul(&ss));
        let (was_square, root) = Fq::sqrt_ratio_zeta_fixed(&Fq::one(), &u2.mul(&u1.square()));
        let two_s_u1 = Fq::from_u64(2).mul(s).mul(&u1);
        let v = Fq::conditional_select(&root, &root.neg(), two_s_u1.mul(&root).is_negative());
        let x = two_s_u1.mul(&v.square()).mul(&u2);
        let y = Fq::one().add(&ss).mul(&v).mul(&u1);
        let t = x.mul(&y);
        if !negative && was_square {
            proof {
                lemma_decompress_on_curve(s@);
            }
            Ok(Element::from_coordinates(x, y, t, Fq::one()))
        } else {
            Err(Error::InvalidEncoding)
        }
    }

    /// Decodes 32 bytes by the fixed sequence of field operations.
    pub fn from_bytes(bytes: &[u8; 32]) -> (r: Option<Element>)
        ensures
            match r {
                Some(e) => decode_bytes(bytes@) == Some(e@) && encode_point(e@) == bytes@,
                None => decode_bytes(bytes@).is_none(),
            },
    {
        match Encoding(*bytes).decompress() {
            Ok(e) => Some(e),
            Err(_) => None,
        }
    }

    /// Decodes 32 bytes by the shortest way. It accepts the same byte strings as
    /// `from_bytes` and gives the same element.
    pub fn from_bytes_unchecked(bytes: &[u8; 32]) -> (r: Option<Element>)
        ensures
            match r {
                Some(e) => decode_bytes(bytes@) == Some(e@) && encode_point(e@) == bytes@,
                None => decode_bytes(bytes@).is_none(),
            },
    {
        match Encoding(*bytes).vartime_decompress() {
            Ok(e) => Some(e),
            Err(_) => None,
        }
    }
}

impl Encoding {
    /// The candidate encoding that a byte string of any length holds; only 32
    /// bytes make one.
    pub fn from_slice(bytes: &[u8]) -> (r: Result<Encoding, Error>)
        ensures
            match r {
                Ok(enc) => bytes@.len() == 32 && enc.0@ == bytes@,
                Err(e) => bytes@.len() != 32 && e == Error::InvalidEncoding,
            },
    {
        if bytes.len() != 32 {
            return Err(Error::InvalidEncoding);
        }
        let mut out = [0u8; 32];
        let mut i: usize = 0;
        while i < 32
            invariant
                i <= 32,
                bytes@.len() == 32,
                forall|j: int| 0 <= j < i ==> out@[j] == bytes@[j],
            decreases 32 - i,
        {
            out[i] = bytes[i];
            i = i + 1;
        }
        proof {
            assert(out@ =~= bytes@);
        }
        Ok(Encoding(out))
    }

    /// Decodes by the shortest way, for public input: the work stops at the first
    /// test that fails. Every failure is the same `InvalidEncoding`. What decodes
    /// is the encoding of the element that it decodes to.
    pub fn vartime_decompress(&self) -> (r: Result<Element, Error>)
        ensures
            match r {
                Ok(e) => decode_bytes(self.0@) == Some(e@) && encode_point(e@) == self.0@,
                Err(e) => decode_bytes(self.0@).is_none() && e == Error::InvalidEncoding,
            },
    {
        proof {
            if decode_bytes(self.0@).is_some() {
                lemma_encode_of_decoded(self.0@);
            }
        }
        match Fq::from_bytes_checked(&self.0) {
            Ok(s) => Element::vartime_decompress_from_field(&s),
            Err(_) => Err(Error::InvalidEncoding),
        }
    }

    /// Decodes by one fixed sequence of field operations, for input that is to
    /// stay secret. It accepts the same byte strings as `vartime_decompress` and
    /// gives the same element; every failure is the same `InvalidEncoding`.
    pub fn decompress(&self) -> (r: Result<Element, Error>)
        ensures
            match r {
                Ok(e) => decode_bytes(self.0@) == Some(e@) && encode_point(e@) == self.0@,
                Err(e) => decode_bytes(self.0@).is_none() && e == Error::InvalidEncoding,
            },
    {
        proof {
            if decode_bytes(self.0@).is_some() {
                lemma_encode_of_decoded(self.0@);
            }
        }
        let parsed = Fq::from_bytes_checked(&self.0);
        let s = match parsed {
            Ok(v) => v,
            Err(_) => Fq::zero(),
        };
        let decoded = Element::decompress_from_field(&s);
        match (parsed, decoded) {
            (Ok(_), Ok(e)) => Ok(e),
            _ => Err(Error::InvalidEncoding),
        }
    }
}

} // verus!
