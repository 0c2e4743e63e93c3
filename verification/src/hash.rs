//! Deterministic maps from field elements and from messages to group elements
//! and scalars.

use vstd::prelude::*;
use vstd::arithmetic::div_mod::{lemma_fundamental_div_mod_converse, lemma_small_mod};
use vstd::slice::slice_subrange;
use vstd::string::StringSliceAdditionalSpecFns;
use crate::bytes::le_value;
use crate::congruence::{congruent, lemma_congruent_mul};
use crate::curve::{lemma_on_curve_from_model, point_on_curve};
use crate::element::{coeff_d, point_add, Element, Point};
use crate::elligator_proof::{lemma_quartic_equation, lemma_quartic_to_curve, map_den};
use crate::fields::fq::{
    fq_add, fq_is_negative, fq_modulus, fq_mul, fq_neg, fq_sqrt_ratio_zeta, fq_sub,
    lemma_fq_add_follows, lemma_fq_mul_follows, lemma_fq_neg_follows, lemma_fq_sub_follows,
    lemma_sqrt_ratio_zeta_sound, zeta, Fq,
};
use crate::fields::fr::{fr_modulus, Fr};
use crate::laws::IntPoint;
use crate::polynomial::{lemma_product_3, lemma_swap_inner};
use crate::xmd::{expand_message_xmd, expand_message_xmd_blake2b512};

verus! {

/// The point that the Elligator 2 map makes of one field element.
///
/// With `r = zeta * r0^2`, the map finds `s` and `t` on the Jacobi quartic of the
/// curve, by one square root of a ratio, and carries them over to the curve in
/// extended coordinates.
pub open spec fn elligator_map(r0: nat) -> Point {
    let a = fq_neg(1);
    let d = coeff_d();
    let r = fq_mul(zeta(), fq_mul(r0, r0));
    let d_minus_a = fq_sub(d, a);
    let den = fq_mul(fq_sub(fq_mul(d, r), d_minus_a), fq_sub(fq_mul(d_minus_a, r), d));
    let a_minus_2d = fq_sub(a, fq_mul(2, d));
    let num = fq_mul(fq_add(r, 1), a_minus_2d);
    let root = fq_sqrt_ratio_zeta(1, fq_mul(num, den));
    let sgn = if root.0 {
        1
    } else {
        fq_neg(1)
    };
    let twiddle = if root.0 {
        1
    } else {
        r0
    };
    let isri = fq_mul(root.1, twiddle);
    let s0 = fq_mul(isri, num);
    let t = fq_sub(
        fq_mul(
            fq_mul(fq_mul(fq_mul(fq_neg(sgn), isri), s0), fq_sub(r, 1)),
            fq_mul(a_minus_2d, a_minus_2d),
        ),
        1,
    );
    let s = if fq_is_negative(s0) == root.0 {
        fq_neg(s0)
    } else {
        s0
    };
    let e = fq_mul(2, s);
    let f = fq_add(1, fq_mul(a, fq_mul(s, s)));
    let g = fq_sub(1, fq_mul(a, fq_mul(s, s)));
    Point { x: fq_mul(e, t), y: fq_mul(f, g), t: fq_mul(e, g), z: fq_mul(f, t) }
}

/// The point that two field elements map to: the sum of their Elligator images.
pub open spec fn map_pair_to_point(r1: nat, r2: nat) -> Point {
    point_add(elligator_map(r1), elligator_map(r2))
}

/// The point that 96 uniform bytes map to: each half, read as a little-endian
/// number and reduced, gives one field element, and the pair maps to the point.
pub open spec fn uniform_bytes_to_point(bytes: Seq<u8>) -> Point {
    map_pair_to_point(
        le_value(bytes.subrange(0, 48)) % fq_modulus(),
        le_value(bytes.subrange(48, 96)) % fq_modulus(),
    )
}

/// The domain separation tag of hashing to the group.
pub open spec fn hash_to_curve_dst() -> Seq<u8> {
    "DECAF377_XMD:BLAKE2B-512_ELL_RO_".spec_bytes()
}

/// The domain separation tag of hashing to a scalar.
pub open spec fn hash_to_scalar_dst() -> Seq<u8> {
    "DECAF377_XMD:BLAKE2B-512_RO_NUL_".spec_bytes()
}

/// The point that a message hashes to.
pub open spec fn hash_to_curve_point(msg: Seq<u8>) -> Point {
    uniform_bytes_to_point(expand_message_xmd_blake2b512(msg, hash_to_curve_dst(), 96))
}

/// The residue that a message hashes to.
pub open spec fn hash_to_scalar_value(msg: Seq<u8>) -> nat {
    le_value(expand_message_xmd_blake2b512(msg, hash_to_scalar_dst(), 64)) % fr_modulus()
}

/// The inverse of `zeta`.
pub open spec fn zeta_inverse() -> nat {
    0x0ad5_be41_7312_deca_afa3_9a5a_92a5_1edb_f8b3_a7ca_fb5d_af54_f3c2_cd25_41eb_7bc9nat
}

/// `zeta` times its inverse is one.
proof fn lemma_zeta_inverse()
    ensures
        congruent((zeta() * zeta_inverse()) as int, 1, fq_modulus() as int),
{
    let k = 0x03a5_676a_4614_791c_4aab_6f1e_0d0a_f458_6a6a_bbdf_f5fe_17c7_64c0_e8ea_cf13_d727int;
    let q = fq_modulus() as int;
    assert(zeta() * zeta_inverse() == k * q + 1);
    lemma_fundamental_div_mod_converse((zeta() * zeta_inverse()) as int, q, k, 1);
    lemma_small_mod(1, fq_modulus());
}

/// What the map's square root gives to the proof: with `w = isri^2 num`, either
/// `w` is zero, or `w den` is congruent to `rho` and `den` has an inverse, where
/// `rho` is one if the ratio was a square and `r` if it was not.
proof fn lemma_map_root(r0: nat, r: nat, num: nat, den: nat, i_num: int, i_den: int) -> (unit: int)
    requires
        r == fq_mul(zeta(), fq_mul(r0, r0)),
        num < fq_modulus(),
        den < fq_modulus(),
        congruent(num as int, i_num, fq_modulus() as int),
        congruent(den as int, i_den, fq_modulus() as int),
    ensures
        ({
            let root = fq_sqrt_ratio_zeta(1, fq_mul(num, den));
            let c = root.1 as int;
            let tw: int = if root.0 {
                1
            } else {
                r0 as int
            };
            let rho: int = if root.0 {
                1
            } else {
                r as int
            };
            let i = c * tw;
            let w = i * (i * i_num);
            w == 0 || (congruent(w * i_den, rho, fq_modulus() as int) && congruent(
                i_den * unit,
                1,
                fq_modulus() as int,
            ))
        }),
{
    let q = fq_modulus() as int;
    let arg = fq_mul(num, den);
    let root = fq_sqrt_ratio_zeta(1, arg);
    let c = root.1 as int;
    let cc = c * c;
    let nd = i_num * i_den;
    lemma_sqrt_ratio_zeta_sound(1, arg);
    lemma_fq_mul_follows(num, den, i_num, i_den);
    lemma_fq_mul_follows(root.1, root.1, c, c);
    lemma_fq_mul_follows(fq_mul(root.1, root.1), arg, cc, nd);
    lemma_small_mod(1, fq_modulus());
    let base = cc * i_num;
    lemma_product_3(cc, i_num, i_den);
    assert(base * i_den == cc * nd);
    if root.0 {
        let i = c * 1;
        let w = i * (i * i_num);
        assert(w == base) by {
            lemma_product_3(c, c, i_num);
        }
        assert(congruent(w * i_den, 1, q));
        lemma_product_3(w, i_den, 1);
        w
    } else if root.1 != 0 {
        let r0i = r0 as int;
        let i = c * r0i;
        let w = i * (i * i_num);
        let rr = r0i * r0i;
        assert(w == base * rr) by {
            lemma_swap_inner(c, r0i, c, r0i);
            lemma_product_3(i, i, i_num);
            lemma_product_3(cc, rr, i_num);
            lemma_product_3(cc, i_num, rr);
        }
        // (c^2 num den) follows zeta
        lemma_fq_mul_follows(zeta(), 1, zeta() as int, 1);
        assert(zeta() * 1 == zeta());
        assert(congruent(cc * nd, zeta() as int, q));
        // so w den follows zeta r0^2, which is r
        lemma_product_3(base, rr, i_den);
        assert(w * i_den == (base * i_den) * rr);
        lemma_congruent_mul(base * i_den, zeta() as int, rr, rr, q);
        lemma_fq_mul_follows(r0, r0, r0i, r0i);
        lemma_fq_mul_follows(zeta(), fq_mul(r0, r0), zeta() as int, rr);
        assert(congruent(w * i_den, r as int, q));
        // and den has the inverse c^2 num / zeta
        let unit = base * zeta_inverse();
        lemma_product_3(i_den, base, zeta_inverse() as int);
        lemma_product_3(base, i_den, 1);
        assert(i_den * unit == (base * i_den) * zeta_inverse());
        lemma_congruent_mul(
            base * i_den,
            zeta() as int,
            zeta_inverse() as int,
            zeta_inverse() as int,
            q,
        );
        lemma_zeta_inverse();
        unit
    } else {
        let tw = r0 as int;
        assert(c * tw == 0) by (nonlinear_arith)
            requires
                c == 0,
        ;
        assert(0 * (0 * i_num) == 0) by (nonlinear_arith);
        0
    }
}

/// The Elligator image of every field element lies on the curve.
pub proof fn lemma_elligator_on_curve(r0: nat)
    ensures
        point_on_curve(elligator_map(r0)),
{
    let q = fq_modulus() as int;
    let a = fq_neg(1);
    let d = coeff_d();
    let r = fq_mul(zeta(), fq_mul(r0, r0));
    let d_minus_a = fq_sub(d, a);
    let left = fq_sub(fq_mul(d, r), d_minus_a);
    let right = fq_sub(fq_mul(d_minus_a, r), d);
    let den = fq_mul(left, right);
    let a_minus_2d = fq_sub(a, fq_mul(2, d));
    let num = fq_mul(fq_add(r, 1), a_minus_2d);
    let root = fq_sqrt_ratio_zeta(1, fq_mul(num, den));
    let sgn = if root.0 {
        1
    } else {
        fq_neg(1)
    };
    let twiddle = if root.0 {
        1
    } else {
        r0
    };
    let isri = fq_mul(root.1, twiddle);
    let s0 = fq_mul(isri, num);
    let p1 = fq_mul(fq_neg(sgn), isri);
    let p2 = fq_mul(p1, s0);
    let p3 = fq_mul(p2, fq_sub(r, 1));
    let kk = fq_mul(a_minus_2d, a_minus_2d);
    let p4 = fq_mul(p3, kk);
    let t = fq_sub(p4, 1);
    let flip = fq_is_negative(s0) == root.0;
    let s = if flip {
        fq_neg(s0)
    } else {
        s0
    };
    let e = fq_mul(2, s);
    let ass = fq_mul(a, fq_mul(s, s));
    let f = fq_add(1, ass);
    let g = fq_sub(1, ass);
    let p = Point { x: fq_mul(e, t), y: fq_mul(f, g), t: fq_mul(e, g), z: fq_mul(f, t) };
    assert(elligator_map(r0) == p);
    // the integers that the field elements follow, up to the square root
    let ri = r as int;
    let k = -6043int;
    lemma_fq_neg_follows(1, 1);
    lemma_fq_sub_follows(d, a, 3021, -1);
    lemma_fq_mul_follows(d, r, 3021, ri);
    lemma_fq_sub_follows(fq_mul(d, r), d_minus_a, 3021 * ri, 3022);
    lemma_fq_mul_follows(d_minus_a, r, 3022, ri);
    lemma_fq_sub_follows(fq_mul(d_minus_a, r), d, 3022 * ri, 3021);
    lemma_fq_mul_follows(left, right, 3021 * ri - 3022, 3022 * ri - 3021);
    let i_den = map_den(ri);
    lemma_fq_mul_follows(2, d, 2, 3021);
    lemma_fq_sub_follows(a, fq_mul(2, d), -1, 6042);
    lemma_fq_add_follows(r, 1, ri, 1);
    lemma_fq_mul_follows(fq_add(r, 1), a_minus_2d, ri + 1, k);
    let i_num = (ri + 1) * k;
    let unit = lemma_map_root(r0, r, num, den, i_num, i_den);
    // isri, s0 and t
    let c = root.1 as int;
    let tw: int = if root.0 {
        1
    } else {
        r0 as int
    };
    let sigma: int = if root.0 {
        -1
    } else {
        1
    };
    let rho: int = if root.0 {
        1
    } else {
        ri
    };
    let i = c * tw;
    let w = i * (i * i_num);
    lemma_fq_mul_follows(root.1, twiddle, c, tw);
    lemma_fq_mul_follows(isri, num, i, i_num);
    if root.0 {
        lemma_fq_neg_follows(1, 1);
    } else {
        lemma_fq_neg_follows(1, 1);
        lemma_fq_neg_follows(fq_neg(1), -1);
    }
    assert(congruent(fq_neg(sgn) as int, sigma, q));
    lemma_fq_mul_follows(fq_neg(sgn), isri, sigma, i);
    lemma_fq_mul_follows(p1, s0, sigma * i, i * i_num);
    lemma_fq_sub_follows(r, 1, ri, 1);
    lemma_fq_mul_follows(p2, fq_sub(r, 1), (sigma * i) * (i * i_num), ri - 1);
    lemma_fq_mul_follows(a_minus_2d, a_minus_2d, k, k);
    lemma_fq_mul_follows(p3, kk, ((sigma * i) * (i * i_num)) * (ri - 1), k * k);
    lemma_fq_sub_follows(p4, 1, (((sigma * i) * (i * i_num)) * (ri - 1)) * (k * k), 1);
    let i_t = (sigma * w) * ((ri - 1) * 36517849) - 1;
    assert((((sigma * i) * (i * i_num)) * (ri - 1)) * (k * k) - 1 == i_t) by {
        lemma_product_3(sigma, i, i * i_num);
        lemma_product_3(sigma * w, ri - 1, k * k);
        assert(k * k == 36517849);
    }
    // s, and the equation of the quartic
    let i_s0 = i * i_num;
    let i_s: int = if flip {
        -i_s0
    } else {
        i_s0
    };
    if flip {
        lemma_fq_neg_follows(s0, i_s0);
    }
    assert(i_s * i_s == w * i_num) by {
        assert(i_s * i_s == i_s0 * i_s0) by (nonlinear_arith)
            requires
                i_s == i_s0 || i_s == -i_s0,
        ;
        lemma_product_3(i, i * i_num, i_num);
        lemma_product_3(i, i_num, i * i_num);
    }
    let i_f = 1 - w * i_num;
    lemma_quartic_equation(ri, w, sigma, rho, unit, i_t, i_f, q);
    lemma_quartic_to_curve(i_s, i_t, q);
    // the four coordinates
    lemma_fq_mul_follows(s, s, i_s, i_s);
    lemma_fq_mul_follows(a, fq_mul(s, s), -1, i_s * i_s);
    lemma_fq_add_follows(1, ass, 1, (-1) * (i_s * i_s));
    lemma_fq_sub_follows(1, ass, 1, (-1) * (i_s * i_s));
    lemma_fq_mul_follows(2, s, 2, i_s);
    let m_f = 1 - i_s * i_s;
    let m_g = 1 + i_s * i_s;
    lemma_fq_mul_follows(e, t, 2 * i_s, i_t);
    lemma_fq_mul_follows(f, g, m_f, m_g);
    lemma_fq_mul_follows(e, g, 2 * i_s, m_g);
    lemma_fq_mul_follows(f, t, m_f, i_t);
    let model = IntPoint {
        x: (2 * i_s) * i_t,
        y: m_f * m_g,
        t: (2 * i_s) * m_g,
        z: m_f * i_t,
    };
    lemma_on_curve_from_model(model, p);
}

/// Hashing is a function of the message: the same message gives the same point
/// and the same encoding, whenever and wherever it is hashed.
pub proof fn lemma_hash_deterministic(m1: Seq<u8>, m2: Seq<u8>)
    requires
        m1 == m2,
    ensures
        hash_to_curve_point(m1) == hash_to_curve_point(m2),
        crate::encoding::encode_point(hash_to_curve_point(m1)) == crate::encoding::encode_point(
            hash_to_curve_point(m2),
        ),
        hash_to_scalar_value(m1) == hash_to_scalar_value(m2),
{
}

impl Element {
    /// The Elligator 2 image of a field element.
    pub fn elligator_map(r0: &Fq) -> (e: Element)
        ensures
            e@ == elligator_map(r0@),
    {
        let one = Fq::one();
        let a = one.neg();
        let d = Fq::from_u64(3021);
        let r = Fq::zeta().mul(&r0.square());
        let d_minus_a = d.sub(&a);
        let den = d.mul(&r).sub(&d_minus_a).mul(&d_minus_a.mul(&r).sub(&d));
        let a_minus_2d = a.sub(&Fq::from_u64(2).mul(&d));
        let num = r.add(&one).mul(&a_minus_2d);
        let (was_square, root) = Fq::sqrt_ratio_zeta(&one, &num.mul(&den));
        let sgn = Fq::conditional_select(&one.neg(), &one, was_square);
        let twiddle = Fq::conditional_select(r0, &one, was_square);
        let isri = root.mul(&twiddle);
        let s0 = isri.mul(&num);
        let t = sgn.neg().mul(&isri).mul(&s0).mul(&r.sub(&one)).mul(&a_minus_2d.square()).sub(&one);
        let s = Fq::conditional_select(&s0, &s0.neg(), s0.is_negative() == was_square);
        let e = Fq::from_u64(2).mul(&s);
        let f = one.add(&a.mul(&s.square()));
        let g = one.sub(&a.mul(&s.square()));
        proof {
            lemma_elligator_on_curve(r0@);
        }
        Element::from_coordinates(e.mul(&t), f.mul(&g), e.mul(&g), f.mul(&t))
    }

    /// The element that two field elements map to: the sum of their Elligator
    /// images.
    pub fn map_to_curve_pair(r1: &Fq, r2: &Fq) -> (e: Element)
        ensures
            e@ == map_pair_to_point(r1@, r2@),
    {
        Element::elligator_map(r1).add(&Element::elligator_map(r2))
    }

    /// The element that 96 uniform bytes map to.
    pub fn from_uniform_bytes(bytes: &[u8; 96]) -> (e: Element)
        ensures
            e@ == uniform_bytes_to_point(bytes@),
    {
        let r1 = Fq::from_le_bytes_mod_order(slice_subrange(bytes, 0, 48));
        let r2 = Fq::from_le_bytes_mod_order(slice_subrange(bytes, 48, 96));
        Element::map_to_curve_pair(&r1, &r2)
    }

    /// The element that a message hashes to.
    ///
    /// The message is expanded to 96 bytes under the tag
    /// `DECAF377_XMD:BLAKE2B-512_ELL_RO_`; the result depends on the message alone.
    pub fn hash_to_curve(msg: &[u8]) -> (e: Element)
        ensures
            e@ == hash_to_curve_point(msg@),
    {
        let dst = "DECAF377_XMD:BLAKE2B-512_ELL_RO_".as_bytes();
        let uniform = expand_message_xmd::<96>(msg, dst);
        Element::from_uniform_bytes(&uniform)
    }
}

impl Fr {
    /// The scalar that 64 uniform bytes stand for: their little-endian number,
    /// reduced modulo the group's order.
    pub fn from_uniform_bytes(bytes: &[u8; 64]) -> (r: Fr)
        ensures
            r@ == le_value(bytes@) % fr_modulus(),
    {
        Fr::from_le_bytes_mod_order(bytes)
    }

    /// The scalar that a message hashes to.
    ///
    /// The message is expanded to 64 bytes under the tag
    /// `DECAF377_XMD:BLAKE2B-512_RO_NUL_`; the result depends on the message alone.
    pub fn hash_to_scalar(msg: &[u8]) -> (r: Fr)
        ensures
            r@ == hash_to_scalar_value(msg@),
    {
        let dst = "DECAF377_XMD:BLAKE2B-512_RO_NUL_".as_bytes();
        let uniform = expand_message_xmd::<64>(msg, dst);
        Fr::from_uniform_bytes(&uniform)
    }
}

} // verus!
