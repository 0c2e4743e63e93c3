//! Curve points from one coordinate, and from bytes.
//!
//! A point of the curve with a given `y` has `x^2 = (1 - y^2) / (a - d y^2)`.
//! A byte string names such a point by the `y` it holds and one bit that picks
//! between the two `x`.

use vstd::prelude::*;
use crate::affine::{affine_to_point, AffineModel, AffinePoint};
use crate::bytes::le_value;
use crate::congruence::{congruent, lemma_congruent_add, lemma_congruent_mul};
use crate::curve::{lemma_on_curve_from_model, point_on_curve};
use crate::element::coeff_d;
use crate::fields::fq::{
    fq_modulus, fq_mul, fq_neg, fq_sqrt_ratio_zeta, fq_sub, lemma_fq_equal, lemma_fq_mul_follows,
    lemma_fq_neg_follows, lemma_fq_sub_follows, lemma_sqrt_ratio_zeta_sound, Fq,
};
use crate::laws::IntPoint;
use crate::sampling::curve_point_from_y;
use crate::sqrt_proof::lemma_root_is_residue;

verus! {

/// The point that a draw names lies on the curve, and its coordinates are
/// residues.
pub proof fn lemma_drawn_point_on_curve(y: nat, greatest: bool)
    requires
        y < fq_modulus(),
    ensures
        match curve_point_from_y(y, greatest) {
            Some(a) => point_on_curve(affine_to_point(a)) && a.x < fq_modulus() && a.y == y,
            None => true,
        },
{
    if curve_point_from_y(y, greatest).is_some() {
        let q = fq_modulus() as int;
        let d = coeff_d() as int;
        let a = curve_point_from_y(y, greatest).unwrap();
        let y2 = fq_mul(y, y);
        let num = fq_sub(1, y2);
        let den = fq_sub(fq_neg(1), fq_mul(y2, coeff_d()));
        let r = fq_sqrt_ratio_zeta(num, den).1;
        let yi = y as int;
        let ri = r as int;
        let xi = a.x as int;
        let yy = yi * yi;
        let xx = xi * xi;
        let di = -1 - yy * d;
        lemma_fq_mul_follows(y, y, yi, yi);
        lemma_fq_sub_follows(1, y2, 1, yy);
        lemma_fq_neg_follows(1, 1);
        lemma_fq_mul_follows(y2, coeff_d(), yy, d);
        lemma_fq_sub_follows(fq_neg(1), fq_mul(y2, coeff_d()), -1, yy * d);
        // the root squares to the ratio, and so does its negative
        lemma_sqrt_ratio_zeta_sound(num, den);
        lemma_root_is_residue(num, den);
        lemma_fq_neg_follows(r, ri);
        lemma_fq_mul_follows(r, r, ri, ri);
        lemma_fq_mul_follows(fq_mul(r, r), den, ri * ri, di);
        if a.x == r {
        } else {
            lemma_congruent_mul(xi, -ri, xi, -ri, q);
            assert((-ri) * (-ri) == ri * ri) by (nonlinear_arith);
        }
        assert(congruent(xx, ri * ri, q));
        lemma_congruent_mul(xx, ri * ri, di, di, q);
        assert(congruent(xx * di, 1 - yy, q));
        // -x^2 + y^2 = 1 + d x^2 y^2
        let w = yy + (xx * yy) * d;
        lemma_congruent_add(xx * di, 1 - yy, w, w, q);
        let t = xi * yi;
        assert(xx * di + w == yy - xx) by (nonlinear_arith)
            requires
                di == -1 - yy * d,
                w == yy + (xx * yy) * d,
        ;
        assert((1 - yy) + w == 1 * 1 + d * (t * t)) by (nonlinear_arith)
            requires
                w == yy + (xx * yy) * d,
                t == xi * yi,
                xx == xi * xi,
                yy == yi * yi,
        ;
        let m = IntPoint { x: xi, y: yi, t, z: 1 };
        lemma_fq_mul_follows(a.x, y, xi, yi);
        assert(m.x * m.y == m.z * m.t);
        lemma_on_curve_from_model(m, affine_to_point(a));
    }
}

/// The 32 bytes that a byte string is read as: its first 32 bytes, and zeros
/// where it has fewer.
pub open spec fn first_32_bytes(bytes: Seq<u8>) -> Seq<u8> {
    Seq::new(
        32,
        |i: int|
            if i < bytes.len() {
                bytes[i]
            } else {
                0u8
            },
    )
}

/// The curve point that a byte string names, if it names one.
///
/// Of its first 32 bytes, the top bit of the last says which `x` is meant, the
/// greater or the smaller. With the three top bits of the last byte cleared,
/// the 32 bytes are `y` in little-endian order, which must be below the
/// modulus.
pub open spec fn point_from_random_bytes(bytes: Seq<u8>) -> Option<AffineModel> {
    let b = first_32_bytes(bytes);
    let y = le_value(b.update(31, (b[31] % 32) as u8));
    if y < fq_modulus() {
        curve_point_from_y(y, b[31] >= 128)
    } else {
        None
    }
}

impl AffinePoint {
    /// The curve point that a byte string names, or nothing where it names
    /// none. This is any point of the curve, not only one that an encoding
    /// decodes to.
    pub fn from_random_bytes(bytes: &[u8]) -> (r: Option<AffinePoint>)
        ensures
            match r {
                Some(p) => point_from_random_bytes(bytes@) == Some(p@),
                None => point_from_random_bytes(bytes@).is_none(),
            },
    {
        let mut buf = [0u8; 32];
        let mut i: usize = 0;
        while i < 32 && i < bytes.len()
            invariant
                i <= 32,
                i <= bytes@.len(),
                forall|j: int| 0 <= j < i ==> buf@[j] == bytes@[j],
                forall|j: int| i <= j < 32 ==> buf@[j] == 0,
            decreases 32 - i,
        {
            buf[i] = bytes[i];
            i = i + 1;
        }
        proof {
            assert(buf@ =~= first_32_bytes(bytes@));
        }
        let top: u8 = buf[31];
        let greatest = top >= 128;
        let low: u8 = top & 0x1f;
        proof {
            assert(low == top % 32) by (bit_vector)
                requires
                    low == top & 0x1f,
            ;
        }
        buf[31] = low;
        proof {
            assert(buf@ =~= first_32_bytes(bytes@).update(31, low));
        }
        match Fq::from_bytes_checked(&buf) {
            Ok(y) => AffinePoint::from_y(&y, greatest),
            Err(_) => None,
        }
    }
}

} // verus!
