//! One step of sampling a group element by rejection.
//!
//! A caller draws a field element `y` and a bit from its source of randomness
//! and hands them to `Element::try_from_sample`. The step looks for a curve
//! point with that `y`, clears the cofactor, and then tries to read the result
//! as an encoding. The caller repeats the draw until a step succeeds.

use vstd::prelude::*;
use core::cmp::Ordering;
use crate::affine::{affine_to_point, point_to_affine, AffineModel, AffinePoint};
use crate::draw::lemma_drawn_point_on_curve;
use crate::element::{coeff_d, point_double, Element, Extended, Point};
use crate::encoding::decompress_from_field;
use crate::fields::fq::{fq_mul, fq_neg, fq_sqrt_ratio_zeta, fq_sub, Fq};

verus! {

/// The curve point with the given `y` that one draw names, if there is one:
/// `x` solves `x^2 = (1 - y^2) / (a - d y^2)`, and the bit picks the greater or
/// the smaller of the two solutions.
pub open spec fn curve_point_from_y(y: nat, greatest: bool) -> Option<AffineModel> {
    let y2 = fq_mul(y, y);
    let root = fq_sqrt_ratio_zeta(fq_sub(1, y2), fq_sub(fq_neg(1), fq_mul(y2, coeff_d())));
    let other = fq_neg(root.1);
    let x = if (root.1 > other) == greatest {
        root.1
    } else {
        other
    };
    if root.0 {
        Some(AffineModel { x, y })
    } else {
        None
    }
}

/// The affine point that a curve point gives when the cofactor 4 is cleared.
pub open spec fn clear_cofactor(a: AffineModel) -> AffineModel {
    point_to_affine(point_double(point_double(affine_to_point(a))))
}

/// The element that one draw gives, if it gives one.
///
/// The cleared point is read as an encoding: its `y` is the field element to
/// decode, and the encoding is refused outright where its `x` is greater than
/// the negative of its `x`.
pub open spec fn sample_point(y: nat, greatest: bool) -> Option<Point> {
    match curve_point_from_y(y, greatest) {
        Some(a) => {
            let c = clear_cofactor(a);
            if c.x > fq_neg(c.x) {
                None
            } else {
                decompress_from_field(c.y)
            }
        },
        None => None,
    }
}

impl AffinePoint {
    /// The curve point with the given `y` whose `x` is the greater of the two
    /// solutions, or the smaller: nothing where no point of the curve has that
    /// `y`. This is any point of the curve, not only one that an encoding
    /// decodes to: sampling doubles it twice before it reads it.
    pub fn from_y(y: &Fq, greatest: bool) -> (r: Option<AffinePoint>)
        ensures
            match r {
                Some(p) => curve_point_from_y(y@, greatest) == Some(p@),
                None => curve_point_from_y(y@, greatest).is_none(),
            },
    {
        let y2 = y.square();
        let num = Fq::one().sub(&y2);
        let den = Fq::one().neg().sub(&y2.mul(&Fq::from_u64(3021)));
        let (was_square, root) = Fq::sqrt_ratio_zeta(&num, &den);
        if !was_square {
            return None;
        }
        let other = root.neg();
        let root_is_greater = match root.cmp(&other) {
            Ordering::Greater => true,
            _ => false,
        };
        let x = if root_is_greater == greatest {
            root
        } else {
            other
        };
        proof {
            use_type_invariant(y);
            y.lemma_residue();
            assert(curve_point_from_y(y@, greatest) == Some(AffineModel { x: x@, y: y@ }));
            lemma_drawn_point_on_curve(y@, greatest);
        }
        Some(AffinePoint::from_curve_coordinates(x, *y))
    }
}

impl Element {
    /// One step of rejection sampling: the element that the draw `(y, greatest)`
    /// gives, or nothing where the draw is to be repeated.
    pub fn try_from_sample(y: &Fq, greatest: bool) -> (r: Option<Element>)
        ensures
            match r {
                Some(e) => sample_point(y@, greatest) == Some(e@),
                None => sample_point(y@, greatest).is_none(),
            },
    {
        let drawn = match AffinePoint::from_y(y, greatest) {
            Some(p) => p,
            None => {
                return None;
            },
        };
        let (x, _) = drawn.xy();
        let point = Extended::new(x, *y, x.mul(y), Fq::one());
        let doubled = point.add(&point);
        let (cx, cy) = doubled.add(&doubled).affine_coordinates();
        match cx.cmp(&cx.neg()) {
            Ordering::Greater => None,
            _ => match Element::vartime_decompress_from_field(&cy) {
                Ok(e) => Some(e),
                Err(_) => None,
            },
        }
    }
}

} // verus!
