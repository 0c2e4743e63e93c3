use decaf377::{AffinePoint, Element, Error, Fq, Fr};

fn scalar() -> Fr {
    let bytes = hex::decode("11ffeeddccbbaa0078695a4b3c2d1e0f1032547698badcfeefcdab8967452301")
        .unwrap();
    Fr::from_bytes_checked(&bytes).unwrap()
}

#[test]
fn identity_is_identity() {
    assert!(Element::identity().is_identity());
    assert!(!Element::generator().is_identity());
    assert!(Element::identity().is_zero());
    assert!(!Element::generator().is_zero());
    assert!(Element::default().is_identity());
}

#[test]
fn both_points_of_the_neutral_class_are_zero() {
    // (0 : -1 : 0 : 1), the point of order two, is the neutral element too
    let mut bytes = [0u8; 32];
    bytes[0] = 8;
    let g = Element::from_bytes(&bytes).unwrap();
    let half_order = g.mul(&Fr::zero().sub(&Fr::one())).add(&g);
    for e in [Element::identity(), half_order, g.sub(&g), g.neg().add(&g)] {
        assert!(e.is_zero());
        assert!(e.is_identity());
        assert!(e == Element::identity());
        assert_eq!(e.to_bytes(), [0u8; 32]);
    }
    assert!(!g.is_zero());
}

#[test]
fn group_axioms_on_values() {
    let g = Element::generator();
    let a = g.mul(&Fr::from_u64(5));
    let b = g.mul(&Fr::from_u64(7));
    let c = g.mul(&scalar());
    assert!(a.add(&b).add(&c) == a.add(&b.add(&c)));
    assert_eq!(a.add(&b).add(&c).to_bytes(), a.add(&b.add(&c)).to_bytes());
    assert!(a.add(&Element::identity()) == a);
    assert!(Element::identity().add(&a) == a);
    assert!(a.add(&a.neg()) == Element::identity());
    assert!(a.add(&a.neg()).is_identity());
    assert!(a.sub(&a).is_identity());
    assert!(a.add(&b) == b.add(&a));
    assert_eq!(a.add(&b).to_bytes(), g.mul(&Fr::from_u64(12)).to_bytes());
    assert!(a.sub(&b) == g.mul(&Fr::from_u64(2)).neg());
    assert!(a.double() == g.mul(&Fr::from_u64(10)));
}

#[test]
fn scalars_distribute() {
    let g = Element::generator();
    let a = g.mul(&Fr::from_u64(3));
    let s = scalar();
    let t = Fr::from_u64(0xffff_ffff_ffff);
    assert!(a.mul(&s.add(&t)) == a.mul(&s).add(&a.mul(&t)));
    assert!(a.mul(&s.mul(&t)) == a.mul(&t).mul(&s));
    assert_eq!(a.mul(&s.mul(&t)).to_bytes(), a.mul(&t).mul(&s).to_bytes());
}

#[test]
fn generator_times_small_scalars() {
    let g = Element::generator();
    let two = g.mul(&Fr::from_u64(2));
    assert!(two == g.add(&g));
    let three = g.mul(&Fr::from_u64(3));
    assert!(three == g.add(&g).add(&g));
    assert!(g.mul(&Fr::zero()).is_identity());
    assert!(g.mul(&Fr::one()) == g);
}

#[test]
fn generator_times_known_scalars() {
    let g = Element::generator();
    assert_eq!(
        hex::encode(g.mul(&Fr::from_u64(123456789)).to_bytes()),
        "f80cdab91e5002209665b4121ba89e2a534f531142b68f420a74c149fbafdd11"
    );
    assert_eq!(
        hex::encode(g.mul(&scalar()).to_bytes()),
        "e061c5f09f6891a468cc8e0c4930844511a2fe56167cd82e70e76fed1810f80b"
    );
}

#[test]
fn generator_has_the_order_of_the_scalar_field() {
    let g = Element::generator();
    let r_minus_one = Fr::zero().sub(&Fr::one());
    let p = g.mul(&r_minus_one);
    assert!(p.add(&g).is_identity());
    assert!(p == g.neg());
    assert_eq!(
        hex::encode(p.to_bytes()),
        "0000000000304221000000dadf4e352b00f686cba38916ccaa9445d3ab6c5502"
    );
}

#[test]
fn multiscalar_mul_matches_the_fold() {
    let g = Element::generator();
    let h = g.double();
    let scalars = [Fr::from_u64(3), Fr::from_u64(5)];
    let points = [g, h];
    let got = Element::vartime_multiscalar_mul(&scalars, &points).unwrap();
    assert!(got == g.mul(&Fr::from_u64(13)));
    assert_eq!(
        hex::encode(got.to_bytes()),
        "76c739a33ffd15cf6554a8e705dc573f26490b64de0c5bd4e4ac75ed5af8e60b"
    );
    let folded = g.mul(&Fr::from_u64(3)).add(&h.mul(&Fr::from_u64(5)));
    assert_eq!(got.to_bytes(), folded.to_bytes());
}

#[test]
fn multiscalar_mul_of_nothing_is_the_identity() {
    let got = Element::vartime_multiscalar_mul(&[], &[]).unwrap();
    assert!(got.is_identity());
}

#[test]
fn multiscalar_mul_rejects_unequal_lengths() {
    let g = Element::generator();
    let scalars = [Fr::from_u64(3), Fr::from_u64(5)];
    assert_eq!(Element::vartime_multiscalar_mul(&scalars, &[g]), Err(Error::LengthMismatch));
    assert_eq!(Element::vartime_multiscalar_mul(&[], &[g]), Err(Error::LengthMismatch));
    assert_eq!(Element::vartime_multiscalar_mul(&scalars, &[]), Err(Error::LengthMismatch));
}

#[test]
fn sum_of_elements() {
    let g = Element::generator();
    assert!(Element::sum(&[]).is_identity());
    assert!(Element::sum(&[g, g.double(), g]) == g.mul(&Fr::from_u64(4)));
}

#[test]
fn equality_ignores_the_representative() {
    let g = Element::generator();
    let a = g.double().add(&g);
    let b = g.add(&g.double());
    let c = g.mul(&Fr::from_u64(3));
    assert!(a == b);
    assert!(a == c);
    assert!(a != g);
    // the affine form and back gives other coordinates for the same element
    let d = c.into_affine().to_element();
    assert!(c == d);
    assert_eq!(c.to_bytes(), d.to_bytes());
}

#[test]
fn element_conditional_select_picks_by_the_choice() {
    let g = Element::generator();
    let h = g.double();
    assert_eq!(Element::conditional_select(&g, &h, false).to_bytes(), g.to_bytes());
    assert_eq!(Element::conditional_select(&g, &h, true).to_bytes(), h.to_bytes());
}

#[test]
fn constant_time_equality_compares_encodings() {
    let g = Element::generator();
    let a = g.double().add(&g);
    let b = g.mul(&Fr::from_u64(3));
    assert!(a.ct_eq(&b));
    assert!(!a.ct_eq(&g));
    assert!(Element::identity().ct_eq(&g.sub(&g)));
}

#[test]
fn zeroize_clears_the_coordinates() {
    let mut g = Element::generator();
    g.zeroize();
    assert!(g.is_identity());
    assert_eq!(g.to_bytes(), [0u8; 32]);
    assert!(g.is_zero());
}

#[test]
fn element_as_text() {
    assert_eq!(
        Element::generator().to_display_string(),
        "decaf377::Element(0800000000000000000000000000000000000000000000000000000000000000)"
    );
    assert_eq!(
        Element::generator().double().to_display_string(),
        "decaf377::Element(b2ecf9b9082d6306538be73b0d6ee741141f3222152da78685d6596efc8c1506)"
    );
}

#[test]
fn affine_coordinates_of_a_multiple() {
    let p = Element::generator().mul(&Fr::from_u64(5)).into_affine();
    let (x, y) = p.xy();
    assert_eq!(
        hex::encode(x.to_bytes_le()),
        "3dc041b02dfd7d11e8383099645d0295a9ceef83a64f875213487bdedba14604"
    );
    assert_eq!(
        hex::encode(y.to_bytes_le()),
        "ab51b6678d67eb802d2fe46b48ab9ada6da69c2f2556d3573d0cc913c2edb70a"
    );
    // on the curve: -x^2 + y^2 = 1 + d x^2 y^2
    let d = Fq::from_u64(3021);
    let lhs = y.square().sub(&x.square());
    let rhs = Fq::one().add(&d.mul(&x.square()).mul(&y.square()));
    assert_eq!(lhs, rhs);
}

#[test]
fn affine_identity_and_generator() {
    assert_eq!(AffinePoint::zero().xy(), (Fq::zero(), Fq::one()));
    assert_eq!(Element::identity().into_affine().xy(), (Fq::zero(), Fq::one()));
    assert!(AffinePoint::zero().to_element().is_identity());
    assert!(AffinePoint::generator().to_element() == Element::generator());
    assert_eq!(AffinePoint::generator().xy(), Element::generator().into_affine().xy());
    assert!(Element::from_affine(&AffinePoint::generator()) == Element::generator());
    let g = AffinePoint::generator();
    assert_eq!(g.clear_cofactor().xy(), g.xy());
    assert!(g.mul_by_cofactor_to_group() == Element::generator());
}

#[test]
fn affine_form_of_cleared_coordinates_is_the_identity() {
    let mut g = Element::generator();
    g.zeroize();
    assert_eq!(g.into_affine().xy(), (Fq::zero(), Fq::one()));
}

#[test]
fn batch_normalization_matches_single_conversions() {
    let g = Element::generator();
    let mut points = Vec::new();
    let mut acc = g;
    for _ in 0..9 {
        points.push(acc);
        acc = acc.double().add(&g);
    }
    points.push(Element::identity());
    let batch = Element::normalize_batch(&points);
    assert_eq!(batch.len(), points.len());
    for (p, a) in points.iter().zip(batch.iter()) {
        assert_eq!(a.xy(), p.into_affine().xy());
    }
    let bases = Element::batch_convert_to_mul_base(&points);
    for (p, a) in points.iter().zip(bases.iter()) {
        assert_eq!(a.xy(), p.into_affine().xy());
    }
    assert!(Element::normalize_batch(&[]).is_empty());
}

#[test]
fn batch_normalization_with_cleared_coordinates() {
    let g = Element::generator();
    let mut cleared = g;
    cleared.zeroize();
    let points = [g.double(), cleared, g];
    let batch = Element::normalize_batch(&points);
    assert_eq!(batch[0].xy(), g.double().into_affine().xy());
    assert_eq!(batch[1].xy(), (Fq::zero(), Fq::one()));
    assert_eq!(batch[2].xy(), g.into_affine().xy());
}
