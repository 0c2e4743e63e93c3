use decaf377::{Element, Fq, Fr};

#[test]
fn field_operators_match_the_methods() {
    let a = Fr::from_u64(0xdead_beef_0bad_f00d);
    let b = Fr::from_le_limbs([7, 8, 9, 10]);
    assert_eq!(a + b, a.add(&b));
    assert_eq!(a - b, a.sub(&b));
    assert_eq!(a * b, a.mul(&b));
    assert_eq!(-a, a.neg());
    assert_eq!(a + &b, a.add(&b));
    assert_eq!(a - &b, a.sub(&b));
    assert_eq!(a * &b, a.mul(&b));
    assert_eq!(a / b, a.mul(&b.inverse().unwrap()));
    assert_eq!((a / b) * b, a);
    let c = Fq::from_u64(12);
    let d = Fq::from_u64(5);
    assert_eq!(c + d, Fq::from_u64(17));
    assert_eq!(c - d, Fq::from_u64(7));
    assert_eq!(c * d, Fq::from_u64(60));
    assert_eq!(d - c, -Fq::from_u64(7));
    assert_eq!(Fq::from_u64(60) / d, c);
}

#[test]
fn conversions_from_integers() {
    assert_eq!(Fr::from(5u8), Fr::from_u64(5));
    assert_eq!(Fr::from(500u16), Fr::from_u64(500));
    assert_eq!(Fr::from(70_000u32), Fr::from_u64(70_000));
    assert_eq!(Fr::from(u64::MAX), Fr::from_u64(u64::MAX));
    assert_eq!(Fr::from(u128::MAX), Fr::from_u128(u128::MAX));
    assert_eq!(Fr::from(true), Fr::one());
    assert_eq!(Fr::from(false), Fr::zero());
    assert_eq!(Fq::from(9u8), Fq::from_u64(9));
    assert_eq!(Fq::from(u128::MAX).to_le_limbs(), [u64::MAX, u64::MAX, 0, 0]);
    assert_eq!(Fq::from(true), Fq::one());
    let x: Fr = 77u64.into();
    assert_eq!(x, Fr::from_u64(77));
}

#[test]
fn element_operators_match_the_methods() {
    let g = Element::generator();
    let h = g.double();
    let s = Fr::from_u64(11);
    assert!(g + h == g.add(&h));
    assert!(g + &h == g.add(&h));
    assert!(h - g == g);
    assert!(h - &g == g);
    assert!(-g == g.neg());
    assert!(g * s == g.mul(&s));
    assert!(g * &s == g.mul(&s));
    assert!(s * g == g.mul(&s));
    assert_eq!((g * s).to_bytes(), g.mul(&s).to_bytes());
    assert!((g + (-g)).is_identity());
    // the fold that the linear combination is
    let folded = Element::identity() + (Fr::from(3u8) * g) + (Fr::from(5u8) * h);
    let combined = Element::vartime_multiscalar_mul(&[Fr::from(3u8), Fr::from(5u8)], &[g, h]);
    assert_eq!(folded.to_bytes(), combined.unwrap().to_bytes());
}

#[test]
fn conversions_between_the_two_forms() {
    let g = Element::generator();
    let p = g.double();
    let a: decaf377::AffinePoint = p.into();
    assert_eq!(a.xy(), p.into_affine().xy());
    let b = decaf377::AffinePoint::from(&p);
    assert_eq!(b.xy(), a.xy());
    let back: Element = a.into();
    assert!(back == p);
    assert_eq!(Element::from(&b).to_bytes(), p.to_bytes());
}

#[test]
fn doubling_in_place() {
    let mut p = Element::generator();
    p.double_in_place();
    assert_eq!(p.to_bytes(), Element::generator().double().to_bytes());
    p.double_in_place();
    assert!(p == Element::generator().mul(&Fr::from(4u8)));
}

#[test]
fn bits_of_the_modulus_and_parity() {
    let bits = Fr::char_le_bits();
    // the modulus of the scalar field ends in ...d9ff and has 251 bits
    assert!(bits[0] && bits[1] && bits[7] && bits[8]);
    assert!(!bits[9]);
    assert!(bits[250]);
    assert!(!bits[251] && !bits[255]);
    let minus_one = Fr::zero() - Fr::one();
    let mut expected = bits;
    expected[0] = false;
    assert_eq!(minus_one.to_le_bits(), expected);
    assert!(Fr::one().is_odd());
    assert!(!Fr::from(2u8).is_odd());
    assert!(!minus_one.is_odd());
}

#[test]
fn product_of_scalars() {
    assert_eq!(Fr::product(&[]), Fr::one());
    assert_eq!(Fr::product(&[Fr::from(2u8), Fr::from(3u8), Fr::from(7u8)]), Fr::from(42u8));
    assert_eq!(Fr::product(&[Fr::from(2u8), Fr::zero(), Fr::from(7u8)]), Fr::zero());
    let minus_one = -Fr::one();
    assert_eq!(Fr::product(&[minus_one, minus_one]), Fr::one());
}

#[test]
fn multiples_by_numbers_given_as_limbs() {
    let g = Element::generator();
    assert!(g.mul_bigint(&[]).is_identity());
    assert!(g.mul_bigint(&[0, 0]).is_identity());
    assert_eq!(g.mul_bigint(&[1]).to_bytes(), g.to_bytes());
    assert_eq!(g.mul_bigint(&[5]).to_bytes(), g.mul(&Fr::from(5u8)).to_bytes());
    assert_eq!(
        g.mul_bigint(&[123456789, 0, 0, 0]).to_bytes(),
        g.mul(&Fr::from(123456789u64)).to_bytes()
    );
    // 2^64 + 3, in two limbs
    let big = Fr::from_le_limbs([3, 1, 0, 0]);
    assert_eq!(g.mul_bigint(&[3, 1]).to_bytes(), g.mul(&big).to_bytes());
    // the number is not reduced: the order of the group gives the identity
    let order = [
        0xb95aee9ac33fd9ff,
        0x5293a3afc43c8afe,
        0x982d1347970dec00,
        0x04aad957a68b2955,
    ];
    assert!(g.mul_bigint(&order).is_identity());
    // five limbs: (2^256 + 1) times the generator
    let wide = g.mul_bigint(&[1, 0, 0, 0, 1]);
    let two_to_256 = Fr::from_le_bytes_mod_order(&{
        let mut b = [0u8; 33];
        b[32] = 1;
        b
    });
    assert_eq!(wide.to_bytes(), g.mul(&(two_to_256 + Fr::one())).to_bytes());
    let a = decaf377::AffinePoint::generator();
    assert_eq!(a.mul_bigint(&[3]).to_bytes(), g.mul(&Fr::from(3u8)).to_bytes());
}
