use decaf377::{Element, Encoding, Error, Fq, Fr};

fn bytes32(hex_str: &str) -> [u8; 32] {
    let v = hex::decode(hex_str).unwrap();
    let mut out = [0u8; 32];
    out.copy_from_slice(&v);
    out
}

#[test]
fn identity_encodes_to_zero_bytes() {
    assert_eq!(Element::identity().vartime_compress().0, [0u8; 32]);
    assert_eq!(Element::identity().to_bytes(), [0u8; 32]);
}

#[test]
fn generator_encodes_to_eight() {
    let mut expected = [0u8; 32];
    expected[0] = 8;
    assert_eq!(Element::generator().vartime_compress().0, expected);
}

#[test]
fn generator_multiples_have_the_known_encodings() {
    let expected = [
        "0000000000000000000000000000000000000000000000000000000000000000",
        "0800000000000000000000000000000000000000000000000000000000000000",
        "b2ecf9b9082d6306538be73b0d6ee741141f3222152da78685d6596efc8c1506",
        "2ebd42dd3a2307083c834e79fb9e787e352dd33e0d719f86ae4adb02fe382409",
        "6acd327d70f9588fac373d165f4d9d5300510274dffdfdf2bf0955acd78da50d",
        "460f913e516441c286d95dd30b0a2d2bf14264f325528b06455d7cb93ba13a0b",
    ];
    let g = Element::generator();
    let mut acc = Element::identity();
    for e in expected.iter() {
        assert_eq!(hex::encode(acc.vartime_compress().0), *e);
        acc = acc.add(&g);
    }
}

#[test]
fn generator_times_zero_and_one_by_encoding() {
    let g = Element::generator();
    assert_eq!(g.mul(&Fr::zero()).to_bytes(), Element::identity().to_bytes());
    assert_eq!(g.mul(&Fr::one()).to_bytes(), g.to_bytes());
}

#[test]
fn decode_then_encode_gives_the_bytes_back() {
    for s in [0u8, 8, 10, 12, 14, 16, 24, 30] {
        let mut bytes = [0u8; 32];
        bytes[0] = s;
        let e = Encoding(bytes).vartime_decompress().unwrap();
        assert_eq!(e.vartime_compress().0, bytes);
    }
}

#[test]
fn encode_then_decode_gives_the_element_back() {
    let g = Element::generator();
    let p = g.mul(&Fr::from_u64(123456789));
    let q = Encoding(p.to_bytes()).vartime_decompress().unwrap();
    assert!(p == q);
}

#[test]
fn identity_decodes_from_zero_bytes() {
    let e = Encoding([0u8; 32]).vartime_decompress().unwrap();
    assert!(e.is_identity());
    assert!(e == Element::identity());
}

#[test]
fn non_square_candidates_are_rejected() {
    for s in [2u8, 4, 6, 18, 20] {
        let mut bytes = [0u8; 32];
        bytes[0] = s;
        assert_eq!(Encoding(bytes).vartime_decompress(), Err(Error::InvalidEncoding));
        assert_eq!(Encoding(bytes).decompress(), Err(Error::InvalidEncoding));
    }
}

#[test]
fn negative_candidates_are_rejected() {
    for s in [1u8, 9, 11, 255] {
        let mut bytes = [0u8; 32];
        bytes[0] = s;
        assert_eq!(Encoding(bytes).vartime_decompress(), Err(Error::InvalidEncoding));
        assert_eq!(Encoding(bytes).decompress(), Err(Error::InvalidEncoding));
    }
}

#[test]
fn canonical_value_plus_modulus_is_rejected() {
    // 8 encodes the generator; 8 + q names the same residue and must not decode
    let bytes = bytes32("090000000080110a010000d0fe76aa5901b0375c1e4db46056a52c9a5e65ab12");
    assert_eq!(Encoding(bytes).vartime_decompress(), Err(Error::InvalidEncoding));
    assert_eq!(Encoding(bytes).decompress(), Err(Error::InvalidEncoding));
    assert!(Element::from_bytes(&bytes).is_none());
    assert!(Element::from_bytes_unchecked(&bytes).is_none());
    assert_eq!(Fq::from_bytes_checked(&bytes), Err(Error::InvalidEncoding));
    // the modulus itself names zero
    let q = bytes32("010000000080110a010000d0fe76aa5901b0375c1e4db46056a52c9a5e65ab12");
    assert_eq!(Encoding(q).vartime_decompress(), Err(Error::InvalidEncoding));
}

#[test]
fn high_bits_are_rejected() {
    let mut bytes = [0u8; 32];
    bytes[0] = 8;
    bytes[31] = 0x80;
    assert_eq!(Encoding(bytes).vartime_decompress(), Err(Error::InvalidEncoding));
    bytes[31] = 0x20;
    assert_eq!(Encoding(bytes).vartime_decompress(), Err(Error::InvalidEncoding));
}

#[test]
fn both_decoders_agree() {
    for s in 0u8..40 {
        let mut bytes = [0u8; 32];
        bytes[0] = s;
        let fast = Encoding(bytes).vartime_decompress();
        let fixed = Encoding(bytes).decompress();
        match (fast, fixed) {
            (Ok(a), Ok(b)) => {
                assert!(a == b);
                assert_eq!(a.to_bytes(), b.to_bytes());
            }
            (Err(a), Err(b)) => assert_eq!(a, b),
            _ => panic!("the two decoders disagree on {}", s),
        }
    }
}

#[test]
fn wrong_length_is_rejected() {
    assert_eq!(Encoding::from_slice(&[0u8; 31]), Err(Error::InvalidEncoding));
    assert_eq!(Encoding::from_slice(&[0u8; 33]), Err(Error::InvalidEncoding));
    assert_eq!(Encoding::from_slice(&[]), Err(Error::InvalidEncoding));
    assert_eq!(Encoding::from_slice(&[7u8; 32]), Ok(Encoding([7u8; 32])));
}

#[test]
fn torsion_twin_has_the_same_encoding() {
    let g = Element::generator();
    let p = g.mul(&Fr::from_u64(5));
    // the point of order two is the identity's twin: it encodes to zero as well
    let mut zero = [0u8; 32];
    zero[0] = 0;
    let t2 = p.sub(&p);
    assert!(t2.is_identity());
    assert_eq!(t2.to_bytes(), zero);
    let twin = p.add(&t2);
    assert!(twin == p);
    assert_eq!(twin.to_bytes(), p.to_bytes());
}

#[test]
fn scaled_coordinates_have_the_same_encoding() {
    // a multiple of the generator has projective coordinates with Z other
    // than one; its affine form has the same point with Z = 1
    for k in [2u64, 3, 5, 1000, 123_456_789] {
        let p = Element::generator().mul(&Fr::from_u64(k));
        let flat = Element::from_affine(&p.into_affine());
        assert!(flat == p);
        assert_eq!(flat.to_bytes(), p.to_bytes());
        let back = Element::from_bytes(&p.to_bytes()).unwrap();
        assert!(back == p);
        assert_eq!(back.to_bytes(), p.to_bytes());
    }
}
