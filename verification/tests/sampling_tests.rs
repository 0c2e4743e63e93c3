use decaf377::{AffinePoint, Element, Fq};

#[test]
fn draws_that_give_an_element() {
    let cases: [(u64, bool, &str); 3] = [
        (9, true, "5e4d8d65e9d0358e0668736a2fad9eb2816a447102ef2ddaaa4b9e7bdbbe510d"),
        (12, false, "72ffc3b26ffc0d32a32c25c8f44b0f7d85053cd028078f5760105757f7962a0c"),
        (25, true, "1e96e3229519beae823b33684dda8e0eece0b6a878f1fff8bc5a35e5a87be40f"),
    ];
    for (y, greatest, expected) in cases.iter() {
        let e = Element::try_from_sample(&Fq::from_u64(*y), *greatest).unwrap();
        assert_eq!(hex::encode(e.to_bytes()), *expected);
    }
}

#[test]
fn draws_that_are_to_be_repeated() {
    for (y, greatest) in [(9u64, false), (12, true), (0, false), (0, true), (1, false), (2, true)] {
        assert!(Element::try_from_sample(&Fq::from_u64(y), greatest).is_none());
    }
}

/// Draws until a step succeeds, from a linear congruential sequence.
fn sample(state: &mut u64) -> (Element, u32) {
    let mut tries = 0;
    loop {
        let mut wide = [0u8; 48];
        for b in wide.iter_mut() {
            *state = state.wrapping_mul(6364136223846793005).wrapping_add(1442695040888963407);
            *b = (*state >> 56) as u8;
        }
        *state = state.wrapping_mul(6364136223846793005).wrapping_add(1442695040888963407);
        let greatest = (*state >> 63) == 1;
        tries += 1;
        if let Some(e) = Element::try_from_sample(&Fq::from_le_bytes_mod_order(&wide), greatest) {
            return (e, tries);
        }
        assert!(tries < 1000);
    }
}

#[test]
fn sampling_does_not_repeat_identity_or_generator() {
    let mut state = 0x5eed_5eed_5eed_5eedu64;
    let mut seen: Vec<[u8; 32]> = Vec::new();
    let mut total_tries = 0;
    for _ in 0..12 {
        let (e, tries) = sample(&mut state);
        total_tries += tries;
        let bytes = e.to_bytes();
        assert!(!e.is_identity());
        assert!(e != Element::generator());
        assert!(!seen.contains(&bytes));
        // what was sampled is an element like any other: it decodes from its bytes
        assert!(Element::from_bytes(&bytes).unwrap() == e);
        seen.push(bytes);
    }
    // one draw in sixteen succeeds on average
    assert!(total_tries < 12 * 100);
}

#[test]
fn curve_point_from_a_coordinate() {
    let small = "a645295aa0ce3da261a24d02fe5ea949666169406a88079160a47d82a5e1f001";
    let great = "5bbad6a55fb1d3679f5db2cd001801109b4ece1bb4c4accff500af17b983ba10";
    let two = Fq::from_u64(2);
    let (x, y) = AffinePoint::from_y(&two, false).unwrap().xy();
    assert_eq!(hex::encode(x.to_bytes_le()), small);
    assert_eq!(y, two);
    let (x, y) = AffinePoint::from_y(&two, true).unwrap().xy();
    assert_eq!(hex::encode(x.to_bytes_le()), great);
    assert_eq!(y, two);
    // no point of the curve has y = 3
    assert!(AffinePoint::from_y(&Fq::from_u64(3), false).is_none());
    assert!(AffinePoint::from_y(&Fq::from_u64(3), true).is_none());
    // y = 1 is the neutral point, whichever x is asked for
    let (x, y) = AffinePoint::from_y(&Fq::one(), true).unwrap().xy();
    assert_eq!((x, y), (Fq::zero(), Fq::one()));
}

#[test]
fn curve_point_from_bytes() {
    let small = "c03928c38181835e080cb261e4c1a1310e36dc536140901df83da7f0a924bc06";
    let great = "41c6d73c7efe8dabf8f34d6e1ab50828f3795b08bd0c24435e6785a9b440ef0b";
    // a short string is filled up with zeros
    let (x, y) = AffinePoint::from_random_bytes(&[5u8]).unwrap().xy();
    assert_eq!(hex::encode(x.to_bytes_le()), small);
    assert_eq!(y, Fq::from_u64(5));
    // the top bit of the last byte asks for the greater x
    let mut bytes = [0u8; 32];
    bytes[0] = 5;
    bytes[31] = 0x80;
    let (x, y) = AffinePoint::from_random_bytes(&bytes).unwrap().xy();
    assert_eq!(hex::encode(x.to_bytes_le()), great);
    assert_eq!(y, Fq::from_u64(5));
    // the two bits below it are dropped
    bytes[31] = 0x60;
    let (x, y) = AffinePoint::from_random_bytes(&bytes).unwrap().xy();
    assert_eq!(hex::encode(x.to_bytes_le()), small);
    assert_eq!(y, Fq::from_u64(5));
    // what follows the first 32 bytes is not read
    let mut long = [0xffu8; 40];
    long[..32].copy_from_slice(&bytes);
    let (x, _) = AffinePoint::from_random_bytes(&long).unwrap().xy();
    assert_eq!(hex::encode(x.to_bytes_le()), small);
    // a value at or above the modulus names no point, nor does a y without one
    assert!(AffinePoint::from_random_bytes(&[0xffu8; 32]).is_none());
    assert!(AffinePoint::from_random_bytes(&[3u8]).is_none());
    // the empty string stands for y = 0, where x^2 = -1
    let (x, y) = AffinePoint::from_random_bytes(&[]).unwrap().xy();
    assert_eq!(y, Fq::zero());
    assert_eq!(x.square(), Fq::one().neg());
}

#[test]
fn a_point_of_order_four_is_no_group_element() {
    // the curve point with y = 0 has order four: doubled it is (0, -1), which
    // stands for the neutral element, but it is not equal to it itself, and
    // adding it to an element gives another element
    let t4 = AffinePoint::from_random_bytes(&[]).unwrap().to_element();
    assert!(!t4.is_identity());
    let t2 = t4.double();
    assert!(t2.is_identity());
    assert_eq!(t2.into_affine().xy(), (Fq::zero(), Fq::one().neg()));
    assert_eq!(t2.double().into_affine().xy(), (Fq::zero(), Fq::one()));
    let g = Element::generator();
    assert!(g.add(&t4) != g);
    assert!(g.add(&t2) == g);
    assert_eq!(g.add(&t2).to_bytes(), g.to_bytes());
}
