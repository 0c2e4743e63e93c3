use decaf377::{Element, Fq, Fr};

#[test]
fn elligator_map_known_values() {
    let cases: [(u64, &str); 4] = [
        (0, "0000000000000000000000000000000000000000000000000000000000000000"),
        (1, "8662ef5f80ac6cb5e3d9f895abaa4c0161435d71e865083c428134d994d83f0b"),
        (2, "9a3f0269f40a602c1c8cfec0273cbdf6c167d89f33ef50fc4b29ae5b3504b00f"),
        (5, "0aa441f87843bfd7de0aa676c6697e1218bc9f130695c765fedf036211b7d90b"),
    ];
    for (r0, expected) in cases.iter() {
        let e = Element::elligator_map(&Fq::from_u64(*r0));
        assert_eq!(hex::encode(e.to_bytes()), *expected);
    }
}

#[test]
fn elligator_map_ignores_the_sign_of_its_input() {
    let r0 = Fq::from_u64(1);
    let a = Element::elligator_map(&r0);
    let b = Element::elligator_map(&r0.neg());
    assert_eq!(a.to_bytes(), b.to_bytes());
}

#[test]
fn hash_to_curve_known_values() {
    let cases: [(&[u8], &str); 3] = [
        (b"", "b4a509c399b5b2ceb1f3746f794aeb2653c8e856049d65d2c744d96cd8e35206"),
        (b"abc", "ec61ff85881946e137932bd9c6e25df8c45e833c54db371910eedab824bcc103"),
        (
            b"decaf377 hash to curve test",
            "f4f10c2c40591f46f36f4daa62cc9d1be89b99cd63e8b74c73c69e04c6b32e07",
        ),
    ];
    for (msg, expected) in cases.iter() {
        assert_eq!(hex::encode(Element::hash_to_curve(msg).to_bytes()), *expected);
    }
}

#[test]
fn hash_to_curve_is_deterministic_and_separates_messages() {
    let a = Element::hash_to_curve(b"one message");
    let b = Element::hash_to_curve(b"one message");
    let c = Element::hash_to_curve(b"another message");
    assert_eq!(a.to_bytes(), b.to_bytes());
    assert!(a == b);
    assert!(a.to_bytes() != c.to_bytes());
}

#[test]
fn hash_to_scalar_known_values() {
    let cases: [(&[u8], &str); 3] = [
        (b"", "351820c93ee5e7c58f7a8de01fad28e4034088ad8ed9a7aff290e501a2d0f802"),
        (b"abc", "ccfb5af810ab13be3a14a89195ee0e4e4b433c27f0110bd5836f35bacf59ed02"),
        (
            b"decaf377 hash to curve test",
            "785f2f53efeb0815cabe5eacdd35645a3d2c4a3eeab571b7b639747ecc63c703",
        ),
    ];
    for (msg, expected) in cases.iter() {
        assert_eq!(hex::encode(Fr::hash_to_scalar(msg).to_bytes_le()), *expected);
    }
}

#[test]
fn hash_to_scalar_differs_from_message_to_message() {
    let a = Fr::hash_to_scalar(b"one message");
    let b = Fr::hash_to_scalar(b"another message");
    assert_eq!(a, Fr::hash_to_scalar(b"one message"));
    assert!(a != b);
}
