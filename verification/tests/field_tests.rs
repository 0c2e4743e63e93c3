use core::cmp::Ordering;
use decaf377::{Error, Fq, Fr};

fn bytes32(hex_str: &str) -> [u8; 32] {
    let v = hex::decode(hex_str).unwrap();
    let mut out = [0u8; 32];
    out.copy_from_slice(&v);
    out
}

fn fq(hex_str: &str) -> Fq {
    Fq::from_bytes_checked(&bytes32(hex_str)).unwrap()
}

fn fr(hex_str: &str) -> Fr {
    Fr::from_bytes_checked(&bytes32(hex_str)).unwrap()
}

const Q_MINUS_ONE: &str = "000000000080110a010000d0fe76aa5901b0375c1e4db46056a52c9a5e65ab12";
const Q: &str = "010000000080110a010000d0fe76aa5901b0375c1e4db46056a52c9a5e65ab12";
const R_MINUS_ONE: &str = "fed93fc39aee5ab9fe8a3cc4afa3935200ec0d9747132d9855298ba657d9aa04";
const R: &str = "ffd93fc39aee5ab9fe8a3cc4afa3935200ec0d9747132d9855298ba657d9aa04";

#[test]
fn fq_small_arithmetic() {
    let a = Fq::from_u64(7);
    let b = Fq::from_u64(5);
    assert_eq!(a.add(&b), Fq::from_u64(12));
    assert_eq!(a.sub(&b), Fq::from_u64(2));
    assert_eq!(a.mul(&b), Fq::from_u64(35));
    assert_eq!(b.sub(&a), Fq::from_u64(2).neg());
    assert_eq!(a.square(), Fq::from_u64(49));
    assert_eq!(a.double(), Fq::from_u64(14));
}

#[test]
fn fr_small_arithmetic() {
    let a = Fr::from_u64(7);
    let b = Fr::from_u64(5);
    assert_eq!(a.add(&b), Fr::from_u64(12));
    assert_eq!(a.sub(&b), Fr::from_u64(2));
    assert_eq!(a.mul(&b), Fr::from_u64(35));
    assert_eq!(b.sub(&a), Fr::from_u64(2).neg());
    assert_eq!(a.square(), Fr::from_u64(49));
    assert_eq!(a.double(), Fr::from_u64(14));
}

#[test]
fn arithmetic_wraps_at_the_modulus() {
    let top = fq(Q_MINUS_ONE);
    assert_eq!(top.add(&Fq::one()), Fq::zero());
    assert_eq!(top.mul(&top), Fq::one());
    assert_eq!(Fq::zero().sub(&Fq::one()), top);
    assert_eq!(top.neg(), Fq::one());
    assert_eq!(Fq::zero().neg(), Fq::zero());
    let top = fr(R_MINUS_ONE);
    assert_eq!(top.add(&Fr::one()), Fr::zero());
    assert_eq!(top.mul(&top), Fr::one());
    assert_eq!(top.double(), fr(R_MINUS_ONE).sub(&Fr::one()));
}

#[test]
fn field_axioms_on_values() {
    let a = fq("cb3b8213033d010aa8417fdd8a11e44f8ca3eadf2479da3dde9986696ae06a0e");
    let b = fq("7865dc87b239632bb30f8479507587ccf65ee8da40393e9f98e8b9471c87b607");
    let c = Fq::from_u64(0xdead_beef);
    assert_eq!(a.add(&b), b.add(&a));
    assert_eq!(a.mul(&b), b.mul(&a));
    assert_eq!(a.add(&b).add(&c), a.add(&b.add(&c)));
    assert_eq!(a.mul(&b).mul(&c), a.mul(&b.mul(&c)));
    assert_eq!(a.mul(&b.add(&c)), a.mul(&b).add(&a.mul(&c)));
    assert_eq!(a.add(&a.neg()), Fq::zero());
    assert_eq!(a.sub(&b), a.add(&b.neg()));
    assert_eq!(a.mul(&Fq::one()), a);
    assert_eq!(a.add(&Fq::zero()), a);
}

#[test]
fn inverse_of_seven() {
    let inv = Fq::from_u64(7).inverse().unwrap();
    assert_eq!(
        hex::encode(inv.to_bytes_le()),
        "0100000000000fe40000002048f8482801e0782a63d42ce50020ddf107a00010"
    );
    assert_eq!(Fq::from_u64(7).mul(&inv), Fq::one());
    let inv = Fr::from_u64(7).inverse().unwrap();
    assert_eq!(
        hex::encode(inv.to_bytes_le()),
        "92a6ad5342660274ff1663e66fd86323001c4f658c9aa51c00a43bfe00140002"
    );
    assert_eq!(Fr::from_u64(7).mul(&inv), Fr::one());
}

#[test]
fn zero_has_no_inverse() {
    assert!(Fq::zero().inverse().is_none());
    assert!(Fr::zero().inverse().is_none());
    assert_eq!(Fq::zero().invert(), Err(Error::NoInverse));
    assert_eq!(Fr::zero().invert(), Err(Error::NoInverse));
    assert_eq!(Fq::one().div(&Fq::zero()), Err(Error::NoInverse));
    assert_eq!(Fr::one().div(&Fr::zero()), Err(Error::NoInverse));
}

#[test]
fn every_small_element_has_an_inverse() {
    for i in 1u64..40 {
        let a = Fq::from_u64(i);
        assert_eq!(a.mul(&a.inverse().unwrap()), Fq::one());
        let a = Fr::from_u64(i);
        assert_eq!(a.mul(&a.invert().unwrap()), Fr::one());
    }
    assert_eq!(fq(Q_MINUS_ONE).inverse().unwrap(), fq(Q_MINUS_ONE));
}

#[test]
fn division_is_multiplication_by_the_inverse() {
    let a = Fq::from_u64(35);
    assert_eq!(a.div(&Fq::from_u64(5)), Ok(Fq::from_u64(7)));
    let a = Fr::from_u64(35);
    assert_eq!(a.div(&Fr::from_u64(7)), Ok(Fr::from_u64(5)));
}

#[test]
fn power_by_limbs() {
    // 3^(2^70 + 5)
    let got = Fq::from_u64(3).pow([5, 64, 0, 0]);
    assert_eq!(
        hex::encode(got.to_bytes_le()),
        "7865dc87b239632bb30f8479507587ccf65ee8da40393e9f98e8b9471c87b607"
    );
    assert_eq!(Fq::from_u64(3).pow([0, 0, 0, 0]), Fq::one());
    assert_eq!(Fq::from_u64(3).pow([4, 0, 0, 0]), Fq::from_u64(81));
    assert_eq!(Fr::from_u64(2).pow([10, 0, 0, 0]), Fr::from_u64(1024));
}

#[test]
fn bytes_round_trip() {
    for hex_str in [
        "0000000000000000000000000000000000000000000000000000000000000000",
        "0100000000000000000000000000000000000000000000000000000000000000",
        "cb3b8213033d010aa8417fdd8a11e44f8ca3eadf2479da3dde9986696ae06a0e",
        Q_MINUS_ONE,
    ] {
        let bytes = bytes32(hex_str);
        let x = Fq::from_bytes_checked(&bytes).unwrap();
        assert_eq!(x.to_bytes_le(), bytes);
        assert_eq!(Fq::from_bytes_checked(&x.to_bytes_le()), Ok(x));
    }
    let bytes = bytes32(R_MINUS_ONE);
    let x = Fr::from_bytes_checked(&bytes).unwrap();
    assert_eq!(x.to_bytes_le(), bytes);
    assert_eq!(Fr::from_u64(0x0102030405060708).to_bytes_le()[..8], [8, 7, 6, 5, 4, 3, 2, 1]);
}

#[test]
fn values_at_or_above_the_modulus_do_not_decode() {
    assert_eq!(Fq::from_bytes_checked(&bytes32(Q)), Err(Error::InvalidEncoding));
    assert_eq!(Fr::from_bytes_checked(&bytes32(R)), Err(Error::InvalidEncoding));
    assert_eq!(Fq::from_bytes_checked(&[0xff; 32]), Err(Error::InvalidEncoding));
    assert_eq!(Fr::from_bytes_checked(&[0xff; 32]), Err(Error::InvalidEncoding));
    // the canonical value 5 with the modulus added to it
    let mut five_plus_q = bytes32(Q);
    five_plus_q[0] += 5;
    assert_eq!(Fq::from_bytes_checked(&five_plus_q), Err(Error::InvalidEncoding));
    let five_plus_r = bytes32("04da3fc39aee5ab9fe8a3cc4afa3935200ec0d9747132d9855298ba657d9aa04");
    assert_eq!(Fr::from_bytes_checked(&five_plus_r), Err(Error::InvalidEncoding));
    // a scalar may be at or above the modulus of the scalar field and still be a
    // base field element
    assert!(Fq::from_bytes_checked(&bytes32(R)).is_ok());
}

#[test]
fn wrong_lengths_do_not_decode() {
    assert_eq!(Fq::from_bytes_checked(&[0u8; 31]), Err(Error::InvalidEncoding));
    assert_eq!(Fq::from_bytes_checked(&[0u8; 33]), Err(Error::InvalidEncoding));
    assert_eq!(Fr::from_bytes_checked(&[]), Err(Error::InvalidEncoding));
    assert_eq!(Fr::from_bytes_checked(&[0u8; 64]), Err(Error::InvalidEncoding));
}

#[test]
fn reduction_of_long_byte_strings() {
    let mut wide = [0u8; 48];
    for i in 0..48 {
        wide[i] = (i + 1) as u8;
    }
    assert_eq!(
        hex::encode(Fq::from_le_bytes_mod_order(&wide).to_bytes_le()),
        "cb3b8213033d010aa8417fdd8a11e44f8ca3eadf2479da3dde9986696ae06a0e"
    );
    assert_eq!(
        hex::encode(Fr::from_le_bytes_mod_order(&wide).to_bytes_le()),
        "e4ccf71990712c689fbd5bdd1cecbba591864880021a16c0ca90d903806db702"
    );
    let mut wider = [0u8; 64];
    for i in 0..64 {
        wider[i] = ((7 * i + 3) % 256) as u8;
    }
    assert_eq!(
        hex::encode(Fr::from_uniform_bytes(&wider).to_bytes_le()),
        "d7d4ba87d199e3271b90e714557db7d7dbc992907b659a0954704474228d5f01"
    );
    assert_eq!(Fq::from_le_bytes_mod_order(&[]), Fq::zero());
    assert_eq!(Fq::from_le_bytes_mod_order(&[9]), Fq::from_u64(9));
    assert_eq!(Fq::from_le_bytes_mod_order(&bytes32(Q)), Fq::zero());
}

#[test]
fn limbs_round_trip_and_reduce() {
    let x = Fr::from_le_limbs([1, 2, 3, 4]);
    assert_eq!(x.to_le_limbs(), [1, 2, 3, 4]);
    assert_eq!(
        hex::encode(Fq::from_le_limbs([u64::MAX; 4]).to_bytes_le()),
        "f2ffffffff7f1c7df2ffff6f0ff55772ee0f2c517515d8169d9abb2b32da4b0d"
    );
    assert_eq!(
        hex::encode(Fr::from_le_limbs([u64::MAX; 4]).to_bytes_le()),
        "350488d05aabd1e644ae3a9bec78db94ee371023e6ee7de6f147a5de8227f603"
    );
    assert_eq!(Fq::from_u128(u128::MAX).to_le_limbs(), [u64::MAX, u64::MAX, 0, 0]);
    assert_eq!(
        hex::encode(Fr::from_u128(u128::MAX).to_bytes_le()),
        "ffffffffffffffffffffffffffffffff00000000000000000000000000000000"
    );
    assert_eq!(Fr::from_u128(77), Fr::from_u64(77));
}

#[test]
fn square_roots_of_ratios() {
    let cases: [(u64, u64, bool, &str); 5] = [
        (4, 1, true, "ffffffffff7f110a010000d0fe76aa5901b0375c1e4db46056a52c9a5e65ab12"),
        (9, 4, true, "ffffffffffbf0885000000687f3bd5ac00d81b2e8f265a30ab52164dafb25509"),
        (2, 1, true, "46ba09d28ba86bcfedd00bcd0955aaa25827a150063e803b6aa2ca2ce2abe302"),
        (3, 1, true, "0200000000c0088500000020992f448a00c429c5d639c73c56a52c9a5e65ab12"),
        (5, 7, true, "4ad27e6806b340f72e93d63f696c667cc8f7ea431d0321ade38170c412029401"),
    ];
    for (num, den, square, root) in cases.iter() {
        let n = Fq::from_u64(*num);
        let d = Fq::from_u64(*den);
        let (was_square, r) = Fq::sqrt_ratio_zeta(&n, &d);
        assert_eq!(was_square, *square);
        assert_eq!(hex::encode(r.to_bytes_le()), *root);
        assert_eq!(r.square().mul(&d), n);
    }
}

#[test]
fn square_roots_of_non_squares() {
    let one = Fq::one();
    let zeta = Fq::zeta();
    let (was_square, r) = Fq::sqrt_ratio_zeta(&zeta, &one);
    assert!(!was_square);
    assert_eq!(
        hex::encode(r.to_bytes_le()),
        "191e1f85bae3af15c51c79c630a6691828223cb9864c63281226c4dab50f630c"
    );
    assert_eq!(r.square(), zeta.mul(&zeta));
    let (was_square, r) = Fq::sqrt_ratio_zeta(&one, &zeta);
    assert!(!was_square);
    assert_eq!(r, one);
}

#[test]
fn square_roots_with_a_zero() {
    let seven = Fq::from_u64(7);
    assert_eq!(Fq::sqrt_ratio_zeta(&Fq::zero(), &seven), (true, Fq::zero()));
    assert_eq!(Fq::sqrt_ratio_zeta(&Fq::zero(), &Fq::zero()), (true, Fq::zero()));
    assert_eq!(Fq::sqrt_ratio_zeta(&seven, &Fq::zero()), (false, Fq::zero()));
}

#[test]
fn signs() {
    assert!(!Fq::zero().is_negative());
    assert!(Fq::one().is_negative());
    assert!(!Fq::from_u64(8).is_negative());
    assert!(!fq(Q_MINUS_ONE).is_negative());
    assert_eq!(Fq::one().abs(), fq(Q_MINUS_ONE));
    assert_eq!(Fq::from_u64(8).abs(), Fq::from_u64(8));
    assert_eq!(Fq::from_u64(9).abs(), Fq::from_u64(9).neg());
    assert_eq!(Fq::zero().abs(), Fq::zero());
}

#[test]
fn conditional_select_picks_by_the_choice() {
    let a = Fq::from_u64(11);
    let b = fq(Q_MINUS_ONE);
    assert_eq!(Fq::conditional_select(&a, &b, false), a);
    assert_eq!(Fq::conditional_select(&a, &b, true), b);
    let a = Fr::from_u64(11);
    let b = fr(R_MINUS_ONE);
    assert_eq!(Fr::conditional_select(&a, &b, false), a);
    assert_eq!(Fr::conditional_select(&a, &b, true), b);
}

#[test]
fn constant_time_equality() {
    let a = Fr::from_u64(11);
    let b = fr(R_MINUS_ONE);
    assert!(a.ct_eq(&Fr::from_u64(11)));
    assert!(!a.ct_eq(&b));
    assert!(b.ct_eq(&Fr::zero().sub(&Fr::one())));
    assert!(Fq::from_u64(5).ct_eq(&Fq::from_u64(2).add(&Fq::from_u64(3))));
    // the two differ in the last byte only
    let c = Fq::from_le_limbs([0, 0, 0, 1 << 56]);
    let d = Fq::from_le_limbs([0, 0, 0, 2 << 56]);
    assert!(!c.ct_eq(&d));
}

#[test]
fn order_is_the_order_of_the_residues() {
    let small = Fr::from_u64(u64::MAX);
    let big = Fr::from_le_limbs([0, 1, 0, 0]);
    assert_eq!(small.cmp(&big), Ordering::Less);
    assert_eq!(big.cmp(&small), Ordering::Greater);
    assert_eq!(big.cmp(&big), Ordering::Equal);
    assert!(small < big);
    assert!(big > small);
    assert!(Fr::zero() < Fr::one());
    assert!(fr(R_MINUS_ONE) > big);
    assert_eq!(small.partial_cmp(&big), Some(Ordering::Less));
    assert!(Fq::from_u64(3) < Fq::from_u64(4));
    assert!(fq(Q_MINUS_ONE) > Fq::from_u64(4));
    assert_eq!(Fq::from_u64(4).cmp(&Fq::from_u64(4)), Ordering::Equal);
}

#[test]
fn bits_least_significant_first() {
    let bits = Fr::from_u64(0b1011).to_le_bits();
    assert_eq!(bits.len(), 256);
    assert_eq!(bits[..5], [true, true, false, true, false]);
    assert!(bits[5..].iter().all(|b| !*b));
    let bits = Fr::from_le_limbs([0, 0, 1, 0]).to_le_bits();
    for i in 0..256 {
        assert_eq!(bits[i], i == 128);
    }
    let top = fr(R_MINUS_ONE).to_le_bits();
    assert!(top[250]);
    assert!(!top[251]);
    assert!(!top[0]);
}

#[test]
fn sum_of_scalars() {
    assert_eq!(Fr::sum(&[]), Fr::zero());
    let items = [Fr::from_u64(1), Fr::from_u64(2), fr(R_MINUS_ONE)];
    assert_eq!(Fr::sum(&items), Fr::from_u64(2));
}

#[test]
fn zeroize_leaves_zero() {
    let mut a = fq(Q_MINUS_ONE);
    a.zeroize();
    assert_eq!(a, Fq::zero());
    assert_eq!(a.to_bytes_le(), [0u8; 32]);
    let mut b = fr(R_MINUS_ONE);
    b.zeroize();
    assert_eq!(b, Fr::zero());
}

#[test]
fn default_is_zero() {
    assert_eq!(Fq::default(), Fq::zero());
    assert_eq!(Fr::default(), Fr::zero());
}

#[test]
fn scalar_as_text() {
    let x = fr("11ffeeddccbbaa0078695a4b3c2d1e0f1032547698badcfeefcdab8967452301");
    assert_eq!(
        x.to_debug_string(),
        "Fr(0x0123456789abcdeffedcba98765432100f1e2d3c4b5a697800aabbccddeeff11)"
    );
    assert_eq!(
        Fr::zero().to_debug_string(),
        "Fr(0x0000000000000000000000000000000000000000000000000000000000000000)"
    );
}

/// A small generator of test values: a linear congruential sequence.
fn next_scalar(state: &mut u64) -> Fr {
    let mut wide = [0u8; 48];
    for b in wide.iter_mut() {
        *state = state.wrapping_mul(6364136223846793005).wrapping_add(1442695040888963407);
        *b = (*state >> 56) as u8;
    }
    Fr::from_le_bytes_mod_order(&wide)
}

#[test]
fn text() {
    let mut state = 0x1234_5678_9abc_def0u64;
    for _ in 0..20 {
        let val = next_scalar(&mut state);
        let serialized = hex::encode(val.to_bytes_le());
        let deserialized = Fr::from_bytes_checked(&hex::decode(&serialized).unwrap()).unwrap();
        assert_eq!(val, deserialized);
    }
}

#[test]
fn binary() {
    let mut state = 0x0fed_cba9_8765_4321u64;
    for _ in 0..20 {
        let val = next_scalar(&mut state);
        let serialized = val.to_bytes_le().to_vec();
        let deserialized = Fr::from_bytes_checked(&serialized).unwrap();
        assert_eq!(val, deserialized);
    }
}

#[test]
fn fixed_square_root_agrees_with_the_fast_one() {
    let zero = Fq::zero();
    let one = Fq::one();
    let mut cases = vec![(zero, zero), (zero, one), (one, zero), (one, one), (Fq::zeta(), one)];
    for n in 1u64..12 {
        cases.push((Fq::from_u64(n), Fq::from_u64(3 * n + 1)));
        cases.push((Fq::from_u64(n * n), Fq::from_u64(4)));
    }
    cases.push((fq(Q_MINUS_ONE), Fq::from_u64(0xffff_ffff_ffff_ffff)));
    for (num, den) in cases.iter() {
        assert_eq!(Fq::sqrt_ratio_zeta_fixed(num, den), Fq::sqrt_ratio_zeta(num, den));
    }
}

#[test]
fn invert_agrees_with_inverse() {
    for n in 0u64..20 {
        let a = Fr::from_u64(n * n + n);
        assert_eq!(a.invert().ok(), a.inverse());
        let b = Fq::from_u64(n * 7);
        assert_eq!(b.invert().ok(), b.inverse());
    }
    assert_eq!(fq(Q_MINUS_ONE).invert(), Ok(fq(Q_MINUS_ONE)));
}

#[test]
fn every_square_has_its_root_found() {
    // a root is found for the square of each of many residues, over several
    // denominators, and it squares back to the ratio
    let mut a = Fq::from_u64(3);
    for i in 1..40u64 {
        a = a.mul(&a).add(&Fq::from_u64(i));
        let den = Fq::from_u64(i * i + 1);
        let num = a.square().mul(&den);
        let (was_square, r) = Fq::sqrt_ratio_zeta(&num, &den);
        assert!(was_square);
        assert_eq!(r.square().mul(&den), num);
        assert!(r == a || r == a.neg());
    }
}
