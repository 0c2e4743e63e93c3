use decaf377::{Fq, Fr};

/// The order of 22 in the multiplicative group of the base field is one less than
/// the modulus: its power to that exponent is one, and its power to the quotient
/// of that exponent by any of its prime factors is not. Such an element exists
/// only modulo a prime.
#[test]
fn base_field_has_an_element_of_full_order() {
    let g = Fq::from_u64(22);
    let modulus_minus_one = [
        0x0a11800000000000,
        0x59aa76fed0000001,
        0x60b44d1e5c37b001,
        0x12ab655e9a2ca556,
    ];
    assert_eq!(g.pow(modulus_minus_one), Fq::one());
    let quotients: [[u64; 4]; 8] = [
        // by 2
        [
            0x8508c00000000000,
            0xacd53b7f68000000,
            0x305a268f2e1bd800,
            0x0955b2af4d1652ab,
        ],
        // by 3
        [
            0x58b0800000000000,
            0x7338d254f0000000,
            0xcae6c45f74129000,
            0x063921ca3364371c,
        ],
        // by 5
        [
            0x0203800000000000,
            0x11eee4995ccccccd,
            0xacf0dc3945a4bccd,
            0x03bbe112eba28777,
        ],
        // by 7
        [
            0x2602800000000000,
            0x31617eb6b0000000,
            0x7b8778bb31bed000,
            0x02aac556a84f8555,
        ],
        // by 13
        [
            0x1477800000000000,
            0x1a96f57610000000,
            0xe00dde8c2e7a7000,
            0x016fa5560bdc0cb7,
        ],
        // by 499
        [
            0x0088800000000000,
            0x00b155e9f0000000,
            0x2b49b95b61259000,
            0x000993f463d60576,
        ],
        // by 958612291309063373
        [
            0x3257800000000000,
            0x66a9dbfb40000005,
            0x6742c0cbe68b3805,
            0x0000000000000001,
        ],
        // by 9586122913090633729
        [
            0x0a11800000000000,
            0xcf664765b0000001,
            0x23ed1347970dec00,
            0x0000000000000000,
        ],
    ];
    for exponent in quotients.iter() {
        assert!(g.pow(*exponent) != Fq::one());
    }
}

/// The order of 5 in the multiplicative group of the scalar field is one less than
/// the modulus: its power to that exponent is one, and its power to the quotient
/// of that exponent by any of its prime factors is not. Such an element exists
/// only modulo a prime.
#[test]
fn scalar_field_has_an_element_of_full_order() {
    let g = Fr::from_u64(5);
    let modulus_minus_one = [
        0xb95aee9ac33fd9fe,
        0x5293a3afc43c8afe,
        0x982d1347970dec00,
        0x04aad957a68b2955,
    ];
    assert_eq!(g.pow(modulus_minus_one), Fr::one());
    let quotients: [[u64; 4]; 5] = [
        // by 2
        [
            0x5cad774d619fecff,
            0x2949d1d7e21e457f,
            0xcc1689a3cb86f600,
            0x02556cabd34594aa,
        ],
        // by 1553
        [
            0x53dbf5462858e41e,
            0xf556a322667e4ee2,
            0x8facf2d335819330,
            0x0000c4f62a78c10e,
        ],
        // by 1282495723
        [
            0xb416378c2147a67a,
            0xab197b3af4f96562,
            0x8faa9a9c969f42be,
            0x000000000fa1722b,
        ],
        // by 4153589585267
        [
            0x6898fc0f512a8e8a,
            0x0b8f7d5a131db20e,
            0xf31451efbb75dd44,
            0x0000000000013c4a,
        ],
        // by 127594226306900005382664386181896662579473947460767
        [
            0x8c0dc936fd24b742,
            0x00000000000dafa7,
            0x0000000000000000,
            0x0000000000000000,
        ],
    ];
    for exponent in quotients.iter() {
        assert!(g.pow(*exponent) != Fr::one());
    }
}
