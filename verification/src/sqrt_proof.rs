//! The square root finds every root that exists, because the modulus of the
//! base field is prime.
//!
//! Modulo a prime `q` with `q - 1 = 2^47 m`, a square `w` that is not zero has
//! `w^m` of order at most `2^46`, by Fermat's little theorem. The descent
//! keeps `x^2 = w b` while it lowers the order of `b`, with a root of unity
//! `z` whose order is known exactly, and so it ends with `b = 1`.

use vstd::prelude::*;
use vstd::arithmetic::div_mod::{lemma_mod_bound, lemma_small_mod};
use vstd::arithmetic::power2::{lemma2_to64, lemma2_to64_rest, lemma_pow2_unfold, pow2};
use vstd::arithmetic::power::{
    lemma_pow1, lemma_pow_adds, lemma_pow_mod_noop, lemma_pow_multiplies, lemma_square_is_pow2,
    pow,
};
use crate::fermat::lemma_fermat;
use crate::fields::fq::{
    checked_candidate, fq_inv, fq_modulus, fq_mul, fq_pow, fq_sqrt_ratio_zeta,
    is_sqrt_ratio, lemma_fq_inverse, lemma_fq_mul_associative, lemma_fq_mul_commutative,
    lemma_fq_mul_one_zero, lemma_sqrt_ratio_zeta_sound, odd_part_half, order_log, sq_iter,
    sqrt_candidate, ts_descent, two_adic_root, two_adicity, zeta,
};
use crate::modular::lemma_prime_units;
use crate::prime_modulus::lemma_fq_modulus_prime;

verus! {

/// In the base field a product is zero only where a factor is.
pub proof fn lemma_no_zero_divisors(a: nat, b: nat)
    requires
        a < fq_modulus(),
        b < fq_modulus(),
        fq_mul(a, b) == 0,
    ensures
        a == 0 || b == 0,
{
    lemma_fq_modulus_prime();
    if a != 0 {
        lemma_prime_units(fq_modulus(), a);
        lemma_fq_inverse(a, 0);
        let ai = fq_inv(a);
        // b = (ai a) b = ai (a b) = ai 0 = 0
        lemma_fq_mul_commutative(a, ai);
        lemma_fq_mul_associative(ai, a, b);
        lemma_fq_mul_one_zero(b);
        lemma_fq_mul_one_zero(ai);
    }
}

/// In the base field one has the two square roots one and minus one.
pub proof fn lemma_roots_of_one(u: nat)
    requires
        u < fq_modulus(),
        fq_mul(u, u) == 1,
    ensures
        u == 1 || u == fq_modulus() - 1,
{
    lemma_fq_modulus_prime();
    let q = fq_modulus() as int;
    // (u - 1)(u + 1) = u^2 - 1, with u - 1 written as u + q - 1
    let s: int = u + q - 1;
    let t: int = (u + 1) as int;
    let a = (s % q) as nat;
    let b = (t % q) as nat;
    lemma_mod_bound(s, q);
    lemma_mod_bound(t, q);
    vstd::arithmetic::div_mod::lemma_mul_mod_noop_general(s, t, q);
    let uu = (u * u) as int;
    let k = uu / q;
    vstd::arithmetic::div_mod::lemma_fundamental_div_mod(uu, q);
    assert(s * t == (k + u + 1) * q) by (nonlinear_arith)
        requires
            u * u == q * k + 1,
            s == u + q - 1,
            t == u + 1,
    ;
    vstd::arithmetic::div_mod::lemma_mod_multiples_basic(k + u + 1, q);
    assert(((a * b) as int) % q == (s * t) % q);
    assert(fq_mul(a, b) == 0);
    lemma_no_zero_divisors(a, b);
    if a == 0 {
        if u != 1 {
            if u == 0 {
                lemma_small_mod((q - 1) as nat, q as nat);
            } else {
                vstd::arithmetic::div_mod::lemma_fundamental_div_mod_converse(s, q, 1, u - 1);
            }
        }
    } else {
        if u + 1 < q {
            lemma_small_mod(u + 1, q as nat);
        }
    }
}

/// Squaring `a` times and then `b` times is squaring `a + b` times.
pub proof fn lemma_sq_iter_adds(z: nat, a: nat, b: nat)
    ensures
        sq_iter(sq_iter(z, a), b) == sq_iter(z, a + b),
    decreases a,
{
    if a > 0 {
        lemma_sq_iter_adds(fq_mul(z, z), (a - 1) as nat, b);
    }
}

/// Squaring once more squares the result.
pub proof fn lemma_sq_iter_last(z: nat, j: nat)
    ensures
        sq_iter(z, j + 1) == fq_mul(sq_iter(z, j), sq_iter(z, j)),
{
    lemma_sq_iter_adds(z, j, 1);
    reveal_with_fuel(sq_iter, 2);
}

/// Repeated squaring goes through products.
pub proof fn lemma_sq_iter_product(x: nat, y: nat, j: nat)
    ensures
        sq_iter(fq_mul(x, y), j) == fq_mul(sq_iter(x, j), sq_iter(y, j)),
    decreases j,
{
    if j > 0 {
        let xy = fq_mul(x, y);
        // (x y)^2 = x^2 y^2
        lemma_fq_mul_associative(xy, x, y);
        lemma_fq_mul_associative(x, y, x);
        lemma_fq_mul_commutative(y, x);
        lemma_fq_mul_associative(x, x, y);
        lemma_fq_mul_associative(fq_mul(x, x), y, y);
        lemma_fq_mul_commutative(xy, x);
        lemma_fq_mul_associative(x, xy, y);
        assert(fq_mul(xy, xy) == fq_mul(fq_mul(x, x), fq_mul(y, y))) by {
            // x y x y: bring the two x together
            lemma_fq_mul_associative(x, y, xy);
            lemma_fq_mul_associative(y, x, y);
            lemma_fq_mul_associative(x, y, y);
            lemma_fq_mul_associative(x, x, fq_mul(y, y));
        }
        lemma_sq_iter_product(fq_mul(x, x), fq_mul(y, y), (j - 1) as nat);
    }
}

/// Repeated squaring is raising to a power of two.
pub proof fn lemma_sq_iter_is_power(z: nat, j: nat)
    requires
        z < fq_modulus(),
    ensures
        sq_iter(z, j) == pow(z as int, pow2(j)) % (fq_modulus() as int),
    decreases j,
{
    let q = fq_modulus() as int;
    if j == 0 {
        lemma2_to64();
        lemma_pow1(z as int);
        lemma_small_mod(z, fq_modulus());
    } else {
        let zz = fq_mul(z, z);
        lemma_mod_bound((z * z) as int, q);
        lemma_sq_iter_is_power(zz, (j - 1) as nat);
        lemma_pow_mod_noop((z * z) as int, pow2((j - 1) as nat), q);
        lemma_square_is_pow2(z as int);
        lemma_pow_multiplies(z as int, 2, pow2((j - 1) as nat));
        lemma_pow2_unfold(j);
    }
}

/// What the count of squarings says: fewer squarings do not reach one, and
/// where the count is below the limit, that many do.
pub proof fn lemma_order_log(b: nat, limit: nat)
    ensures
        order_log(b, limit) <= limit,
        forall|j: nat| j < order_log(b, limit) ==> sq_iter(b, j) != 1,
        order_log(b, limit) < limit ==> sq_iter(b, order_log(b, limit)) == 1,
    decreases limit,
{
    if b == 1 || limit == 0 {
    } else {
        let bb = fq_mul(b, b);
        lemma_order_log(bb, (limit - 1) as nat);
        assert forall|j: nat| j < order_log(b, limit) implies sq_iter(b, j) != 1 by {
            if j > 0 {
                assert(sq_iter(b, j) == sq_iter(bb, (j - 1) as nat));
            }
        }
    }
}

/// One step of the chain of squarings of the root of unity.
proof fn lemma_root_step(j: nat, a: nat, b: nat)
    requires
        sq_iter(two_adic_root(), j) == a,
        (a * a) % fq_modulus() == b,
    ensures
        sq_iter(two_adic_root(), j + 1) == b,
{
    lemma_sq_iter_last(two_adic_root(), j);
}

/// The root of unity that the descent starts from has order `2^47`: squared
/// 46 times it is minus one.
pub proof fn lemma_root_order()
    ensures
        sq_iter(two_adic_root(), 46) == fq_modulus() - 1,
{
    assert(sq_iter(two_adic_root(), 0) == two_adic_root());
    lemma_root_step(0,
        0x0a76_903b_4d0d_553a_ae3e_61f8_e561_5942_5278_cf95_c591_505e_d88d_d0ac_2af1_1e36nat,
        0x0a52_ef47_b382_388d_a923_346a_c4b9_6063_523a_3ef6_29d4_3853_3d54_0b89_3f69_889cnat,
    );
    lemma_root_step(1,
        0x0a52_ef47_b382_388d_a923_346a_c4b9_6063_523a_3ef6_29d4_3853_3d54_0b89_3f69_889cnat,
        0x0874_f63a_e322_7ada_559f_054e_1586_d06c_dcf2_aec3_4f04_20a5_e8cb_fa58_edaa_a514nat,
    );
    lemma_root_step(2,
        0x0874_f63a_e322_7ada_559f_054e_1586_d06c_dcf2_aec3_4f04_20a5_e8cb_fa58_edaa_a514nat,
        0x0b6b_61f6_3538_3f6e_be4d_10fd_0d5f_057e_4f62_3f89_48e4_4136_3e58_8a18_1acc_f54bnat,
    );
    lemma_root_step(3,
        0x0b6b_61f6_3538_3f6e_be4d_10fd_0d5f_057e_4f62_3f89_48e4_4136_3e58_8a18_1acc_f54bnat,
        0x06a3_d28c_18df_7709_5abc_c78d_66d0_54b9_393b_509f_a5c8_007e_a454_93d9_52a7_e1f5nat,
    );
    lemma_root_step(4,
        0x06a3_d28c_18df_7709_5abc_c78d_66d0_54b9_393b_509f_a5c8_007e_a454_93d9_52a7_e1f5nat,
        0x0712_fb58_443a_6f20_a438_7351_80ba_689b_9e6c_fcf7_c7bd_430a_4743_1131_65c4_2d37nat,
    );
    lemma_root_step(5,
        0x0712_fb58_443a_6f20_a438_7351_80ba_689b_9e6c_fcf7_c7bd_430a_4743_1131_65c4_2d37nat,
        0x07df_b52d_7193_3421_f530_8616_dd57_0299_2311_59f7_f906_dd5f_9ce9_7e2a_e510_1155nat,
    );
    lemma_root_step(6,
        0x07df_b52d_7193_3421_f530_8616_dd57_0299_2311_59f7_f906_dd5f_9ce9_7e2a_e510_1155nat,
        0x0e52_f800_231f_e4ed_d22a_9fb3_3bae_cd97_53cd_e584_8210_8477_879a_98be_72e2_9ebenat,
    );
    lemma_root_step(7,
        0x0e52_f800_231f_e4ed_d22a_9fb3_3bae_cd97_53cd_e584_8210_8477_879a_98be_72e2_9ebenat,
        0x0965_f4ed_431b_3117_258a_1ef6_fe1f_2b63_9755_9713_2241_fdc6_4776_3aad_7c71_caa5nat,
    );
    lemma_root_step(8,
        0x0965_f4ed_431b_3117_258a_1ef6_fe1f_2b63_9755_9713_2241_fdc6_4776_3aad_7c71_caa5nat,
        0x0429_efd1_5110_0278_e9c0_a77c_53b2_9e6a_f8b9_a9f5_a62d_c639_e2f5_43ee_7714_6772nat,
    );
    lemma_root_step(9,
        0x0429_efd1_5110_0278_e9c0_a77c_53b2_9e6a_f8b9_a9f5_a62d_c639_e2f5_43ee_7714_6772nat,
        0x03f7_39ed_2e3d_c2b7_1b1a_ec98_e71b_7896_02ee_244a_a6b2_b41c_2223_6c59_d5b9_d391nat,
    );
    lemma_root_step(10,
        0x03f7_39ed_2e3d_c2b7_1b1a_ec98_e71b_7896_02ee_244a_a6b2_b41c_2223_6c59_d5b9_d391nat,
        0x08fe_1892_5ffb_6c20_a3bc_8cab_9d06_49c3_db4d_668e_6a12_58ba_b47e_0554_f9ab_3932nat,
    );
    lemma_root_step(11,
        0x08fe_1892_5ffb_6c20_a3bc_8cab_9d06_49c3_db4d_668e_6a12_58ba_b47e_0554_f9ab_3932nat,
        0x0bef_c1a5_1517_1930_fa0d_b40f_c257_b815_50e7_778c_f958_eae9_ac9d_e43d_faf5_5c86nat,
    );
    lemma_root_step(12,
        0x0bef_c1a5_1517_1930_fa0d_b40f_c257_b815_50e7_778c_f958_eae9_ac9d_e43d_faf5_5c86nat,
        0x0267_855a_23b7_cfb3_3af7_8b2e_e7f2_7ffc_0607_5917_6eaf_643e_59fd_af22_8ece_1c0enat,
    );
    lemma_root_step(13,
        0x0267_855a_23b7_cfb3_3af7_8b2e_e7f2_7ffc_0607_5917_6eaf_643e_59fd_af22_8ece_1c0enat,
        0x02d7_87fb_b483_09d7_5384_97aa_cded_61ff_d9ab_1086_21da_0f18_1c91_4c81_129c_65aenat,
    );
    lemma_root_step(14,
        0x02d7_87fb_b483_09d7_5384_97aa_cded_61ff_d9ab_1086_21da_0f18_1c91_4c81_129c_65aenat,
        0x0ebb_f565_0ed5_6e1a_4b99_880a_ea37_e250_4308_de74_5982_1213_a14a_2bb8_fa77_91abnat,
    );
    lemma_root_step(15,
        0x0ebb_f565_0ed5_6e1a_4b99_880a_ea37_e250_4308_de74_5982_1213_a14a_2bb8_fa77_91abnat,
        0x0ece_4246_02da_5514_829f_b368_246b_19fe_0346_7e39_f318_bdf9_dac0_798b_d781_e9d5nat,
    );
    lemma_root_step(16,
        0x0ece_4246_02da_5514_829f_b368_246b_19fe_0346_7e39_f318_bdf9_dac0_798b_d781_e9d5nat,
        0x0bff_4f16_a699_98de_c066_36ce_5905_e473_4ec5_6c54_3d7b_d815_5bd3_9abb_c0d3_c0fdnat,
    );
    lemma_root_step(17,
        0x0bff_4f16_a699_98de_c066_36ce_5905_e473_4ec5_6c54_3d7b_d815_5bd3_9abb_c0d3_c0fdnat,
        0x06a1_be8f_631b_0649_858e_0179_6c5b_58fc_077b_ab0e_a689_ff93_9c26_161f_af9f_0ef2nat,
    );
    lemma_root_step(18,
        0x06a1_be8f_631b_0649_858e_0179_6c5b_58fc_077b_ab0e_a689_ff93_9c26_161f_af9f_0ef2nat,
        0x067f_50e4_45a2_2cae_19f4_0325_01db_a26f_7253_5c86_d490_b764_52aa_3c33_c901_1c28nat,
    );
    lemma_root_step(19,
        0x067f_50e4_45a2_2cae_19f4_0325_01db_a26f_7253_5c86_d490_b764_52aa_3c33_c901_1c28nat,
        0x0121_f9b9_e127_fe2d_4da1_6598_b181_39b5_8213_1094_1e0e_1bc6_8fb8_d7c2_e4a1_ba6anat,
    );
    lemma_root_step(20,
        0x0121_f9b9_e127_fe2d_4da1_6598_b181_39b5_8213_1094_1e0e_1bc6_8fb8_d7c2_e4a1_ba6anat,
        0x014f_c45d_65af_6da5_dbcb_45c4_970c_3f6a_baf6_ac5b_2a11_b79d_acd1_3a87_4b39_aafdnat,
    );
    lemma_root_step(21,
        0x014f_c45d_65af_6da5_dbcb_45c4_970c_3f6a_baf6_ac5b_2a11_b79d_acd1_3a87_4b39_aafdnat,
        0x0ccd_d9e1_3351_328a_5f7b_612c_1a5f_bcb4_c4e5_16ca_6be2_14f5_48f2_46df_9f6e_bc24nat,
    );
    lemma_root_step(22,
        0x0ccd_d9e1_3351_328a_5f7b_612c_1a5f_bcb4_c4e5_16ca_6be2_14f5_48f2_46df_9f6e_bc24nat,
        0x0bf3_d72a_bb56_a078_33c0_4117_13af_4b49_1c89_47f3_0824_4908_a03e_5994_ee02_170anat,
    );
    lemma_root_step(23,
        0x0bf3_d72a_bb56_a078_33c0_4117_13af_4b49_1c89_47f3_0824_4908_a03e_5994_ee02_170anat,
        0x0427_139f_b621_92cc_2d9d_4206_14f6_492c_99b1_4c65_0558_2412_5217_d62b_f76a_901cnat,
    );
    lemma_root_step(24,
        0x0427_139f_b621_92cc_2d9d_4206_14f6_492c_99b1_4c65_0558_2412_5217_d62b_f76a_901cnat,
        0x022c_02cb_3f19_d883_da3b_fc1b_1d99_0dcc_3e12_a104_e371_bcbb_b5e0_63b8_6b89_75benat,
    );
    lemma_root_step(25,
        0x022c_02cb_3f19_d883_da3b_fc1b_1d99_0dcc_3e12_a104_e371_bcbb_b5e0_63b8_6b89_75benat,
        0x004c_3c68_e871_85a2_fd08_1106_b4e5_4047_6bf0_0138_9218_b421_8f65_cd0c_c890_b41enat,
    );
    lemma_root_step(26,
        0x004c_3c68_e871_85a2_fd08_1106_b4e5_4047_6bf0_0138_9218_b421_8f65_cd0c_c890_b41enat,
        0x08a6_feff_b725_26ff_8442_9f67_e925_a959_8dce_0b71_f687_ee87_ca0c_8be4_87ed_ba2anat,
    );
    lemma_root_step(27,
        0x08a6_feff_b725_26ff_8442_9f67_e925_a959_8dce_0b71_f687_ee87_ca0c_8be4_87ed_ba2anat,
        0x0911_7881_ef3a_8dbb_c515_f174_d7c8_42b7_5a08_6be4_af1d_87c0_1c7f_a666_a85f_3193nat,
    );
    lemma_root_step(28,
        0x0911_7881_ef3a_8dbb_c515_f174_d7c8_42b7_5a08_6be4_af1d_87c0_1c7f_a666_a85f_3193nat,
        0x0093_759c_4f37_af0f_b12c_2fed_c24e_742f_0ce7_d6b5_971d_7018_d00a_6822_ffb7_4d7cnat,
    );
    lemma_root_step(29,
        0x0093_759c_4f37_af0f_b12c_2fed_c24e_742f_0ce7_d6b5_971d_7018_d00a_6822_ffb7_4d7cnat,
        0x05a4_1106_edf3_89d1_5c95_575b_5d69_9151_21d3_f079_fdc8_1cbe_1f8c_2500_a21b_f870nat,
    );
    lemma_root_step(30,
        0x05a4_1106_edf3_89d1_5c95_575b_5d69_9151_21d3_f079_fdc8_1cbe_1f8c_2500_a21b_f870nat,
        0x08b4_13c8_2a86_513c_c71d_bde5_592e_3850_fb94_928f_36d5_b8cb_87c2_8c65_597f_fb28nat,
    );
    lemma_root_step(31,
        0x08b4_13c8_2a86_513c_c71d_bde5_592e_3850_fb94_928f_36d5_b8cb_87c2_8c65_597f_fb28nat,
        0x118f_4f06_db38_7c27_e8cd_4085_63dc_f9c8_2ae5_ec55_2f9d_c82d_b148_2791_1c2f_d17anat,
    );
    lemma_root_step(32,
        0x118f_4f06_db38_7c27_e8cd_4085_63dc_f9c8_2ae5_ec55_2f9d_c82d_b148_2791_1c2f_d17anat,
        0x01a6_a5c9_c6f2_1a77_88c1_1a41_74d9_5634_4b72_8e16_0957_9513_e77c_b3fd_d18c_e5fbnat,
    );
    lemma_root_step(33,
        0x01a6_a5c9_c6f2_1a77_88c1_1a41_74d9_5634_4b72_8e16_0957_9513_e77c_b3fd_d18c_e5fbnat,
        0x0606_94b0_f02e_5164_c910_07c7_b59e_5d2f_6e22_80c5_65d2_2331_9adf_731b_a3b6_2bc2nat,
    );
    lemma_root_step(34,
        0x0606_94b0_f02e_5164_c910_07c7_b59e_5d2f_6e22_80c5_65d2_2331_9adf_731b_a3b6_2bc2nat,
        0x0135_b5a0_0478_8453_a307_b63d_d319_70fa_395d_b2be_22e6_2c3a_52f3_c15a_34f6_34d6nat,
    );
    lemma_root_step(35,
        0x0135_b5a0_0478_8453_a307_b63d_d319_70fa_395d_b2be_22e6_2c3a_52f3_c15a_34f6_34d6nat,
        0x007c_9a89_9b28_b780_9dcf_bf5a_635f_60c1_b904_0e08_273c_705a_aae2_8a9e_8da6_fc09nat,
    );
    lemma_root_step(36,
        0x007c_9a89_9b28_b780_9dcf_bf5a_635f_60c1_b904_0e08_273c_705a_aae2_8a9e_8da6_fc09nat,
        0x0ea5_3038_7557_dc45_6120_104a_96e4_00fe_6ed3_c7a0_58d6_6a6a_88f0_27ee_2a81_0f88nat,
    );
    lemma_root_step(37,
        0x0ea5_3038_7557_dc45_6120_104a_96e4_00fe_6ed3_c7a0_58d6_6a6a_88f0_27ee_2a81_0f88nat,
        0x102b_c433_68de_64a0_674e_7320_627a_fdb4_0696_f4d8_bea4_c09a_f9ba_aad3_700e_a0bdnat,
    );
    lemma_root_step(38,
        0x102b_c433_68de_64a0_674e_7320_627a_fdb4_0696_f4d8_bea4_c09a_f9ba_aad3_700e_a0bdnat,
        0x0786_c01c_ba3a_aa74_f253_1a2a_2be0_3eef_8054_3bde_0d34_8044_c21c_e033_9128_5d02nat,
    );
    lemma_root_step(39,
        0x0786_c01c_ba3a_aa74_f253_1a2a_2be0_3eef_8054_3bde_0d34_8044_c21c_e033_9128_5d02nat,
        0x0893_c2f7_ccdb_de66_4fdd_c151_201b_22d0_4931_48a8_d296_daa4_32c6_9d9c_1baa_bc55nat,
    );
    lemma_root_step(40,
        0x0893_c2f7_ccdb_de66_4fdd_c151_201b_22d0_4931_48a8_d296_daa4_32c6_9d9c_1baa_bc55nat,
        0x0375_f464_812c_96fd_96e1_ab71_2668_9787_98c8_2a01_86c4_4edb_3362_c8aa_cb0a_d8e7nat,
    );
    lemma_root_step(41,
        0x0375_f464_812c_96fd_96e1_ab71_2668_9787_98c8_2a01_86c4_4edb_3362_c8aa_cb0a_d8e7nat,
        0x0996_2e74_b53a_e995_f2c3_4c11_b8ae_7d61_2098_7ba6_1d64_6d56_d253_3833_4afb_f0bbnat,
    );
    lemma_root_step(42,
        0x0996_2e74_b53a_e995_f2c3_4c11_b8ae_7d61_2098_7ba6_1d64_6d56_d253_3833_4afb_f0bbnat,
        0x02d4_450c_2877_f4c2_e485_27ee_32cc_3182_9f9a_114f_7c49_40f0_f388_3827_ac4c_e534nat,
    );
    lemma_root_step(43,
        0x02d4_450c_2877_f4c2_e485_27ee_32cc_3182_9f9a_114f_7c49_40f0_f388_3827_ac4c_e534nat,
        0x045c_b225_dabe_3b97_3588_7f12_9fbc_28da_7e4e_5f63_0a4b_98b2_4017_66f3_29f0_4fbbnat,
    );
    lemma_root_step(44,
        0x045c_b225_dabe_3b97_3588_7f12_9fbc_28da_7e4e_5f63_0a4b_98b2_4017_66f3_29f0_4fbbnat,
        0x12ab_655e_9a2c_a556_3cc7_39d6_c529_c400_8a44_2f99_1fff_ffff_7af7_4000_0000_0000nat,
    );
    lemma_root_step(45,
        0x12ab_655e_9a2c_a556_3cc7_39d6_c529_c400_8a44_2f99_1fff_ffff_7af7_4000_0000_0000nat,
        0x12ab_655e_9a2c_a556_60b4_4d1e_5c37_b001_59aa_76fe_d000_0001_0a11_8000_0000_0000nat,
    );
}

/// The descent finds a root: from `x^2 = w b`, with `b` of order at most
/// `2^(v-1)` and `z` of order `2^v`, it ends with some `r` whose square is `w`.
pub proof fn lemma_descent_finds(x: nat, b: nat, z: nat, v: nat, w: nat)
    requires
        x < fq_modulus(),
        b < fq_modulus(),
        z < fq_modulus(),
        w < fq_modulus(),
        v >= 1,
        fq_mul(x, x) == fq_mul(w, b),
        sq_iter(b, (v - 1) as nat) == 1,
        sq_iter(z, (v - 1) as nat) == fq_modulus() - 1,
    ensures
        ts_descent(x, b, z, v).is_some(),
        fq_mul(ts_descent(x, b, z, v).unwrap(), ts_descent(x, b, z, v).unwrap()) == w,
    decreases v,
{
    lemma_fq_modulus_prime();
    let q = fq_modulus();
    if b == 1 {
        lemma_fq_mul_one_zero(w);
    } else {
        let k = order_log(b, v);
        lemma_order_log(b, v);
        assert(k <= v - 1) by {
            if k > v - 1 {
                assert(sq_iter(b, (v - 1) as nat) != 1);
            }
        }
        assert(k >= 1);
        // one squaring short of one is minus one
        let u = sq_iter(b, (k - 1) as nat);
        lemma_sq_iter_bound(b, (k - 1) as nat);
        lemma_sq_iter_last(b, (k - 1) as nat);
        lemma_roots_of_one(u);
        assert(u == q - 1);
        // the root of unity, squared up to the order of b
        let zz = sq_iter(z, (v - k - 1) as nat);
        let z2 = fq_mul(zz, zz);
        lemma_sq_iter_bound(z, (v - k - 1) as nat);
        lemma_mod_bound((zz * zz) as int, q as int);
        lemma_sq_iter_last(z, (v - k - 1) as nat);
        lemma_sq_iter_adds(z, (v - k) as nat, (k - 1) as nat);
        assert(sq_iter(z2, (k - 1) as nat) == q - 1);
        // the new b has order at most 2^(k-1)
        let b1 = fq_mul(b, z2);
        lemma_mod_bound((b * z2) as int, q as int);
        lemma_sq_iter_product(b, z2, (k - 1) as nat);
        lemma_minus_one_squared();
        assert(sq_iter(b1, (k - 1) as nat) == 1);
        // the new x keeps x^2 = w b
        let x1 = fq_mul(x, zz);
        lemma_mod_bound((x * zz) as int, q as int);
        assert(fq_mul(x1, x1) == fq_mul(w, b1)) by {
            lemma_sq_iter_product(x, zz, 1);
            reveal_with_fuel(sq_iter, 2);
            assert(fq_mul(x1, x1) == fq_mul(fq_mul(x, x), z2));
            lemma_fq_mul_associative(w, b, z2);
        }
        lemma_descent_finds(x1, b1, z2, k, w);
    }
}

/// Repeated squaring stays below the modulus.
pub proof fn lemma_sq_iter_bound(z: nat, j: nat)
    requires
        z < fq_modulus(),
    ensures
        sq_iter(z, j) < fq_modulus(),
    decreases j,
{
    if j > 0 {
        lemma_mod_bound((z * z) as int, fq_modulus() as int);
        lemma_sq_iter_bound(fq_mul(z, z), (j - 1) as nat);
    }
}

/// Minus one squared is one.
proof fn lemma_minus_one_squared()
    ensures
        fq_mul((fq_modulus() - 1) as nat, (fq_modulus() - 1) as nat) == 1,
{
    let q = fq_modulus() as int;
    assert((q - 1) * (q - 1) == (q - 2) * q + 1) by (nonlinear_arith);
    vstd::arithmetic::div_mod::lemma_fundamental_div_mod_converse((q - 1) * (q - 1), q, q - 2, 1);
}

/// Where `w` is the square of some `c` that is not zero, the descent starts
/// from `x^2 = w b` with `b` of order at most `2^46`.
pub proof fn lemma_start_order(w: nat, c: nat)
    requires
        0 < c < fq_modulus(),
        w == fq_mul(c, c),
    ensures
        ({
            let t = fq_pow(w, odd_part_half());
            let x = fq_mul(t, w);
            let b = fq_mul(x, t);
            &&& x < fq_modulus()
            &&& b < fq_modulus()
            &&& fq_mul(x, x) == fq_mul(w, b)
            &&& sq_iter(b, 46) == 1
        }),
{
    lemma_fq_modulus_prime();
    let q = fq_modulus() as int;
    let h = odd_part_half();
    let t = fq_pow(w, h);
    let x = fq_mul(t, w);
    let b = fq_mul(x, t);
    let wi = w as int;
    lemma_mod_bound((c * c) as int, q);
    lemma_mod_bound(pow(wi, h), q);
    lemma_mod_bound((t * w) as int, q);
    lemma_mod_bound((x * t) as int, q);
    // x^2 = x (t w) = (x t) w = w b
    lemma_fq_mul_associative(x, t, w);
    lemma_fq_mul_commutative(b, w);
    // x = w^(h+1), b = w^(2h+1)
    lemma_pow_adds(wi, h, 1);
    lemma_pow1(wi);
    vstd::arithmetic::div_mod::lemma_mul_mod_noop_general(pow(wi, h), wi, q);
    lemma_small_mod(w, fq_modulus());
    assert(x == pow(wi, h + 1) % q);
    lemma_pow_adds(wi, h + 1, h);
    vstd::arithmetic::div_mod::lemma_mul_mod_noop_general(pow(wi, h + 1), pow(wi, h), q);
    let m = 2 * h + 1;
    assert(b == pow(wi, m) % q);
    // b^(2^46) = w^((q-1)/2) = c^(q-1) = 1
    lemma_sq_iter_is_power(b, 46);
    lemma_pow_mod_noop(pow(wi, m), pow2(46), q);
    lemma_pow_multiplies(wi, m, pow2(46));
    lemma2_to64_rest();
    assert(pow2(46) == 0x4000_0000_0000nat);
    let e: nat = m * 0x4000_0000_0000nat;
    assert(e
        == 0x0955_b2af_4d16_52ab_305a_268f_2e1b_d800_acd5_3b7f_6800_0000_8508_c000_0000_0000nat);
    assert(2 * e == fq_modulus() - 1);
    assert(sq_iter(b, 46) == pow(wi, e) % q);
    let ci = c as int;
    lemma_pow_mod_noop(ci * ci, e, q);
    lemma_square_is_pow2(ci);
    lemma_pow_multiplies(ci, 2, e);
    lemma_fermat(c, fq_modulus());
}

/// Whether the ratio `num / den` has a square root: whether some `r` has
/// `r^2 * den == num`.
pub open spec fn has_root(num: nat, den: nat) -> bool {
    exists|r: nat| is_sqrt_ratio(r, num, den)
}

/// Where `num / den` has a square root and `num` is not zero, the descent on
/// `num / den` finds a root that passes the test against `num` and `den`.
pub proof fn lemma_candidate_found(c: nat, num: nat, den: nat)
    requires
        0 < num < fq_modulus(),
        den < fq_modulus(),
        is_sqrt_ratio(c, num, den),
    ensures
        checked_candidate(fq_mul(num, fq_inv(den)), num, den).is_some(),
{
    lemma_fq_modulus_prime();
    let q = fq_modulus() as int;
    let cc = fq_mul(c, c);
    lemma_mod_bound((c * c) as int, q);
    lemma_fq_mul_one_zero(cc);
    assert(den != 0);
    let c0 = (c % fq_modulus()) as nat;
    lemma_mod_bound(c as int, q);
    vstd::arithmetic::div_mod::lemma_mul_mod_noop_general(c as int, c as int, q);
    assert(cc == fq_mul(c0, c0));
    if c0 == 0 {
        assert(0 * 0 == 0);
        lemma_fq_mul_one_zero(den);
    }
    lemma_prime_units(fq_modulus(), den);
    lemma_fq_inverse(den, 0);
    let di = fq_inv(den);
    let w = fq_mul(num, di);
    // w = (c^2 den) / den = c^2
    lemma_fq_mul_associative(cc, den, di);
    assert(w == cc);
    lemma_start_order(w, c0);
    lemma_root_order();
    let t = fq_pow(w, odd_part_half());
    let x = fq_mul(t, w);
    let b = fq_mul(x, t);
    lemma_descent_finds(x, b, two_adic_root(), 47, w);
    let r = sqrt_candidate(w).unwrap();
    assert(is_sqrt_ratio(r, num, den));
    assert(checked_candidate(w, num, den) == Some(r));
}

/// The square root of a ratio reports a square exactly where
/// the ratio has a square root: where some `c` has `c^2 * den == num`.
pub proof fn lemma_sqrt_ratio_zeta_complete(num: nat, den: nat)
    requires
        num < fq_modulus(),
        den < fq_modulus(),
    ensures
        fq_sqrt_ratio_zeta(num, den).0 <==> exists|c: nat| is_sqrt_ratio(c, num, den),
        fq_sqrt_ratio_zeta(num, den).0 <==> has_root(num, den),
{
    lemma_fq_modulus_prime();
    lemma_sqrt_ratio_zeta_sound(num, den);
    if fq_sqrt_ratio_zeta(num, den).0 {
        assert(is_sqrt_ratio(fq_sqrt_ratio_zeta(num, den).1, num, den));
    }
    if has_root(num, den) && num != 0 {
        let c = choose|c: nat| is_sqrt_ratio(c, num, den);
        lemma_candidate_found(c, num, den);
    }
}

/// What the square root of a ratio returns for a numerator and
/// a denominator that are not zero: a root of the ratio where it has one; else
/// a root of `zeta` times the ratio where that has one; else zero.
pub proof fn lemma_root_cases(num: nat, den: nat)
    requires
        0 < num < fq_modulus(),
        0 < den < fq_modulus(),
    ensures
        has_root(num, den) ==> is_sqrt_ratio(fq_sqrt_ratio_zeta(num, den).1, num, den),
        !has_root(num, den) && has_root(fq_mul(zeta(), num), den) ==> is_sqrt_ratio(
            fq_sqrt_ratio_zeta(num, den).1,
            fq_mul(zeta(), num),
            den,
        ),
        !has_root(num, den) && !has_root(fq_mul(zeta(), num), den) ==> fq_sqrt_ratio_zeta(
            num,
            den,
        ).1 == 0,
{
    lemma_fq_modulus_prime();
    let q = fq_modulus() as int;
    let zn = fq_mul(zeta(), num);
    let w = fq_mul(num, fq_inv(den));
    lemma_sqrt_ratio_zeta_complete(num, den);
    lemma_sqrt_ratio_zeta_sound(num, den);
    lemma_mod_bound((zeta() * num) as int, q);
    lemma_fq_mul_associative(zeta(), num, fq_inv(den));
    if !has_root(num, den) {
        assert(checked_candidate(w, num, den).is_none());
        if has_root(zn, den) {
            let c = choose|c: nat| is_sqrt_ratio(c, zn, den);
            if zn == 0 {
                lemma_no_zero_divisors(zeta(), num);
            }
            lemma_candidate_found(c, zn, den);
        } else {
            if checked_candidate(fq_mul(zeta(), w), zn, den).is_some() {
                assert(is_sqrt_ratio(checked_candidate(fq_mul(zeta(), w), zn, den).unwrap(), zn, den));
            }
        }
    }
}

/// What the descent ends with is a residue.
pub proof fn lemma_descent_is_residue(x: nat, b: nat, z: nat, v: nat)
    requires
        x < fq_modulus(),
    ensures
        ts_descent(x, b, z, v).is_some() ==> ts_descent(x, b, z, v).unwrap() < fq_modulus(),
    decreases v,
{
    if b != 1 && order_log(b, v) < v {
        let zz = sq_iter(z, (v - order_log(b, v) - 1) as nat);
        lemma_mod_bound((x * zz) as int, fq_modulus() as int);
        lemma_descent_is_residue(
            fq_mul(x, zz),
            fq_mul(b, fq_mul(zz, zz)),
            fq_mul(zz, zz),
            order_log(b, v),
        );
    }
}

/// The root that the square root of a ratio returns is a residue.
pub proof fn lemma_root_is_residue(num: nat, den: nat)
    ensures
        fq_sqrt_ratio_zeta(num, den).1 < fq_modulus(),
{
    let q = fq_modulus() as int;
    let w = fq_mul(num, fq_inv(den));
    let t = fq_pow(w, odd_part_half());
    lemma_mod_bound((t * w) as int, q);
    lemma_descent_is_residue(
        fq_mul(t, w),
        fq_mul(fq_mul(t, w), t),
        two_adic_root(),
        two_adicity(),
    );
    let w2 = fq_mul(zeta(), w);
    let t2 = fq_pow(w2, odd_part_half());
    lemma_mod_bound((t2 * w2) as int, q);
    lemma_descent_is_residue(
        fq_mul(t2, w2),
        fq_mul(fq_mul(t2, w2), t2),
        two_adic_root(),
        two_adicity(),
    );
}

} // verus!
