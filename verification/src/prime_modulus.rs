//! The modulus of the base field is prime.
//!
//! The modulus is `q = x^4 - x^2 + 1` for the 64-bit number `x` below, so that
//! `x^2` divides `q - 1`, and `2^46` divides `x - 1`. First `x` is shown to be
//! prime, by a residue of order `2^46` modulo `x`; then `q`, by a residue of
//! order `x^2` modulo `q`. The powers of the residues are computed step by
//! step, by squaring and multiplying.

use vstd::prelude::*;
use vstd::arithmetic::div_mod::lemma_small_mod;
use vstd::arithmetic::power2::{lemma2_to64_rest, pow2};
use vstd::arithmetic::power::{lemma_pow1, pow};
use crate::fields::fq::fq_modulus;
use crate::modular::is_prime;
use crate::primality::{
    lemma_power_step_next, lemma_power_step_square, lemma_prime_by_prime_square,
    lemma_prime_by_two_power,
};

verus! {

/// The number `x` for which the modulus of the base field is `x^4 - x^2 + 1`.
pub open spec fn modulus_seed() -> nat {
    0x8508_c000_0000_0001nat
}

/// A residue whose power `2^45` is minus one modulo `x`.
pub open spec fn seed_witness() -> nat {
    0x0565_2d2b_203d_2e20nat
}

/// A residue whose power `x^2` is one modulo `q`, while its power `x` is not.
pub open spec fn modulus_witness() -> nat {
    0x0f8a_a9ed_63c4_db4f_7dad_9227_36dd_1b6b_a3a2_3528_9044_9203_2443_dd2a_e2ca_659dnat
}

/// The power `x` of that residue, modulo `q`.
pub open spec fn modulus_witness_power() -> nat {
    0x021a_fc6a_74df_0884_afb8_9d5e_b9e4_9be9_c000_625e_91ea_e38d_b72c_fe24_21e5_3af0nat
}

/// The inverse modulo `q` of that power less one.
pub open spec fn modulus_witness_inverse() -> nat {
    0x102c_ac4a_a17e_63e4_58ad_f83d_be8d_5418_9cf4_80a9_9bb7_c4c5_e5d1_895b_7a59_8217nat
}

proof fn lemma_seed_chain_1()
    requires
        pow(seed_witness() as int, 0x0001nat) % (modulus_seed() as int) == 0x0565_2d2b_203d_2e20nat,
    ensures
        pow(seed_witness() as int, 0x0010_0000nat) % (modulus_seed() as int) == 0x4183_0ae8_ef79_00a2nat,
{
    lemma_power_step_square(
        seed_witness(),
        0x0001nat,
        0x0565_2d2b_203d_2e20nat,
        0x4104_155d_e611_e6e0nat,
        modulus_seed(),
    );
    lemma_power_step_square(
        seed_witness(),
        0x0002nat,
        0x4104_155d_e611_e6e0nat,
        0x7a7d_af65_e624_b487nat,
        modulus_seed(),
    );
    lemma_power_step_square(
        seed_witness(),
        0x0004nat,
        0x7a7d_af65_e624_b487nat,
        0x06be_b761_3855_1f6cnat,
        modulus_seed(),
    );
    lemma_power_step_square(
        seed_witness(),
        0x0008nat,
        0x06be_b761_3855_1f6cnat,
        0x26d2_45fd_afb8_aa23nat,
        modulus_seed(),
    );
    lemma_power_step_square(
        seed_witness(),
        0x0010nat,
        0x26d2_45fd_afb8_aa23nat,
        0x7b1d_01a4_61e1_4b09nat,
        modulus_seed(),
    );
    lemma_power_step_square(
        seed_witness(),
        0x0020nat,
        0x7b1d_01a4_61e1_4b09nat,
        0x5386_8d5c_b8c8_c667nat,
        modulus_seed(),
    );
    lemma_power_step_square(
        seed_witness(),
        0x0040nat,
        0x5386_8d5c_b8c8_c667nat,
        0x118d_3e25_b226_302dnat,
        modulus_seed(),
    );
    lemma_power_step_square(
        seed_witness(),
        0x0080nat,
        0x118d_3e25_b226_302dnat,
        0x711b_c9f9_510f_5ab6nat,
        modulus_seed(),
    );
    lemma_power_step_square(
        seed_witness(),
        0x0100nat,
        0x711b_c9f9_510f_5ab6nat,
        0x0b8d_6311_0935_f63bnat,
        modulus_seed(),
    );
    lemma_power_step_square(
        seed_witness(),
        0x0200nat,
        0x0b8d_6311_0935_f63bnat,
        0x1911_5cfc_1e7e_9d9dnat,
        modulus_seed(),
    );
    lemma_power_step_square(
        seed_witness(),
        0x0400nat,
        0x1911_5cfc_1e7e_9d9dnat,
        0x57d4_94f9_4beb_b342nat,
        modulus_seed(),
    );
    lemma_power_step_square(
        seed_witness(),
        0x0800nat,
        0x57d4_94f9_4beb_b342nat,
        0x67aa_f2ec_9878_162anat,
        modulus_seed(),
    );
    lemma_power_step_square(
        seed_witness(),
        0x1000nat,
        0x67aa_f2ec_9878_162anat,
        0x30d5_b110_7b26_3fe3nat,
        modulus_seed(),
    );
    lemma_power_step_square(
        seed_witness(),
        0x2000nat,
        0x30d5_b110_7b26_3fe3nat,
        0x8242_7d5e_32cb_9eb9nat,
        modulus_seed(),
    );
    lemma_power_step_square(
        seed_witness(),
        0x4000nat,
        0x8242_7d5e_32cb_9eb9nat,
        0x3bd0_db0d_2b2a_a83fnat,
        modulus_seed(),
    );
    lemma_power_step_square(
        seed_witness(),
        0x8000nat,
        0x3bd0_db0d_2b2a_a83fnat,
        0x5ba1_a6ca_9592_987fnat,
        modulus_seed(),
    );
    lemma_power_step_square(
        seed_witness(),
        0x0001_0000nat,
        0x5ba1_a6ca_9592_987fnat,
        0x74ae_e4fb_8023_4db2nat,
        modulus_seed(),
    );
    lemma_power_step_square(
        seed_witness(),
        0x0002_0000nat,
        0x74ae_e4fb_8023_4db2nat,
        0x56da_f9be_8662_acd9nat,
        modulus_seed(),
    );
    lemma_power_step_square(
        seed_witness(),
        0x0004_0000nat,
        0x56da_f9be_8662_acd9nat,
        0x55b0_60fb_fcb0_be85nat,
        modulus_seed(),
    );
    lemma_power_step_square(
        seed_witness(),
        0x0008_0000nat,
        0x55b0_60fb_fcb0_be85nat,
        0x4183_0ae8_ef79_00a2nat,
        modulus_seed(),
    );
}

proof fn lemma_seed_chain_2()
    requires
        pow(seed_witness() as int, 0x0010_0000nat) % (modulus_seed() as int) == 0x4183_0ae8_ef79_00a2nat,
    ensures
        pow(seed_witness() as int, 0x0100_0000_0000nat) % (modulus_seed() as int) == 0x1c8d_29d3_c319_020anat,
{
    lemma_power_step_square(
        seed_witness(),
        0x0010_0000nat,
        0x4183_0ae8_ef79_00a2nat,
        0x1d9b_2952_ed97_02f0nat,
        modulus_seed(),
    );
    lemma_power_step_square(
        seed_witness(),
        0x0020_0000nat,
        0x1d9b_2952_ed97_02f0nat,
        0x41e7_81cf_111b_05fenat,
        modulus_seed(),
    );
    lemma_power_step_square(
        seed_witness(),
        0x0040_0000nat,
        0x41e7_81cf_111b_05fenat,
        0x0d73_bba2_3203_a55enat,
        modulus_seed(),
    );
    lemma_power_step_square(
        seed_witness(),
        0x0080_0000nat,
        0x0d73_bba2_3203_a55enat,
        0x7159_12e2_0ec2_d043nat,
        modulus_seed(),
    );
    lemma_power_step_square(
        seed_witness(),
        0x0100_0000nat,
        0x7159_12e2_0ec2_d043nat,
        0x7081_9baf_f916_472enat,
        modulus_seed(),
    );
    lemma_power_step_square(
        seed_witness(),
        0x0200_0000nat,
        0x7081_9baf_f916_472enat,
        0x3e4d_804b_2d75_909enat,
        modulus_seed(),
    );
    lemma_power_step_square(
        seed_witness(),
        0x0400_0000nat,
        0x3e4d_804b_2d75_909enat,
        0x2671_89b8_5d85_11f9nat,
        modulus_seed(),
    );
    lemma_power_step_square(
        seed_witness(),
        0x0800_0000nat,
        0x2671_89b8_5d85_11f9nat,
        0x1fda_d7a5_c9e4_3f37nat,
        modulus_seed(),
    );
    lemma_power_step_square(
        seed_witness(),
        0x1000_0000nat,
        0x1fda_d7a5_c9e4_3f37nat,
        0x2eeb_ab33_184d_b05cnat,
        modulus_seed(),
    );
    lemma_power_step_square(
        seed_witness(),
        0x2000_0000nat,
        0x2eeb_ab33_184d_b05cnat,
        0x1a10_9e95_d614_ab8fnat,
        modulus_seed(),
    );
    lemma_power_step_square(
        seed_witness(),
        0x4000_0000nat,
        0x1a10_9e95_d614_ab8fnat,
        0x81ab_312b_65fd_7066nat,
        modulus_seed(),
    );
    lemma_power_step_square(
        seed_witness(),
        0x8000_0000nat,
        0x81ab_312b_65fd_7066nat,
        0x66f9_15e2_aacc_e229nat,
        modulus_seed(),
    );
    lemma_power_step_square(
        seed_witness(),
        0x0001_0000_0000nat,
        0x66f9_15e2_aacc_e229nat,
        0x0844_a9c1_a894_5bfcnat,
        modulus_seed(),
    );
    lemma_power_step_square(
        seed_witness(),
        0x0002_0000_0000nat,
        0x0844_a9c1_a894_5bfcnat,
        0x1eeb_2b25_44eb_6d23nat,
        modulus_seed(),
    );
    lemma_power_step_square(
        seed_witness(),
        0x0004_0000_0000nat,
        0x1eeb_2b25_44eb_6d23nat,
        0x6a0d_e5cc_c00f_ed9cnat,
        modulus_seed(),
    );
    lemma_power_step_square(
        seed_witness(),
        0x0008_0000_0000nat,
        0x6a0d_e5cc_c00f_ed9cnat,
        0x65b0_254f_b521_ca5bnat,
        modulus_seed(),
    );
    lemma_power_step_square(
        seed_witness(),
        0x0010_0000_0000nat,
        0x65b0_254f_b521_ca5bnat,
        0x1042_2911_df39_72e7nat,
        modulus_seed(),
    );
    lemma_power_step_square(
        seed_witness(),
        0x0020_0000_0000nat,
        0x1042_2911_df39_72e7nat,
        0x0de4_b8bd_c05c_e4ddnat,
        modulus_seed(),
    );
    lemma_power_step_square(
        seed_witness(),
        0x0040_0000_0000nat,
        0x0de4_b8bd_c05c_e4ddnat,
        0x3c8c_64f5_0c9c_819anat,
        modulus_seed(),
    );
    lemma_power_step_square(
        seed_witness(),
        0x0080_0000_0000nat,
        0x3c8c_64f5_0c9c_819anat,
        0x1c8d_29d3_c319_020anat,
        modulus_seed(),
    );
}

proof fn lemma_seed_chain_3()
    requires
        pow(seed_witness() as int, 0x0100_0000_0000nat) % (modulus_seed() as int) == 0x1c8d_29d3_c319_020anat,
    ensures
        pow(seed_witness() as int, 0x2000_0000_0000nat) % (modulus_seed() as int) == 0x8508_c000_0000_0000nat,
{
    lemma_power_step_square(
        seed_witness(),
        0x0100_0000_0000nat,
        0x1c8d_29d3_c319_020anat,
        0x3539_c001_cf1c_5d0dnat,
        modulus_seed(),
    );
    lemma_power_step_square(
        seed_witness(),
        0x0200_0000_0000nat,
        0x3539_c001_cf1c_5d0dnat,
        0x3611_d687_7120_a7d4nat,
        modulus_seed(),
    );
    lemma_power_step_square(
        seed_witness(),
        0x0400_0000_0000nat,
        0x3611_d687_7120_a7d4nat,
        0x22b1_7d01_863a_8538nat,
        modulus_seed(),
    );
    lemma_power_step_square(
        seed_witness(),
        0x0800_0000_0000nat,
        0x22b1_7d01_863a_8538nat,
        0x46a6_22ad_0db4_840fnat,
        modulus_seed(),
    );
    lemma_power_step_square(
        seed_witness(),
        0x1000_0000_0000nat,
        0x46a6_22ad_0db4_840fnat,
        0x8508_c000_0000_0000nat,
        modulus_seed(),
    );
}

proof fn lemma_witness_chain_1()
    requires
        pow(modulus_witness() as int, 0x0001nat) % (fq_modulus() as int) == 0x0f8a_a9ed_63c4_db4f_7dad_9227_36dd_1b6b_a3a2_3528_9044_9203_2443_dd2a_e2ca_659dnat,
    ensures
        pow(modulus_witness() as int, 0x0001_0a11nat) % (fq_modulus() as int) == 0x1243_0e33_a5b3_14cc_b14d_4912_ba7e_71d5_d79e_9c73_e9f4_f4e0_4454_bf3a_9111_9003nat,
{
    lemma_power_step_square(
        modulus_witness(),
        0x0001nat,
        0x0f8a_a9ed_63c4_db4f_7dad_9227_36dd_1b6b_a3a2_3528_9044_9203_2443_dd2a_e2ca_659dnat,
        0x0eb4_eec7_195b_f3d7_a937_0f97_57d7_e108_dc6d_bcb0_b474_5e26_9295_122f_1bac_e38fnat,
        fq_modulus(),
    );
    lemma_power_step_square(
        modulus_witness(),
        0x0002nat,
        0x0eb4_eec7_195b_f3d7_a937_0f97_57d7_e108_dc6d_bcb0_b474_5e26_9295_122f_1bac_e38fnat,
        0x0d37_d519_dbae_741e_d84c_2a1a_607b_382d_6b00_cf01_750f_5acc_c208_cbd0_43aa_a2f3nat,
        fq_modulus(),
    );
    lemma_power_step_square(
        modulus_witness(),
        0x0004nat,
        0x0d37_d519_dbae_741e_d84c_2a1a_607b_382d_6b00_cf01_750f_5acc_c208_cbd0_43aa_a2f3nat,
        0x0715_92b5_ec36_d2e2_a51c_618a_10fc_4db1_c3f8_ce86_3b2d_c2ef_8dcf_47ec_76a8_1a0bnat,
        fq_modulus(),
    );
    lemma_power_step_square(
        modulus_witness(),
        0x0008nat,
        0x0715_92b5_ec36_d2e2_a51c_618a_10fc_4db1_c3f8_ce86_3b2d_c2ef_8dcf_47ec_76a8_1a0bnat,
        0x126f_b3fa_ff98_373c_6923_af51_3430_28de_be42_6dea_0ef1_3aa3_a820_4f14_9490_89e4nat,
        fq_modulus(),
    );
    lemma_power_step_square(
        modulus_witness(),
        0x0010nat,
        0x126f_b3fa_ff98_373c_6923_af51_3430_28de_be42_6dea_0ef1_3aa3_a820_4f14_9490_89e4nat,
        0x0db1_c894_8ebb_e53d_f151_8de3_92a9_ca1e_3ca7_cac3_1afe_b1b0_340b_220f_cca1_6153nat,
        fq_modulus(),
    );
    lemma_power_step_next(
        modulus_witness(),
        0x0020nat,
        0x0db1_c894_8ebb_e53d_f151_8de3_92a9_ca1e_3ca7_cac3_1afe_b1b0_340b_220f_cca1_6153nat,
        0x0651_1a3a_eb8c_3758_8557_539f_eec0_80f4_9566_0f58_333e_8512_21cb_63d3_68ff_f094nat,
        fq_modulus(),
    );
    lemma_power_step_square(
        modulus_witness(),
        0x0021nat,
        0x0651_1a3a_eb8c_3758_8557_539f_eec0_80f4_9566_0f58_333e_8512_21cb_63d3_68ff_f094nat,
        0x0f14_92c0_74e8_3925_517c_5ef7_be5a_4440_3544_17b6_4b06_8533_9534_c778_c1d8_04b5nat,
        fq_modulus(),
    );
    lemma_power_step_square(
        modulus_witness(),
        0x0042nat,
        0x0f14_92c0_74e8_3925_517c_5ef7_be5a_4440_3544_17b6_4b06_8533_9534_c778_c1d8_04b5nat,
        0x028e_0cde_0975_d049_e260_ee0f_c9da_aafe_82df_9e52_df52_0a83_cf5b_16d9_972e_2c53nat,
        fq_modulus(),
    );
    lemma_power_step_next(
        modulus_witness(),
        0x0084nat,
        0x028e_0cde_0975_d049_e260_ee0f_c9da_aafe_82df_9e52_df52_0a83_cf5b_16d9_972e_2c53nat,
        0x09ba_8490_1e1e_4908_8e7d_fd49_a985_f662_128c_b6ae_6d35_e150_b4de_2ca0_2c28_749enat,
        fq_modulus(),
    );
    lemma_power_step_square(
        modulus_witness(),
        0x0085nat,
        0x09ba_8490_1e1e_4908_8e7d_fd49_a985_f662_128c_b6ae_6d35_e150_b4de_2ca0_2c28_749enat,
        0x1264_d34a_a6b1_6876_e79d_cd20_68d3_27cd_ff89_2109_886d_ae6e_919c_3c51_f370_7b12nat,
        fq_modulus(),
    );
    lemma_power_step_square(
        modulus_witness(),
        0x010anat,
        0x1264_d34a_a6b1_6876_e79d_cd20_68d3_27cd_ff89_2109_886d_ae6e_919c_3c51_f370_7b12nat,
        0x10de_7794_089e_6443_d68c_76bc_a5d2_e402_b33a_8d23_c337_7c80_d66c_d6f2_30d5_6480nat,
        fq_modulus(),
    );
    lemma_power_step_square(
        modulus_witness(),
        0x0214nat,
        0x10de_7794_089e_6443_d68c_76bc_a5d2_e402_b33a_8d23_c337_7c80_d66c_d6f2_30d5_6480nat,
        0x0437_9f15_867f_ff49_1720_0dc0_bae1_534f_c74d_7410_2bfa_abed_2c99_300c_1356_620anat,
        fq_modulus(),
    );
    lemma_power_step_square(
        modulus_witness(),
        0x0428nat,
        0x0437_9f15_867f_ff49_1720_0dc0_bae1_534f_c74d_7410_2bfa_abed_2c99_300c_1356_620anat,
        0x124f_b14e_0655_4536_a0c9_caf5_8b2f_e657_53af_4342_165b_631d_d334_8d25_f180_9c57nat,
        fq_modulus(),
    );
    lemma_power_step_square(
        modulus_witness(),
        0x0850nat,
        0x124f_b14e_0655_4536_a0c9_caf5_8b2f_e657_53af_4342_165b_631d_d334_8d25_f180_9c57nat,
        0x1048_6c57_b85a_f005_b18c_0980_397c_349e_5663_2eb7_979d_9c2e_81c7_92ac_18c9_96d1nat,
        fq_modulus(),
    );
    lemma_power_step_next(
        modulus_witness(),
        0x10a0nat,
        0x1048_6c57_b85a_f005_b18c_0980_397c_349e_5663_2eb7_979d_9c2e_81c7_92ac_18c9_96d1nat,
        0x012a_59da_faca_ca83_d024_16e2_c1d0_2dc6_68ac_b230_1ce7_0ebf_22d0_826b_7f77_06e0nat,
        fq_modulus(),
    );
    lemma_power_step_square(
        modulus_witness(),
        0x10a1nat,
        0x012a_59da_faca_ca83_d024_16e2_c1d0_2dc6_68ac_b230_1ce7_0ebf_22d0_826b_7f77_06e0nat,
        0x0869_6f3c_500d_2f7b_cefc_35b1_0fc8_8054_0a50_ecf6_f19d_db3c_3a56_b5d6_b1a2_b0e5nat,
        fq_modulus(),
    );
    lemma_power_step_square(
        modulus_witness(),
        0x2142nat,
        0x0869_6f3c_500d_2f7b_cefc_35b1_0fc8_8054_0a50_ecf6_f19d_db3c_3a56_b5d6_b1a2_b0e5nat,
        0x0d3f_18f8_3dcb_ee5a_4482_440a_332c_1557_a982_27c1_d9f4_c907_a880_a090_68af_9ffcnat,
        fq_modulus(),
    );
    lemma_power_step_square(
        modulus_witness(),
        0x4284nat,
        0x0d3f_18f8_3dcb_ee5a_4482_440a_332c_1557_a982_27c1_d9f4_c907_a880_a090_68af_9ffcnat,
        0x05b1_8d8b_0e6c_103a_5460_24e2_9d63_e8af_5bae_18ef_f545_3d07_9f8a_9bff_5a7f_4124nat,
        fq_modulus(),
    );
    lemma_power_step_square(
        modulus_witness(),
        0x8508nat,
        0x05b1_8d8b_0e6c_103a_5460_24e2_9d63_e8af_5bae_18ef_f545_3d07_9f8a_9bff_5a7f_4124nat,
        0x0228_576f_72e2_6354_d728_7d00_d1e1_020b_5ee4_40d6_ba46_8541_d62c_eee5_caf9_e9bdnat,
        fq_modulus(),
    );
    lemma_power_step_next(
        modulus_witness(),
        0x0001_0a10nat,
        0x0228_576f_72e2_6354_d728_7d00_d1e1_020b_5ee4_40d6_ba46_8541_d62c_eee5_caf9_e9bdnat,
        0x1243_0e33_a5b3_14cc_b14d_4912_ba7e_71d5_d79e_9c73_e9f4_f4e0_4454_bf3a_9111_9003nat,
        fq_modulus(),
    );
}

proof fn lemma_witness_chain_2()
    requires
        pow(modulus_witness() as int, 0x0001_0a11nat) % (fq_modulus() as int) == 0x1243_0e33_a5b3_14cc_b14d_4912_ba7e_71d5_d79e_9c73_e9f4_f4e0_4454_bf3a_9111_9003nat,
    ensures
        pow(modulus_witness() as int, 0x0008_508c_0000nat) % (fq_modulus() as int) == 0x023e_c729_371e_5ac9_b397_82f3_4313_8929_e1a8_863b_b449_956f_5dd7_9372_9483_c44fnat,
{
    lemma_power_step_square(
        modulus_witness(),
        0x0001_0a11nat,
        0x1243_0e33_a5b3_14cc_b14d_4912_ba7e_71d5_d79e_9c73_e9f4_f4e0_4454_bf3a_9111_9003nat,
        0x0235_c6f7_f1ac_b1c6_2ad7_3935_7d6c_aaf1_aa9d_5a05_4103_ba54_4081_7a61_1e3f_6be5nat,
        fq_modulus(),
    );
    lemma_power_step_next(
        modulus_witness(),
        0x0002_1422nat,
        0x0235_c6f7_f1ac_b1c6_2ad7_3935_7d6c_aaf1_aa9d_5a05_4103_ba54_4081_7a61_1e3f_6be5nat,
        0x0017_74f6_8128_5931_b392_6df7_4531_9320_0d8f_c790_c43e_16e9_d789_905e_6231_5509nat,
        fq_modulus(),
    );
    lemma_power_step_square(
        modulus_witness(),
        0x0002_1423nat,
        0x0017_74f6_8128_5931_b392_6df7_4531_9320_0d8f_c790_c43e_16e9_d789_905e_6231_5509nat,
        0x1060_f39e_f448_a6ec_d77d_e251_be6d_ef57_ac57_5eb4_5681_f236_b053_dc9d_a0ea_0a3anat,
        fq_modulus(),
    );
    lemma_power_step_square(
        modulus_witness(),
        0x0004_2846nat,
        0x1060_f39e_f448_a6ec_d77d_e251_be6d_ef57_ac57_5eb4_5681_f236_b053_dc9d_a0ea_0a3anat,
        0x0745_72d0_94db_b2e6_5f9b_76f8_f088_3978_ec45_d6c7_4275_4adf_cdea_4119_430c_cfb7nat,
        fq_modulus(),
    );
    lemma_power_step_square(
        modulus_witness(),
        0x0008_508cnat,
        0x0745_72d0_94db_b2e6_5f9b_76f8_f088_3978_ec45_d6c7_4275_4adf_cdea_4119_430c_cfb7nat,
        0x0d99_b728_3d07_681a_5905_6392_0e8b_a961_fb88_47fd_b3c5_277b_7725_a5ca_da24_5c12nat,
        fq_modulus(),
    );
    lemma_power_step_square(
        modulus_witness(),
        0x0010_a118nat,
        0x0d99_b728_3d07_681a_5905_6392_0e8b_a961_fb88_47fd_b3c5_277b_7725_a5ca_da24_5c12nat,
        0x012e_98e9_19d4_bb3e_7243_cb52_7c7e_4628_2b3e_3d68_7cd5_149a_5fed_c166_da40_0efcnat,
        fq_modulus(),
    );
    lemma_power_step_square(
        modulus_witness(),
        0x0021_4230nat,
        0x012e_98e9_19d4_bb3e_7243_cb52_7c7e_4628_2b3e_3d68_7cd5_149a_5fed_c166_da40_0efcnat,
        0x0943_ca8e_a856_467a_0859_c09d_0f8f_bd11_c979_fa9a_b4da_3323_349d_d16e_07ac_3a7cnat,
        fq_modulus(),
    );
    lemma_power_step_square(
        modulus_witness(),
        0x0042_8460nat,
        0x0943_ca8e_a856_467a_0859_c09d_0f8f_bd11_c979_fa9a_b4da_3323_349d_d16e_07ac_3a7cnat,
        0x0e48_912f_cf83_de0e_0dfb_f6c4_2021_fc52_49a8_99e8_e5d2_b86b_726b_ffdb_1c75_1287nat,
        fq_modulus(),
    );
    lemma_power_step_square(
        modulus_witness(),
        0x0085_08c0nat,
        0x0e48_912f_cf83_de0e_0dfb_f6c4_2021_fc52_49a8_99e8_e5d2_b86b_726b_ffdb_1c75_1287nat,
        0x00e5_c17c_d556_5352_5f0b_0186_102a_0722_5d55_5341_e460_8888_ad79_2646_d8e7_90d3nat,
        fq_modulus(),
    );
    lemma_power_step_square(
        modulus_witness(),
        0x010a_1180nat,
        0x00e5_c17c_d556_5352_5f0b_0186_102a_0722_5d55_5341_e460_8888_ad79_2646_d8e7_90d3nat,
        0x0543_2c0c_da97_8d1a_b757_cb6e_f942_5d32_9ec9_88a6_4e84_368e_66eb_6e2c_966c_c4c6nat,
        fq_modulus(),
    );
    lemma_power_step_square(
        modulus_witness(),
        0x0214_2300nat,
        0x0543_2c0c_da97_8d1a_b757_cb6e_f942_5d32_9ec9_88a6_4e84_368e_66eb_6e2c_966c_c4c6nat,
        0x02e1_7c5f_6f46_dbd2_449f_ee1e_1fbc_b71d_994e_f5d3_ea48_ea63_f2c3_b96f_0ddb_5e85nat,
        fq_modulus(),
    );
    lemma_power_step_square(
        modulus_witness(),
        0x0428_4600nat,
        0x02e1_7c5f_6f46_dbd2_449f_ee1e_1fbc_b71d_994e_f5d3_ea48_ea63_f2c3_b96f_0ddb_5e85nat,
        0x123f_bbba_5f47_0f9d_a92d_07df_0f10_6c7a_fffa_d73b_03f0_d703_eb33_2f90_b5c7_1129nat,
        fq_modulus(),
    );
    lemma_power_step_square(
        modulus_witness(),
        0x0850_8c00nat,
        0x123f_bbba_5f47_0f9d_a92d_07df_0f10_6c7a_fffa_d73b_03f0_d703_eb33_2f90_b5c7_1129nat,
        0x0c7c_a0b1_55e9_e93a_f96b_e5e1_3ebc_fb7a_cba8_2611_53cf_730e_7969_ee25_3b73_487dnat,
        fq_modulus(),
    );
    lemma_power_step_square(
        modulus_witness(),
        0x10a1_1800nat,
        0x0c7c_a0b1_55e9_e93a_f96b_e5e1_3ebc_fb7a_cba8_2611_53cf_730e_7969_ee25_3b73_487dnat,
        0x001b_e6e7_2430_4008_66e0_3c4d_1581_a32f_818b_e522_8e89_8aae_0261_a47b_383f_ce19nat,
        fq_modulus(),
    );
    lemma_power_step_square(
        modulus_witness(),
        0x2142_3000nat,
        0x001b_e6e7_2430_4008_66e0_3c4d_1581_a32f_818b_e522_8e89_8aae_0261_a47b_383f_ce19nat,
        0x0b17_a47f_169d_46d8_75b1_6f7d_a2dc_0837_697d_1a72_02b9_a340_f557_6dfa_5aeb_895dnat,
        fq_modulus(),
    );
    lemma_power_step_square(
        modulus_witness(),
        0x4284_6000nat,
        0x0b17_a47f_169d_46d8_75b1_6f7d_a2dc_0837_697d_1a72_02b9_a340_f557_6dfa_5aeb_895dnat,
        0x0987_59d8_86ae_dd73_1771_842c_f2ed_014c_85bc_c50d_4167_1d25_f459_dbf1_03fc_575anat,
        fq_modulus(),
    );
    lemma_power_step_square(
        modulus_witness(),
        0x8508_c000nat,
        0x0987_59d8_86ae_dd73_1771_842c_f2ed_014c_85bc_c50d_4167_1d25_f459_dbf1_03fc_575anat,
        0x10c4_182e_a469_80d9_8b9b_9954_ac4f_6f9c_f6f5_69d6_5154_c453_dde8_21c9_77d8_e9d9nat,
        fq_modulus(),
    );
    lemma_power_step_square(
        modulus_witness(),
        0x0001_0a11_8000nat,
        0x10c4_182e_a469_80d9_8b9b_9954_ac4f_6f9c_f6f5_69d6_5154_c453_dde8_21c9_77d8_e9d9nat,
        0x0d84_785e_f35e_c8df_fa84_9417_8d65_9e7b_5bd1_6013_39ba_3269_8a97_c75d_5c31_c9a4nat,
        fq_modulus(),
    );
    lemma_power_step_square(
        modulus_witness(),
        0x0002_1423_0000nat,
        0x0d84_785e_f35e_c8df_fa84_9417_8d65_9e7b_5bd1_6013_39ba_3269_8a97_c75d_5c31_c9a4nat,
        0x0a89_e92c_0a12_2e51_9cfe_3328_cd24_7a72_0fe1_221e_9644_e654_b672_c633_1338_9aa3nat,
        fq_modulus(),
    );
    lemma_power_step_square(
        modulus_witness(),
        0x0004_2846_0000nat,
        0x0a89_e92c_0a12_2e51_9cfe_3328_cd24_7a72_0fe1_221e_9644_e654_b672_c633_1338_9aa3nat,
        0x023e_c729_371e_5ac9_b397_82f3_4313_8929_e1a8_863b_b449_956f_5dd7_9372_9483_c44fnat,
        fq_modulus(),
    );
}

proof fn lemma_witness_chain_3()
    requires
        pow(modulus_witness() as int, 0x0008_508c_0000nat) % (fq_modulus() as int) == 0x023e_c729_371e_5ac9_b397_82f3_4313_8929_e1a8_863b_b449_956f_5dd7_9372_9483_c44fnat,
    ensures
        pow(modulus_witness() as int, 0x0085_08c0_0000_0000nat) % (fq_modulus() as int) == 0x02b5_82a0_7788_c147_a870_fd05_4436_2e1c_dfdf_af77_4ffd_8ade_69d5_05e0_2f32_8ac2nat,
{
    lemma_power_step_square(
        modulus_witness(),
        0x0008_508c_0000nat,
        0x023e_c729_371e_5ac9_b397_82f3_4313_8929_e1a8_863b_b449_956f_5dd7_9372_9483_c44fnat,
        0x0529_e799_634f_01e8_75f3_4c9a_61d6_2bb2_0d2c_fa18_5642_6a0d_d97a_cc4b_15c6_e5f2nat,
        fq_modulus(),
    );
    lemma_power_step_square(
        modulus_witness(),
        0x0010_a118_0000nat,
        0x0529_e799_634f_01e8_75f3_4c9a_61d6_2bb2_0d2c_fa18_5642_6a0d_d97a_cc4b_15c6_e5f2nat,
        0x0434_3f37_3328_362a_6268_ae0c_37d8_8b1a_568c_16a2_eac4_3b8e_a0cc_1969_38e7_d5aenat,
        fq_modulus(),
    );
    lemma_power_step_square(
        modulus_witness(),
        0x0021_4230_0000nat,
        0x0434_3f37_3328_362a_6268_ae0c_37d8_8b1a_568c_16a2_eac4_3b8e_a0cc_1969_38e7_d5aenat,
        0x0527_32e5_f405_9fc0_040d_46e4_c047_6b22_d023_85b1_76af_7445_1f04_245d_f2ce_750anat,
        fq_modulus(),
    );
    lemma_power_step_square(
        modulus_witness(),
        0x0042_8460_0000nat,
        0x0527_32e5_f405_9fc0_040d_46e4_c047_6b22_d023_85b1_76af_7445_1f04_245d_f2ce_750anat,
        0x10b7_a3d3_f7bb_119c_7dfe_d65e_7c16_8bac_73d7_c09e_b539_d4b7_741c_a583_63e4_df7anat,
        fq_modulus(),
    );
    lemma_power_step_square(
        modulus_witness(),
        0x0085_08c0_0000nat,
        0x10b7_a3d3_f7bb_119c_7dfe_d65e_7c16_8bac_73d7_c09e_b539_d4b7_741c_a583_63e4_df7anat,
        0x1133_229a_f904_f88c_2ba4_a3e6_b7ee_257d_4574_629e_008a_f2d0_1e9c_b269_a084_38c8nat,
        fq_modulus(),
    );
    lemma_power_step_square(
        modulus_witness(),
        0x010a_1180_0000nat,
        0x1133_229a_f904_f88c_2ba4_a3e6_b7ee_257d_4574_629e_008a_f2d0_1e9c_b269_a084_38c8nat,
        0x03bb_714f_3f34_6bba_49f3_9222_0314_ecbc_69b3_99bb_a04a_da14_6529_2cf2_e5da_6c42nat,
        fq_modulus(),
    );
    lemma_power_step_square(
        modulus_witness(),
        0x0214_2300_0000nat,
        0x03bb_714f_3f34_6bba_49f3_9222_0314_ecbc_69b3_99bb_a04a_da14_6529_2cf2_e5da_6c42nat,
        0x0b5f_d4a2_7e83_afdc_4cc7_eebc_c07f_fa41_dc43_07b0_97cf_68aa_8726_0863_5954_9a7bnat,
        fq_modulus(),
    );
    lemma_power_step_square(
        modulus_witness(),
        0x0428_4600_0000nat,
        0x0b5f_d4a2_7e83_afdc_4cc7_eebc_c07f_fa41_dc43_07b0_97cf_68aa_8726_0863_5954_9a7bnat,
        0x0ecf_1d4c_5595_49dc_fda2_aeb3_8974_6daa_27c0_6a1d_92fb_2915_393d_f0af_1027_20f3nat,
        fq_modulus(),
    );
    lemma_power_step_square(
        modulus_witness(),
        0x0850_8c00_0000nat,
        0x0ecf_1d4c_5595_49dc_fda2_aeb3_8974_6daa_27c0_6a1d_92fb_2915_393d_f0af_1027_20f3nat,
        0x0c94_a356_dc35_7240_cac3_20bf_70e6_2fb5_0296_9bcb_2463_c98e_5bae_9d81_0d38_7459nat,
        fq_modulus(),
    );
    lemma_power_step_square(
        modulus_witness(),
        0x10a1_1800_0000nat,
        0x0c94_a356_dc35_7240_cac3_20bf_70e6_2fb5_0296_9bcb_2463_c98e_5bae_9d81_0d38_7459nat,
        0x00e2_9177_f77a_c93c_3396_3777_74d4_57de_d75e_439c_08ad_521d_a116_1233_5ad5_9144nat,
        fq_modulus(),
    );
    lemma_power_step_square(
        modulus_witness(),
        0x2142_3000_0000nat,
        0x00e2_9177_f77a_c93c_3396_3777_74d4_57de_d75e_439c_08ad_521d_a116_1233_5ad5_9144nat,
        0x0fe4_d142_9c19_ee2f_a5df_e84c_a957_2643_3913_e2c8_e1f9_09ba_7bb6_ecd3_ea3f_33ebnat,
        fq_modulus(),
    );
    lemma_power_step_square(
        modulus_witness(),
        0x4284_6000_0000nat,
        0x0fe4_d142_9c19_ee2f_a5df_e84c_a957_2643_3913_e2c8_e1f9_09ba_7bb6_ecd3_ea3f_33ebnat,
        0x11d3_d8eb_d2a9_c59a_96c7_8495_3424_dd2c_55c5_cafc_9dbf_cd91_fc7d_84bf_13ba_6b4enat,
        fq_modulus(),
    );
    lemma_power_step_square(
        modulus_witness(),
        0x8508_c000_0000nat,
        0x11d3_d8eb_d2a9_c59a_96c7_8495_3424_dd2c_55c5_cafc_9dbf_cd91_fc7d_84bf_13ba_6b4enat,
        0x0cc3_629a_78a1_780f_8a92_00f3_61cb_14c2_9f6d_d245_4cf9_8d4b_38f6_521b_2684_40e9nat,
        fq_modulus(),
    );
    lemma_power_step_square(
        modulus_witness(),
        0x0001_0a11_8000_0000nat,
        0x0cc3_629a_78a1_780f_8a92_00f3_61cb_14c2_9f6d_d245_4cf9_8d4b_38f6_521b_2684_40e9nat,
        0x04ef_90f4_11ec_9f0b_6320_a818_a830_6026_9d37_71a7_42eb_b37b_7704_594b_b9c0_107bnat,
        fq_modulus(),
    );
    lemma_power_step_square(
        modulus_witness(),
        0x0002_1423_0000_0000nat,
        0x04ef_90f4_11ec_9f0b_6320_a818_a830_6026_9d37_71a7_42eb_b37b_7704_594b_b9c0_107bnat,
        0x1210_5ae5_9f3b_b908_1c06_fd79_e42f_6f28_3e8d_0f8e_b6a4_442d_abfc_506f_75d5_0dc6nat,
        fq_modulus(),
    );
    lemma_power_step_square(
        modulus_witness(),
        0x0004_2846_0000_0000nat,
        0x1210_5ae5_9f3b_b908_1c06_fd79_e42f_6f28_3e8d_0f8e_b6a4_442d_abfc_506f_75d5_0dc6nat,
        0x0025_d461_ac08_4740_a277_df65_7bf4_0c08_97b4_0019_aaea_039f_95d5_2856_1ec7_8a94nat,
        fq_modulus(),
    );
    lemma_power_step_square(
        modulus_witness(),
        0x0008_508c_0000_0000nat,
        0x0025_d461_ac08_4740_a277_df65_7bf4_0c08_97b4_0019_aaea_039f_95d5_2856_1ec7_8a94nat,
        0x09d5_18cd_e309_0a42_f561_cda5_0f32_4c06_4e61_7c41_f0a1_8e69_9206_6df0_80ed_0056nat,
        fq_modulus(),
    );
    lemma_power_step_square(
        modulus_witness(),
        0x0010_a118_0000_0000nat,
        0x09d5_18cd_e309_0a42_f561_cda5_0f32_4c06_4e61_7c41_f0a1_8e69_9206_6df0_80ed_0056nat,
        0x0ff7_9be6_271c_caaa_c7a1_96fa_b1de_602b_742b_34bf_974f_4087_4fc0_05a5_41dd_8039nat,
        fq_modulus(),
    );
    lemma_power_step_square(
        modulus_witness(),
        0x0021_4230_0000_0000nat,
        0x0ff7_9be6_271c_caaa_c7a1_96fa_b1de_602b_742b_34bf_974f_4087_4fc0_05a5_41dd_8039nat,
        0x0203_b246_0474_edaf_95ca_5f3d_0c0f_ad42_42b2_8bfb_48cb_c6bc_dd8a_aca7_b7d4_019dnat,
        fq_modulus(),
    );
    lemma_power_step_square(
        modulus_witness(),
        0x0042_8460_0000_0000nat,
        0x0203_b246_0474_edaf_95ca_5f3d_0c0f_ad42_42b2_8bfb_48cb_c6bc_dd8a_aca7_b7d4_019dnat,
        0x02b5_82a0_7788_c147_a870_fd05_4436_2e1c_dfdf_af77_4ffd_8ade_69d5_05e0_2f32_8ac2nat,
        fq_modulus(),
    );
}

proof fn lemma_witness_chain_4()
    requires
        pow(modulus_witness() as int, 0x0085_08c0_0000_0000nat) % (fq_modulus() as int) == 0x02b5_82a0_7788_c147_a870_fd05_4436_2e1c_dfdf_af77_4ffd_8ade_69d5_05e0_2f32_8ac2nat,
    ensures
        pow(modulus_witness() as int, 0x8508_c000_0000_0001nat) % (fq_modulus() as int) == 0x021a_fc6a_74df_0884_afb8_9d5e_b9e4_9be9_c000_625e_91ea_e38d_b72c_fe24_21e5_3af0nat,
{
    lemma_power_step_square(
        modulus_witness(),
        0x0085_08c0_0000_0000nat,
        0x02b5_82a0_7788_c147_a870_fd05_4436_2e1c_dfdf_af77_4ffd_8ade_69d5_05e0_2f32_8ac2nat,
        0x0733_6399_60c5_b351_9e39_db1e_d761_70db_ca68_133d_dae4_0283_ad72_b175_cb3c_5005nat,
        fq_modulus(),
    );
    lemma_power_step_square(
        modulus_witness(),
        0x010a_1180_0000_0000nat,
        0x0733_6399_60c5_b351_9e39_db1e_d761_70db_ca68_133d_dae4_0283_ad72_b175_cb3c_5005nat,
        0x0495_5e64_04c5_bf23_d6c7_206d_86ac_eca3_0c48_8213_2904_5976_6774_c211_e516_aa02nat,
        fq_modulus(),
    );
    lemma_power_step_square(
        modulus_witness(),
        0x0214_2300_0000_0000nat,
        0x0495_5e64_04c5_bf23_d6c7_206d_86ac_eca3_0c48_8213_2904_5976_6774_c211_e516_aa02nat,
        0x0c9c_2542_5523_d655_2f13_08b5_166a_0663_3e6c_1846_1baa_d5a0_fa88_2210_14e7_cb4anat,
        fq_modulus(),
    );
    lemma_power_step_square(
        modulus_witness(),
        0x0428_4600_0000_0000nat,
        0x0c9c_2542_5523_d655_2f13_08b5_166a_0663_3e6c_1846_1baa_d5a0_fa88_2210_14e7_cb4anat,
        0x0de6_ce43_21fc_d276_fb85_4fb4_5098_06cd_8834_d459_ca93_9d89_dcad_2df8_f49c_7f94nat,
        fq_modulus(),
    );
    lemma_power_step_square(
        modulus_witness(),
        0x0850_8c00_0000_0000nat,
        0x0de6_ce43_21fc_d276_fb85_4fb4_5098_06cd_8834_d459_ca93_9d89_dcad_2df8_f49c_7f94nat,
        0x0cdf_0191_fe6c_a96b_d233_e9c5_750c_c515_95fb_2f07_de68_b006_4dda_9545_a98f_48aenat,
        fq_modulus(),
    );
    lemma_power_step_square(
        modulus_witness(),
        0x10a1_1800_0000_0000nat,
        0x0cdf_0191_fe6c_a96b_d233_e9c5_750c_c515_95fb_2f07_de68_b006_4dda_9545_a98f_48aenat,
        0x04bf_d006_835d_c204_0c5c_46cd_b92c_1a1b_6c11_5a4a_1f1f_baf0_4f1d_f76f_1bed_e5bbnat,
        fq_modulus(),
    );
    lemma_power_step_square(
        modulus_witness(),
        0x2142_3000_0000_0000nat,
        0x04bf_d006_835d_c204_0c5c_46cd_b92c_1a1b_6c11_5a4a_1f1f_baf0_4f1d_f76f_1bed_e5bbnat,
        0x01b8_6083_74f0_fec8_621f_4c7a_6821_e751_835e_0d33_f95c_723f_b167_a66d_7f93_f5f2nat,
        fq_modulus(),
    );
    lemma_power_step_square(
        modulus_witness(),
        0x4284_6000_0000_0000nat,
        0x01b8_6083_74f0_fec8_621f_4c7a_6821_e751_835e_0d33_f95c_723f_b167_a66d_7f93_f5f2nat,
        0x0974_baac_e2d2_d140_5815_4e68_66fb_8498_bb14_6ceb_42fe_79a1_e6a4_0237_c63c_b072nat,
        fq_modulus(),
    );
    lemma_power_step_next(
        modulus_witness(),
        0x8508_c000_0000_0000nat,
        0x0974_baac_e2d2_d140_5815_4e68_66fb_8498_bb14_6ceb_42fe_79a1_e6a4_0237_c63c_b072nat,
        0x021a_fc6a_74df_0884_afb8_9d5e_b9e4_9be9_c000_625e_91ea_e38d_b72c_fe24_21e5_3af0nat,
        fq_modulus(),
    );
}

proof fn lemma_power_chain_1()
    requires
        pow(modulus_witness_power() as int, 0x0001nat) % (fq_modulus() as int) == 0x021a_fc6a_74df_0884_afb8_9d5e_b9e4_9be9_c000_625e_91ea_e38d_b72c_fe24_21e5_3af0nat,
    ensures
        pow(modulus_witness_power() as int, 0x0001_0a11nat) % (fq_modulus() as int) == 0x06cf_335d_47d6_617c_b5f1_a2b3_1e12_8fa0_2e73_9abf_bd46_e43b_6b79_cd9f_dd8e_4073nat,
{
    lemma_power_step_square(
        modulus_witness_power(),
        0x0001nat,
        0x021a_fc6a_74df_0884_afb8_9d5e_b9e4_9be9_c000_625e_91ea_e38d_b72c_fe24_21e5_3af0nat,
        0x0698_8baa_6a35_a03b_012c_02b3_9902_dcfc_ddb2_fe25_0c3d_5f2d_a60e_81ae_e083_b4a0nat,
        fq_modulus(),
    );
    lemma_power_step_square(
        modulus_witness_power(),
        0x0002nat,
        0x0698_8baa_6a35_a03b_012c_02b3_9902_dcfc_ddb2_fe25_0c3d_5f2d_a60e_81ae_e083_b4a0nat,
        0x0841_999e_e8a4_b547_8911_d76e_84be_8a11_c37e_2ca1_63d6_efd5_b74d_9f4f_fcb6_8b26nat,
        fq_modulus(),
    );
    lemma_power_step_square(
        modulus_witness_power(),
        0x0004nat,
        0x0841_999e_e8a4_b547_8911_d76e_84be_8a11_c37e_2ca1_63d6_efd5_b74d_9f4f_fcb6_8b26nat,
        0x0f10_b9ba_eab9_8e9f_84a4_59e8_200e_323e_641b_f6e3_3c75_1d1c_64e8_853f_f849_5cdenat,
        fq_modulus(),
    );
    lemma_power_step_square(
        modulus_witness_power(),
        0x0008nat,
        0x0f10_b9ba_eab9_8e9f_84a4_59e8_200e_323e_641b_f6e3_3c75_1d1c_64e8_853f_f849_5cdenat,
        0x120f_fc9e_af07_ea6b_b2cd_1246_1863_d296_5612_bb97_a510_bbce_8c53_87e3_fdc4_d9banat,
        fq_modulus(),
    );
    lemma_power_step_square(
        modulus_witness_power(),
        0x0010nat,
        0x120f_fc9e_af07_ea6b_b2cd_1246_1863_d296_5612_bb97_a510_bbce_8c53_87e3_fdc4_d9banat,
        0x05b1_7d1c_7b8d_4f06_c4c8_80b7_f7d6_9c12_246b_6d98_de5d_4120_d05b_da54_5d1a_48bbnat,
        fq_modulus(),
    );
    lemma_power_step_next(
        modulus_witness_power(),
        0x0020nat,
        0x05b1_7d1c_7b8d_4f06_c4c8_80b7_f7d6_9c12_246b_6d98_de5d_4120_d05b_da54_5d1a_48bbnat,
        0x084c_7a74_4ae1_8f1b_1d99_59ae_821e_fd4e_ebd5_20b0_e666_395f_a7c1_feb5_b967_a15enat,
        fq_modulus(),
    );
    lemma_power_step_square(
        modulus_witness_power(),
        0x0021nat,
        0x084c_7a74_4ae1_8f1b_1d99_59ae_821e_fd4e_ebd5_20b0_e666_395f_a7c1_feb5_b967_a15enat,
        0x0d88_e416_19b5_d2bd_d12e_6654_cc69_8a74_8e18_7fa4_68f1_bf29_20d7_f168_cdc1_d36cnat,
        fq_modulus(),
    );
    lemma_power_step_square(
        modulus_witness_power(),
        0x0042nat,
        0x0d88_e416_19b5_d2bd_d12e_6654_cc69_8a74_8e18_7fa4_68f1_bf29_20d7_f168_cdc1_d36cnat,
        0x0578_6841_88b4_18b5_f2e6_1e71_6dde_8d22_2317_badd_b22d_4583_455d_ca76_548f_4fb8nat,
        fq_modulus(),
    );
    lemma_power_step_next(
        modulus_witness_power(),
        0x0084nat,
        0x0578_6841_88b4_18b5_f2e6_1e71_6dde_8d22_2317_badd_b22d_4583_455d_ca76_548f_4fb8nat,
        0x0b8e_596f_8873_a39b_ceaf_92d6_f698_a1ce_7cc9_71d7_fb3a_60eb_5e1c_b06a_354d_ccaanat,
        fq_modulus(),
    );
    lemma_power_step_square(
        modulus_witness_power(),
        0x0085nat,
        0x0b8e_596f_8873_a39b_ceaf_92d6_f698_a1ce_7cc9_71d7_fb3a_60eb_5e1c_b06a_354d_ccaanat,
        0x0fb2_66d1_2b74_7373_c2d2_8c4d_209d_28dc_372b_eba3_12e7_c79f_5c0e_02db_da22_5200nat,
        fq_modulus(),
    );
    lemma_power_step_square(
        modulus_witness_power(),
        0x010anat,
        0x0fb2_66d1_2b74_7373_c2d2_8c4d_209d_28dc_372b_eba3_12e7_c79f_5c0e_02db_da22_5200nat,
        0x0be8_6dec_1537_1832_21f6_e89d_6cb3_c2ec_35a3_6994_005e_5c74_56d9_b36b_ae3d_614fnat,
        fq_modulus(),
    );
    lemma_power_step_square(
        modulus_witness_power(),
        0x0214nat,
        0x0be8_6dec_1537_1832_21f6_e89d_6cb3_c2ec_35a3_6994_005e_5c74_56d9_b36b_ae3d_614fnat,
        0x0d6f_c0fe_88b2_8015_23e6_0043_c5e1_7f6a_8f13_5ef0_9f06_5b0f_cf8a_a81d_9247_75a0nat,
        fq_modulus(),
    );
    lemma_power_step_square(
        modulus_witness_power(),
        0x0428nat,
        0x0d6f_c0fe_88b2_8015_23e6_0043_c5e1_7f6a_8f13_5ef0_9f06_5b0f_cf8a_a81d_9247_75a0nat,
        0x00bc_1655_fc52_b033_f486_ba74_e522_64c4_aed9_0dd3_0d4d_4d80_0dba_eaa7_8e46_f4f0nat,
        fq_modulus(),
    );
    lemma_power_step_square(
        modulus_witness_power(),
        0x0850nat,
        0x00bc_1655_fc52_b033_f486_ba74_e522_64c4_aed9_0dd3_0d4d_4d80_0dba_eaa7_8e46_f4f0nat,
        0x1016_49c7_9509_1a80_6a28_9f1b_f8bc_5bbe_1e20_bf8d_6be6_9096_f3fd_0196_7329_44e9nat,
        fq_modulus(),
    );
    lemma_power_step_next(
        modulus_witness_power(),
        0x10a0nat,
        0x1016_49c7_9509_1a80_6a28_9f1b_f8bc_5bbe_1e20_bf8d_6be6_9096_f3fd_0196_7329_44e9nat,
        0x0970_2dcc_a5e3_aa24_3b56_c63b_6949_c279_c683_ba95_0df7_ee42_b3d7_5657_3e8b_8608nat,
        fq_modulus(),
    );
    lemma_power_step_square(
        modulus_witness_power(),
        0x10a1nat,
        0x0970_2dcc_a5e3_aa24_3b56_c63b_6949_c279_c683_ba95_0df7_ee42_b3d7_5657_3e8b_8608nat,
        0x030f_ae05_8e3b_4869_2759_1cde_87b8_92b7_dd13_d922_d02f_e590_2650_0a31_214d_8d84nat,
        fq_modulus(),
    );
    lemma_power_step_square(
        modulus_witness_power(),
        0x2142nat,
        0x030f_ae05_8e3b_4869_2759_1cde_87b8_92b7_dd13_d922_d02f_e590_2650_0a31_214d_8d84nat,
        0x0b76_19e6_2246_5657_0b7d_0669_1f0d_a421_a671_5c57_22ed_66ba_e9c8_e4bc_f63b_f584nat,
        fq_modulus(),
    );
    lemma_power_step_square(
        modulus_witness_power(),
        0x4284nat,
        0x0b76_19e6_2246_5657_0b7d_0669_1f0d_a421_a671_5c57_22ed_66ba_e9c8_e4bc_f63b_f584nat,
        0x0ad0_ead5_39ab_bddb_b707_6e96_0746_7066_5b54_e78d_c2ef_b9a8_fc9c_70c1_b398_51d6nat,
        fq_modulus(),
    );
    lemma_power_step_square(
        modulus_witness_power(),
        0x8508nat,
        0x0ad0_ead5_39ab_bddb_b707_6e96_0746_7066_5b54_e78d_c2ef_b9a8_fc9c_70c1_b398_51d6nat,
        0x0263_8f92_ac19_645a_76cd_4e3e_11bf_4ecd_4ec8_d695_e719_6d33_e793_b794_9117_4100nat,
        fq_modulus(),
    );
    lemma_power_step_next(
        modulus_witness_power(),
        0x0001_0a10nat,
        0x0263_8f92_ac19_645a_76cd_4e3e_11bf_4ecd_4ec8_d695_e719_6d33_e793_b794_9117_4100nat,
        0x06cf_335d_47d6_617c_b5f1_a2b3_1e12_8fa0_2e73_9abf_bd46_e43b_6b79_cd9f_dd8e_4073nat,
        fq_modulus(),
    );
}

proof fn lemma_power_chain_2()
    requires
        pow(modulus_witness_power() as int, 0x0001_0a11nat) % (fq_modulus() as int) == 0x06cf_335d_47d6_617c_b5f1_a2b3_1e12_8fa0_2e73_9abf_bd46_e43b_6b79_cd9f_dd8e_4073nat,
    ensures
        pow(modulus_witness_power() as int, 0x0008_508c_0000nat) % (fq_modulus() as int) == 0x01fc_59f4_af26_58c1_9b85_e695_bad5_25cd_877d_b265_4163_8ac1_bfbb_15de_9100_0d16nat,
{
    lemma_power_step_square(
        modulus_witness_power(),
        0x0001_0a11nat,
        0x06cf_335d_47d6_617c_b5f1_a2b3_1e12_8fa0_2e73_9abf_bd46_e43b_6b79_cd9f_dd8e_4073nat,
        0x0e42_33b9_85f7_9bcf_5cf0_9370_bd77_3f74_181b_6c3e_7795_ea50_ed03_6f67_8bd6_fcc8nat,
        fq_modulus(),
    );
    lemma_power_step_next(
        modulus_witness_power(),
        0x0002_1422nat,
        0x0e42_33b9_85f7_9bcf_5cf0_9370_bd77_3f74_181b_6c3e_7795_ea50_ed03_6f67_8bd6_fcc8nat,
        0x0989_114b_1462_8df8_b54c_bbb4_bbb8_efe9_941f_8d78_32ab_5f2d_366b_695b_0bbb_717fnat,
        fq_modulus(),
    );
    lemma_power_step_square(
        modulus_witness_power(),
        0x0002_1423nat,
        0x0989_114b_1462_8df8_b54c_bbb4_bbb8_efe9_941f_8d78_32ab_5f2d_366b_695b_0bbb_717fnat,
        0x08d5_6c1f_e7e9_ece2_dc4c_f6b8_62ac_3cb4_3e3e_0006_7c9b_85d0_096d_818d_c7a9_cffbnat,
        fq_modulus(),
    );
    lemma_power_step_square(
        modulus_witness_power(),
        0x0004_2846nat,
        0x08d5_6c1f_e7e9_ece2_dc4c_f6b8_62ac_3cb4_3e3e_0006_7c9b_85d0_096d_818d_c7a9_cffbnat,
        0x0143_f265_8b3b_4345_fbfd_f6b8_2e21_b334_a7a5_c3b7_e02b_580c_edb3_73ef_a55c_5014nat,
        fq_modulus(),
    );
    lemma_power_step_square(
        modulus_witness_power(),
        0x0008_508cnat,
        0x0143_f265_8b3b_4345_fbfd_f6b8_2e21_b334_a7a5_c3b7_e02b_580c_edb3_73ef_a55c_5014nat,
        0x09bc_2032_c670_9e81_0ad8_5d79_67c9_4f19_719e_ea56_a851_9d3f_8adf_f113_42e7_dbafnat,
        fq_modulus(),
    );
    lemma_power_step_square(
        modulus_witness_power(),
        0x0010_a118nat,
        0x09bc_2032_c670_9e81_0ad8_5d79_67c9_4f19_719e_ea56_a851_9d3f_8adf_f113_42e7_dbafnat,
        0x0ca6_3c3d_bd92_e5f2_8a12_7e3a_363d_63f1_34b4_b3b8_e683_1645_f842_5c0c_f545_74ffnat,
        fq_modulus(),
    );
    lemma_power_step_square(
        modulus_witness_power(),
        0x0021_4230nat,
        0x0ca6_3c3d_bd92_e5f2_8a12_7e3a_363d_63f1_34b4_b3b8_e683_1645_f842_5c0c_f545_74ffnat,
        0x0bcf_8d50_b965_6c86_97c3_d56a_be92_8184_06c2_6524_3379_be0b_0783_95fd_cc9d_97bfnat,
        fq_modulus(),
    );
    lemma_power_step_square(
        modulus_witness_power(),
        0x0042_8460nat,
        0x0bcf_8d50_b965_6c86_97c3_d56a_be92_8184_06c2_6524_3379_be0b_0783_95fd_cc9d_97bfnat,
        0x0487_41c2_aac2_dff2_7e98_679b_a955_6944_0cf5_2b25_a755_0d24_bc00_3157_02b2_1a03nat,
        fq_modulus(),
    );
    lemma_power_step_square(
        modulus_witness_power(),
        0x0085_08c0nat,
        0x0487_41c2_aac2_dff2_7e98_679b_a955_6944_0cf5_2b25_a755_0d24_bc00_3157_02b2_1a03nat,
        0x071f_dd67_6315_70b6_702b_740a_4782_6afc_9f1c_d17e_233c_6cbf_c6eb_963d_3d0e_5072nat,
        fq_modulus(),
    );
    lemma_power_step_square(
        modulus_witness_power(),
        0x010a_1180nat,
        0x071f_dd67_6315_70b6_702b_740a_4782_6afc_9f1c_d17e_233c_6cbf_c6eb_963d_3d0e_5072nat,
        0x0ff8_7bbf_5c53_9f5a_f3f3_9cbf_f2c8_4b23_45cf_03bb_444c_57be_8cc6_e2eb_ed43_d98anat,
        fq_modulus(),
    );
    lemma_power_step_square(
        modulus_witness_power(),
        0x0214_2300nat,
        0x0ff8_7bbf_5c53_9f5a_f3f3_9cbf_f2c8_4b23_45cf_03bb_444c_57be_8cc6_e2eb_ed43_d98anat,
        0x1278_d59c_8634_9e02_ba44_48ca_f42e_9ddf_d2f0_7377_e3c4_a4fd_c88d_7828_2bd7_9d75nat,
        fq_modulus(),
    );
    lemma_power_step_square(
        modulus_witness_power(),
        0x0428_4600nat,
        0x1278_d59c_8634_9e02_ba44_48ca_f42e_9ddf_d2f0_7377_e3c4_a4fd_c88d_7828_2bd7_9d75nat,
        0x0f08_eec9_2a00_cca4_cfa5_ca9a_9fd5_56ea_cdd6_34e7_d1eb_41e5_ed37_c20b_dbb5_9da9nat,
        fq_modulus(),
    );
    lemma_power_step_square(
        modulus_witness_power(),
        0x0850_8c00nat,
        0x0f08_eec9_2a00_cca4_cfa5_ca9a_9fd5_56ea_cdd6_34e7_d1eb_41e5_ed37_c20b_dbb5_9da9nat,
        0x0059_f4c9_30e6_854c_b050_c803_d637_765f_acfd_db98_78b2_6c59_0b15_71e9_039c_01b5nat,
        fq_modulus(),
    );
    lemma_power_step_square(
        modulus_witness_power(),
        0x10a1_1800nat,
        0x0059_f4c9_30e6_854c_b050_c803_d637_765f_acfd_db98_78b2_6c59_0b15_71e9_039c_01b5nat,
        0x0290_9b7b_31f6_bf18_163d_3acc_3dcb_327f_f211_796e_dbb5_6c46_6fb5_0755_f327_0902nat,
        fq_modulus(),
    );
    lemma_power_step_square(
        modulus_witness_power(),
        0x2142_3000nat,
        0x0290_9b7b_31f6_bf18_163d_3acc_3dcb_327f_f211_796e_dbb5_6c46_6fb5_0755_f327_0902nat,
        0x0a7b_47dc_aaf1_448c_79c2_7665_3678_1a0c_065b_ee1b_4dfe_627d_c5c3_66a4_2f64_6cb0nat,
        fq_modulus(),
    );
    lemma_power_step_square(
        modulus_witness_power(),
        0x4284_6000nat,
        0x0a7b_47dc_aaf1_448c_79c2_7665_3678_1a0c_065b_ee1b_4dfe_627d_c5c3_66a4_2f64_6cb0nat,
        0x041d_fd74_f7fc_4e97_7618_8f25_deff_c7a0_d1f4_c1c1_231e_0b57_127e_9948_0eeb_28d8nat,
        fq_modulus(),
    );
    lemma_power_step_square(
        modulus_witness_power(),
        0x8508_c000nat,
        0x041d_fd74_f7fc_4e97_7618_8f25_deff_c7a0_d1f4_c1c1_231e_0b57_127e_9948_0eeb_28d8nat,
        0x02d4_216e_a7d2_5e27_2f99_e9f3_378a_2f8d_a5dc_d21a_997d_4a39_2304_b429_a144_caa8nat,
        fq_modulus(),
    );
    lemma_power_step_square(
        modulus_witness_power(),
        0x0001_0a11_8000nat,
        0x02d4_216e_a7d2_5e27_2f99_e9f3_378a_2f8d_a5dc_d21a_997d_4a39_2304_b429_a144_caa8nat,
        0x00de_4e14_c23e_248d_86f5_f6dc_18f5_76fb_ded1_5d65_d4be_5856_6a94_1112_504f_c854nat,
        fq_modulus(),
    );
    lemma_power_step_square(
        modulus_witness_power(),
        0x0002_1423_0000nat,
        0x00de_4e14_c23e_248d_86f5_f6dc_18f5_76fb_ded1_5d65_d4be_5856_6a94_1112_504f_c854nat,
        0x0edb_c6f6_fc1f_5166_6913_47f5_3905_2c2a_2299_ffdc_8bd2_2e70_6262_2dc1_2f79_2c6anat,
        fq_modulus(),
    );
    lemma_power_step_square(
        modulus_witness_power(),
        0x0004_2846_0000nat,
        0x0edb_c6f6_fc1f_5166_6913_47f5_3905_2c2a_2299_ffdc_8bd2_2e70_6262_2dc1_2f79_2c6anat,
        0x01fc_59f4_af26_58c1_9b85_e695_bad5_25cd_877d_b265_4163_8ac1_bfbb_15de_9100_0d16nat,
        fq_modulus(),
    );
}

proof fn lemma_power_chain_3()
    requires
        pow(modulus_witness_power() as int, 0x0008_508c_0000nat) % (fq_modulus() as int) == 0x01fc_59f4_af26_58c1_9b85_e695_bad5_25cd_877d_b265_4163_8ac1_bfbb_15de_9100_0d16nat,
    ensures
        pow(modulus_witness_power() as int, 0x0085_08c0_0000_0000nat) % (fq_modulus() as int) == 0x095e_8efc_b387_5ccd_87ca_5233_f1ba_6a04_03dc_de28_7ad5_302f_a595_45be_eac6_ed64nat,
{
    lemma_power_step_square(
        modulus_witness_power(),
        0x0008_508c_0000nat,
        0x01fc_59f4_af26_58c1_9b85_e695_bad5_25cd_877d_b265_4163_8ac1_bfbb_15de_9100_0d16nat,
        0x009f_382e_8f39_891b_f198_70bd_bf15_01df_7ac8_9f49_678c_24b8_6ae3_4af8_1823_59e6nat,
        fq_modulus(),
    );
    lemma_power_step_square(
        modulus_witness_power(),
        0x0010_a118_0000nat,
        0x009f_382e_8f39_891b_f198_70bd_bf15_01df_7ac8_9f49_678c_24b8_6ae3_4af8_1823_59e6nat,
        0x0a5c_371f_0828_2904_291e_61a7_9c17_3e5e_fbc4_45e5_c2a9_a6e3_a463_092b_a6da_d746nat,
        fq_modulus(),
    );
    lemma_power_step_square(
        modulus_witness_power(),
        0x0021_4230_0000nat,
        0x0a5c_371f_0828_2904_291e_61a7_9c17_3e5e_fbc4_45e5_c2a9_a6e3_a463_092b_a6da_d746nat,
        0x08f6_b78f_9186_6269_afca_ff33_7562_2da2_ab9f_827d_ed10_cab3_e083_89a4_9f98_b898nat,
        fq_modulus(),
    );
    lemma_power_step_square(
        modulus_witness_power(),
        0x0042_8460_0000nat,
        0x08f6_b78f_9186_6269_afca_ff33_7562_2da2_ab9f_827d_ed10_cab3_e083_89a4_9f98_b898nat,
        0x0bd2_0427_ff52_bd6e_9186_4f36_172c_86ac_9307_23b4_10eb_9898_d4e2_b3ac_da1e_4fd1nat,
        fq_modulus(),
    );
    lemma_power_step_square(
        modulus_witness_power(),
        0x0085_08c0_0000nat,
        0x0bd2_0427_ff52_bd6e_9186_4f36_172c_86ac_9307_23b4_10eb_9898_d4e2_b3ac_da1e_4fd1nat,
        0x0ceb_dad9_8ba7_cf71_3339_34ed_34ef_bd8d_d538_ee3d_bf4e_669e_83ca_9963_baf1_4e1enat,
        fq_modulus(),
    );
    lemma_power_step_square(
        modulus_witness_power(),
        0x010a_1180_0000nat,
        0x0ceb_dad9_8ba7_cf71_3339_34ed_34ef_bd8d_d538_ee3d_bf4e_669e_83ca_9963_baf1_4e1enat,
        0x1093_9fbb_c827_be4f_147a_a830_9a9e_7b5c_c17b_94a0_5dc8_ff70_a374_1d67_0d03_12eanat,
        fq_modulus(),
    );
    lemma_power_step_square(
        modulus_witness_power(),
        0x0214_2300_0000nat,
        0x1093_9fbb_c827_be4f_147a_a830_9a9e_7b5c_c17b_94a0_5dc8_ff70_a374_1d67_0d03_12eanat,
        0x0226_e34f_d311_078c_52ee_6045_fa12_bd69_cdef_3e30_727e_3f6e_16bc_cdaf_b9ec_2969nat,
        fq_modulus(),
    );
    lemma_power_step_square(
        modulus_witness_power(),
        0x0428_4600_0000nat,
        0x0226_e34f_d311_078c_52ee_6045_fa12_bd69_cdef_3e30_727e_3f6e_16bc_cdaf_b9ec_2969nat,
        0x0b8a_3e57_5f02_5a58_549d_f27c_3dd9_4adc_6d13_9f9c_d20c_84c1_dac5_6b5d_1739_c6danat,
        fq_modulus(),
    );
    lemma_power_step_square(
        modulus_witness_power(),
        0x0850_8c00_0000nat,
        0x0b8a_3e57_5f02_5a58_549d_f27c_3dd9_4adc_6d13_9f9c_d20c_84c1_dac5_6b5d_1739_c6danat,
        0x0c6e_ab33_1664_45e4_af0a_0cd1_0c8c_fbda_b035_14e4_475d_7e1f_aace_71d2_e55d_3a94nat,
        fq_modulus(),
    );
    lemma_power_step_square(
        modulus_witness_power(),
        0x10a1_1800_0000nat,
        0x0c6e_ab33_1664_45e4_af0a_0cd1_0c8c_fbda_b035_14e4_475d_7e1f_aace_71d2_e55d_3a94nat,
        0x0330_38b2_3374_19b1_aa45_83e3_a28f_56a7_62b7_2e19_6aab_012e_e00a_a478_4507_3a52nat,
        fq_modulus(),
    );
    lemma_power_step_square(
        modulus_witness_power(),
        0x2142_3000_0000nat,
        0x0330_38b2_3374_19b1_aa45_83e3_a28f_56a7_62b7_2e19_6aab_012e_e00a_a478_4507_3a52nat,
        0x0aac_3978_861e_dc91_e09c_35d4_a09a_ee50_e9e8_2b32_c2ca_bdb5_91df_ba37_e8cf_1a8dnat,
        fq_modulus(),
    );
    lemma_power_step_square(
        modulus_witness_power(),
        0x4284_6000_0000nat,
        0x0aac_3978_861e_dc91_e09c_35d4_a09a_ee50_e9e8_2b32_c2ca_bdb5_91df_ba37_e8cf_1a8dnat,
        0x0dec_dcff_9675_eda7_b0fb_35fb_1187_74ed_8edd_d21b_99d0_8123_59ae_874e_cd8c_38eenat,
        fq_modulus(),
    );
    lemma_power_step_square(
        modulus_witness_power(),
        0x8508_c000_0000nat,
        0x0dec_dcff_9675_eda7_b0fb_35fb_1187_74ed_8edd_d21b_99d0_8123_59ae_874e_cd8c_38eenat,
        0x0307_02b2_b1d9_1923_f0bc_1b3e_47c0_5f70_f9c5_3181_7e46_3884_0d8d_81cf_243c_ee40nat,
        fq_modulus(),
    );
    lemma_power_step_square(
        modulus_witness_power(),
        0x0001_0a11_8000_0000nat,
        0x0307_02b2_b1d9_1923_f0bc_1b3e_47c0_5f70_f9c5_3181_7e46_3884_0d8d_81cf_243c_ee40nat,
        0x0320_c2c7_8c49_8789_bbcf_36aa_30f9_2763_f804_d0d7_5e50_827c_18cd_b84c_1a04_5d90nat,
        fq_modulus(),
    );
    lemma_power_step_square(
        modulus_witness_power(),
        0x0002_1423_0000_0000nat,
        0x0320_c2c7_8c49_8789_bbcf_36aa_30f9_2763_f804_d0d7_5e50_827c_18cd_b84c_1a04_5d90nat,
        0x0bbb_2658_3a69_b5de_de0f_1150_a4c0_a403_9dba_b1d3_20c6_5643_b4af_5c1f_1f42_674bnat,
        fq_modulus(),
    );
    lemma_power_step_square(
        modulus_witness_power(),
        0x0004_2846_0000_0000nat,
        0x0bbb_2658_3a69_b5de_de0f_1150_a4c0_a403_9dba_b1d3_20c6_5643_b4af_5c1f_1f42_674bnat,
        0x0d5a_7eee_3742_1b07_0d48_8d8d_95b4_0725_bcf8_770b_66e2_31a3_974e_f557_02a8_ce75nat,
        fq_modulus(),
    );
    lemma_power_step_square(
        modulus_witness_power(),
        0x0008_508c_0000_0000nat,
        0x0d5a_7eee_3742_1b07_0d48_8d8d_95b4_0725_bcf8_770b_66e2_31a3_974e_f557_02a8_ce75nat,
        0x0600_cba2_3218_0f14_8466_fe88_148b_ac50_3682_c33e_867b_05b8_ea59_ecd5_6a45_ba39nat,
        fq_modulus(),
    );
    lemma_power_step_square(
        modulus_witness_power(),
        0x0010_a118_0000_0000nat,
        0x0600_cba2_3218_0f14_8466_fe88_148b_ac50_3682_c33e_867b_05b8_ea59_ecd5_6a45_ba39nat,
        0x06b4_5125_8b79_c9e7_1124_6085_3ebc_b70b_87d3_50e3_dfc6_c2cf_9ad1_292c_bd59_53dfnat,
        fq_modulus(),
    );
    lemma_power_step_square(
        modulus_witness_power(),
        0x0021_4230_0000_0000nat,
        0x06b4_5125_8b79_c9e7_1124_6085_3ebc_b70b_87d3_50e3_dfc6_c2cf_9ad1_292c_bd59_53dfnat,
        0x001b_abec_be61_a7ce_19bf_2135_6947_4061_1960_913f_a18c_f810_6dc3_a043_c5d6_673bnat,
        fq_modulus(),
    );
    lemma_power_step_square(
        modulus_witness_power(),
        0x0042_8460_0000_0000nat,
        0x001b_abec_be61_a7ce_19bf_2135_6947_4061_1960_913f_a18c_f810_6dc3_a043_c5d6_673bnat,
        0x095e_8efc_b387_5ccd_87ca_5233_f1ba_6a04_03dc_de28_7ad5_302f_a595_45be_eac6_ed64nat,
        fq_modulus(),
    );
}

proof fn lemma_power_chain_4()
    requires
        pow(modulus_witness_power() as int, 0x0085_08c0_0000_0000nat) % (fq_modulus() as int) == 0x095e_8efc_b387_5ccd_87ca_5233_f1ba_6a04_03dc_de28_7ad5_302f_a595_45be_eac6_ed64nat,
    ensures
        pow(modulus_witness_power() as int, 0x8508_c000_0000_0001nat) % (fq_modulus() as int) == 0x0001nat,
{
    lemma_power_step_square(
        modulus_witness_power(),
        0x0085_08c0_0000_0000nat,
        0x095e_8efc_b387_5ccd_87ca_5233_f1ba_6a04_03dc_de28_7ad5_302f_a595_45be_eac6_ed64nat,
        0x0fae_b74d_1c3a_45d3_7bc9_241b_84a2_0173_3e3a_66d4_3de8_fd60_24f3_67ee_b2b5_7810nat,
        fq_modulus(),
    );
    lemma_power_step_square(
        modulus_witness_power(),
        0x010a_1180_0000_0000nat,
        0x0fae_b74d_1c3a_45d3_7bc9_241b_84a2_0173_3e3a_66d4_3de8_fd60_24f3_67ee_b2b5_7810nat,
        0x0f0e_ef91_9811_aca1_5197_34cf_b7c6_fea8_efcc_128c_51c5_e0b2_eb30_969b_656c_b607nat,
        fq_modulus(),
    );
    lemma_power_step_square(
        modulus_witness_power(),
        0x0214_2300_0000_0000nat,
        0x0f0e_ef91_9811_aca1_5197_34cf_b7c6_fea8_efcc_128c_51c5_e0b2_eb30_969b_656c_b607nat,
        0x02b5_3e3d_9d2a_d9c4_280a_fd17_666c_cc64_5229_35d2_3bc0_4274_d6da_6cc8_1557_d466nat,
        fq_modulus(),
    );
    lemma_power_step_square(
        modulus_witness_power(),
        0x0428_4600_0000_0000nat,
        0x02b5_3e3d_9d2a_d9c4_280a_fd17_666c_cc64_5229_35d2_3bc0_4274_d6da_6cc8_1557_d466nat,
        0x0a9a_7850_3c15_9c8a_1714_1167_ef0f_eef9_f05f_21f3_bf1d_0dce_328e_b9ae_62eb_1240nat,
        fq_modulus(),
    );
    lemma_power_step_square(
        modulus_witness_power(),
        0x0850_8c00_0000_0000nat,
        0x0a9a_7850_3c15_9c8a_1714_1167_ef0f_eef9_f05f_21f3_bf1d_0dce_328e_b9ae_62eb_1240nat,
        0x09bf_7463_b11c_d383_eae6_1a96_5061_f71d_1158_32d0_1d0d_8daf_2833_a914_d4be_8763nat,
        fq_modulus(),
    );
    lemma_power_step_square(
        modulus_witness_power(),
        0x10a1_1800_0000_0000nat,
        0x09bf_7463_b11c_d383_eae6_1a96_5061_f71d_1158_32d0_1d0d_8daf_2833_a914_d4be_8763nat,
        0x05a3_ed28_5d2f_87b5_01ee_06d6_364c_062a_2ea4_7ce9_f198_76c9_2f74_d096_64c9_8b73nat,
        fq_modulus(),
    );
    lemma_power_step_square(
        modulus_witness_power(),
        0x2142_3000_0000_0000nat,
        0x05a3_ed28_5d2f_87b5_01ee_06d6_364c_062a_2ea4_7ce9_f198_76c9_2f74_d096_64c9_8b73nat,
        0x00bc_3766_bba1_a0fb_1a5a_6fb4_b17f_13e0_9083_0595_c775_6db6_f361_63b3_b6be_41f2nat,
        fq_modulus(),
    );
    lemma_power_step_square(
        modulus_witness_power(),
        0x4284_6000_0000_0000nat,
        0x00bc_3766_bba1_a0fb_1a5a_6fb4_b17f_13e0_9083_0595_c775_6db6_f361_63b3_b6be_41f2nat,
        0x0fe8_e966_7a8c_641e_27d8_e1f9_5cbb_946b_25f2_f00e_eab9_15cc_a9c1_aa19_0fc4_8032nat,
        fq_modulus(),
    );
    lemma_power_step_next(
        modulus_witness_power(),
        0x8508_c000_0000_0000nat,
        0x0fe8_e966_7a8c_641e_27d8_e1f9_5cbb_946b_25f2_f00e_eab9_15cc_a9c1_aa19_0fc4_8032nat,
        0x0001nat,
        fq_modulus(),
    );
}

/// The number `x` is prime.
pub proof fn lemma_modulus_seed_prime()
    ensures
        is_prime(modulus_seed()),
{
    lemma_pow1(seed_witness() as int);
    lemma_small_mod(seed_witness(), modulus_seed());
    lemma_seed_chain_1();
    lemma_seed_chain_2();
    lemma_seed_chain_3();
    lemma2_to64_rest();
    assert(pow2(45) == 0x2000_0000_0000nat);
    assert(pow2(46) == 0x4000_0000_0000nat);
    let p = pow2(46);
    let n = modulus_seed();
    assert((p + 1) * (p + 1) > n) by (nonlinear_arith)
        requires
            p == 0x4000_0000_0000nat,
            n == 0x8508_c000_0000_0001nat,
    ;
    lemma_prime_by_two_power(modulus_seed(), 46, seed_witness());
}

/// The modulus of the base field is prime.
pub proof fn lemma_fq_modulus_prime()
    ensures
        is_prime(fq_modulus()),
{
    lemma_modulus_seed_prime();
    lemma_pow1(modulus_witness() as int);
    lemma_small_mod(modulus_witness(), fq_modulus());
    lemma_witness_chain_1();
    lemma_witness_chain_2();
    lemma_witness_chain_3();
    lemma_witness_chain_4();
    lemma_pow1(modulus_witness_power() as int);
    lemma_small_mod(modulus_witness_power(), fq_modulus());
    lemma_power_chain_1();
    lemma_power_chain_2();
    lemma_power_chain_3();
    lemma_power_chain_4();
    let x = modulus_seed();
    let n = fq_modulus();
    assert((x * x + 1) * (x * x + 1) > n) by (nonlinear_arith)
        requires
            x == 0x8508_c000_0000_0001nat,
            n == 0x12ab_655e_9a2c_a556_60b4_4d1e_5c37_b001_59aa_76fe_d000_0001_0a11_8000_0000_0001nat,
    ;
    lemma_prime_by_prime_square(
        fq_modulus(),
        modulus_seed(),
        modulus_witness(),
        modulus_witness_power(),
        modulus_witness_inverse(),
    );
}

} // verus!
