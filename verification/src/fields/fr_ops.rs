//! The field under the operators `+`, `-`, `*`, `/` and unary `-`, and the
//! conversions from unsigned integers and from `bool`.

use vstd::prelude::*;
use crate::fields::fr::{fr_add, fr_inv, fr_is_unit, fr_mul, fr_neg, fr_sub, Fr};

verus! {

impl core::ops::Add<Fr> for Fr {
    type Output = Fr;

    fn add(self, other: Fr) -> (r: Fr)
        ensures
            r@ == fr_add(self@, other@),
    {
        let r = Fr::add(&self, &other);
        proof {
            Fr::lemma_of_residue(r);
        }
        r
    }
}

impl vstd::std_specs::ops::AddSpecImpl<Fr> for Fr {
    open spec fn obeys_add_spec() -> bool {
        true
    }

    open spec fn add_req(self, other: Fr) -> bool {
        true
    }

    open spec fn add_spec(self, other: Fr) -> Fr {
        Fr::of_residue(fr_add(self@, other@))
    }
}

impl core::ops::Add<&Fr> for Fr {
    type Output = Fr;

    fn add(self, other: &Fr) -> (r: Fr)
        ensures
            r@ == fr_add(self@, other@),
    {
        let r = Fr::add(&self, other);
        proof {
            Fr::lemma_of_residue(r);
        }
        r
    }
}

impl vstd::std_specs::ops::AddSpecImpl<&Fr> for Fr {
    open spec fn obeys_add_spec() -> bool {
        true
    }

    open spec fn add_req(self, other: &Fr) -> bool {
        true
    }

    open spec fn add_spec(self, other: &Fr) -> Fr {
        Fr::of_residue(fr_add(self@, other@))
    }
}

impl core::ops::Sub<Fr> for Fr {
    type Output = Fr;

    fn sub(self, other: Fr) -> (r: Fr)
        ensures
            r@ == fr_sub(self@, other@),
    {
        let r = Fr::sub(&self, &other);
        proof {
            Fr::lemma_of_residue(r);
        }
        r
    }
}

impl vstd::std_specs::ops::SubSpecImpl<Fr> for Fr {
    open spec fn obeys_sub_spec() -> bool {
        true
    }

    open spec fn sub_req(self, other: Fr) -> bool {
        true
    }

    open spec fn sub_spec(self, other: Fr) -> Fr {
        Fr::of_residue(fr_sub(self@, other@))
    }
}

impl core::ops::Sub<&Fr> for Fr {
    type Output = Fr;

    fn sub(self, other: &Fr) -> (r: Fr)
        ensures
            r@ == fr_sub(self@, other@),
    {
        let r = Fr::sub(&self, other);
        proof {
            Fr::lemma_of_residue(r);
        }
        r
    }
}

impl vstd::std_specs::ops::SubSpecImpl<&Fr> for Fr {
    open spec fn obeys_sub_spec() -> bool {
        true
    }

    open spec fn sub_req(self, other: &Fr) -> bool {
        true
    }

    open spec fn sub_spec(self, other: &Fr) -> Fr {
        Fr::of_residue(fr_sub(self@, other@))
    }
}

impl core::ops::Mul<Fr> for Fr {
    type Output = Fr;

    fn mul(self, other: Fr) -> (r: Fr)
        ensures
            r@ == fr_mul(self@, other@),
    {
        let r = Fr::mul(&self, &other);
        proof {
            Fr::lemma_of_residue(r);
        }
        r
    }
}

impl vstd::std_specs::ops::MulSpecImpl<Fr> for Fr {
    open spec fn obeys_mul_spec() -> bool {
        true
    }

    open spec fn mul_req(self, other: Fr) -> bool {
        true
    }

    open spec fn mul_spec(self, other: Fr) -> Fr {
        Fr::of_residue(fr_mul(self@, other@))
    }
}

impl core::ops::Mul<&Fr> for Fr {
    type Output = Fr;

    fn mul(self, other: &Fr) -> (r: Fr)
        ensures
            r@ == fr_mul(self@, other@),
    {
        let r = Fr::mul(&self, other);
        proof {
            Fr::lemma_of_residue(r);
        }
        r
    }
}

impl vstd::std_specs::ops::MulSpecImpl<&Fr> for Fr {
    open spec fn obeys_mul_spec() -> bool {
        true
    }

    open spec fn mul_req(self, other: &Fr) -> bool {
        true
    }

    open spec fn mul_spec(self, other: &Fr) -> Fr {
        Fr::of_residue(fr_mul(self@, other@))
    }
}

/// The quotient of two elements. The divisor must have an inverse.
pub open spec fn fr_div(a: nat, b: nat) -> nat {
    fr_mul(a, fr_inv(b))
}

impl core::ops::Div<Fr> for Fr {
    type Output = Fr;

    fn div(self, other: Fr) -> (r: Fr)
        ensures
            r@ == fr_div(self@, other@),
    {
        let r = match other.inverse() {
            Some(inv) => Fr::mul(&self, &inv),
            None => self,
        };
        proof {
            Fr::lemma_of_residue(r);
        }
        r
    }
}

impl vstd::std_specs::ops::DivSpecImpl<Fr> for Fr {
    open spec fn obeys_div_spec() -> bool {
        true
    }

    open spec fn div_req(self, other: Fr) -> bool {
        fr_is_unit(other@)
    }

    open spec fn div_spec(self, other: Fr) -> Fr {
        Fr::of_residue(fr_div(self@, other@))
    }
}

impl core::ops::Neg for Fr {
    type Output = Fr;

    fn neg(self) -> (r: Fr)
        ensures
            r@ == fr_neg(self@),
    {
        let r = Fr::neg(&self);
        proof {
            Fr::lemma_of_residue(r);
        }
        r
    }
}

impl vstd::std_specs::ops::NegSpecImpl for Fr {
    open spec fn obeys_neg_spec() -> bool {
        true
    }

    open spec fn neg_req(self) -> bool {
        true
    }

    open spec fn neg_spec(self) -> Fr {
        Fr::of_residue(fr_neg(self@))
    }
}

impl From<u128> for Fr {
    fn from(v: u128) -> (r: Fr)
        ensures
            r@ == v,
    {
        let r = Fr::from_u128(v);
        proof {
            Fr::lemma_of_residue(r);
        }
        r
    }
}

impl vstd::std_specs::convert::FromSpecImpl<u128> for Fr {
    open spec fn obeys_from_spec() -> bool {
        true
    }

    open spec fn from_spec(v: u128) -> Fr {
        Fr::of_residue(v as nat)
    }
}

impl From<u64> for Fr {
    fn from(v: u64) -> (r: Fr)
        ensures
            r@ == v,
    {
        let r = Fr::from_u128(v as u128);
        proof {
            Fr::lemma_of_residue(r);
        }
        r
    }
}

impl vstd::std_specs::convert::FromSpecImpl<u64> for Fr {
    open spec fn obeys_from_spec() -> bool {
        true
    }

    open spec fn from_spec(v: u64) -> Fr {
        Fr::of_residue(v as nat)
    }
}

impl From<u32> for Fr {
    fn from(v: u32) -> (r: Fr)
        ensures
            r@ == v,
    {
        let r = Fr::from_u128(v as u128);
        proof {
            Fr::lemma_of_residue(r);
        }
        r
    }
}

impl vstd::std_specs::convert::FromSpecImpl<u32> for Fr {
    open spec fn obeys_from_spec() -> bool {
        true
    }

    open spec fn from_spec(v: u32) -> Fr {
        Fr::of_residue(v as nat)
    }
}

impl From<u16> for Fr {
    fn from(v: u16) -> (r: Fr)
        ensures
            r@ == v,
    {
        let r = Fr::from_u128(v as u128);
        proof {
            Fr::lemma_of_residue(r);
        }
        r
    }
}

impl vstd::std_specs::convert::FromSpecImpl<u16> for Fr {
    open spec fn obeys_from_spec() -> bool {
        true
    }

    open spec fn from_spec(v: u16) -> Fr {
        Fr::of_residue(v as nat)
    }
}

impl From<u8> for Fr {
    fn from(v: u8) -> (r: Fr)
        ensures
            r@ == v,
    {
        let r = Fr::from_u128(v as u128);
        proof {
            Fr::lemma_of_residue(r);
        }
        r
    }
}

impl vstd::std_specs::convert::FromSpecImpl<u8> for Fr {
    open spec fn obeys_from_spec() -> bool {
        true
    }

    open spec fn from_spec(v: u8) -> Fr {
        Fr::of_residue(v as nat)
    }
}

impl From<bool> for Fr {
    fn from(v: bool) -> (r: Fr)
        ensures
            r@ == (if v {
                1nat
            } else {
                0nat
            }),
    {
        let r = Fr::from_u64(if v {
            1
        } else {
            0
        });
        proof {
            Fr::lemma_of_residue(r);
        }
        r
    }
}

impl vstd::std_specs::convert::FromSpecImpl<bool> for Fr {
    open spec fn obeys_from_spec() -> bool {
        true
    }

    open spec fn from_spec(v: bool) -> Fr {
        Fr::of_residue(if v {
            1
        } else {
            0
        })
    }
}

} // verus!
