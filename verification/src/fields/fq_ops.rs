//! The field under the operators `+`, `-`, `*`, `/` and unary `-`, and the
//! conversions from unsigned integers and from `bool`.

use vstd::prelude::*;
use crate::fields::fq::{fq_add, fq_inv, fq_is_unit, fq_mul, fq_neg, fq_sub, Fq};

verus! {

impl core::ops::Add<Fq> for Fq {
    type Output = Fq;

    fn add(self, other: Fq) -> (r: Fq)
        ensures
            r@ == fq_add(self@, other@),
    {
        let r = Fq::add(&self, &other);
        proof {
            Fq::lemma_of_residue(r);
        }
        r
    }
}

impl vstd::std_specs::ops::AddSpecImpl<Fq> for Fq {
    open spec fn obeys_add_spec() -> bool {
        true
    }

    open spec fn add_req(self, other: Fq) -> bool {
        true
    }

    open spec fn add_spec(self, other: Fq) -> Fq {
        Fq::of_residue(fq_add(self@, other@))
    }
}

impl core::ops::Add<&Fq> for Fq {
    type Output = Fq;

    fn add(self, other: &Fq) -> (r: Fq)
        ensures
            r@ == fq_add(self@, other@),
    {
        let r = Fq::add(&self, other);
        proof {
            Fq::lemma_of_residue(r);
        }
        r
    }
}

impl vstd::std_specs::ops::AddSpecImpl<&Fq> for Fq {
    open spec fn obeys_add_spec() -> bool {
        true
    }

    open spec fn add_req(self, other: &Fq) -> bool {
        true
    }

    open spec fn add_spec(self, other: &Fq) -> Fq {
        Fq::of_residue(fq_add(self@, other@))
    }
}

impl core::ops::Sub<Fq> for Fq {
    type Output = Fq;

    fn sub(self, other: Fq) -> (r: Fq)
        ensures
            r@ == fq_sub(self@, other@),
    {
        let r = Fq::sub(&self, &other);
        proof {
            Fq::lemma_of_residue(r);
        }
        r
    }
}

impl vstd::std_specs::ops::SubSpecImpl<Fq> for Fq {
    open spec fn obeys_sub_spec() -> bool {
        true
    }

    open spec fn sub_req(self, other: Fq) -> bool {
        true
    }

    open spec fn sub_spec(self, other: Fq) -> Fq {
        Fq::of_residue(fq_sub(self@, other@))
    }
}

impl core::ops::Sub<&Fq> for Fq {
    type Output = Fq;

    fn sub(self, other: &Fq) -> (r: Fq)
        ensures
            r@ == fq_sub(self@, other@),
    {
        let r = Fq::sub(&self, other);
        proof {
            Fq::lemma_of_residue(r);
        }
        r
    }
}

impl vstd::std_specs::ops::SubSpecImpl<&Fq> for Fq {
    open spec fn obeys_sub_spec() -> bool {
        true
    }

    open spec fn sub_req(self, other: &Fq) -> bool {
        true
    }

    open spec fn sub_spec(self, other: &Fq) -> Fq {
        Fq::of_residue(fq_sub(self@, other@))
    }
}

impl core::ops::Mul<Fq> for Fq {
    type Output = Fq;

    fn mul(self, other: Fq) -> (r: Fq)
        ensures
            r@ == fq_mul(self@, other@),
    {
        let r = Fq::mul(&self, &other);
        proof {
            Fq::lemma_of_residue(r);
        }
        r
    }
}

impl vstd::std_specs::ops::MulSpecImpl<Fq> for Fq {
    open spec fn obeys_mul_spec() -> bool {
        true
    }

    open spec fn mul_req(self, other: Fq) -> bool {
        true
    }

    open spec fn mul_spec(self, other: Fq) -> Fq {
        Fq::of_residue(fq_mul(self@, other@))
    }
}

impl core::ops::Mul<&Fq> for Fq {
    type Output = Fq;

    fn mul(self, other: &Fq) -> (r: Fq)
        ensures
            r@ == fq_mul(self@, other@),
    {
        let r = Fq::mul(&self, other);
        proof {
            Fq::lemma_of_residue(r);
        }
        r
    }
}

impl vstd::std_specs::ops::MulSpecImpl<&Fq> for Fq {
    open spec fn obeys_mul_spec() -> bool {
        true
    }

    open spec fn mul_req(self, other: &Fq) -> bool {
        true
    }

    open spec fn mul_spec(self, other: &Fq) -> Fq {
        Fq::of_residue(fq_mul(self@, other@))
    }
}

/// The quotient of two elements. The divisor must have an inverse.
pub open spec fn fq_div(a: nat, b: nat) -> nat {
    fq_mul(a, fq_inv(b))
}

impl core::ops::Div<Fq> for Fq {
    type Output = Fq;

    fn div(self, other: Fq) -> (r: Fq)
        ensures
            r@ == fq_div(self@, other@),
    {
        let r = match other.inverse() {
            Some(inv) => Fq::mul(&self, &inv),
            None => self,
        };
        proof {
            Fq::lemma_of_residue(r);
        }
        r
    }
}

impl vstd::std_specs::ops::DivSpecImpl<Fq> for Fq {
    open spec fn obeys_div_spec() -> bool {
        true
    }

    open spec fn div_req(self, other: Fq) -> bool {
        fq_is_unit(other@)
    }

    open spec fn div_spec(self, other: Fq) -> Fq {
        Fq::of_residue(fq_div(self@, other@))
    }
}

impl core::ops::Neg for Fq {
    type Output = Fq;

    fn neg(self) -> (r: Fq)
        ensures
            r@ == fq_neg(self@),
    {
        let r = Fq::neg(&self);
        proof {
            Fq::lemma_of_residue(r);
        }
        r
    }
}

impl vstd::std_specs::ops::NegSpecImpl for Fq {
    open spec fn obeys_neg_spec() -> bool {
        true
    }

    open spec fn neg_req(self) -> bool {
        true
    }

    open spec fn neg_spec(self) -> Fq {
        Fq::of_residue(fq_neg(self@))
    }
}

impl From<u128> for Fq {
    fn from(v: u128) -> (r: Fq)
        ensures
            r@ == v,
    {
        let r = Fq::from_u128(v);
        proof {
            Fq::lemma_of_residue(r);
        }
        r
    }
}

impl vstd::std_specs::convert::FromSpecImpl<u128> for Fq {
    open spec fn obeys_from_spec() -> bool {
        true
    }

    open spec fn from_spec(v: u128) -> Fq {
        Fq::of_residue(v as nat)
    }
}

impl From<u64> for Fq {
    fn from(v: u64) -> (r: Fq)
        ensures
            r@ == v,
    {
        let r = Fq::from_u128(v as u128);
        proof {
            Fq::lemma_of_residue(r);
        }
        r
    }
}

impl vstd::std_specs::convert::FromSpecImpl<u64> for Fq {
    open spec fn obeys_from_spec() -> bool {
        true
    }

    open spec fn from_spec(v: u64) -> Fq {
        Fq::of_residue(v as nat)
    }
}

impl From<u32> for Fq {
    fn from(v: u32) -> (r: Fq)
        ensures
            r@ == v,
    {
        let r = Fq::from_u128(v as u128);
        proof {
            Fq::lemma_of_residue(r);
        }
        r
    }
}

impl vstd::std_specs::convert::FromSpecImpl<u32> for Fq {
    open spec fn obeys_from_spec() -> bool {
        true
    }

    open spec fn from_spec(v: u32) -> Fq {
        Fq::of_residue(v as nat)
    }
}

impl From<u16> for Fq {
    fn from(v: u16) -> (r: Fq)
        ensures
            r@ == v,
    {
        let r = Fq::from_u128(v as u128);
        proof {
            Fq::lemma_of_residue(r);
        }
        r
    }
}

impl vstd::std_specs::convert::FromSpecImpl<u16> for Fq {
    open spec fn obeys_from_spec() -> bool {
        true
    }

    open spec fn from_spec(v: u16) -> Fq {
        Fq::of_residue(v as nat)
    }
}

impl From<u8> for Fq {
    fn from(v: u8) -> (r: Fq)
        ensures
            r@ == v,
    {
        let r = Fq::from_u128(v as u128);
        proof {
            Fq::lemma_of_residue(r);
        }
        r
    }
}

impl vstd::std_specs::convert::FromSpecImpl<u8> for Fq {
    open spec fn obeys_from_spec() -> bool {
        true
    }

    open spec fn from_spec(v: u8) -> Fq {
        Fq::of_residue(v as nat)
    }
}

impl From<bool> for Fq {
    fn from(v: bool) -> (r: Fq)
        ensures
            r@ == (if v {
                1nat
            } else {
                0nat
            }),
    {
        let r = Fq::from_u64(if v {
            1
        } else {
            0
        });
        proof {
            Fq::lemma_of_residue(r);
        }
        r
    }
}

impl vstd::std_specs::convert::FromSpecImpl<bool> for Fq {
    open spec fn obeys_from_spec() -> bool {
        true
    }

    open spec fn from_spec(v: bool) -> Fq {
        Fq::of_residue(if v {
            1
        } else {
            0
        })
    }
}

} // verus!
