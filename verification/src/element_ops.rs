//! Group elements under the operators `+`, `-`, unary `-`, and `*` with a
//! scalar.

use vstd::prelude::*;
use crate::element::{point_add, point_mul, point_neg, point_sub, Element};
use crate::fields::fr::Fr;

verus! {

impl core::ops::Add<Element> for Element {
    type Output = Element;

    fn add(self, other: Element) -> (r: Element)
        ensures
            r@ == point_add(self@, other@),
    {
        let r = Element::add(&self, &other);
        proof {
            Element::lemma_of_point(r);
        }
        r
    }
}

impl vstd::std_specs::ops::AddSpecImpl<Element> for Element {
    open spec fn obeys_add_spec() -> bool {
        true
    }

    open spec fn add_req(self, other: Element) -> bool {
        true
    }

    open spec fn add_spec(self, other: Element) -> Element {
        Element::of_point(point_add(self@, other@))
    }
}

impl core::ops::Add<&Element> for Element {
    type Output = Element;

    fn add(self, other: &Element) -> (r: Element)
        ensures
            r@ == point_add(self@, other@),
    {
        let r = Element::add(&self, other);
        proof {
            Element::lemma_of_point(r);
        }
        r
    }
}

impl vstd::std_specs::ops::AddSpecImpl<&Element> for Element {
    open spec fn obeys_add_spec() -> bool {
        true
    }

    open spec fn add_req(self, other: &Element) -> bool {
        true
    }

    open spec fn add_spec(self, other: &Element) -> Element {
        Element::of_point(point_add(self@, other@))
    }
}

impl core::ops::Sub<Element> for Element {
    type Output = Element;

    fn sub(self, other: Element) -> (r: Element)
        ensures
            r@ == point_sub(self@, other@),
    {
        let r = Element::sub(&self, &other);
        proof {
            Element::lemma_of_point(r);
        }
        r
    }
}

impl vstd::std_specs::ops::SubSpecImpl<Element> for Element {
    open spec fn obeys_sub_spec() -> bool {
        true
    }

    open spec fn sub_req(self, other: Element) -> bool {
        true
    }

    open spec fn sub_spec(self, other: Element) -> Element {
        Element::of_point(point_sub(self@, other@))
    }
}

impl core::ops::Sub<&Element> for Element {
    type Output = Element;

    fn sub(self, other: &Element) -> (r: Element)
        ensures
            r@ == point_sub(self@, other@),
    {
        let r = Element::sub(&self, other);
        proof {
            Element::lemma_of_point(r);
        }
        r
    }
}

impl vstd::std_specs::ops::SubSpecImpl<&Element> for Element {
    open spec fn obeys_sub_spec() -> bool {
        true
    }

    open spec fn sub_req(self, other: &Element) -> bool {
        true
    }

    open spec fn sub_spec(self, other: &Element) -> Element {
        Element::of_point(point_sub(self@, other@))
    }
}

impl core::ops::Mul<Fr> for Element {
    type Output = Element;

    fn mul(self, other: Fr) -> (r: Element)
        ensures
            r@ == point_mul(self@, other@),
    {
        let r = Element::mul(&self, &other);
        proof {
            Element::lemma_of_point(r);
        }
        r
    }
}

impl vstd::std_specs::ops::MulSpecImpl<Fr> for Element {
    open spec fn obeys_mul_spec() -> bool {
        true
    }

    open spec fn mul_req(self, other: Fr) -> bool {
        true
    }

    open spec fn mul_spec(self, other: Fr) -> Element {
        Element::of_point(point_mul(self@, other@))
    }
}

impl core::ops::Mul<&Fr> for Element {
    type Output = Element;

    fn mul(self, other: &Fr) -> (r: Element)
        ensures
            r@ == point_mul(self@, other@),
    {
        let r = Element::mul(&self, other);
        proof {
            Element::lemma_of_point(r);
        }
        r
    }
}

impl vstd::std_specs::ops::MulSpecImpl<&Fr> for Element {
    open spec fn obeys_mul_spec() -> bool {
        true
    }

    open spec fn mul_req(self, other: &Fr) -> bool {
        true
    }

    open spec fn mul_spec(self, other: &Fr) -> Element {
        Element::of_point(point_mul(self@, other@))
    }
}

impl core::ops::Mul<Element> for Fr {
    type Output = Element;

    fn mul(self, other: Element) -> (r: Element)
        ensures
            r@ == point_mul(other@, self@),
    {
        let r = Element::mul(&other, &self);
        proof {
            Element::lemma_of_point(r);
        }
        r
    }
}

impl vstd::std_specs::ops::MulSpecImpl<Element> for Fr {
    open spec fn obeys_mul_spec() -> bool {
        true
    }

    open spec fn mul_req(self, other: Element) -> bool {
        true
    }

    open spec fn mul_spec(self, other: Element) -> Element {
        Element::of_point(point_mul(other@, self@))
    }
}

impl core::ops::Neg for Element {
    type Output = Element;

    fn neg(self) -> (r: Element)
        ensures
            r@ == point_neg(self@),
    {
        let r = Element::neg(&self);
        proof {
            Element::lemma_of_point(r);
        }
        r
    }
}

impl vstd::std_specs::ops::NegSpecImpl for Element {
    open spec fn obeys_neg_spec() -> bool {
        true
    }

    open spec fn neg_req(self) -> bool {
        true
    }

    open spec fn neg_spec(self) -> Element {
        Element::of_point(point_neg(self@))
    }
}

} // verus!
