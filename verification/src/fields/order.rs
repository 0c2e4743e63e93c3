//! The total order of field elements: the order of their canonical residues.

use vstd::prelude::*;
use core::cmp::Ordering;
use crate::fields::fq::Fq;
use crate::fields::fr::Fr;

verus! {

impl Fq {
    /// Compares two elements by their canonical residues.
    pub fn cmp(&self, other: &Fq) -> (r: Ordering)
        ensures
            match r {
                Ordering::Less => self@ < other@,
                Ordering::Equal => self@ == other@,
                Ordering::Greater => self@ > other@,
            },
    {
        if self.to_u256().lt(other.to_u256()) {
            Ordering::Less
        } else if other.to_u256().lt(self.to_u256()) {
            Ordering::Greater
        } else {
            Ordering::Equal
        }
    }
}

impl PartialOrd for Fq {
    fn partial_cmp(&self, other: &Fq) -> (r: Option<Ordering>) {
        Some(self.cmp(other))
    }
}

impl vstd::std_specs::cmp::PartialOrdSpecImpl for Fq {
    open spec fn obeys_partial_cmp_spec() -> bool {
        true
    }

    open spec fn partial_cmp_spec(&self, other: &Fq) -> Option<Ordering> {
        if self@ < other@ {
            Some(Ordering::Less)
        } else if self@ > other@ {
            Some(Ordering::Greater)
        } else {
            Some(Ordering::Equal)
        }
    }
}

impl Fr {
    /// Compares two elements by their canonical residues.
    pub fn cmp(&self, other: &Fr) -> (r: Ordering)
        ensures
            match r {
                Ordering::Less => self@ < other@,
                Ordering::Equal => self@ == other@,
                Ordering::Greater => self@ > other@,
            },
    {
        if self.to_u256().lt(other.to_u256()) {
            Ordering::Less
        } else if other.to_u256().lt(self.to_u256()) {
            Ordering::Greater
        } else {
            Ordering::Equal
        }
    }
}

impl PartialOrd for Fr {
    fn partial_cmp(&self, other: &Fr) -> (r: Option<Ordering>) {
        Some(self.cmp(other))
    }
}

impl vstd::std_specs::cmp::PartialOrdSpecImpl for Fr {
    open spec fn obeys_partial_cmp_spec() -> bool {
        true
    }

    open spec fn partial_cmp_spec(&self, other: &Fr) -> Option<Ordering> {
        if self@ < other@ {
            Some(Ordering::Less)
        } else if self@ > other@ {
            Some(Ordering::Greater)
        } else {
            Some(Ordering::Equal)
        }
    }
}

} // verus!
