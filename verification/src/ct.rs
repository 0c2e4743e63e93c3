//! Branch-free selection and comparison, and wiping of secrets, as the `subtle`
//! and `zeroize` crates provide them.

use vstd::prelude::*;
use subtle::{Choice, ConditionallySelectable, ConstantTimeEq};
use zeroize::Zeroize;

verus! {

/// `subtle`'s `u64::conditional_select`: returns `a` when the choice is unset and
/// `b` when it is set, without branching on the choice.
#[verifier::external_body]
pub(crate) fn ct_select_u64(a: u64, b: u64, choice: bool) -> (r: u64)
    ensures
        r == if choice { b } else { a },
{
    u64::conditional_select(&a, &b, Choice::from(choice as u8))
}

/// `subtle`'s `ct_eq` on byte slices: whether the two arrays hold the same bytes,
/// found in time that does not depend on where they differ.
#[verifier::external_body]
pub(crate) fn ct_eq_bytes(a: &[u8; 32], b: &[u8; 32]) -> (r: bool)
    ensures
        r == (a@ == b@),
{
    bool::from(a[..].ct_eq(&b[..]))
}

/// `zeroize`'s `Zeroize::zeroize` on a `u64`: overwrites the word with zero by a
/// write that the compiler may not remove.
#[verifier::external_body]
pub(crate) fn zeroize_u64(x: &mut u64)
    ensures
        *final(x) == 0,
    no_unwind
{
    x.zeroize();
}

} // verus!
