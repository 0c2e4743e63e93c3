//! The failures that the library reports.

use vstd::prelude::*;

verus! {

/// Why an operation of the library failed.
#[derive(Clone, Copy, Debug, PartialEq, Eq, Structural, Hash)]
pub enum Error {
    /// The bytes are not the canonical encoding of any value.
    InvalidEncoding,
    /// The element has no multiplicative inverse.
    NoInverse,
    /// Two sequences that must pair up have different lengths.
    LengthMismatch,
}

} // verus!
