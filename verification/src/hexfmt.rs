//! Values as text: lower-case hexadecimal, as the `hex` crate writes it.

use vstd::prelude::*;
use vstd::string::StringExecFns;
use crate::bytes::le_bytes32;
use crate::element::Element;
use crate::encoding::encode_point;
use crate::fields::fr::Fr;

verus! {

/// The lower-case hexadecimal digit of a number below 16.
pub open spec fn hex_digit(n: int) -> char {
    if n == 0 {
        '0'
    } else if n == 1 {
        '1'
    } else if n == 2 {
        '2'
    } else if n == 3 {
        '3'
    } else if n == 4 {
        '4'
    } else if n == 5 {
        '5'
    } else if n == 6 {
        '6'
    } else if n == 7 {
        '7'
    } else if n == 8 {
        '8'
    } else if n == 9 {
        '9'
    } else if n == 10 {
        'a'
    } else if n == 11 {
        'b'
    } else if n == 12 {
        'c'
    } else if n == 13 {
        'd'
    } else if n == 14 {
        'e'
    } else {
        'f'
    }
}

/// The text of a byte string: two lower-case hexadecimal digits for each byte,
/// the high half first.
pub open spec fn hex_string(bytes: Seq<u8>) -> Seq<char> {
    Seq::new(
        2 * bytes.len(),
        |i: int|
            if i % 2 == 0 {
                hex_digit(bytes[i / 2] as int / 16)
            } else {
                hex_digit(bytes[i / 2] as int % 16)
            },
    )
}

/// `hex::encode`: the bytes as lower-case hexadecimal text, two digits for each
/// byte.
#[verifier::external_body]
pub(crate) fn hex_encode(bytes: &[u8]) -> (s: String)
    ensures
        s@ == hex_string(bytes@),
{
    hex::encode(bytes)
}

/// The text of a group element.
pub open spec fn element_text(bytes: Seq<u8>) -> Seq<char> {
    "decaf377::Element("@ + hex_string(bytes) + ")"@
}

/// The text of a scalar.
pub open spec fn scalar_text(le_bytes: Seq<u8>) -> Seq<char> {
    "Fr(0x"@ + hex_string(le_bytes.reverse()) + ")"@
}

impl Element {
    /// The element as text: the hexadecimal form of its encoding, which is what
    /// a reader can compare and copy, inside `decaf377::Element(..)`.
    pub fn to_display_string(&self) -> (s: String)
        ensures
            s@ == element_text(encode_point(self@)),
    {
        let bytes = self.to_bytes();
        let mut s = String::from_str("decaf377::Element(");
        let digits = hex_encode(&bytes);
        s.append(digits.as_str());
        s.append(")");
        s
    }
}

impl Fr {
    /// The scalar as text: its residue as a hexadecimal number of 64 digits, the
    /// most significant first, inside `Fr(0x..)`.
    pub fn to_debug_string(&self) -> (s: String)
        ensures
            s@ == scalar_text(le_bytes32(self@)),
    {
        let le = self.to_bytes_le();
        let mut be = [0u8; 32];
        let mut i: usize = 0;
        while i < 32
            invariant
                i <= 32,
                forall|j: int| 0 <= j < i ==> be@[j] == le@[31 - j],
            decreases 32 - i,
        {
            be[i] = le[31 - i];
            i = i + 1;
        }
        proof {
            assert(be@ =~= le@.reverse());
        }
        let mut s = String::from_str("Fr(0x");
        let digits = hex_encode(&be);
        s.append(digits.as_str());
        s.append(")");
        s
    }
}

} // verus!
