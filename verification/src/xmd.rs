//! Expansion of a message to uniform bytes, as the `elliptic-curve` crate's
//! `expand_message_xmd` over the `blake2` crate's BLAKE2b-512 provides it.

use vstd::prelude::*;
use blake2::Blake2b512;
use elliptic_curve::hash2curve::{ExpandMsg, ExpandMsgXmd, Expander};

verus! {

/// The bytes that `expand_message_xmd` with BLAKE2b-512 derives from a message,
/// a domain separation tag and the number of bytes asked for.
pub uninterp spec fn expand_message_xmd_blake2b512(
    msg: Seq<u8>,
    dst: Seq<u8>,
    len_in_bytes: nat,
) -> Seq<u8>;

/// The largest number of bytes that one expansion can give: 255 blocks of 64 bytes.
pub const MAX_EXPANSION: usize = 16320;

/// `ExpandMsgXmd::<Blake2b512>::expand_message` on one message and one tag,
/// followed by `Expander::fill_bytes` on an array of `N` bytes.
///
/// The outside function fails for a length of zero and for one above 255 hash
/// outputs, which the precondition leaves out; it does not fail for an empty
/// tag, since the list of tags that it is handed always holds one. Its result
/// depends on the message, the tag and the length alone, and fills the whole
/// array.
#[verifier::external_body]
pub(crate) fn expand_message_xmd<const N: usize>(msg: &[u8], dst: &[u8]) -> (out: [u8; N])
    requires
        0 < N <= MAX_EXPANSION,
    ensures
        out@ == expand_message_xmd_blake2b512(msg@, dst@, N as nat),
{
    let mut out = [0u8; N];
    let dsts = [dst];
    let mut expander = ExpandMsgXmd::<Blake2b512>::expand_message(&[msg], &dsts, N).unwrap();
    expander.fill_bytes(&mut out);
    out
}

} // verus!
