//! Comparison in constant time and erasure of registers. Neither can be
//! written in plain code that a compiler is bound to keep as written, so
//! both are taken from crates that are made for them. What this file says
//! of them is believed, not proved.

use vstd::prelude::*;
use crate::lanes::zeros;

verus! {

/// Compares two byte strings with `ctutils::CtEq::ct_eq` on slices and turns
/// the answer into a `bool`.
///
/// Believed of it: the answer is `true` exactly when the two strings have
/// the same length and the same bytes. That the time taken does not depend
/// on the bytes is what the crate is for; no clause can state it.
#[verifier::external_body]
pub(crate) fn ct_eq(a: &[u8], b: &[u8]) -> (same: bool)
    ensures
        same == (a@ == b@),
{
    ctutils::CtEq::ct_eq(a, b).to_bool()
}

/// Overwrites an array of words with `zeroize::Zeroize::zeroize`, which
/// `digest` hands on.
///
/// Believed of it: every word is zero afterwards. That the writes are not
/// optimised away is what the crate is for; no clause can state it.
#[verifier::external_body]
pub(crate) fn wipe<const N: usize>(words: &mut [u32; N])
    ensures
        final(words)@ == zeros(N as nat),
{
    digest::zeroize::Zeroize::zeroize(words);
}

} // verus!
