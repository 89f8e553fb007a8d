//! The two string operations of the standard library that the gateway relies
//! on and that are taken on trust.

use vstd::prelude::*;

verus! {

/// `==` on string slices, of the standard library: true exactly when the two
/// slices hold the same characters.
#[verifier::external_body]
pub(crate) fn str_equal(left: &str, right: &str) -> (same: bool)
    ensures
        same == (left@ == right@),
{
    left == right
}

/// `str::starts_with` of the standard library, called with a string pattern:
/// true exactly when `prefix` matches the beginning of `text`. Both slices are
/// valid UTF-8, so a match on bytes is a match on characters.
#[verifier::external_body]
pub(crate) fn starts_with(text: &str, prefix: &str) -> (found: bool)
    ensures
        found == prefix@.is_prefix_of(text@),
{
    text.starts_with(prefix)
}

} // verus!
