//! Comparison of texts.

use vstd::prelude::*;

verus! {

/// `str` equality: two texts are equal if they hold the same characters.
#[verifier::external_body]
pub(crate) fn text_eq(a: &str, b: &str) -> (r: bool)
    ensures
        r == (a@ == b@),
{
    a == b
}

} // verus!
