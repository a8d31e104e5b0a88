//! Comparing strings.

use vstd::prelude::*;

verus! {

/// `==` of `str`, which holds exactly when the two strings are made of the
/// same characters in the same order.
#[verifier::external_body]
pub(crate) fn same_text(a: &str, b: &str) -> (same: bool)
    ensures
        same == (a@ == b@),
{
    a == b
}

} // verus!
