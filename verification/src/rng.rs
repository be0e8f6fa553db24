//! The crate's single source of randomness.

use vstd::prelude::*;

verus! {

/// Relies on rand::random_range over `0..n`: the result is drawn uniformly
/// from the range, and the call panics only when the range is empty, which
/// the precondition rules out. Nothing more is promised of the result: the
/// callers hold for every value below `n`.
#[verifier::external_body]
pub(crate) fn random_below(n: usize) -> (r: usize)
    requires
        1 <= n,
    ensures
        r < n,
{
    rand::random_range(0..n)
}

} // verus!
