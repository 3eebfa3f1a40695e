//! Uniform random choice, through the `rand` crate.

use vstd::prelude::*;

verus! {

/// Relies on `rand::random_range` over `0..n`: a value sampled from the
/// range by the thread-local generator, so always strictly below `n`; the
/// call panics only on an empty range, which the precondition excludes.
#[verifier::external_body]
pub(crate) fn random_index(n: usize) -> (r: usize)
    requires
        n > 0,
    ensures
        r < n,
{
    rand::random_range(0..n)
}

} // verus!
