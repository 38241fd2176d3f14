//! Randomness shim for relay selection, puzzle generation and tick jitter.

use vstd::prelude::*;

verus! {

/// Relies on rand::random_range: it returns a value drawn from the given
/// range, and panics only when the range is empty.
#[verifier::external_body]
pub(crate) fn random_below(limit: u64) -> (r: u64)
    requires
        limit > 0,
    ensures
        r < limit,
{
    rand::random_range(0..limit)
}

} // verus!
