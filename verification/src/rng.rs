//! Trusted wrappers around the process-wide random number generator.

use vstd::prelude::*;

verus! {

/// Relies on rand::random_range: a draw from the half-open range `0..n`
/// lies below `n`; the range must be nonempty or the call panics.
#[verifier::external_body]
pub(crate) fn random_below(n: u32) -> (r: u32)
    requires
        1 <= n,
    ensures
        r < n,
{
    rand::random_range(0..n)
}

/// Relies on rand::random: a draw of one bool; nothing is promised of it.
#[verifier::external_body]
pub(crate) fn random_flip() -> bool {
    rand::random::<bool>()
}

} // verus!
