//! Trusted wrappers around the random-number source.

use vstd::prelude::*;
use rand::Rng;

verus! {

/// Relies on `rand::thread_rng` and `rand::Rng::gen_range` over `0..n`:
/// the sampled value always lies in the half-open range, so it is below `n`.
/// `gen_range` panics on an empty range, hence `n` must be positive.
/// Nothing else is promised of the outcome.
#[verifier::external_body]
pub(crate) fn random_below(n: usize) -> (r: usize)
    requires
        n > 0,
    ensures
        r < n,
{
    rand::thread_rng().gen_range(0..n)
}

/// Relies on `rand::random::<bool>()`, the `Standard` distribution on `bool`:
/// a fair coin flip. Nothing is promised of the outcome.
#[verifier::external_body]
pub(crate) fn random_coin() -> bool {
    rand::random::<bool>()
}

} // verus!
