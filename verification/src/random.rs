//! Random draws from the thread-local generator of `rand`.
use rand::Rng;
use vstd::prelude::*;

verus! {

/// A uniformly random index below `n` (`rand::rng().random_range(0..n)`).
#[verifier::external_body]
pub(crate) fn random_below(n: usize) -> (r: usize)
    requires
        n > 0,
    ensures
        r < n,
{
    rand::rng().random_range(0..n)
}

} // verus!
