use rand::Rng;
use vstd::prelude::*;

verus! {

/// Relies on rand::Rng::gen_ratio, which returns true with probability
/// `numerator / denominator` and panics only when the denominator is zero or
/// smaller than the numerator; `1 / 2` is a fair coin, so the call cannot
/// panic, and nothing can be promised of the outcome.
#[verifier::external_body]
pub(crate) fn coin_flip() -> bool {
    rand::thread_rng().gen_ratio(1, 2)
}

/// Relies on rand::Rng::gen_range on the half-open range `0..n`: the sample
/// is drawn uniformly from `[0, n)`, so it is below `n`; the call panics only
/// on an empty range, which `n > 0` rules out.
#[verifier::external_body]
pub(crate) fn random_below(n: usize) -> (r: usize)
    requires
        n > 0,
    ensures
        r < n,
{
    rand::thread_rng().gen_range(0..n)
}

} // verus!
