//! The randomness the ball lifecycle draws on, behind thin wrappers:
//! nothing downstream depends on more than the stated ranges.

use vstd::prelude::*;

verus! {

use rand::Rng;

/// Relies on rand::random::<bool>: a coin flip. Nothing is promised
/// of the outcome; callers handle both.
#[verifier::external_body]
pub(crate) fn coin_flip() -> bool {
    rand::random()
}

/// Relies on rand::Rng::gen_range on the half-open range `lo..hi`:
/// it panics when the range is empty and otherwise samples from it,
/// so the result lies in `[lo, hi)`.
#[verifier::external_body]
pub(crate) fn sample_range(lo: i64, hi: i64) -> (r: i64)
    requires
        lo < hi,
    ensures
        lo <= r < hi,
{
    rand::thread_rng().gen_range(lo..hi)
}

} // verus!
