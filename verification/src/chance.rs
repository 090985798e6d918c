//! The source of chance for randomized ballots.

use vstd::prelude::*;
use rand::rngs::ThreadRng;
use rand::Rng;

verus! {

/// The thread-local generator of the `rand` crate, carried through as an
/// opaque value.
#[verifier::external_type_specification]
#[verifier::external_body]
pub struct ExThreadRng(ThreadRng);

/// `rand::thread_rng` hands out the generator of the current thread.
/// Nothing is claimed of it.
pub assume_specification[ rand::thread_rng ]() -> (rng: ThreadRng);

/// Calls `Rng::gen_range` of the `rand` crate on the half-open range
/// from `low` to `high`, which must not be empty. The outcome is some
/// number of that range; which one is left open.
#[verifier::external_body]
pub(crate) fn pick_in(rng: &mut ThreadRng, low: usize, high: usize) -> (k: usize)
    requires
        low < high,
    ensures
        low <= k < high,
{
    rng.gen_range(low..high)
}

} // verus!
