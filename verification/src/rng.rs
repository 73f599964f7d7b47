//! The pseudo-random source of zone placement: a seeded generator of the
//! `rand` crate, reached through two unverified wrappers.

use rand::rngs::StdRng;
use rand::Rng;
use rand::SeedableRng;
use vstd::prelude::*;

verus! {

/// The seeded generator of the `rand` crate. Nothing of its state is visible
/// to proofs: it is created, handed on and drawn from.
#[verifier::external_type_specification]
#[verifier::external_body]
pub struct ExStdRng(StdRng);

/// Calls `StdRng::seed_from_u64`. Nothing is claimed of the generator that
/// comes back.
#[verifier::external_body]
pub(crate) fn seeded_generator(seed: u64) -> StdRng {
    StdRng::seed_from_u64(seed)
}

/// Calls `Rng::gen_range` on the half-open range `low..high`, which panics on
/// an empty range and otherwise returns a member of it. Only the membership is
/// claimed; which member comes back is not.
#[verifier::external_body]
pub(crate) fn draw_in_range(rng: &mut StdRng, low: usize, high: usize) -> (r: usize)
    requires
        low < high,
    ensures
        low <= r < high,
{
    rng.gen_range(low..high)
}

} // verus!
