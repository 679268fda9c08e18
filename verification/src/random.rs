use vstd::prelude::*;
use rand::rngs::StdRng;
use rand::{Rng, SeedableRng};

verus! {

/// `rand::rngs::StdRng`, the generator that picks the tile of each fruit. Its
/// inside is not modelled.
#[verifier::external_type_specification]
#[verifier::external_body]
pub struct ExStdRng(StdRng);

/// Calls `rand::random::<u64>()`, which draws from the thread-local generator
/// that the system seeds. Nothing is claimed of the number.
#[verifier::external_body]
pub(crate) fn fresh_seed() -> u64 {
    rand::random::<u64>()
}

/// Calls `StdRng::seed_from_u64`. Nothing is claimed of the generator.
#[verifier::external_body]
pub(crate) fn seeded_generator(seed: u64) -> StdRng {
    StdRng::seed_from_u64(seed)
}

/// Calls `Rng::gen_range` with the range `0..bound`. The call panics on an
/// empty range, so `bound` must be positive; the number it returns lies in the
/// range. Which number it is depends on the generator, and nothing is claimed
/// of that.
#[verifier::external_body]
pub(crate) fn random_below(generator: &mut StdRng, bound: usize) -> (index: usize)
    requires
        bound > 0,
    ensures
        index < bound,
{
    generator.gen_range(0..bound)
}

} // verus!
