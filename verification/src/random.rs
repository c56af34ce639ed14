//! The caller-supplied random source that room placement consumes.
//!
//! Placement is a pure function of its inputs and this stream; callers that
//! need reproducible dungeons seed the source explicitly instead of reaching
//! for a process-global generator.

use vstd::prelude::*;

verus! {

#[verifier::external_type_specification]
#[verifier::external_body]
pub struct ExStdRng(rand::rngs::StdRng);

/// A seeded pseudorandom source of uniform integers in a closed range.
pub struct RandomSource {
    rng: rand::rngs::StdRng,
}

impl RandomSource {
    /// Relies on rand's `StdRng::seed_from_u64`, which builds a generator
    /// from the seed and never fails.
    #[verifier::external_body]
    pub fn from_seed(seed: u64) -> RandomSource {
        RandomSource { rng: <rand::rngs::StdRng as rand::SeedableRng>::seed_from_u64(seed) }
    }

    /// Relies on rand's `Rng::gen_range` over the inclusive range `lo..=hi`:
    /// it panics only on an empty range, which the precondition rules out,
    /// and otherwise returns a uniform draw within the range.
    #[verifier::external_body]
    pub(crate) fn next_in_range(&mut self, lo: i32, hi: i32) -> (r: i32)
        requires
            lo <= hi,
        ensures
            lo <= r <= hi,
    {
        rand::Rng::gen_range(&mut self.rng, lo..=hi)
    }
}

} // verus!
