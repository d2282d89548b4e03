//! Random sampling, behind a seeded generator.
//!
//! Each rendering task owns one `Sampler` and passes it to every routine that
//! draws randomness, so independent tasks get independent streams and a fixed
//! seed reproduces a render exactly.

use vstd::prelude::*;
use rand::rngs::StdRng;

verus! {

#[verifier::external_type_specification]
#[verifier::external_body]
pub struct ExStdRng(StdRng);

/// A pseudo-random source owned by one rendering task.
pub struct Sampler {
    rng: StdRng,
}

impl Sampler {
    /// Relies on rand::SeedableRng::seed_from_u64: builds a generator from a
    /// word-sized seed; the same seed gives the same stream.
    #[verifier::external_body]
    pub fn new(seed: u64) -> (r: Sampler) {
        Sampler { rng: <StdRng as rand::SeedableRng>::seed_from_u64(seed) }
    }

    /// Relies on rand::Rng::gen_range: a draw from `lo..hi` lies in that
    /// range; the call panics only on an empty range, which the
    /// precondition rules out.
    #[verifier::external_body]
    pub fn next_in_range(&mut self, lo: i64, hi: i64) -> (r: i64)
        requires
            lo < hi,
        ensures
            lo <= r < hi,
    {
        rand::Rng::gen_range(&mut self.rng, lo..hi)
    }
}

} // verus!
