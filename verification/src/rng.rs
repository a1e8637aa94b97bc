//! A seeded pseudorandom source for Monte Carlo sampling.
//!
//! The generator itself comes from the `rand` crate; every draw enters
//! verified code through `below`, whose contract states only the range of
//! the result, so all reasoning holds for every possible outcome.

use vstd::prelude::*;

verus! {

/// Declares `rand`'s standard generator type so a field can hold one.
#[verifier::external_type_specification]
#[verifier::external_body]
pub struct ExStdRng(rand::rngs::StdRng);

/// A deterministic pseudorandom stream. Seeding it identically replays
/// the same draws, which makes renders reproducible.
pub struct RandSrc {
    generator: rand::rngs::StdRng,
}

impl RandSrc {
    /// Relies on `rand::SeedableRng::seed_from_u64` to build the standard
    /// generator from a 64-bit seed.
    #[verifier::external_body]
    pub fn from_seed(seed: u64) -> RandSrc {
        RandSrc { generator: rand::SeedableRng::seed_from_u64(seed) }
    }

    /// Relies on `rand::Rng::gen_range` to draw uniformly from `[0, n)`.
    #[verifier::external_body]
    pub fn below(&mut self, n: u64) -> (r: u64)
        requires
            n > 0,
        ensures
            r < n,
    {
        rand::Rng::gen_range(&mut self.generator, 0..n)
    }
}

} // verus!
