//! The source of the randomly drawn initial parameters.
//!
//! The generator is seeded explicitly, so construction of a network is
//! reproducible. Only the raw 64-bit draw is trusted; the mapping onto
//! the parameter range `[-1, 1)` is verified. Since 2^33 divides 2^64,
//! the mapped value is uniform over the range whenever the draw is
//! uniform over the 64-bit words.

use vstd::prelude::*;

use rand::RngCore;
use rand::SeedableRng;

use crate::fixed::Fx;
use crate::fixed::ONE_RAW;

verus! {

// rand's standard generator, declared so that it can stand in a field.
#[verifier::external_type_specification]
#[verifier::external_body]
pub struct ExStdRng(rand::rngs::StdRng);

/// A seedable stream of random initial parameters.
pub struct WeightSource {
    rng: rand::rngs::StdRng,
}

impl WeightSource {
    /// Relies on rand's `StdRng::seed_from_u64` (`SeedableRng`): builds
    /// a generator from the given seed.
    #[verifier::external_body]
    pub fn from_seed(seed: u64) -> WeightSource {
        WeightSource { rng: rand::rngs::StdRng::seed_from_u64(seed) }
    }

    /// Relies on rand's `RngCore::next_u64` for `StdRng`: the next word
    /// of the stream. Nothing is promised of the value.
    #[verifier::external_body]
    fn next_word(&mut self) -> u64 {
        self.rng.next_u64()
    }

    /// A fresh parameter, always within `[-1, 1)`.
    pub fn next_weight(&mut self) -> (w: Fx)
        ensures
            -(ONE_RAW as int) <= w@ < ONE_RAW as int,
    {
        let x: u64 = self.next_word();
        let m: u64 = x % (2 * (ONE_RAW as u64));
        let raw: i64 = (m as i64) - ONE_RAW;
        Fx::from_raw(raw)
    }
}

} // verus!
