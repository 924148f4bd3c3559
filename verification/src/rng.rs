//! The pseudo-random source. Every sampling routine takes one explicitly,
//! so the library holds no hidden global state; nothing is promised about
//! the values drawn beyond their range, and every caller is verified for
//! every outcome.

use crate::fx::FX_ONE;
use vstd::prelude::*;

verus! {

#[verifier::external_type_specification]
#[verifier::external_body]
pub struct ExStdRng(rand::rngs::StdRng);

/// A seeded pseudo-random generator handed to the renderer's sampling code.
pub struct Sampler {
    rng: rand::rngs::StdRng,
}

/// Relies on rand::SeedableRng::seed_from_u64: builds a generator
/// deterministically from a 64-bit seed.
#[verifier::external_body]
fn seeded_rng(seed: u64) -> rand::rngs::StdRng {
    rand::SeedableRng::seed_from_u64(seed)
}

/// Relies on rand::Rng::gen_range on an `i64` range: returns a value of
/// the half-open range [lo, hi), and panics only when the range is empty,
/// which the precondition rules out.
#[verifier::external_body]
fn gen_range_i64(s: &mut Sampler, lo: i64, hi: i64) -> (r: i64)
    requires
        lo < hi,
    ensures
        lo <= r < hi,
{
    rand::Rng::gen_range(&mut s.rng, lo..hi)
}

impl Sampler {
    pub fn from_seed(seed: u64) -> Sampler {
        Sampler { rng: seeded_rng(seed) }
    }

    /// A scalar drawn uniformly from [0, 1).
    pub fn unit(&mut self) -> (r: i64)
        ensures
            0 <= r < FX_ONE,
    {
        gen_range_i64(self, 0, FX_ONE)
    }

    /// A scalar drawn uniformly from [-1, 1).
    pub fn symmetric(&mut self) -> (r: i64)
        ensures
            -FX_ONE <= r < FX_ONE,
    {
        gen_range_i64(self, -FX_ONE, FX_ONE)
    }

    /// An index drawn uniformly below `n`.
    pub fn below(&mut self, n: u32) -> (r: u32)
        requires
            0 < n,
        ensures
            r < n,
    {
        let v = gen_range_i64(self, 0, n as i64);
        v as u32
    }
}

} // verus!
