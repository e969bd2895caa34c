//! A deterministic pseudo-random generator (splitmix64).
//!
//! The generator is an explicit value seeded by the caller, so a render is a
//! pure function of the scene, the camera and the seed; seeding from the
//! operating system's entropy goes through the one trusted call into `rand`.

use vstd::prelude::*;
use vstd::wrapping::u64_specs;
use crate::fixed::SCALE;

verus! {

/// The splitmix64 state increment.
pub const GOLDEN_GAMMA: u64 = 0x9E3779B97F4A7C15;

/// First multiplier of the splitmix64 output mix.
pub const MIX_A: u64 = 0xBF58476D1CE4E5B9;

/// Second multiplier of the splitmix64 output mix.
pub const MIX_B: u64 = 0x94D049BB133111EB;

#[derive(Debug, Clone, Copy, PartialEq, Eq, Structural)]
pub struct Rng {
    pub state: u64,
}

/// The state after one draw.
pub open spec fn spec_rng_next(s: u64) -> u64 {
    u64_specs::wrapping_add(s, GOLDEN_GAMMA)
}

/// The 64-bit word one draw yields: the splitmix64 finalizer applied to the
/// advanced state.
pub open spec fn spec_rng_output(s: u64) -> u64 {
    let z0 = spec_rng_next(s);
    let z1 = u64_specs::wrapping_mul(z0 ^ (z0 >> 30u64), MIX_A);
    let z2 = u64_specs::wrapping_mul(z1 ^ (z1 >> 27u64), MIX_B);
    z2 ^ (z2 >> 31u64)
}

/// A unit draw: the top 16 bits of the output word, a scalar in `[0, 1)`.
pub open spec fn spec_rng_unit(s: u64) -> i64 {
    (spec_rng_output(s) >> 48u64) as i64
}

impl Rng {
    /// A generator with an explicit seed, for reproducible renders.
    pub fn new(seed: u64) -> (r: Rng)
        ensures
            r.state == seed,
    {
        Rng { state: seed }
    }

    /// Advance the state once and return the mixed output word.
    pub fn next_u64(&mut self) -> (r: u64)
        ensures
            final(self).state == spec_rng_next(old(self).state),
            r == spec_rng_output(old(self).state),
    {
        self.state = self.state.wrapping_add(GOLDEN_GAMMA);
        let z0 = self.state;
        let z1 = (z0 ^ (z0 >> 30u64)).wrapping_mul(MIX_A);
        let z2 = (z1 ^ (z1 >> 27u64)).wrapping_mul(MIX_B);
        z2 ^ (z2 >> 31u64)
    }

    /// One scalar draw, uniform over the `SCALE` representable values of
    /// `[0, 1)`.
    pub fn next_unit(&mut self) -> (r: i64)
        ensures
            final(self).state == spec_rng_next(old(self).state),
            r == spec_rng_unit(old(self).state),
            0 <= r < SCALE,
    {
        let x = self.next_u64();
        proof {
            assert(x >> 48u64 < 65536u64) by (bit_vector);
        }
        (x >> 48u64) as i64
    }

    /// A generator seeded from the operating system's entropy.  Nothing is
    /// promised of the seed; every draw is specified as a function of it.
    pub fn from_entropy() -> (r: Rng)
    {
        Rng { state: entropy_seed() }
    }
}

/// Relies on rand::random: one word from the thread-local generator, freshly
/// drawn on every call.  Nothing can be promised of a random value.
#[verifier::external_body]
fn entropy_seed() -> u64 {
    rand::random::<u64>()
}

/// Every unit draw lies in `[0, 1)`.
pub proof fn lemma_rng_unit_bounds(s: u64)
    ensures
        0 <= spec_rng_unit(s) < SCALE,
{
    let y = spec_rng_output(s);
    assert(y >> 48u64 < 65536u64) by (bit_vector);
}

} // verus!
