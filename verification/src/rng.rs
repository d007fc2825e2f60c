//! A deterministic pseudo-random stream with an exact specification.
//!
//! Rendering draws randomness pervasively (sub-pixel jitter, diffuse
//! bounces, the lens disk, the dielectric branch choice). Instead of a
//! shared global generator, every consumer is handed an explicit `Rng`
//! seeded by the caller, which keeps workers contention-free and renders
//! reproducible. The generator is the additive-constant/mix construction
//! of splitmix64; both the state step and the output mix are specified
//! bit for bit, so two generators with equal seeds provably emit equal
//! streams.

use vstd::prelude::*;

verus! {

/// The state advance: one additive step of the golden-ratio constant.
pub open spec fn rng_step(s: u64) -> u64 {
    s.wrapping_add(0x9E37_79B9_7F4A_7C15)
}

/// The output mix applied to a state.
pub open spec fn rng_mix(s: u64) -> u64 {
    let z1 = (s ^ (s >> 30u64)).wrapping_mul(0xBF58_476D_1CE4_E5B9);
    let z2 = (z1 ^ (z1 >> 27u64)).wrapping_mul(0x94D0_49BB_1331_11EB);
    z2 ^ (z2 >> 31u64)
}

/// The value of `next_unit` drawn from a state: the top 16 bits of the
/// mixed output, a fixed-point number in [0, 1).
pub open spec fn rng_unit(s: u64) -> i64 {
    (rng_mix(rng_step(s)) >> 48u64) as i64
}

/// An explicitly seeded pseudo-random generator.
#[derive(Clone, Copy, Debug, PartialEq, Eq, Structural)]
pub struct Rng {
    pub state: u64,
}

impl Rng {
    pub fn new(seed: u64) -> (r: Rng)
        ensures
            r.state == seed,
    {
        Rng { state: seed }
    }

    /// A generator for stream `index` of a render seeded with `seed`;
    /// streams of distinct indices start from decorrelated states.
    pub fn stream(seed: u64, index: u64) -> (r: Rng)
        ensures
            r.state == rng_mix(rng_step(seed ^ rng_mix(rng_step(index)))),
    {
        let base: Rng = Rng { state: index };
        let salt: u64 = base.peek();
        let mixed: Rng = Rng { state: seed ^ salt };
        let state0: u64 = mixed.peek();
        Rng { state: state0 }
    }

    /// The next output without advancing the state.
    fn peek(self) -> (r: u64)
        ensures
            r == rng_mix(rng_step(self.state)),
    {
        let s: u64 = self.state.wrapping_add(0x9E37_79B9_7F4A_7C15);
        let z1: u64 = (s ^ (s >> 30u64)).wrapping_mul(0xBF58_476D_1CE4_E5B9);
        let z2: u64 = (z1 ^ (z1 >> 27u64)).wrapping_mul(0x94D0_49BB_1331_11EB);
        z2 ^ (z2 >> 31u64)
    }

    /// Draw 64 fresh bits.
    pub fn next_u64(&mut self) -> (r: u64)
        ensures
            final (self).state == rng_step(old(self).state),
            r == rng_mix(final (self).state),
    {
        self.state = self.state.wrapping_add(0x9E37_79B9_7F4A_7C15);
        self.peek_current()
    }

    /// The mix of the state as it stands.
    fn peek_current(&self) -> (r: u64)
        ensures
            r == rng_mix(self.state),
    {
        let z1: u64 = (self.state ^ (self.state >> 30u64)).wrapping_mul(0xBF58_476D_1CE4_E5B9);
        let z2: u64 = (z1 ^ (z1 >> 27u64)).wrapping_mul(0x94D0_49BB_1331_11EB);
        z2 ^ (z2 >> 31u64)
    }

    /// Draw a fixed-point number uniform in [0, 1): 65536 values.
    pub fn next_unit(&mut self) -> (r: i64)
        ensures
            final (self).state == rng_step(old(self).state),
            r == rng_unit(old(self).state),
            0 <= r < 65536,
    {
        let w: u64 = self.next_u64();
        proof {
            assert((w >> 48u64) < 0x1_0000) by (bit_vector);
        }
        (w >> 48u64) as i64
    }
}

} // verus!
