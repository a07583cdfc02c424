//! Deterministic pseudorandom sampling.
//!
//! The renderer draws all of its randomness from an explicit generator that
//! is passed by parameter and advances by a fixed mixing function, so a
//! render is a function of the scene, the camera and the seed alone. A
//! fresh, nondeterministic seed can be drawn from the process entropy
//! source when reproducibility is not wanted.

use crate::fixed::{spec_add, spec_mul, spec_sub, fx_add, fx_mul, fx_sub, FX_ONE};
use vstd::prelude::*;

verus! {

/// Additive stream constant of the generator.
pub const GOLD: u64 = 0x9e37_79b9_7f4a_7c15;

/// First multiplicative mixing constant.
pub const MIX1: u64 = 0xbf58_476d_1ce4_e5b9;

/// Second multiplicative mixing constant.
pub const MIX2: u64 = 0x94d0_49bb_1331_11eb;

/// Addition on 64 bits, wrapping around.
pub open spec fn wadd(a: u64, b: u64) -> u64 {
    ((a as nat + b as nat) % 0x1_0000_0000_0000_0000) as u64
}

/// Multiplication on 64 bits, wrapping around.
pub open spec fn wmul(a: u64, b: u64) -> u64 {
    ((a as nat * b as nat) % 0x1_0000_0000_0000_0000) as u64
}

/// The output mixing of the generator, applied to a fresh state word.
#[verifier::opaque]
pub open spec fn spec_scramble(z0: u64) -> u64 {
    let z1 = wmul(z0 ^ (z0 >> 30), MIX1);
    let z2 = wmul(z1 ^ (z1 >> 27), MIX2);
    z2 ^ (z2 >> 31)
}

/// The state that follows a given state.
pub open spec fn spec_next_state(s: u64) -> u64 {
    wadd(s, GOLD)
}

/// The word the generator hands out when stepped from state `s`.
pub open spec fn spec_output(s: u64) -> u64 {
    spec_scramble(spec_next_state(s))
}

/// The fixed-point fraction in `[0, FX_ONE)` drawn when stepped from `s`.
pub open spec fn spec_fx01(s: u64) -> i64 {
    (spec_output(s) % (FX_ONE as u64)) as i64
}

/// The bounded fixed-point draw `min + (max - min) * u` with `u` in `[0, 1)`.
pub open spec fn spec_fx_bounded(min: i64, max: i64, s: u64) -> i64 {
    spec_add(
        min as int,
        spec_mul(spec_sub(max as int, min as int), spec_fx01(s) as int),
    ) as i64
}

/// The generator state that starts sub-stream `k` of master seed `seed`;
/// distinct rows of an image render from distinct sub-streams.
pub open spec fn spec_stream_state(seed: u64, k: u64) -> u64 {
    wadd(seed, wmul(wadd(k, 1), GOLD))
}

/// Wrapping 64-bit addition.
fn wrap_add(a: u64, b: u64) -> (r: u64)
    ensures
        r == wadd(a, b),
{
    let s: u128 = a as u128 + b as u128;
    (s % 0x1_0000_0000_0000_0000u128) as u64
}

/// Wrapping 64-bit multiplication.
fn wrap_mul(a: u64, b: u64) -> (r: u64)
    ensures
        r == wmul(a, b),
{
    proof {
        assert((a as int) * (b as int) < 0x1_0000_0000_0000_0000_0000_0000_0000_0000)
            by (nonlinear_arith)
            requires
                0 <= (a as int) < 0x1_0000_0000_0000_0000,
                0 <= (b as int) < 0x1_0000_0000_0000_0000,
        ;
    }
    let p: u128 = (a as u128) * (b as u128);
    (p % 0x1_0000_0000_0000_0000u128) as u64
}

/// An explicit pseudorandom generator: 64 bits of state, advanced by a
/// constant step and read through a mixing function.
pub struct Prng {
    pub state: u64,
}

impl Prng {
    /// A generator starting from the given seed.
    pub fn new(seed: u64) -> (r: Prng)
        ensures
            r.state == seed,
    {
        Prng { state: seed }
    }

    /// A generator seeded from the process entropy source.
    pub fn from_entropy() -> (r: Prng) {
        Prng { state: entropy_seed() }
    }

    /// The generator for sub-stream `k` of master seed `seed`.
    pub fn stream(seed: u64, k: u64) -> (r: Prng)
        ensures
            r.state == spec_stream_state(seed, k),
    {
        let step: u64 = wrap_mul(wrap_add(k, 1), GOLD);
        Prng { state: wrap_add(seed, step) }
    }

    /// Draw one word and advance the state.
    pub fn next_u64(&mut self) -> (r: u64)
        ensures
            final (self).state == spec_next_state(old(self).state),
            r == spec_output(old(self).state),
    {
        proof {
            reveal(spec_scramble);
        }
        self.state = wrap_add(self.state, GOLD);
        let z0: u64 = self.state;
        let z1: u64 = wrap_mul(z0 ^ (z0 >> 30), MIX1);
        let z2: u64 = wrap_mul(z1 ^ (z1 >> 27), MIX2);
        z2 ^ (z2 >> 31)
    }

    /// Draw a fixed-point fraction uniform in `[0, 1)`.
    pub fn random_fx(&mut self) -> (r: i64)
        ensures
            final (self).state == spec_next_state(old(self).state),
            r == spec_fx01(old(self).state),
            0 <= r < FX_ONE,
    {
        let w: u64 = self.next_u64();
        (w % (FX_ONE as u64)) as i64
    }

    /// Draw a fixed-point value uniform in `[min, max)` as `min + (max - min) * u`.
    pub fn random_fx_bounded(&mut self, min: i64, max: i64) -> (r: i64)
        ensures
            final (self).state == spec_next_state(old(self).state),
            r == spec_fx_bounded(min, max, old(self).state),
    {
        let u: i64 = self.random_fx();
        fx_add(min, fx_mul(fx_sub(max, min), u))
    }
}

/// Relies on rand::random::<u64>, which draws a word from the thread-local
/// generator; nothing is assumed of the value.
#[verifier::external_body]
fn entropy_seed() -> u64 {
    rand::random::<u64>()
}

} // verus!
