//! A small reproducible pseudo-random generator.
//!
//! Every token is hashed to a 64-bit value, and that value seeds a
//! xoshiro256+ generator whose state words are derived with splitmix64,
//! as the xoshiro authors recommend.  The whole derivation is defined by
//! spec functions, so the draws a token receives are a mathematical
//! function of the seed: this is what makes the engine deterministic.

use vstd::prelude::*;
use vstd::wrapping::u64_specs;

verus! {

/// State of a xoshiro256+ generator: four 64-bit words.
#[derive(Clone, Copy, PartialEq, Eq, Structural, Debug)]
pub struct RngState {
    pub s0: u64,
    pub s1: u64,
    pub s2: u64,
    pub s3: u64,
}

/// The splitmix64 state step: add the golden-ratio increment.
pub open spec fn sm_state(s: u64) -> u64 {
    u64_specs::wrapping_add(s, 0x9E3779B97F4A7C15)
}

/// The splitmix64 output mix applied to a state word.  Opaque: its
/// definition mixes multiplications and shifts that no caller needs
/// to look into.
#[verifier::opaque]
pub open spec fn sm_mix(z: u64) -> u64 {
    let z1 = u64_specs::wrapping_mul(z ^ (z >> 30), 0xBF58476D1CE4E5B9);
    let z2 = u64_specs::wrapping_mul(z1 ^ (z1 >> 27), 0x94D049BB133111EB);
    z2 ^ (z2 >> 31)
}

/// The generator state seeded from a 64-bit hash: four successive
/// splitmix64 outputs fill the four state words.
pub open spec fn seed_state(h: u64) -> RngState {
    let a0 = sm_state(h);
    let a1 = sm_state(a0);
    let a2 = sm_state(a1);
    let a3 = sm_state(a2);
    RngState { s0: sm_mix(a0), s1: sm_mix(a1), s2: sm_mix(a2), s3: sm_mix(a3) }
}

/// The output of one xoshiro256+ draw from a given state.
pub open spec fn xo_output(st: RngState) -> u64 {
    u64_specs::wrapping_add(st.s0, st.s3)
}

/// The state left behind after one xoshiro256+ draw.
pub open spec fn xo_next_state(st: RngState) -> RngState {
    let t = st.s1 << 17;
    let s2a = st.s2 ^ st.s0;
    let s3a = st.s3 ^ st.s1;
    let s1a = st.s1 ^ s2a;
    let s0a = st.s0 ^ s3a;
    RngState { s0: s0a, s1: s1a, s2: s2a ^ t, s3: (s3a << 45) | (s3a >> 19) }
}

impl RngState {
    /// Seed a generator from a 64-bit hash value.
    pub fn from_hash(h: u64) -> (r: RngState)
        ensures
            r == seed_state(h),
    {
        let a0 = h.wrapping_add(0x9E3779B97F4A7C15);
        let a1 = a0.wrapping_add(0x9E3779B97F4A7C15);
        let a2 = a1.wrapping_add(0x9E3779B97F4A7C15);
        let a3 = a2.wrapping_add(0x9E3779B97F4A7C15);
        RngState { s0: mix_word(a0), s1: mix_word(a1), s2: mix_word(a2), s3: mix_word(a3) }
    }

    /// Draw one 64-bit value and advance the state.
    pub fn next(&mut self) -> (r: u64)
        ensures
            r == xo_output(*old(self)),
            *final(self) == xo_next_state(*old(self)),
    {
        let r = self.s0.wrapping_add(self.s3);
        let t = self.s1 << 17u64;
        self.s2 = self.s2 ^ self.s0;
        self.s3 = self.s3 ^ self.s1;
        self.s1 = self.s1 ^ self.s2;
        self.s0 = self.s0 ^ self.s3;
        self.s2 = self.s2 ^ t;
        self.s3 = (self.s3 << 45u64) | (self.s3 >> 19u64);
        r
    }
}

/// The splitmix64 output mix, executable form.
fn mix_word(z: u64) -> (r: u64)
    ensures
        r == sm_mix(z),
{
    proof {
        reveal(sm_mix);
    }
    let z1 = (z ^ (z >> 30u64)).wrapping_mul(0xBF58476D1CE4E5B9);
    let z2 = (z1 ^ (z1 >> 27u64)).wrapping_mul(0x94D049BB133111EB);
    z2 ^ (z2 >> 31u64)
}

} // verus!
