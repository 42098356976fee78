//! Seeded pseudo-random generator for obstacle gap placement.
//!
//! The generator is a classic 128-bit xorshift: four 32-bit words of state,
//! advanced by a fixed sequence of shifts and xors.  It is a pure function
//! of its seed, so a run of the game can be replayed exactly from the seed.

use vstd::prelude::*;

verus! {

/// Pseudo-random generator state: four 32-bit words, set by the seed.
#[derive(Clone, Copy, Debug, PartialEq, Eq, Structural)]
pub struct RandomSource {
    pub s0: u32,
    pub s1: u32,
    pub s2: u32,
    pub s3: u32,
}

/// The state after one advance of the xorshift rule.
pub open spec fn spec_next_state(s: RandomSource) -> RandomSource {
    let t0 = s.s3 ^ (s.s3 << 11u32);
    let t1 = t0 ^ (t0 >> 8u32);
    RandomSource {
        s0: t1 ^ s.s0 ^ (s.s0 >> 19u32),
        s1: s.s0,
        s2: s.s1,
        s3: s.s2,
    }
}

/// The value one advance produces: the freshly mixed word.
pub open spec fn spec_next_value(s: RandomSource) -> u32 {
    spec_next_state(s).s0
}

impl RandomSource {
    /// Builds a generator from a four-word seed.  The same seed always
    /// yields the same sequence of values.
    pub fn new_with_seed(seed: [u32; 4]) -> (r: Self)
        ensures
            r.s0 == seed[0],
            r.s1 == seed[1],
            r.s2 == seed[2],
            r.s3 == seed[3],
    {
        RandomSource { s0: seed[0], s1: seed[1], s2: seed[2], s3: seed[3] }
    }

    /// Advances the state once and returns the produced word.
    pub fn next_value(&mut self) -> (r: u32)
        ensures
            *final(self) == spec_next_state(*old(self)),
            r == spec_next_value(*old(self)),
    {
        let t0 = self.s3 ^ (self.s3 << 11u32);
        let t1 = t0 ^ (t0 >> 8u32);
        let out = t1 ^ self.s0 ^ (self.s0 >> 19u32);
        self.s3 = self.s2;
        self.s2 = self.s1;
        self.s1 = self.s0;
        self.s0 = out;
        out
    }

    /// Advances the state once and returns a value in `[0, n)`.
    pub fn next_bounded(&mut self, n: u32) -> (r: u32)
        requires
            n > 0,
        ensures
            *final(self) == spec_next_state(*old(self)),
            r == spec_next_value(*old(self)) % n,
            r < n,
    {
        let v = self.next_value();
        v % n
    }
}

} // verus!
