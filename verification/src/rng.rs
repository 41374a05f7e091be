//! Deterministic pseudo-random number generator.
//!
//! The game uses randomness for brick jitter, firing spread and particle
//! directions.  Rather than ambient global randomness, the simulation owns a
//! seedable xorshift generator, so a run is reproducible from its seed and
//! every draw is pinned exactly by the contracts.

use vstd::prelude::*;

verus! {

/// One xorshift64 step.
pub open spec fn spec_next(s: u64) -> u64 {
    let a = s ^ (s << 13);
    let b = a ^ (a >> 7);
    b ^ (b << 17)
}

/// The state a fresh generator starts from: the seed itself, except that
/// a zero seed is replaced by a fixed odd constant, since the all-zero
/// xorshift state never leaves zero.
pub open spec fn spec_seed_state(seed: u64) -> u64 {
    if seed == 0 {
        0x9e3779b97f4a7c15u64
    } else {
        seed
    }
}

/// The draw taken from state `s` when asked for a value in `[lo, hi]`.
pub open spec fn spec_range(s: u64, lo: int, hi: int) -> int {
    lo + spec_next(s) as int % (hi - lo + 1)
}

/// Seedable xorshift64 generator.
pub struct Rng {
    /// Current generator state.
    pub state: u64,
}

impl Rng {
    /// A generator seeded with `seed`, starting from `spec_seed_state`.
    pub fn new(seed: u64) -> (r: Rng)
        ensures
            r.state == spec_seed_state(seed),
    {
        if seed == 0 {
            Rng { state: 0x9e3779b97f4a7c15u64 }
        } else {
            Rng { state: seed }
        }
    }

    /// Advance the state once and hand the new state back.
    pub fn next_u64(&mut self) -> (r: u64)
        ensures
            final(self).state == spec_next(old(self).state),
            r == final(self).state,
    {
        let s0: u64 = self.state;
        let a: u64 = s0 ^ (s0 << 13u64);
        let b: u64 = a ^ (a >> 7u64);
        let c: u64 = b ^ (b << 17u64);
        self.state = c;
        c
    }

    /// A draw in `[lo, hi]`, pinned exactly by the state.
    pub fn range_i64(&mut self, lo: i64, hi: i64) -> (r: i64)
        requires
            lo <= hi,
            hi - lo < 0x8000000000000000,
        ensures
            final(self).state == spec_next(old(self).state),
            r == spec_range(old(self).state, lo as int, hi as int),
            lo <= r <= hi,
    {
        let span: u64 = ((hi - lo) as u64) + 1;
        let x: u64 = self.next_u64();
        let d: u64 = x % span;
        lo + (d as i64)
    }
}

} // verus!
