//! The fast linear congruential generator that drives the search, and the
//! call into `rand` that shuffles digits.
use rand::seq::SliceRandom;
use vstd::prelude::*;

verus! {

/// Multiplier of the generator's linear congruence.
pub const LCG_MULTIPLIER: u64 = 6364136223846793005;

/// The state that follows `s`: `s * LCG_MULTIPLIER + 1` modulo 2^64.
pub open spec fn lcg_step(s: u64) -> u64 {
    s.wrapping_mul(LCG_MULTIPLIER).wrapping_add(1)
}

/// A small, fast, non-cryptographic generator.
pub struct FastRng {
    pub state: u64,
}

impl FastRng {
    pub fn new(seed: u64) -> (r: Self)
        ensures
            r.state == seed,
    {
        FastRng { state: seed }
    }

    /// Advances the state and returns it.
    pub fn next(&mut self) -> (r: u64)
        ensures
            r == lcg_step(old(self).state),
            final(self).state == r,
    {
        self.state = self.state.wrapping_mul(LCG_MULTIPLIER).wrapping_add(1);
        self.state
    }

    /// A value in `[min, max)`, or `min` when the interval is empty (the state
    /// then stays as it was).
    pub fn gen_range(&mut self, min: u64, max: u64) -> (r: u64)
        ensures
            max <= min ==> r == min && final(self).state == old(self).state,
            min < max ==> {
                &&& final(self).state == lcg_step(old(self).state)
                &&& r == min + (lcg_step(old(self).state) as int) % ((max - min) as int)
                &&& min <= r < max
            },
    {
        if max <= min {
            return min;
        }
        let x = self.next();
        min + x % (max - min)
    }
}

/// Relies on `SliceRandom::shuffle` with `rand::thread_rng()`: it only swaps
/// elements, so the result is a permutation of the input.
#[verifier::external_body]
pub(crate) fn shuffle_chars(v: &mut Vec<char>)
    ensures
        final(v)@.to_multiset() == old(v)@.to_multiset(),
        final(v)@.len() == old(v)@.len(),
{
    v.shuffle(&mut rand::thread_rng());
}

} // verus!
