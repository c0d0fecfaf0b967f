//! A small linear congruential generator.

use vstd::prelude::*;

verus! {

/// The generator: its state is the number it gave last.
pub struct PseudoRandom {
    pub seed: u64,
}

/// Every number given lies below this one.
pub const MODULUS: u64 = 7499;

/// The greatest seed from which the next number can be computed in 64 bits.
pub const MAX_SEED: u64 = 348051774975651915;

/// The number that follows `seed`.
pub open spec fn successor(seed: u64) -> u64 {
    ((seed * 53 + 79) % (MODULUS as int)) as u64
}

impl PseudoRandom {
    /// A generator that starts from 0.
    pub fn new() -> (r: PseudoRandom)
        ensures
            r.seed == 0,
    {
        PseudoRandom { seed: 0 }
    }

    /// Steps to the next number and gives it.
    pub fn next(&mut self) -> (r: u64)
        requires
            old(self).seed <= MAX_SEED,
        ensures
            r == successor(old(self).seed),
            final(self).seed == r,
            r < MODULUS,
    {
        self.seed = (self.seed * 53 + 79) % 7499;
        self.seed
    }
}

} // verus!
