//! The pseudo-random source every operator draws its entropy from.
use vstd::prelude::*;

verus! {

/// A stateful generator of uniform random integers. Operators take it as an
/// exclusively-borrowed parameter, so deterministic replay only needs a
/// deterministic implementation (see `XorShift64Rand` and `FixedRand`).
pub trait Rand {
    /// Draw an integer in `[0, bound)`. Calling with `bound == 0` is a
    /// caller error and is excluded by contract.
    fn below(&mut self, bound: u64) -> (r: u64)
        requires
            bound > 0,
        ensures
            r < bound,
    ;

    /// Draw an integer in `[lo, hi]`, both ends included.
    fn between(&mut self, lo: u64, hi: u64) -> (r: u64)
        requires
            lo <= hi,
        ensures
            lo <= r <= hi,
    ;
}

/// A xorshift generator: fast, deterministic under a seed, and good enough
/// for fuzzing entropy.
pub struct XorShift64Rand {
    pub state: u64,
}

impl XorShift64Rand {
    /// A zero seed would make xorshift degenerate, so it is replaced by a
    /// fixed nonzero constant.
    pub fn with_seed(seed: u64) -> (r: XorShift64Rand) {
        if seed == 0 {
            XorShift64Rand { state: 0x9e3779b97f4a7c15 }
        } else {
            XorShift64Rand { state: seed }
        }
    }

    /// Advance the state and hand out the next raw 64-bit value.
    pub fn next_u64(&mut self) -> u64 {
        let mut x: u64 = self.state;
        x = x ^ (x << 13);
        x = x ^ (x >> 7);
        x = x ^ (x << 17);
        self.state = x;
        x
    }
}

impl Rand for XorShift64Rand {
    fn below(&mut self, bound: u64) -> (r: u64) {
        self.next_u64() % bound
    }

    fn between(&mut self, lo: u64, hi: u64) -> (r: u64) {
        if hi - lo == u64::MAX {
            self.next_u64()
        } else {
            lo + self.next_u64() % (hi - lo + 1)
        }
    }
}

/// A scripted random source: hands back the given values in order (reduced
/// modulo the requested bound), then zeroes once the script is exhausted.
/// Lets a caller force an operator's choices, which makes scenario tests and
/// replay exact.
pub struct FixedRand {
    pub values: Vec<u64>,
    pub pos: usize,
}

impl FixedRand {
    pub fn new(values: Vec<u64>) -> (r: FixedRand) {
        FixedRand { values, pos: 0 }
    }

    fn next_scripted(&mut self) -> u64 {
        if self.pos < self.values.len() {
            let v = self.values[self.pos];
            self.pos = self.pos + 1;
            v
        } else {
            0
        }
    }
}

impl Rand for FixedRand {
    fn below(&mut self, bound: u64) -> (r: u64) {
        self.next_scripted() % bound
    }

    fn between(&mut self, lo: u64, hi: u64) -> (r: u64) {
        if hi - lo == u64::MAX {
            self.next_scripted()
        } else {
            lo + self.next_scripted() % (hi - lo + 1)
        }
    }
}

} // verus!
