//! A synchronous source of random numbers over an asynchronous generator:
//! it hands out the last random value it received, optionally mixed with
//! caller-provided randomness, and asks for a new one once.

use vstd::prelude::*;

verus! {

/// A synchronous random number source.
pub trait SyncRNG {
    fn get_random_u32(&mut self, optional_randomness: Option<u32>) -> u32;
}

/// An asynchronous random number generator.
pub trait RNG {
    /// The number of requests for randomness made so far.
    spec fn requests(&self) -> nat;

    /// Requests more randomness; it arrives through
    /// `SyncRNGStruct::randomness_available`.
    fn get(&mut self)
        ensures
            final(self).requests() == old(self).requests() + 1,
    ;
}

/// The state of a synchronous random number source.
pub struct SyncRNGStruct<R: RNG> {
    pub random_val: u32,
    /// Whether a request to the generator is outstanding.
    pub called_rng: bool,
    pub rng: R,
}

impl<R: RNG> SyncRNGStruct<R> {
    /// A source that starts from `initial_seed`.
    pub fn new(initial_seed: u32, rng: R) -> (r: SyncRNGStruct<R>)
        ensures
            r.random_val == initial_seed,
            !r.called_rng,
            r.rng == rng,
    {
        SyncRNGStruct { random_val: initial_seed, called_rng: false, rng: rng }
    }

    /// New randomness arrived: it becomes the value handed out, and a new
    /// request may be made.
    pub fn randomness_available(&mut self, random: u32)
        ensures
            final(self).random_val == random,
            !final(self).called_rng,
            final(self).rng == old(self).rng,
    {
        self.called_rng = false;
        self.random_val = random;
    }
}

impl<R: RNG> SyncRNG for SyncRNGStruct<R> {
    /// The current random value, XORed with `optional_randomness` when
    /// given; requests a new value from the generator unless one is
    /// already requested.
    fn get_random_u32(&mut self, optional_randomness: Option<u32>) -> (r: u32)
        ensures
            r == match optional_randomness {
                Some(x) => old(self).random_val ^ x,
                None => old(self).random_val,
            },
            final(self).random_val == old(self).random_val,
            final(self).called_rng,
            old(self).called_rng ==> final(self).rng == old(self).rng,
            !old(self).called_rng ==> final(self).rng.requests() == old(self).rng.requests() + 1,
    {
        if !self.called_rng {
            self.rng.get();
            self.called_rng = true;
        }
        match optional_randomness {
            Some(randomness) => self.random_val ^ randomness,
            None => self.random_val,
        }
    }
}

} // verus!
