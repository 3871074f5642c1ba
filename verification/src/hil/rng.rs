//! Random number generators.

use vstd::prelude::*;

verus! {

/// Whether a consumer of randomness wants more.
#[derive(Copy, Clone, Debug, PartialEq, Eq, Structural)]
pub enum Continue {
    More,
    Done,
}

/// Receives random words as the generator produces them.
pub trait Client {
    /// Whether `after` is this client once it was handed `randomness` and
    /// answered `r`.
    spec fn took(&self, after: &Self, randomness: &[u32], r: Continue) -> bool;

    /// `randomness` holds the words available now.
    fn randomness_available(&mut self, randomness: &[u32]) -> (r: Continue)
        ensures
            old(self).took(final(self), randomness, r),
    ;
}

} // verus!
