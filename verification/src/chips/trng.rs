//! The sam4l true random number generator: handing its words to a client.

use vstd::prelude::*;
use crate::hil::rng::{Client, Continue};

verus! {

/// The generator and the client that wants its randomness.
pub struct Trng<C: Client> {
    pub client: Option<C>,
}

impl<C: Client> Trng<C> {
    /// A generator without a client.
    pub fn new() -> (r: Self)
        ensures
            r.client is None,
    {
        Trng { client: None }
    }

    pub fn set_client(&mut self, client: C)
        ensures
            final(self).client == Some(client),
    {
        self.client = Some(client);
    }

    /// New words are ready: the client gets them and says whether it wants
    /// more (keep the interrupt on) or is done (turn the generator off).
    /// Without a client nothing happens.
    pub fn handle_interrupt(&mut self, randomness: &[u32]) -> (r: Option<Continue>)
        ensures
            old(self).client is None ==> r is None && final(self).client is None,
            old(self).client is Some ==> r is Some && final(self).client is Some && (old(self).client->0).took(
                &final(self).client->0,
                randomness,
                r->0,
            ),
    {
        match &mut self.client {
            Some(client) => Some(client.randomness_available(randomness)),
            None => None,
        }
    }
}

} // verus!
