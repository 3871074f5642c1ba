//! The Trickle timer interface Deluge uses to pace its advertisements.

use vstd::prelude::*;

verus! {

/// A Trickle timer.
pub trait Trickle {
    /// The size of the current interval.
    spec fn current_interval(&self) -> usize;

    /// The smallest interval size.
    spec fn min_interval(&self) -> usize;

    /// Whether each transmission heard so far was consistent, in the order
    /// they were heard.
    spec fn heard(&self) -> Seq<bool>;

    /// Starts the first interval, of the smallest size.
    fn initialize(&mut self)
        ensures
            final(self).current_interval() == old(self).min_interval(),
            final(self).min_interval() == old(self).min_interval(),
    ;

    /// Hears a transmission that was consistent or not.
    fn received_transmission(&mut self, is_consistent: bool)
        ensures
            final(self).heard() == old(self).heard().push(is_consistent),
    ;

    fn get_current_interval(&self) -> (r: usize)
        ensures
            r == self.current_interval(),
    ;
}

/// Transmits on behalf of a Trickle timer and learns of new intervals.
pub trait TrickleClient {
    fn transmit(&mut self);

    fn new_interval(&mut self);
}

} // verus!
