//! A sample capsule that greets the world.

use vstd::prelude::*;
use crate::hil::time::{Alarm, Client};
use crate::hil::sensors::{AmbientLight, AmbientLightClient};

verus! {

/// The sample capsule, with an alarm and a light sensor it does not use yet.
pub struct Sensys<'a, A: Alarm, L: AmbientLight> {
    pub alarm: &'a A,
    pub light: &'a L,
}

impl<'a, A: Alarm, L: AmbientLight> Sensys<'a, A, L> {
    pub fn new(alarm: &'a A, light: &'a L) -> (r: Self)
        ensures
            r.alarm == alarm,
            r.light == light,
    {
        Sensys { alarm: alarm, light: light }
    }

    /// The greeting to print when the capsule starts.
    pub fn start(&self) -> (r: &'static str)
        ensures
            r@ == "Hello World"@,
    {
        "Hello World"
    }
}

impl<'a, A: Alarm, L: AmbientLight> Client for Sensys<'a, A, L> {
    /// An alarm leaves the capsule as it was.
    open spec fn alarm_handled(&self, after: &Self) -> bool {
        *after == *self
    }

    fn fired(&mut self) {
    }
}

impl<'a, A: Alarm, L: AmbientLight> AmbientLightClient for Sensys<'a, A, L> {
    fn callback(&mut self, lux: usize) {
    }
}

} // verus!
