//! Sensor interfaces.

use vstd::prelude::*;
use crate::returncode::ReturnCode;

verus! {

/// An ambient light sensor.
pub trait AmbientLight {
    /// Starts a reading; the value arrives through the client.
    fn read_light_intensity(&self) -> ReturnCode;
}

/// Receives ambient light readings, in lux.
pub trait AmbientLightClient {
    fn callback(&mut self, lux: usize);
}

} // verus!
