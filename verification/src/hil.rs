//! Hardware interface traits that capsules are written against.

pub mod time;
pub mod flash;
pub mod radio;
pub mod rng;
pub mod sensors;
