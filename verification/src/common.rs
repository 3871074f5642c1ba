//! Kernel data structures shared by drivers and processes.

pub mod ring_buffer;
pub mod math;
