//! The parts of the chip drivers that decide rather than touch registers.

pub mod uart;
pub mod ast;
pub mod trng;
