//! Board-level test applications of the networking stack.

pub mod ip_dummy;
pub mod icmp_lowpan_test;
pub mod lowpan_frag_dummy;
