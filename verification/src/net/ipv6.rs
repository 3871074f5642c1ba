//! The IPv6 sending layer.

pub mod ipv6_send;
