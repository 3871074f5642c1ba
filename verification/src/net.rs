//! The networking stack: stream primitives, IPv6 and transport headers,
//! 6LoWPAN compression and fragmentation, and the Deluge update protocol.

pub mod stream;
pub mod util;
pub mod ip6;
pub mod lowpan;
pub mod lowpan_compress;
pub mod lowpan_decompress;
pub mod lowpan_roundtrip;
pub mod udp;
pub mod icmp;
pub mod tcp;
pub mod frag_utils;
pub mod sixlowpan;
pub mod lowpan_fragment;
pub mod ipv6;
pub mod ip_state;
pub mod deluge;
pub mod ieee802154;
pub mod ip;
