//! Fragment headers and callbacks of the first 6LoWPAN fragmentation layer.

use vstd::prelude::*;
use crate::returncode::ReturnCode;
use crate::net::sixlowpan::{FRAGN_HDR, FRAG1_HDR};

verus! {

/// Receives reassembled packets; hands the buffer back.
pub trait ReceiveClient {
    fn receive(&self, buf: &'static mut [u8], len: u16, result: ReturnCode) -> &'static mut [u8];
}

/// Whether a frame payload starts with a fragment header.
pub fn is_fragment(packet: &[u8]) -> (r: bool)
    requires
        packet@.len() >= 1,
    ensures
        r == (packet@[0] & FRAGN_HDR == FRAGN_HDR || packet@[0] & FRAGN_HDR == FRAG1_HDR),
{
    let mask = packet[0] & FRAGN_HDR;
    (mask == FRAGN_HDR) || (mask == FRAG1_HDR)
}

} // verus!
