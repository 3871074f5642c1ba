//! The TCP header and packet layout. TCP itself is not implemented; the
//! types name the TCP case of a transport header.

use vstd::prelude::*;

verus! {

/// A TCP header.
#[derive(Copy, Clone, Debug)]
pub struct TCPHeader {
    pub src_port: u16,
    pub dst_port: u16,
    pub seq_num: u32,
    pub ack_num: u32,
    pub offset_and_control: u16,
    pub window: u16,
    pub cksum: u16,
    pub urg_ptr: u16,
}

/// A TCP packet: its header and payload.
pub struct TCPPacket<'a> {
    pub head: TCPHeader,
    pub payload: &'a mut [u8],
    /// The length of the payload.
    pub len: u16,
}

} // verus!
