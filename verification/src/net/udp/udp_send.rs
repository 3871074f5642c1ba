//! The UDP sending layer: it puts a UDP header in front of a payload and
//! hands both to the IPv6 layer.

use vstd::prelude::*;
use crate::returncode::ReturnCode;
use crate::net::ip6::Address;
use crate::net::ip::TransportHeader;
use crate::net::udp::udp::UDPHeader;
use crate::net::udp::UDPHeader as WireUDPHeader;
use crate::net::ipv6::ipv6_send::{IP6Client, IP6Sender};

verus! {

/// Receives the completion of a UDP transmission.
pub trait UDPSendClient {
    fn send_done(&self, result: ReturnCode);
}

/// The UDP header sent for a payload of `payload_len` bytes: `udp_header`
/// with its length field covering the header and the payload, truncated to
/// 16 bits.
pub open spec fn udp_header_for(udp_header: UDPHeader, payload_len: nat) -> WireUDPHeader {
    WireUDPHeader {
        src_port: udp_header.src_port,
        dst_port: udp_header.dst_port,
        len: (payload_len + 8) as u16,
        cksum: udp_header.cksum,
    }
}

/// Sends UDP datagrams through an IPv6 sender.
pub struct UDPSendStruct<T: IP6Sender, C: UDPSendClient> {
    pub ip_send_struct: T,
    pub client: Option<C>,
}

impl<T: IP6Sender, C: UDPSendClient> UDPSendStruct<T, C> {
    pub fn new(ip_send_struct: T) -> (r: Self)
        ensures
            r.ip_send_struct == ip_send_struct,
            r.client is None,
    {
        UDPSendStruct { ip_send_struct: ip_send_struct, client: None }
    }

    pub fn set_client(&mut self, client: C)
        ensures
            final(self).client == Some(client),
            final(self).ip_send_struct == old(self).ip_send_struct,
    {
        self.client = Some(client);
    }

    /// Sends `buf` to port `dst_port` of `dest` from port `src_port`.
    pub fn send_to(&mut self, dest: Address, dst_port: u16, src_port: u16, buf: &[u8]) -> (r: ReturnCode)
        requires
            buf@.len() + 8 <= usize::MAX,
        ensures
            old(self).ip_send_struct.sent(
                &final(self).ip_send_struct,
                dest,
                TransportHeader::UDP(
                    udp_header_for(UDPHeader { src_port: src_port, dst_port: dst_port, len: 8, cksum: 0 }, buf@.len()),
                ),
                buf,
                r,
            ),
            final(self).client == old(self).client,
    {
        let mut udp_header = UDPHeader::new();
        udp_header.set_dst_port(dst_port);
        udp_header.set_src_port(src_port);
        self.send(dest, udp_header, buf)
    }

    /// Sends `buf` to `dest` behind `udp_header`, whose length is set to
    /// cover the header and `buf`.
    pub fn send(&mut self, dest: Address, udp_header: UDPHeader, buf: &[u8]) -> (r: ReturnCode)
        requires
            buf@.len() + 8 <= usize::MAX,
        ensures
            old(self).ip_send_struct.sent(
                &final(self).ip_send_struct,
                dest,
                TransportHeader::UDP(udp_header_for(udp_header, buf@.len())),
                buf,
                r,
            ),
            final(self).client == old(self).client,
    {
        let mut udp_header = udp_header;
        let n = buf.len();
        let total_length = n + udp_header.get_offset();
        udp_header.set_len(#[verifier::truncate] (total_length as u16));
        let transport_header = TransportHeader::UDP(
            WireUDPHeader {
                src_port: udp_header.src_port,
                dst_port: udp_header.dst_port,
                len: udp_header.len,
                cksum: udp_header.cksum,
            },
        );
        self.ip_send_struct.send_to(dest, transport_header, buf)
    }
}

impl<T: IP6Sender, C: UDPSendClient> IP6Client for UDPSendStruct<T, C> {
    /// The IPv6 layer finished: the client learns the result.
    fn send_done(&self, result: ReturnCode) {
        match &self.client {
            Some(client) => client.send_done(result),
            None => {},
        }
    }
}

} // verus!
