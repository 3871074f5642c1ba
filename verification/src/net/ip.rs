//! IPv6 packets: a header and a transport payload.

use vstd::prelude::*;
use crate::returncode::ReturnCode;
use crate::net::ip6::{Header, NextHeaderType, header_bytes};
use crate::net::udp::{UDPHeader, udp_fields_bytes, encode_udp_fields};
use crate::net::lowpan::{compute_udp_checksum, udp_checksum};
use crate::net::tcp::TCPHeader;
use crate::net::stream::{SResult, splice, encode_bytes};
use vstd::slice::slice_subrange;

verus! {

/// The header of the transport-layer payload of an IPv6 packet.
#[derive(Copy, Clone, Debug)]
pub enum TransportHeader {
    UDP(UDPHeader),
    TCP(TCPHeader),
}

/// A transport header and the payload bytes that follow it.
pub struct IPPayload {
    pub header: TransportHeader,
    pub payload: Vec<u8>,
}

/// The number of payload bytes a UDP header's length field covers.
pub open spec fn udp_payload_len(h: UDPHeader) -> int {
    h.len - 8
}

/// What encoding a UDP payload at `offset` makes of the buffer `s`, and
/// the result: the header, then the payload bytes the header's length
/// covers, stopping with `Needed` when they do not fit.
pub open spec fn udp_payload_encode(h: UDPHeader, payload: Seq<u8>, s: Seq<u8>, offset: int) -> (Seq<u8>, SResult<usize>) {
    let with_header = splice(s, offset, udp_fields_bytes(h.src_port, h.dst_port, h.len, h.cksum));
    let data = payload.subrange(0, udp_payload_len(h));
    let end = offset + 8 + data.len();
    if end <= s.len() {
        (splice(with_header, offset + 8, data), SResult::Done(end as usize, end as usize))
    } else {
        (with_header, SResult::Needed(end as usize))
    }
}

impl IPPayload {
    pub fn new(header: TransportHeader, payload: Vec<u8>) -> (r: IPPayload)
        ensures
            r.header == header,
            r.payload == payload,
    {
        IPPayload { header: header, payload: payload }
    }

    /// Replaces the transport header. The IPv6 next header field must be
    /// changed with it.
    pub fn change_type(&mut self, new_type: TransportHeader)
        ensures
            final(self).header == new_type,
            final(self).payload == old(self).payload,
    {
        self.header = new_type;
    }

    /// Replaces the payload bytes of a UDP payload with `new_payload`, when
    /// the payload buffer has its length; a shorter buffer is left as is.
    pub fn change_payload(&mut self, new_payload: &[u8]) -> (r: ReturnCode)
        requires
            old(self).header is UDP,
            old(self).payload@.len() <= new_payload@.len(),
        ensures
            r == ReturnCode::SUCCESS,
            final(self).header == old(self).header,
            old(self).payload@.len() == new_payload@.len() ==> final(self).payload@ == new_payload@,
            old(self).payload@.len() < new_payload@.len() ==> final(self).payload@ == old(self).payload@,
    {
        match self.header {
            TransportHeader::UDP(udp_header) => {
                let _ = udp_header.set_payload(new_payload, self);
            },
            TransportHeader::TCP(_) => {},
        }
        ReturnCode::SUCCESS
    }

    /// The number of payload bytes the transport header covers.
    fn get_payload_length(&self) -> (r: usize)
        requires
            self.header is UDP,
            (self.header->UDP_0).len >= 8,
        ensures
            r == udp_payload_len(self.header->UDP_0),
    {
        match self.header {
            TransportHeader::UDP(udp_header) => udp_header.get_len() as usize - udp_header.get_hdr_size(),
            TransportHeader::TCP(_) => 0,
        }
    }

    /// Encodes the UDP header and the payload bytes it covers at `offset`.
    pub fn encode(&self, buf: &mut [u8], offset: usize) -> (r: SResult<usize>)
        requires
            self.header is UDP,
            (self.header->UDP_0).len >= 8,
            udp_payload_len(self.header->UDP_0) <= self.payload@.len(),
            offset + 8 <= old(buf)@.len(),
            offset + 8 + udp_payload_len(self.header->UDP_0) <= usize::MAX,
        ensures
            final(buf)@ == udp_payload_encode(self.header->UDP_0, self.payload@, old(buf)@, offset as int).0,
            r == udp_payload_encode(self.header->UDP_0, self.payload@, old(buf)@, offset as int).1,
    {
        let _blen = buf.len();
        let udp_header = match self.header {
            TransportHeader::UDP(udp_header) => udp_header,
            TransportHeader::TCP(_) => UDPHeader { src_port: 0, dst_port: 0, len: 8, cksum: 0 },
        };
        let offset = match udp_header.encode(buf, offset) {
            SResult::Done(off, _) => off,
            _ => offset,
        };
        let payload_length = self.get_payload_length();
        let data = slice_subrange(self.payload.as_slice(), 0, payload_length);
        match encode_bytes(buf, offset, data) {
            SResult::Done(off, _) => SResult::Done(off, off),
            SResult::Needed(n) => SResult::Needed(n),
            SResult::Error => SResult::Error,
        }
    }
}

/// An IPv6 packet.
pub struct IP6Packet {
    pub header: Header,
    pub payload: IPPayload,
}

impl IP6Packet {
    /// Sets the header to the default one.
    pub fn reset(&mut self)
        ensures
            final(self).header.traffic_class == 0,
            final(self).header.flow_label == 0,
            final(self).header.payload_len == 0,
            final(self).header.next_header == NextHeaderType::NoNext,
            final(self).header.hop_limit == 255,
            final(self).header.src_addr.0@ == Seq::new(16, |i: int| 0u8),
            final(self).header.dst_addr.0@ == Seq::new(16, |i: int| 0u8),
            final(self).payload == old(self).payload,
    {
        self.header = Header::default();
    }

    /// The length of the whole packet: the 40-byte header and its payload.
    pub fn get_total_len(&self) -> (r: u16)
        requires
            40 + self.header.payload_len <= u16::MAX,
        ensures
            r == 40 + self.header.payload_len,
    {
        40 + self.header.payload_len
    }

    pub fn get_payload(&self) -> (r: &[u8])
        ensures
            r@ == self.payload.payload@,
    {
        self.payload.payload.as_slice()
    }

    /// The size of the IPv6 header and the transport header.
    pub fn get_total_hdr_size(&self) -> (r: usize)
        ensures
            r == (if self.payload.header is UDP { 48int } else { 40int }),
    {
        let transport_hdr_size = match self.payload.header {
            TransportHeader::UDP(udp_hdr) => udp_hdr.get_hdr_size(),
            _ => 0,
        };
        40 + transport_hdr_size
    }

    /// Sets the checksum of a UDP payload: the UDP checksum over the
    /// addresses of the IPv6 header, the UDP header and the payload bytes.
    /// Other transport headers are left as they are.
    pub fn set_transpo_cksum(&mut self)
        ensures
            final(self).header == old(self).header,
            final(self).payload.payload == old(self).payload.payload,
            match old(self).payload.header {
                TransportHeader::UDP(h) => final(self).payload.header == TransportHeader::UDP(
                    UDPHeader {
                        cksum: udp_checksum(
                            old(self).header.src_addr.0@,
                            old(self).header.dst_addr.0@,
                            udp_fields_bytes(h.src_port, h.dst_port, h.len, h.cksum).subrange(0, 6),
                            h.len,
                            old(self).payload.payload@,
                        ),
                        ..h
                    },
                ),
                _ => final(self).payload.header == old(self).payload.header,
            },
    {
        match self.payload.header {
            TransportHeader::UDP(udp_header) => {
                let mut ip6_bytes: [u8; 40] = [0; 40];
                let _ = self.header.encode(&mut ip6_bytes);
                let mut udp_bytes: [u8; 8] = [0; 8];
                let _ = encode_udp_fields(
                    &mut udp_bytes,
                    0,
                    udp_header.src_port,
                    udp_header.dst_port,
                    udp_header.len,
                    udp_header.cksum,
                );
                proof {
                    assert(ip6_bytes@.subrange(8, 24) =~= self.header.src_addr.0@);
                    assert(ip6_bytes@.subrange(24, 40) =~= self.header.dst_addr.0@);
                    assert(udp_bytes@.subrange(0, 6) =~= udp_fields_bytes(
                        udp_header.src_port,
                        udp_header.dst_port,
                        udp_header.len,
                        udp_header.cksum,
                    ).subrange(0, 6));
                    assert(self.payload.payload@.subrange(0, self.payload.payload@.len() as int)
                        =~= self.payload.payload@);
                }
                let cksum = compute_udp_checksum(
                    &ip6_bytes,
                    0,
                    &udp_bytes,
                    0,
                    udp_header.len,
                    self.payload.payload.as_slice(),
                    0,
                );
                let mut new_header = udp_header;
                new_header.set_cksum(cksum);
                self.payload.header = TransportHeader::UDP(new_header);
            },
            _ => {},
        }
    }

    /// Sets the next header field for a transport header of the kind of
    /// `new_header`: UDP, or no next header.
    pub fn change_transport_type(&mut self, new_header: TransportHeader)
        ensures
            final(self).header == (Header {
                next_header: if new_header is UDP { NextHeaderType::UDP } else { NextHeaderType::NoNext },
                ..old(self).header
            }),
            final(self).payload == old(self).payload,
    {
        let next_header = match new_header {
            TransportHeader::UDP(_) => NextHeaderType::UDP,
            _ => NextHeaderType::NoNext,
        };
        self.header.next_header = next_header;
    }

    /// Encodes the IPv6 header, then the UDP payload, at the start of `buf`.
    pub fn encode(&self, buf: &mut [u8]) -> (r: SResult<usize>)
        requires
            self.payload.header is UDP,
            (self.payload.header->UDP_0).len >= 8,
            udp_payload_len(self.payload.header->UDP_0) <= self.payload.payload@.len(),
            48 <= old(buf)@.len(),
        ensures
            final(buf)@ == udp_payload_encode(
                self.payload.header->UDP_0,
                self.payload.payload@,
                splice(old(buf)@, 0, header_bytes(self.header)),
                40,
            ).0,
            r == udp_payload_encode(
                self.payload.header->UDP_0,
                self.payload.payload@,
                splice(old(buf)@, 0, header_bytes(self.header)),
                40,
            ).1,
    {
        let ip6_header = self.header;
        let off = match ip6_header.encode(buf) {
            SResult::Done(off, _) => off,
            _ => 40,
        };
        self.payload.encode(buf, off)
    }
}

} // verus!
