//! The UDP header of the IPv6 networking stack, with its encoding and
//! decoding.

use vstd::prelude::*;
use crate::net::stream::{SResult, splice, be16, be16_bytes, be16_at, decode_u16, lemma_be16_roundtrip};
use crate::net::udp::{udp_fields_bytes, encode_udp_fields};

verus! {

/// A UDP header. Field values are kept in host order and encoded in network
/// order.
#[derive(Copy, Clone, Debug)]
pub struct UDPHeader {
    pub src_port: u16,
    pub dst_port: u16,
    pub len: u16,
    pub cksum: u16,
}

/// The eight bytes of an encoded UDP header.
pub open spec fn udp_header_bytes(h: UDPHeader) -> Seq<u8> {
    udp_fields_bytes(h.src_port, h.dst_port, h.len, h.cksum)
}

/// The UDP header held by the first eight bytes of `s`.
pub open spec fn udp_header_from(s: Seq<u8>) -> UDPHeader {
    UDPHeader {
        src_port: be16_at(s, 0),
        dst_port: be16_at(s, 2),
        len: be16_at(s, 4),
        cksum: be16_at(s, 6),
    }
}

impl UDPHeader {
    /// A header with zero ports and checksum and a length of 8, the size of
    /// the header alone.
    pub fn new() -> (r: UDPHeader)
        ensures
            r == (UDPHeader { src_port: 0, dst_port: 0, len: 8, cksum: 0 }),
    {
        UDPHeader { src_port: 0, dst_port: 0, len: 8, cksum: 0 }
    }

    /// The offset of the payload: the size of the UDP header.
    pub fn get_offset(&self) -> (r: usize)
        ensures
            r == 8,
    {
        8
    }

    pub fn set_dst_port(&mut self, port: u16)
        ensures
            *final(self) == (UDPHeader { dst_port: port, ..*old(self) }),
    {
        self.dst_port = port;
    }

    pub fn set_src_port(&mut self, port: u16)
        ensures
            *final(self) == (UDPHeader { src_port: port, ..*old(self) }),
    {
        self.src_port = port;
    }

    pub fn set_len(&mut self, len: u16)
        ensures
            *final(self) == (UDPHeader { len: len, ..*old(self) }),
    {
        self.len = len;
    }

    pub fn set_cksum(&mut self, cksum: u16)
        ensures
            *final(self) == (UDPHeader { cksum: cksum, ..*old(self) }),
    {
        self.cksum = cksum;
    }

    pub fn get_src_port(&self) -> (r: u16)
        ensures
            r == self.src_port,
    {
        self.src_port
    }

    pub fn get_dst_port(&self) -> (r: u16)
        ensures
            r == self.dst_port,
    {
        self.dst_port
    }

    pub fn get_len(&self) -> (r: u16)
        ensures
            r == self.len,
    {
        self.len
    }

    pub fn get_cksum(&self) -> (r: u16)
        ensures
            r == self.cksum,
    {
        self.cksum
    }

    /// The size of the encoded header.
    pub fn get_hdr_size(&self) -> (r: usize)
        ensures
            r == 8,
    {
        8
    }

    /// Encodes the header in network byte order at `offset`; returns the
    /// offset after it, or `Needed` when `buf` is too short.
    pub fn encode(&self, buf: &mut [u8], offset: usize) -> (r: SResult<usize>)
        requires
            offset + 8 <= usize::MAX,
        ensures
            old(buf)@.len() < offset + 8 ==> r == SResult::<usize>::Needed((offset + 8) as usize)
                && final(buf)@ == old(buf)@,
            old(buf)@.len() >= offset + 8 ==> r == SResult::Done(
                (offset + 8) as usize,
                (offset + 8) as usize,
            ) && final(buf)@ == splice(old(buf)@, offset as int, udp_header_bytes(*self)),
    {
        encode_udp_fields(buf, offset, self.src_port, self.dst_port, self.len, self.cksum)
    }

    /// Decodes a header from the first eight bytes of `buf`.
    pub fn decode(buf: &[u8]) -> (r: SResult<UDPHeader>)
        ensures
            buf@.len() < 8 ==> r == SResult::<UDPHeader>::Needed(8),
            buf@.len() >= 8 ==> r == SResult::Done(8usize, udp_header_from(buf@)),
    {
        if buf.len() < 8 {
            return SResult::Needed(8);
        }
        let mut udp_header = Self::new();
        let src_port = match decode_u16(buf, 0) {
            SResult::Done(_, v) => v,
            _ => 0,
        };
        udp_header.src_port = src_port;
        let dst_port = match decode_u16(buf, 2) {
            SResult::Done(_, v) => v,
            _ => 0,
        };
        udp_header.dst_port = dst_port;
        let len = match decode_u16(buf, 4) {
            SResult::Done(_, v) => v,
            _ => 0,
        };
        udp_header.len = len;
        let cksum = match decode_u16(buf, 6) {
            SResult::Done(_, v) => v,
            _ => 0,
        };
        udp_header.cksum = cksum;
        SResult::Done(8, udp_header)
    }
}

/// Decoding what encoding wrote gives back the header.
pub proof fn lemma_udp_encode_decode(h: UDPHeader, s: Seq<u8>)
    requires
        s.len() >= 8,
        s.subrange(0, 8) == udp_header_bytes(h),
    ensures
        udp_header_from(s) == h,
{
    let b = udp_header_bytes(h);
    assert(s[0] == b[0] && s[1] == b[1] && s[2] == b[2] && s[3] == b[3]) by {
        assert(s.subrange(0, 8)[0] == b[0] && s.subrange(0, 8)[1] == b[1]);
        assert(s.subrange(0, 8)[2] == b[2] && s.subrange(0, 8)[3] == b[3]);
    }
    assert(s[4] == b[4] && s[5] == b[5] && s[6] == b[6] && s[7] == b[7]) by {
        assert(s.subrange(0, 8)[4] == b[4] && s.subrange(0, 8)[5] == b[5]);
        assert(s.subrange(0, 8)[6] == b[6] && s.subrange(0, 8)[7] == b[7]);
    }
    lemma_be16_roundtrip(h.src_port);
    lemma_be16_roundtrip(h.dst_port);
    lemma_be16_roundtrip(h.len);
    lemma_be16_roundtrip(h.cksum);
}

} // verus!
