//! The UDP header of the networking stack and its encoding.

pub mod udp;
pub mod udp_send;

use vstd::prelude::*;
use crate::net::stream::{SResult, splice, be16_bytes, encode_u16};
use crate::net::ip::{IPPayload, TransportHeader};

verus! {

/// A UDP header. Field values are kept in host order and encoded in network
/// order.
#[derive(Copy, Clone, Debug)]
pub struct UDPHeader {
    pub src_port: u16,
    pub dst_port: u16,
    pub len: u16,
    pub cksum: u16,
}

/// The eight bytes of an encoded UDP header with the given fields.
pub open spec fn udp_fields_bytes(src_port: u16, dst_port: u16, len: u16, cksum: u16) -> Seq<u8> {
    be16_bytes(src_port) + be16_bytes(dst_port) + be16_bytes(len) + be16_bytes(cksum)
}

/// Writes the four header fields at `offset`, after checking that they fit.
pub fn encode_udp_fields(
    buf: &mut [u8],
    offset: usize,
    src_port: u16,
    dst_port: u16,
    len: u16,
    cksum: u16,
) -> (r: SResult<usize>)
    requires
        offset + 8 <= usize::MAX,
    ensures
        old(buf)@.len() < offset + 8 ==> r == SResult::<usize>::Needed((offset + 8) as usize)
            && final(buf)@ == old(buf)@,
        old(buf)@.len() >= offset + 8 ==> r == SResult::Done(
            (offset + 8) as usize,
            (offset + 8) as usize,
        ) && final(buf)@ == splice(
            old(buf)@,
            offset as int,
            udp_fields_bytes(src_port, dst_port, len, cksum),
        ),
{
    if buf.len() < 8 + offset {
        return SResult::Needed(8 + offset);
    }
    let _ = encode_u16(buf, offset, src_port);
    let _ = encode_u16(buf, offset + 2, dst_port);
    let _ = encode_u16(buf, offset + 4, len);
    let _ = encode_u16(buf, offset + 6, cksum);
    assert(buf@ =~= splice(
        old(buf)@,
        offset as int,
        udp_fields_bytes(src_port, dst_port, len, cksum),
    ));
    SResult::Done(offset + 8, offset + 8)
}

impl UDPHeader {
    /// The offset of the payload: the size of the UDP header.
    pub fn get_offset(&self) -> (r: usize)
        ensures
            r == 8,
    {
        8
    }

    pub fn set_dst_port(&mut self, port: u16)
        ensures
            *final(self) == (UDPHeader { dst_port: port, ..*old(self) }),
    {
        self.dst_port = port;
    }

    pub fn set_src_port(&mut self, port: u16)
        ensures
            *final(self) == (UDPHeader { src_port: port, ..*old(self) }),
    {
        self.src_port = port;
    }

    pub fn set_len(&mut self, len: u16)
        ensures
            *final(self) == (UDPHeader { len: len, ..*old(self) }),
    {
        self.len = len;
    }

    pub fn set_cksum(&mut self, cksum: u16)
        ensures
            *final(self) == (UDPHeader { cksum: cksum, ..*old(self) }),
    {
        self.cksum = cksum;
    }

    pub fn get_src_port(&self) -> (r: u16)
        ensures
            r == self.src_port,
    {
        self.src_port
    }

    pub fn get_dst_port(&self) -> (r: u16)
        ensures
            r == self.dst_port,
    {
        self.dst_port
    }

    pub fn get_len(&self) -> (r: u16)
        ensures
            r == self.len,
    {
        self.len
    }

    pub fn get_cksum(&self) -> (r: u16)
        ensures
            r == self.cksum,
    {
        self.cksum
    }

    /// Makes `ip_payload` a UDP payload with this header and the bytes of
    /// `buffer`, or fails when its payload buffer is shorter than `buffer`.
    pub fn set_payload(&self, buffer: &[u8], ip_payload: &mut IPPayload) -> (r: Result<(), ()>)
        requires
            old(ip_payload).payload@.len() <= buffer@.len(),
        ensures
            old(ip_payload).payload@.len() < buffer@.len() ==> r is Err && *final(ip_payload) == *old(
                ip_payload,
            ),
            old(ip_payload).payload@.len() == buffer@.len() ==> {
                &&& r is Ok
                &&& final(ip_payload).header == TransportHeader::UDP(*self)
                &&& final(ip_payload).payload@ == buffer@
            },
    {
        if ip_payload.payload.len() < buffer.len() {
            return Err(());
        }
        ip_payload.header = TransportHeader::UDP(*self);
        let mut i: usize = 0;
        while i < buffer.len()
            invariant
                i <= buffer@.len(),
                ip_payload.payload@.len() == buffer@.len(),
                ip_payload.header == TransportHeader::UDP(*self),
                forall|j: int| 0 <= j < i ==> ip_payload.payload@[j] == buffer@[j],
            decreases buffer@.len() - i,
        {
            ip_payload.payload.set(i, buffer[i]);
            i = i + 1;
        }
        assert(ip_payload.payload@ =~= buffer@);
        Ok(())
    }

    /// The size of the encoded header.
    pub fn get_hdr_size(&self) -> (r: usize)
        ensures
            r == 8,
    {
        8
    }

    /// Encodes the header in network byte order at `offset`; returns the
    /// offset after it, or `Needed` when `buf` is too short.
    pub fn encode(&self, buf: &mut [u8], offset: usize) -> (r: SResult<usize>)
        requires
            offset + 8 <= usize::MAX,
        ensures
            old(buf)@.len() < offset + 8 ==> r == SResult::<usize>::Needed((offset + 8) as usize)
                && final(buf)@ == old(buf)@,
            old(buf)@.len() >= offset + 8 ==> r == SResult::Done(
                (offset + 8) as usize,
                (offset + 8) as usize,
            ) && final(buf)@ == splice(
                old(buf)@,
                offset as int,
                udp_fields_bytes(self.src_port, self.dst_port, self.len, self.cksum),
            ),
    {
        encode_udp_fields(buf, offset, self.src_port, self.dst_port, self.len, self.cksum)
    }
}

} // verus!
