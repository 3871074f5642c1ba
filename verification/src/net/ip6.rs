//! IPv6 addresses and the fixed 40-byte IPv6 header.

use vstd::prelude::*;
use crate::net::stream::{
    SResult, splice, be16, be16_bytes, be16_at, u16_hi, u16_lo, u16_from_be, copy_into,
};

verus! {

/// A small subset of the valid IPv6 Next Header field values.
#[derive(Copy, Clone, PartialEq, Eq, Debug, Structural)]
pub enum NextHeaderType {
    HopOpts,
    TCP,
    UDP,
    IP,
    Routing,
    Fragment,
    ICMPv6,
    NoNext,
    DestOpts,
    Mobility,
}

/// The numeric value of a next-header type.
pub open spec fn nh_value(nh: NextHeaderType) -> u8 {
    match nh {
        NextHeaderType::HopOpts => 0,
        NextHeaderType::TCP => 6,
        NextHeaderType::UDP => 17,
        NextHeaderType::IP => 41,
        NextHeaderType::Routing => 43,
        NextHeaderType::Fragment => 44,
        NextHeaderType::ICMPv6 => 58,
        NextHeaderType::NoNext => 59,
        NextHeaderType::DestOpts => 60,
        NextHeaderType::Mobility => 135,
    }
}

/// The next-header type with numeric value `nh`, if it is one of the known ones.
pub open spec fn nh_from_value(nh: u8) -> Option<NextHeaderType> {
    if nh == 0 {
        Some(NextHeaderType::HopOpts)
    } else if nh == 6 {
        Some(NextHeaderType::TCP)
    } else if nh == 17 {
        Some(NextHeaderType::UDP)
    } else if nh == 41 {
        Some(NextHeaderType::IP)
    } else if nh == 43 {
        Some(NextHeaderType::Routing)
    } else if nh == 44 {
        Some(NextHeaderType::Fragment)
    } else if nh == 58 {
        Some(NextHeaderType::ICMPv6)
    } else if nh == 59 {
        Some(NextHeaderType::NoNext)
    } else if nh == 60 {
        Some(NextHeaderType::DestOpts)
    } else if nh == 135 {
        Some(NextHeaderType::Mobility)
    } else {
        None
    }
}

impl NextHeaderType {
    /// Maps a next-header value to its type, or `None` for unknown values.
    pub fn from_nh(nh: u8) -> (r: Option<NextHeaderType>)
        ensures
            r == nh_from_value(nh),
    {
        match nh {
            0 => Some(NextHeaderType::HopOpts),
            6 => Some(NextHeaderType::TCP),
            17 => Some(NextHeaderType::UDP),
            41 => Some(NextHeaderType::IP),
            43 => Some(NextHeaderType::Routing),
            44 => Some(NextHeaderType::Fragment),
            58 => Some(NextHeaderType::ICMPv6),
            59 => Some(NextHeaderType::NoNext),
            60 => Some(NextHeaderType::DestOpts),
            135 => Some(NextHeaderType::Mobility),
            _ => None,
        }
    }

    /// The numeric value of this next-header type.
    pub fn to_u8(&self) -> (r: u8)
        ensures
            r == nh_value(*self),
    {
        match self {
            NextHeaderType::HopOpts => 0,
            NextHeaderType::TCP => 6,
            NextHeaderType::UDP => 17,
            NextHeaderType::IP => 41,
            NextHeaderType::Routing => 43,
            NextHeaderType::Fragment => 44,
            NextHeaderType::ICMPv6 => 58,
            NextHeaderType::NoNext => 59,
            NextHeaderType::DestOpts => 60,
            NextHeaderType::Mobility => 135,
        }
    }
}

/// Mapping a type to its value and back gives the type again.
pub proof fn lemma_nh_value_roundtrip(nh: NextHeaderType)
    ensures
        nh_from_value(nh_value(nh)) == Some(nh),
{
}

/// An IPv6 address.
#[derive(Copy, Clone, Debug)]
pub struct Address(pub [u8; 16]);

/// The unicast link-local prefix fe80::/64 covers the first eight bytes.
pub open spec fn is_link_local_bytes(a: Seq<u8>) -> bool {
    &&& a[0] == 0xfe
    &&& a[1] == 0x80
    &&& forall|i: int| 2 <= i < 8 ==> a[i] == 0
}

/// `addr` with its first `prefix_len` bits replaced by those of `prefix`.
pub open spec fn with_prefix(addr: Seq<u8>, prefix: Seq<u8>, prefix_len: u8) -> Seq<u8> {
    let full = prefix_len as int / 8;
    let rem = prefix_len % 8;
    if rem == 0 {
        prefix.subrange(0, full) + addr.subrange(full, 16)
    } else {
        let mask = (0xffu8 << (8 - rem) as u8) as u8;
        prefix.subrange(0, full) + seq![((addr[full] & !mask) | (mask & prefix[full])) as u8]
            + addr.subrange(full + 1, 16)
    }
}

/// The number of bytes a `prefix_len`-bit prefix occupies.
pub open spec fn prefix_byte_count(prefix_len: u8) -> int {
    prefix_len as int / 8 + if prefix_len % 8 != 0 { 1int } else { 0int }
}

impl Address {
    /// The unspecified address `::`.
    pub fn default() -> (r: Address)
        ensures
            r.0@ == Seq::new(16, |i: int| 0u8),
    {
        let r = Address([0u8; 16]);
        assert(r.0@ =~= Seq::new(16, |i: int| 0u8));
        r
    }

    /// Tests if the IP address is the unspecified address (all zeroes).
    pub fn is_unspecified(&self) -> (r: bool)
        ensures
            r == (forall|i: int| 0 <= i < 16 ==> self.0@[i] == 0),
    {
        let mut i: usize = 0;
        while i < 16
            invariant
                i <= 16,
                forall|j: int| 0 <= j < i ==> self.0@[j] == 0,
            decreases 16 - i,
        {
            if self.0[i] != 0 {
                return false;
            }
            i = i + 1;
        }
        true
    }

    /// Tests if the IP address belongs to the unicast link-local prefix
    /// fe80:0000:0000:0000.
    pub fn is_unicast_link_local(&self) -> (r: bool)
        ensures
            r == is_link_local_bytes(self.0@),
    {
        let b1 = self.0[1];
        assert(((b1 & 0xc0u8) == 0x80u8 && (b1 & 0x3fu8) == 0u8) == (b1 == 0x80u8)) by (bit_vector);
        if !(self.0[0] == 0xfe && (self.0[1] & 0xc0) == 0x80 && (self.0[1] & 0x3f) == 0) {
            return false;
        }
        let mut i: usize = 2;
        while i < 8
            invariant
                2 <= i <= 8,
                forall|j: int| 2 <= j < i ==> self.0@[j] == 0,
            decreases 8 - i,
        {
            if self.0[i] != 0 {
                return false;
            }
            i = i + 1;
        }
        true
    }

    /// Sets the first 64 bits of the IP address to the unicast link-local
    /// prefix fe80:0000:0000:0000.
    pub fn set_unicast_link_local(&mut self)
        ensures
            final(self).0@ == seq![0xfeu8, 0x80, 0, 0, 0, 0, 0, 0] + old(self).0@.subrange(8, 16),
    {
        self.0[0] = 0xfe;
        self.0[1] = 0x80;
        let mut i: usize = 2;
        while i < 8
            invariant
                2 <= i <= 8,
                self.0@[0] == 0xfe,
                self.0@[1] == 0x80,
                forall|j: int| 2 <= j < i ==> self.0@[j] == 0,
                forall|j: int| 8 <= j < 16 ==> self.0@[j] == old(self).0@[j],
            decreases 8 - i,
        {
            self.0[i] = 0;
            i = i + 1;
        }
        assert(self.0@ =~= seq![0xfeu8, 0x80, 0, 0, 0, 0, 0, 0] + old(self).0@.subrange(8, 16));
    }

    /// Replaces the first `prefix_len` bits in the address with those from
    /// `prefix`. Returns `false` if the provided prefix is not valid
    /// (`prefix_len` is too long for an address or for `prefix` itself), or
    /// `true` if the operation succeeded.
    pub fn set_prefix(&mut self, prefix: &[u8], prefix_len: u8) -> (r: bool)
        ensures
            r == (prefix_byte_count(prefix_len) == prefix@.len() && prefix_byte_count(prefix_len)
                <= 16),
            r ==> final(self).0@ == with_prefix(old(self).0@, prefix@, prefix_len),
            !r ==> final(self).0@ == old(self).0@,
    {
        let full_bytes: usize = (prefix_len / 8) as usize;
        let remaining: u8 = prefix_len & 0x7;
        assert(prefix_len & 0x7u8 == prefix_len % 8) by (bit_vector);
        let bytes: usize = full_bytes + (if remaining != 0 { 1 } else { 0 });
        if !(bytes == prefix.len() && bytes <= 16) {
            return false;
        }
        let mut i: usize = 0;
        while i < full_bytes
            invariant
                i <= full_bytes <= 16,
                full_bytes <= prefix@.len(),
                forall|j: int| 0 <= j < i ==> self.0@[j] == prefix@[j],
                forall|j: int| i <= j < 16 ==> self.0@[j] == old(self).0@[j],
            decreases full_bytes - i,
        {
            self.0[i] = prefix[i];
            i = i + 1;
        }
        if remaining != 0 {
            let mask: u8 = (0xff as u8) << (8 - remaining);
            self.0[full_bytes] = self.0[full_bytes] & !mask;
            self.0[full_bytes] = self.0[full_bytes] | (mask & prefix[full_bytes]);
        }
        assert(self.0@ =~= with_prefix(old(self).0@, prefix@, prefix_len));
        true
    }

    /// Tests if the IP address is within the multicast prefix ffXX::
    pub fn is_multicast(&self) -> (r: bool)
        ensures
            r == (self.0@[0] == 0xff),
    {
        self.0[0] == 0xff
    }

    /// Writes the 16 address bytes at `off`.
    pub fn encode_at(&self, buf: &mut [u8], off: usize) -> (r: SResult<()>)
        requires
            off <= old(buf)@.len(),
            off + 16 <= usize::MAX,
        ensures
            off + 16 <= old(buf)@.len() ==> r == SResult::Done((off + 16) as usize, ()) && final(buf)@ == splice(old(buf)@, off as int, self.0@),
            off + 16 > old(buf)@.len() ==> r == SResult::<()>::Needed((off + 16) as usize)
                && final(buf)@ == old(buf)@,
    {
        if buf.len() - off < 16 {
            return SResult::Needed(off + 16);
        }
        copy_into(buf, off, &self.0, 0, 16);
        assert(self.0@.subrange(0, 16) =~= self.0@);
        SResult::Done(off + 16, ())
    }

    /// Writes the 16 address bytes at the start of `buf`.
    pub fn encode(&self, buf: &mut [u8]) -> (r: SResult<()>)
        ensures
            16 <= old(buf)@.len() ==> r == SResult::Done(16usize, ()) && final(buf)@ == splice(
                old(buf)@,
                0,
                self.0@,
            ),
            16 > old(buf)@.len() ==> r == SResult::<()>::Needed(16usize) && final(buf)@ == old(buf)@,
    {
        self.encode_at(buf, 0)
    }

    /// Reads an address from `buf[off..off + 16]`.
    pub fn decode_at(buf: &[u8], off: usize) -> (r: SResult<Address>)
        requires
            off <= buf@.len(),
            off + 16 <= usize::MAX,
        ensures
            off + 16 <= buf@.len() ==> (r matches SResult::Done(end, a) && end == off + 16 && a.0@
                == buf@.subrange(off as int, off + 16)),
            off + 16 > buf@.len() ==> r == SResult::<Address>::Needed((off + 16) as usize),
    {
        if buf.len() - off < 16 {
            return SResult::Needed(off + 16);
        }
        let mut a = [0u8; 16];
        let mut i: usize = 0;
        while i < 16
            invariant
                i <= 16,
                off + 16 <= buf@.len(),
                off + 16 <= usize::MAX,
                forall|j: int| 0 <= j < i ==> a@[j] == buf@[off + j],
            decreases 16 - i,
        {
            a[i] = buf[off + i];
            i = i + 1;
        }
        assert(a@ =~= buf@.subrange(off as int, off + 16));
        SResult::Done(off + 16, Address(a))
    }

    /// Reads an address from the first 16 bytes of `buf`.
    pub fn decode(buf: &[u8]) -> (r: SResult<Address>)
        ensures
            16 <= buf@.len() ==> (r matches SResult::Done(end, a) && end == 16 && a.0@
                == buf@.subrange(0, 16)),
            16 > buf@.len() ==> r == SResult::<Address>::Needed(16usize),
    {
        Address::decode_at(buf, 0)
    }
}

/// Convenient representation of an IPv6 header.
#[derive(Copy, Clone)]
pub struct Header {
    pub traffic_class: u8,
    /// Only the least significant 20 bits of the flow label are used.
    pub flow_label: u32,
    pub payload_len: u16,
    pub next_header: NextHeaderType,
    pub hop_limit: u8,
    pub src_addr: Address,
    pub dst_addr: Address,
}

pub const HEADER_SIZE: usize = 40;

pub const IP_VERSION: u8 = 6;

/// The 40 bytes of the IPv6 header `h` in wire format.
pub open spec fn header_bytes(h: Header) -> Seq<u8> {
    seq![
        (0x60u8 | ((h.traffic_class >> 4u8) & 0x0fu8)) as u8,
        (((h.traffic_class << 4u8) & 0xf0u8) | (((h.flow_label >> 16u32) & 0x0fu32) as u8)) as u8,
        (h.flow_label >> 8u32) as u8,
        h.flow_label as u8,
    ] + be16_bytes(h.payload_len) + seq![nh_value(h.next_header), h.hop_limit] + h.src_addr.0@
        + h.dst_addr.0@
}

/// What `Header::encode` leaves in a buffer `s`, and what it returns: the
/// fields are written in order, and writing stops at the first field that does
/// not fit.
pub open spec fn header_encode_spec(h: Header, s: Seq<u8>) -> (Seq<u8>, SResult<()>) {
    let b = header_bytes(h);
    if s.len() < 4 {
        (s, SResult::Needed(4))
    } else if s.len() < 6 {
        (splice(s, 0, b.subrange(0, 4)), SResult::Needed(6))
    } else if s.len() < 7 {
        (splice(s, 0, b.subrange(0, 6)), SResult::Needed(7))
    } else if s.len() < 8 {
        (splice(s, 0, b.subrange(0, 7)), SResult::Needed(8))
    } else if s.len() < 24 {
        (splice(s, 0, b.subrange(0, 8)), SResult::Needed(24))
    } else if s.len() < 40 {
        (splice(s, 0, b.subrange(0, 24)), SResult::Needed(40))
    } else {
        (splice(s, 0, b), SResult::Done(40, ()))
    }
}

/// The header that the 40 wire bytes `s` describe.
pub open spec fn header_from_bytes(s: Seq<u8>, nh: NextHeaderType) -> Header {
    Header {
        traffic_class: (((s[0] & 0x0fu8) << 4u8) | ((s[1] & 0xf0u8) >> 4u8)) as u8,
        flow_label: ((((s[1] & 0x0fu8) as u32) << 16u32) | ((s[2] as u32) << 8u32) | (
        s[3] as u32)) as u32,
        payload_len: be16(s[4], s[5]),
        next_header: nh,
        hop_limit: s[7],
        src_addr: Address(arbitrary_array(s.subrange(8, 24))),
        dst_addr: Address(arbitrary_array(s.subrange(24, 40))),
    }
}

/// Some array whose contents are `s` (when `s` has 16 elements).
pub open spec fn arbitrary_array(s: Seq<u8>) -> [u8; 16] {
    choose|a: [u8; 16]| a@ == s
}

/// Two headers agree field by field, addresses compared by contents.
pub open spec fn header_eq(a: Header, b: Header) -> bool {
    &&& a.traffic_class == b.traffic_class
    &&& a.flow_label == b.flow_label
    &&& a.payload_len == b.payload_len
    &&& a.next_header == b.next_header
    &&& a.hop_limit == b.hop_limit
    &&& a.src_addr.0@ == b.src_addr.0@
    &&& a.dst_addr.0@ == b.dst_addr.0@
}

/// What `Header::decode` makes of the bytes `s`: `Done(40, h)` where `h`
/// agrees with the returned header, or the first shortage or error met.
pub open spec fn header_decode_ok(s: Seq<u8>) -> bool {
    &&& s.len() >= 40
    &&& (s[0] & 0xf0u8) >> 4u8 == 6
    &&& nh_from_value(s[6]) is Some
}

/// The result `Header::decode` gives on `s` when it does not succeed.
pub open spec fn header_decode_fail(s: Seq<u8>) -> SResult<Header> {
    if s.len() < 4 {
        SResult::Needed(4)
    } else if (s[0] & 0xf0u8) >> 4u8 != 6 {
        SResult::Error
    } else if s.len() < 6 {
        SResult::Needed(6)
    } else if s.len() < 7 {
        SResult::Needed(7)
    } else if nh_from_value(s[6]) is None {
        SResult::Error
    } else if s.len() < 8 {
        SResult::Needed(8)
    } else if s.len() < 24 {
        SResult::Needed(24)
    } else {
        SResult::Needed(40)
    }
}

impl Header {
    /// The default header: no traffic class or flow label, no next header,
    /// hop limit 255 and unspecified addresses.
    pub fn default() -> (r: Header)
        ensures
            r.traffic_class == 0,
            r.flow_label == 0,
            r.payload_len == 0,
            r.next_header == NextHeaderType::NoNext,
            r.hop_limit == 255,
            r.src_addr.0@ == Seq::new(16, |i: int| 0u8),
            r.dst_addr.0@ == Seq::new(16, |i: int| 0u8),
    {
        Header {
            traffic_class: 0,
            flow_label: 0,
            payload_len: 0,
            next_header: NextHeaderType::NoNext,
            hop_limit: 255,
            src_addr: Address::default(),
            dst_addr: Address::default(),
        }
    }

    /// The DSCP subfield of the traffic class, as the lower 6 bits of a byte.
    pub open spec fn dscp(&self) -> u8 {
        ((self.traffic_class & 0b11111100u8) >> 2u8) as u8
    }

    /// The ECN subfield of the traffic class, as the lower 2 bits of a byte.
    pub open spec fn ecn(&self) -> u8 {
        (self.traffic_class & 0b11u8) as u8
    }

    /// Gets the DSCP subfield from the traffic class field.
    pub fn get_dscp(&self) -> (r: u8)
        ensures
            r == self.dscp(),
            r < 64,
    {
        let tc = self.traffic_class;
        assert((tc & 0b11111100u8) >> 2u8 < 64) by (bit_vector);
        (self.traffic_class & 0b11111100) >> 2
    }

    /// Sets the DSCP subfield of the traffic class field. Uses only the lower 6
    /// bits of `new_dscp`; the ECN subfield is kept.
    pub fn set_dscp(&mut self, new_dscp: u8)
        ensures
            final(self).traffic_class == ((old(self).traffic_class & 0b11u8) | ((new_dscp << 2u8)
                & 0b11111100u8)) as u8,
            final(self).dscp() == new_dscp & 0x3f,
            final(self).ecn() == old(self).ecn(),
            final(self).flow_label == old(self).flow_label,
            final(self).payload_len == old(self).payload_len,
            final(self).next_header == old(self).next_header,
            final(self).hop_limit == old(self).hop_limit,
            final(self).src_addr == old(self).src_addr,
            final(self).dst_addr == old(self).dst_addr,
    {
        let tc = self.traffic_class;
        assert(((((tc & 0b11u8) | ((new_dscp << 2u8) & 0b11111100u8)) & 0b11111100u8) >> 2u8)
            == new_dscp & 0x3f) by (bit_vector);
        assert((((tc & 0b11u8) | ((new_dscp << 2u8) & 0b11111100u8)) & 0b11u8) == tc & 0b11u8)
            by (bit_vector);
        self.traffic_class = self.traffic_class & 0b11;
        self.traffic_class = self.traffic_class | ((new_dscp << 2) & 0b11111100);
    }

    /// Gets the ECN subfield of the traffic class field.
    pub fn get_ecn(&self) -> (r: u8)
        ensures
            r == self.ecn(),
            r < 4,
    {
        let tc = self.traffic_class;
        assert(tc & 0b11u8 < 4) by (bit_vector);
        self.traffic_class & 0b11
    }

    /// Sets the ECN subfield of the traffic class field. Uses only the lower 2
    /// bits of `new_ecn`; the DSCP subfield is kept.
    pub fn set_ecn(&mut self, new_ecn: u8)
        ensures
            final(self).traffic_class == ((old(self).traffic_class & 0b11111100u8) | (new_ecn
                & 0b11u8)) as u8,
            final(self).ecn() == new_ecn & 0b11,
            final(self).dscp() == old(self).dscp(),
            final(self).flow_label == old(self).flow_label,
            final(self).payload_len == old(self).payload_len,
            final(self).next_header == old(self).next_header,
            final(self).hop_limit == old(self).hop_limit,
            final(self).src_addr == old(self).src_addr,
            final(self).dst_addr == old(self).dst_addr,
    {
        let tc = self.traffic_class;
        assert((((tc & 0b11111100u8) | (new_ecn & 0b11u8)) & 0b11u8) == new_ecn & 0b11)
            by (bit_vector);
        assert(((((tc & 0b11111100u8) | (new_ecn & 0b11u8)) & 0b11111100u8) >> 2u8) == (tc
            & 0b11111100u8) >> 2u8) by (bit_vector);
        self.traffic_class = self.traffic_class & 0b11111100;
        self.traffic_class = self.traffic_class | (new_ecn & 0b11);
    }

    /// Writes the header in wire format at the start of `buf`. The fields are
    /// written in order; if one does not fit, the bytes needed up to its end
    /// are reported and the fields after it are not written.
    pub fn encode(&self, buf: &mut [u8]) -> (r: SResult<()>)
        ensures
            final(buf)@ == header_encode_spec(*self, old(buf)@).0,
            r == header_encode_spec(*self, old(buf)@).1,
    {
        let ghost b = header_bytes(*self);
        if buf.len() < 4 {
            return SResult::Needed(4);
        }
        let tc = self.traffic_class;
        let fl = self.flow_label;
        buf[0] = ((IP_VERSION << 4) & 0xf0) | ((tc >> 4) & 0x0f);
        assert(((6u8 << 4u8) & 0xf0u8) | ((tc >> 4u8) & 0x0fu8) == 0x60u8 | ((tc >> 4u8) & 0x0fu8))
            by (bit_vector);
        buf[1] = ((tc << 4) & 0xf0) | (((fl >> 16) & 0x0f) as u8);
        buf[2] = (fl >> 8) as u8;
        buf[3] = fl as u8;
        assert(buf@ =~= splice(old(buf)@, 0, b.subrange(0, 4)));
        if buf.len() < 6 {
            return SResult::Needed(6);
        }
        buf[4] = u16_hi(self.payload_len);
        buf[5] = u16_lo(self.payload_len);
        assert(buf@ =~= splice(old(buf)@, 0, b.subrange(0, 6)));
        if buf.len() < 7 {
            return SResult::Needed(7);
        }
        buf[6] = self.next_header.to_u8();
        assert(buf@ =~= splice(old(buf)@, 0, b.subrange(0, 7)));
        if buf.len() < 8 {
            return SResult::Needed(8);
        }
        buf[7] = self.hop_limit;
        assert(buf@ =~= splice(old(buf)@, 0, b.subrange(0, 8)));
        let ghost before = buf@;
        match self.src_addr.encode_at(buf, 8) {
            SResult::Done(_, _) => {},
            _ => {
                return SResult::Needed(24);
            },
        }
        assert(buf@ =~= splice(old(buf)@, 0, b.subrange(0, 24)));
        match self.dst_addr.encode_at(buf, 24) {
            SResult::Done(_, _) => {},
            _ => {
                return SResult::Needed(40);
            },
        }
        assert(buf@ =~= splice(old(buf)@, 0, b));
        SResult::Done(40, ())
    }

    /// Parses an IPv6 header from the start of `buf`. Fails with `Error` if
    /// the version is not 6 or the next header type is unknown, and with
    /// `Needed` if `buf` ends before the header does.
    pub fn decode(buf: &[u8]) -> (r: SResult<Header>)
        ensures
            header_decode_ok(buf@) ==> (r matches SResult::Done(end, h) && end == 40 && header_eq(
                h,
                header_from_bytes(buf@, nh_from_value(buf@[6]).unwrap()),
            )),
            !header_decode_ok(buf@) ==> r == header_decode_fail(buf@),
    {
        if buf.len() < 4 {
            return SResult::Needed(4);
        }
        let version = (buf[0] & 0xf0) >> 4;
        if version != IP_VERSION {
            return SResult::Error;
        }
        let traffic_class = ((buf[0] & 0x0f) << 4) | ((buf[1] & 0xf0) >> 4);
        let flow_label = (((buf[1] & 0x0f) as u32) << 16) | ((buf[2] as u32) << 8) | (
        buf[3] as u32);
        if buf.len() < 6 {
            return SResult::Needed(6);
        }
        let payload_len = u16_from_be(buf[4], buf[5]);
        if buf.len() < 7 {
            return SResult::Needed(7);
        }
        let next_header = match NextHeaderType::from_nh(buf[6]) {
            Some(nh) => nh,
            None => {
                return SResult::Error;
            },
        };
        if buf.len() < 8 {
            return SResult::Needed(8);
        }
        let hop_limit = buf[7];
        let src_addr = match Address::decode_at(buf, 8) {
            SResult::Done(_, a) => a,
            _ => {
                return SResult::Needed(24);
            },
        };
        let dst_addr = match Address::decode_at(buf, 24) {
            SResult::Done(_, a) => a,
            _ => {
                return SResult::Needed(40);
            },
        };
        SResult::Done(
            40,
            Header {
                traffic_class: traffic_class,
                flow_label: flow_label,
                payload_len: payload_len,
                next_header: next_header,
                hop_limit: hop_limit,
                src_addr: src_addr,
                dst_addr: dst_addr,
            },
        )
    }
}

/// Decoding the bytes that encoding a header wrote gives the header back,
/// provided its flow label fits in the 20 bits the wire format carries.
pub proof fn lemma_header_encode_decode(h: Header)
    requires
        h.flow_label < 0x10_0000,
    ensures
        header_decode_ok(header_bytes(h)),
        header_eq(header_from_bytes(header_bytes(h), h.next_header), h),
{
    let b = header_bytes(h);
    let tc = h.traffic_class;
    let fl = h.flow_label;
    assert(((0x60u8 | ((tc >> 4u8) & 0x0fu8)) & 0xf0u8) >> 4u8 == 6u8) by (bit_vector);
    assert(((((0x60u8 | ((tc >> 4u8) & 0x0fu8)) & 0x0fu8) << 4u8) | (((((tc << 4u8) & 0xf0u8) | (((
    fl >> 16u32) & 0x0fu32) as u8)) & 0xf0u8) >> 4u8)) == tc) by (bit_vector);
    assert(fl < 0x10_0000u32 ==> (((((((tc << 4u8) & 0xf0u8) | (((fl >> 16u32) & 0x0fu32) as u8))
        & 0x0fu8) as u32) << 16u32) | ((((fl >> 8u32) as u8) as u32) << 8u32) | ((fl as u8) as u32))
        == fl) by (bit_vector);
    crate::net::stream::lemma_be16_roundtrip(h.payload_len);
    lemma_nh_value_roundtrip(h.next_header);
    assert(b.subrange(8, 24) =~= h.src_addr.0@);
    assert(b.subrange(24, 40) =~= h.dst_addr.0@);
}

} // verus!
