//! The ICMPv6 header of the networking stack, with its encoding and
//! decoding.

pub mod icmp_send;

use vstd::prelude::*;
use crate::net::stream::{SResult, splice, be16_bytes, be16_at, decode_u8, decode_u16, lemma_be16_roundtrip, u16_hi, u16_lo, copy_into};

verus! {

/// An ICMPv6 header.
#[derive(Copy, Clone, Debug)]
pub struct ICMPHeader {
    pub code: u8,
    pub cksum: u16,
    pub options: ICMPHeaderOptions,
}

/// The type-specific fields of an ICMPv6 header.
#[derive(Copy, Clone, Debug)]
pub enum ICMPHeaderOptions {
    Type0 { id: u16, seqno: u16 },
    Type3 { unused: u16, next_mtu: u16 },
}

/// The ICMPv6 message types the stack knows.
#[derive(Copy, Clone, Debug)]
pub enum ICMPType {
    Type0,
    Type3,
}

/// The fresh options of a message type.
pub open spec fn default_options(t: ICMPType) -> ICMPHeaderOptions {
    match t {
        ICMPType::Type0 => ICMPHeaderOptions::Type0 { id: 0, seqno: 0 },
        ICMPType::Type3 => ICMPHeaderOptions::Type3 { unused: 0, next_mtu: 0 },
    }
}

/// The message type of a header's options.
pub open spec fn options_type(o: ICMPHeaderOptions) -> ICMPType {
    match o {
        ICMPHeaderOptions::Type0 { .. } => ICMPType::Type0,
        ICMPHeaderOptions::Type3 { .. } => ICMPType::Type3,
    }
}

/// The type number of a message type.
pub open spec fn type_number(t: ICMPType) -> u8 {
    match t {
        ICMPType::Type0 => 0,
        ICMPType::Type3 => 3,
    }
}

/// The eight bytes of an encoded header: type, code, checksum and the two
/// 16-bit option fields.
pub open spec fn msg_bytes(h: ICMPHeader) -> Seq<u8> {
    let (a, b) = match h.options {
        ICMPHeaderOptions::Type0 { id, seqno } => (id, seqno),
        ICMPHeaderOptions::Type3 { unused, next_mtu } => (unused, next_mtu),
    };
    seq![type_number(options_type(h.options)), h.code] + be16_bytes(h.cksum) + be16_bytes(a)
        + be16_bytes(b)
}

/// The number of leading bytes of an encoded header that are written when
/// `avail` bytes are available: whole fields only.
pub open spec fn msg_fit(avail: int) -> int {
    if avail >= 8 {
        8
    } else if avail >= 6 {
        6
    } else if avail >= 4 {
        4
    } else if avail >= 2 {
        2
    } else if avail >= 1 {
        1
    } else {
        0
    }
}

/// The end of the field after the first `b` bytes.
pub open spec fn msg_next(b: int) -> int {
    if b == 0 {
        1
    } else if b == 1 {
        2
    } else {
        b + 2
    }
}

/// The header held by the first eight bytes of `s`, whose type is `t`.
pub open spec fn msg_from(s: Seq<u8>, t: ICMPType) -> ICMPHeader {
    ICMPHeader {
        code: s[1],
        cksum: be16_at(s, 2),
        options: match t {
            ICMPType::Type0 => ICMPHeaderOptions::Type0 { id: be16_at(s, 4), seqno: be16_at(s, 6) },
            ICMPType::Type3 => ICMPHeaderOptions::Type3 {
                unused: be16_at(s, 4),
                next_mtu: be16_at(s, 6),
            },
        },
    }
}

/// The result of decoding a header from `s`: the first field that does
/// not fit asks for more bytes, and an unknown type is an error.
pub open spec fn msg_decode_spec(s: Seq<u8>) -> SResult<ICMPHeader> {
    if s.len() < 1 {
        SResult::Needed(1)
    } else if s[0] != 0 && s[0] != 3 {
        SResult::Error
    } else if s.len() < 2 {
        SResult::Needed(2)
    } else if s.len() < 4 {
        SResult::Needed(4)
    } else if s.len() < 6 {
        SResult::Needed(6)
    } else if s.len() < 8 {
        SResult::Needed(8)
    } else {
        SResult::Done(8, msg_from(s, if s[0] == 0 { ICMPType::Type0 } else { ICMPType::Type3 }))
    }
}

impl ICMPHeader {
    /// A header of the given type with zero code, checksum and options.
    pub fn new(msg_type: ICMPType) -> (r: ICMPHeader)
        ensures
            r == (ICMPHeader { code: 0, cksum: 0, options: default_options(msg_type) }),
    {
        let options = match msg_type {
            ICMPType::Type0 => ICMPHeaderOptions::Type0 { id: 0, seqno: 0 },
            ICMPType::Type3 => ICMPHeaderOptions::Type3 { unused: 0, next_mtu: 0 },
        };
        ICMPHeader { code: 0, cksum: 0, options: options }
    }

    /// Changes the type, resetting the options.
    pub fn set_type(&mut self, msg_type: ICMPType)
        ensures
            *final(self) == (ICMPHeader { options: default_options(msg_type), ..*old(self) }),
    {
        match msg_type {
            ICMPType::Type0 => self.set_options(ICMPHeaderOptions::Type0 { id: 0, seqno: 0 }),
            ICMPType::Type3 => self.set_options(
                ICMPHeaderOptions::Type3 { unused: 0, next_mtu: 0 },
            ),
        }
    }

    pub fn set_code(&mut self, code: u8)
        ensures
            *final(self) == (ICMPHeader { code: code, ..*old(self) }),
    {
        self.code = code;
    }

    pub fn set_cksum(&mut self, cksum: u16)
        ensures
            *final(self) == (ICMPHeader { cksum: cksum, ..*old(self) }),
    {
        self.cksum = cksum;
    }

    pub fn set_options(&mut self, options: ICMPHeaderOptions)
        ensures
            *final(self) == (ICMPHeader { options: options, ..*old(self) }),
    {
        self.options = options;
    }

    /// The message type, given by the options.
    pub fn get_type(&self) -> (r: ICMPType)
        ensures
            r == options_type(self.options),
    {
        match self.options {
            ICMPHeaderOptions::Type0 { .. } => ICMPType::Type0,
            ICMPHeaderOptions::Type3 { .. } => ICMPType::Type3,
        }
    }

    /// The message type number.
    pub fn get_type_as_int(&self) -> (r: u8)
        ensures
            r == type_number(options_type(self.options)),
    {
        match self.get_type() {
            ICMPType::Type0 => 0,
            ICMPType::Type3 => 3,
        }
    }

    pub fn get_code(&self) -> (r: u8)
        ensures
            r == self.code,
    {
        self.code
    }

    pub fn get_cksum(&self) -> (r: u16)
        ensures
            r == self.cksum,
    {
        self.cksum
    }

    pub fn get_options(&self) -> (r: ICMPHeaderOptions)
        ensures
            r == self.options,
    {
        self.options
    }

    /// Encodes the header at `offset`, field by field. A field that does not
    /// fit stops the encoding with `Needed`, the fields before it written;
    /// an offset past the end of `buf` is an error.
    pub fn encode(&self, buf: &mut [u8], offset: usize) -> (r: SResult<usize>)
        requires
            offset + 8 <= usize::MAX,
        ensures
            offset > old(buf)@.len() ==> r is Error && final(buf)@ == old(buf)@,
            offset <= old(buf)@.len() ==> ({
                let b = msg_fit(old(buf)@.len() - offset);
                &&& final(buf)@ == splice(old(buf)@, offset as int, msg_bytes(*self).subrange(0, b))
                &&& b == 8 ==> r == SResult::Done((offset + 8) as usize, (offset + 8) as usize)
                &&& b < 8 ==> r == SResult::<usize>::Needed((offset + msg_next(b)) as usize)
            }),
    {
        let _ = buf.len();
        if offset > buf.len() {
            return SResult::Error;
        }
        let (opt_a, opt_b) = match self.options {
            ICMPHeaderOptions::Type0 { id, seqno } => (id, seqno),
            ICMPHeaderOptions::Type3 { unused, next_mtu } => (unused, next_mtu),
        };
        let bytes: [u8; 8] = [
            self.get_type_as_int(),
            self.code,
            u16_hi(self.cksum),
            u16_lo(self.cksum),
            u16_hi(opt_a),
            u16_lo(opt_a),
            u16_hi(opt_b),
            u16_lo(opt_b),
        ];
        assert(bytes@ =~= msg_bytes(*self));
        // Fields are written whole, as long as they fit
        let avail = buf.len() - offset;
        let fit: usize = if avail >= 8 {
            8
        } else if avail >= 6 {
            6
        } else if avail >= 4 {
            4
        } else if avail >= 2 {
            2
        } else if avail >= 1 {
            1
        } else {
            0
        };
        copy_into(buf, offset, &bytes, 0, fit);
        if fit == 8 {
            SResult::Done(offset + 8, offset + 8)
        } else if fit == 0 {
            SResult::Needed(offset + 1)
        } else if fit == 1 {
            SResult::Needed(offset + 2)
        } else {
            SResult::Needed(offset + fit + 2)
        }
    }

    /// Decodes a header from the start of `buf`.
    pub fn decode(buf: &[u8]) -> (r: SResult<ICMPHeader>)
        ensures
            r == msg_decode_spec(buf@),
    {
        let _ = buf.len();
        let type_num = match decode_u8(buf, 0) {
            SResult::Done(_, v) => v,
            _ => {
                return SResult::Needed(1);
            },
        };
        let msg_type = if type_num == 0 {
            ICMPType::Type0
        } else if type_num == 3 {
            ICMPType::Type3
        } else {
            return SResult::Error;
        };
        let mut hdr = Self::new(msg_type);
        let code = match decode_u8(buf, 1) {
            SResult::Done(_, v) => v,
            _ => {
                return SResult::Needed(2);
            },
        };
        hdr.code = code;
        let cksum = match decode_u16(buf, 2) {
            SResult::Done(_, v) => v,
            _ => {
                return SResult::Needed(4);
            },
        };
        hdr.cksum = cksum;
        let a = match decode_u16(buf, 4) {
            SResult::Done(_, v) => v,
            _ => {
                return SResult::Needed(6);
            },
        };
        let b = match decode_u16(buf, 6) {
            SResult::Done(_, v) => v,
            _ => {
                return SResult::Needed(8);
            },
        };
        match msg_type {
            ICMPType::Type0 => hdr.set_options(ICMPHeaderOptions::Type0 { id: a, seqno: b }),
            ICMPType::Type3 => hdr.set_options(
                ICMPHeaderOptions::Type3 { unused: a, next_mtu: b },
            ),
        }
        SResult::Done(8, hdr)
    }
}

/// Decoding what encoding wrote gives back the header.
pub proof fn lemma_msg_encode_decode(h: ICMPHeader, s: Seq<u8>)
    requires
        s.len() >= 8,
        s.subrange(0, 8) == msg_bytes(h),
    ensures
        msg_decode_spec(s) == SResult::Done(8usize, h),
{
    let b = msg_bytes(h);
    assert forall|i: int| 0 <= i < 8 implies s[i] == b[i] by {
        assert(s.subrange(0, 8)[i] == b[i]);
    }
    lemma_be16_roundtrip(h.cksum);
    match h.options {
        ICMPHeaderOptions::Type0 { id, seqno } => {
            lemma_be16_roundtrip(id);
            lemma_be16_roundtrip(seqno);
        },
        ICMPHeaderOptions::Type3 { unused, next_mtu } => {
            lemma_be16_roundtrip(unused);
            lemma_be16_roundtrip(next_mtu);
        },
    }
}

} // verus!
