//! IEEE 802.15.4 frame header fields: frame types, addresses, security
//! levels and the decoded MAC header.

use vstd::prelude::*;

verus! {

/// The type of an IEEE 802.15.4 frame.
#[derive(Copy, Clone, Debug, PartialEq, Eq, Structural)]
pub enum FrameType {
    Beacon,
    Data,
    Acknowledgement,
    MACCommand,
    Multipurpose,
    Fragment,
    Extended,
}

/// The security level of a frame: whether its payload is encrypted, and
/// the length of its message integrity code.
#[derive(Copy, Clone, Debug, PartialEq, Eq, Structural)]
pub enum SecurityLevel {
    NoSecurity,
    Mic32,
    Mic64,
    Mic128,
    EncMic32,
    EncMic64,
    EncMic128,
}

/// The length of the message integrity code of a level.
pub open spec fn level_mic_len(level: SecurityLevel) -> usize {
    match level {
        SecurityLevel::NoSecurity => 0,
        SecurityLevel::Mic32 | SecurityLevel::EncMic32 => 4,
        SecurityLevel::Mic64 | SecurityLevel::EncMic64 => 8,
        SecurityLevel::Mic128 | SecurityLevel::EncMic128 => 16,
    }
}

/// Whether a level encrypts the payload.
pub open spec fn level_encrypts(level: SecurityLevel) -> bool {
    level is EncMic32 || level is EncMic64 || level is EncMic128
}

/// The number that encodes a level.
pub open spec fn level_number(level: SecurityLevel) -> u8 {
    match level {
        SecurityLevel::NoSecurity => 0,
        SecurityLevel::Mic32 => 1,
        SecurityLevel::Mic64 => 2,
        SecurityLevel::Mic128 => 3,
        SecurityLevel::EncMic32 => 5,
        SecurityLevel::EncMic64 => 6,
        SecurityLevel::EncMic128 => 7,
    }
}

impl SecurityLevel {
    /// The length of the message integrity code.
    pub fn mic_len(&self) -> (r: usize)
        ensures
            r == level_mic_len(*self),
    {
        match self {
            SecurityLevel::NoSecurity => 0,
            SecurityLevel::Mic32 | SecurityLevel::EncMic32 => 4,
            SecurityLevel::Mic64 | SecurityLevel::EncMic64 => 8,
            SecurityLevel::Mic128 | SecurityLevel::EncMic128 => 16,
        }
    }

    /// Whether the payload is encrypted.
    pub fn encryption_needed(&self) -> (r: bool)
        ensures
            r == level_encrypts(*self),
    {
        match self {
            SecurityLevel::EncMic32 | SecurityLevel::EncMic64 | SecurityLevel::EncMic128 => true,
            _ => false,
        }
    }

    /// The number that encodes the level.
    pub fn to_u8(&self) -> (r: u8)
        ensures
            r == level_number(*self),
    {
        match self {
            SecurityLevel::NoSecurity => 0,
            SecurityLevel::Mic32 => 1,
            SecurityLevel::Mic64 => 2,
            SecurityLevel::Mic128 => 3,
            SecurityLevel::EncMic32 => 5,
            SecurityLevel::EncMic64 => 6,
            SecurityLevel::EncMic128 => 7,
        }
    }
}

/// A PAN identifier.
pub type PanID = u16;

/// A MAC address, short or extended.
#[derive(Copy, Clone, Debug)]
pub enum MacAddress {
    Short(u16),
    Long([u8; 8]),
}

/// The version field of a frame.
#[derive(Copy, Clone, Debug, PartialEq, Eq, Structural)]
pub enum FrameVersion {
    V2003,
    V2006,
    V2015,
}

/// How the key that secures a frame is identified.
#[derive(Copy, Clone, Debug)]
pub enum KeyId {
    Implicit,
    Index(u8),
    Source4Index([u8; 4], u8),
    Source8Index([u8; 8], u8),
}

/// The auxiliary security header of a frame.
#[derive(Copy, Clone, Debug)]
pub struct Security {
    pub level: SecurityLevel,
    pub asn_in_nonce: bool,
    pub frame_counter: Option<u32>,
    pub key_id: KeyId,
}

/// The fields of a MAC header.
#[derive(Copy, Clone, Debug)]
pub struct Header {
    pub frame_type: FrameType,
    pub frame_pending: bool,
    pub ack_requested: bool,
    pub version: FrameVersion,
    pub seq: Option<u8>,
    pub dst_pan: Option<PanID>,
    pub dst_addr: Option<MacAddress>,
    pub src_pan: Option<PanID>,
    pub src_addr: Option<MacAddress>,
    pub security: Option<Security>,
}

/// The encoder and decoder of MAC headers, provided by the frame-format
/// layer below the MAC.
pub trait HeaderCodec {
    /// The outcome of encoding `header` into a buffer of `buf_len` bytes
    /// from `offset` on.
    spec fn encoded(&self, header: Header, buf_len: usize, offset: usize, has_payload: bool) -> Option<(usize, usize)>;

    /// The outcome of decoding the header at the start of `buf`.
    spec fn decoded(&self, buf: &[u8]) -> Option<(usize, Header, usize)>;

    /// Decodes the header at the start of `buf`; on success gives the offset
    /// of the data payload, the header, and the offset of the MAC payload.
    fn decode(&self, buf: &[u8]) -> (r: Option<(usize, Header, usize)>)
        ensures
            r == self.decoded(buf),
    ;

    /// Whether encoding `header` from `offset` on turns the bytes `before`
    /// into `after`.
    spec fn wrote(&self, header: Header, offset: usize, has_payload: bool, before: &[u8], after: &[u8]) -> bool;

    /// Encodes `header` into `buf` from `offset` on; on success gives the
    /// offset of the data payload and the offset of the MAC payload, both
    /// relative to `offset`.
    fn encode(&self, header: &Header, buf: &mut [u8], offset: usize, has_payload: bool) -> (r: Option<(usize, usize)>)
        ensures
            r == self.encoded(*header, old(buf)@.len() as usize, offset, has_payload),
            self.wrote(*header, offset, has_payload, &*old(buf), &*final(buf)),
    ;
}

} // verus!
