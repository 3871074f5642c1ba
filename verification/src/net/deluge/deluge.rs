//! The Deluge protocol: its packets and the state machine that decides, for
//! each packet received and each timer, what to tell the program state, the
//! Trickle timer and the network.

use vstd::prelude::*;
use crate::returncode::ReturnCode;
use crate::hil::time::{Alarm, Frequency};
use crate::net::stream::{SResult, splice, be16_bytes, be16_at, u16_hi, u16_lo, copy_into, lemma_be16_roundtrip};
use crate::net::deluge::program_state::DelugeProgramState;
use crate::net::deluge::transmit_layer::DelugeTransmit;
use crate::net::deluge::trickle::Trickle;
use crate::trickle::armed_after;

verus! {

/// The kinds of Deluge packets and their fields.
#[derive(Copy, Clone, Debug)]
pub enum DelugePacketType {
    MaintainSummary { version: u16, page_num: u16 },
    MaintainObjectProfile { version: u16, age_vector_size: u16 },
    RequestForData { version: u16, page_num: u16, packet_num: u16 },
    DataPacket { version: u16, page_num: u16, packet_num: u16 },
}

/// The largest encoded header, in bytes.
pub const MAX_HEADER_SIZE: usize = 12;

/// The first byte of every Deluge packet.
pub const DELUGE_PACKET_HDR: u8 = 0xd0;

pub const MAINTAIN_SUMMARY: u8 = 0x01;
pub const MAINTAIN_PROFILE: u8 = 0x02;
pub const REQUEST_FOR_DATA: u8 = 0x03;
pub const DATA_PACKET: u8 = 0x04;

/// The smallest packet `decode` accepts: the size of a decoded packet on
/// 32-bit targets, plus one.
pub const DECODE_MIN_LEN: usize = 21;

/// A Deluge packet: the object it is about, its type and fields, and its
/// payload.
#[derive(Copy, Clone, Debug)]
pub struct DelugePacket<'a> {
    pub object_id: u16,
    pub payload_type: DelugePacketType,
    pub buffer: &'a [u8],
}

/// The type byte and field bytes of a packet type.
pub open spec fn type_bytes(t: DelugePacketType) -> Seq<u8> {
    match t {
        DelugePacketType::MaintainSummary { version, page_num } => seq![MAINTAIN_SUMMARY]
            + be16_bytes(version) + be16_bytes(page_num),
        DelugePacketType::MaintainObjectProfile { version, age_vector_size } => seq![
            MAINTAIN_PROFILE,
        ] + be16_bytes(version) + be16_bytes(age_vector_size),
        DelugePacketType::RequestForData { version, page_num, packet_num } => seq![REQUEST_FOR_DATA]
            + be16_bytes(version) + be16_bytes(page_num) + be16_bytes(packet_num),
        DelugePacketType::DataPacket { version, page_num, packet_num } => seq![DATA_PACKET]
            + be16_bytes(version) + be16_bytes(page_num) + be16_bytes(packet_num),
    }
}

/// The encoding of a packet: header byte, object identifier, type and
/// fields, then the payload.
pub open spec fn packet_bytes(object_id: u16, t: DelugePacketType, payload: Seq<u8>) -> Seq<u8> {
    seq![DELUGE_PACKET_HDR] + be16_bytes(object_id) + type_bytes(t) + payload
}

/// The packet type encoded at `s[off..]`, and the offset after it; `None`
/// for an unknown type or too few bytes.
pub open spec fn type_from(s: Seq<u8>, off: int) -> Option<(DelugePacketType, int)> {
    if off + 1 > s.len() {
        None
    } else {
        let t = s[off];
        if t == MAINTAIN_SUMMARY || t == MAINTAIN_PROFILE {
            if off + 5 > s.len() {
                None
            } else {
                let a = be16_at(s, off + 1);
                let b = be16_at(s, off + 3);
                Some(
                    (
                        if t == MAINTAIN_SUMMARY {
                            DelugePacketType::MaintainSummary { version: a, page_num: b }
                        } else {
                            DelugePacketType::MaintainObjectProfile { version: a, age_vector_size: b }
                        },
                        off + 5,
                    ),
                )
            }
        } else if t == REQUEST_FOR_DATA || t == DATA_PACKET {
            if off + 7 > s.len() {
                None
            } else {
                let a = be16_at(s, off + 1);
                let b = be16_at(s, off + 3);
                let c = be16_at(s, off + 5);
                Some(
                    (
                        if t == REQUEST_FOR_DATA {
                            DelugePacketType::RequestForData { version: a, page_num: b, packet_num: c }
                        } else {
                            DelugePacketType::DataPacket { version: a, page_num: b, packet_num: c }
                        },
                        off + 7,
                    ),
                )
            }
        } else {
            None
        }
    }
}

impl<'a> DelugePacket<'a> {
    /// A summary packet of version 0, page 0, for object 0, carrying
    /// `buffer`.
    pub fn new(buffer: &'a [u8]) -> (r: DelugePacket<'a>)
        ensures
            r.object_id == 0,
            r.payload_type == (DelugePacketType::MaintainSummary { version: 0, page_num: 0 }),
            r.buffer == buffer,
    {
        DelugePacket {
            object_id: 0,
            payload_type: DelugePacketType::MaintainSummary { version: 0, page_num: 0 },
            buffer: buffer,
        }
    }

    /// Decodes a packet: too short a packet asks for more bytes, a wrong
    /// header byte is an error; the payload is the rest of `packet`.
    pub fn decode(packet: &'a [u8]) -> (r: SResult<DelugePacket<'a>>)
        requires
            packet@.len() >= DECODE_MIN_LEN && packet@[0] == DELUGE_PACKET_HDR ==> type_from(
                packet@,
                3,
            ) is Some,
        ensures
            packet@.len() < DECODE_MIN_LEN ==> r is Needed && r == SResult::<DelugePacket<'a>>::Needed(
                DECODE_MIN_LEN,
            ),
            packet@.len() >= DECODE_MIN_LEN && packet@[0] != DELUGE_PACKET_HDR ==> r is Error,
            packet@.len() >= DECODE_MIN_LEN && packet@[0] == DELUGE_PACKET_HDR ==> ({
                let (t, off) = type_from(packet@, 3).unwrap();
                r matches SResult::Done(o, p) && o == off && p.object_id == be16_at(packet@, 1)
                    && p.payload_type == t && p.buffer@ == packet@.subrange(off, packet@.len() as int)
            }),
    {
        if packet.len() < DECODE_MIN_LEN {
            return SResult::Needed(DECODE_MIN_LEN);
        }
        let packet_hdr = packet[0];
        if packet_hdr != DELUGE_PACKET_HDR {
            return SResult::Error;
        }
        let object_id = crate::net::stream::u16_from_be(packet[1], packet[2]);
        let (off, packet_type) = match DelugePacket::decode_payload_type(3, packet) {
            SResult::Done(off, t) => (off, t),
            _ => (3, DelugePacketType::MaintainSummary { version: 0, page_num: 0 }),
        };
        let mut deluge_packet = DelugePacket::new(slice_from(packet, off));
        deluge_packet.object_id = object_id;
        deluge_packet.payload_type = packet_type;
        SResult::Done(off, deluge_packet)
    }

    /// Decodes the packet type and its fields at `buf[off..]`.
    pub fn decode_payload_type(off: usize, buf: &[u8]) -> (r: SResult<DelugePacketType>)
        requires
            off + 7 <= usize::MAX,
        ensures
            type_from(buf@, off as int) matches Some((t, o)) ==> r == SResult::Done(o as usize, t),
            off + 1 <= buf@.len() && type_from(buf@, off as int) is None && (buf@[off as int]
                != MAINTAIN_SUMMARY && buf@[off as int] != MAINTAIN_PROFILE && buf@[off as int]
                != REQUEST_FOR_DATA && buf@[off as int] != DATA_PACKET) ==> r is Error,
            type_from(buf@, off as int) is None ==> !(r is Done),
    {
        if off >= buf.len() {
            return SResult::Needed(off + 1);
        }
        let type_as_int = buf[off];
        let off = off + 1;
        if type_as_int == MAINTAIN_SUMMARY || type_as_int == MAINTAIN_PROFILE {
            if buf.len() - off < 4 {
                return SResult::Needed(off + 4);
            }
            let a = crate::net::stream::u16_from_be(buf[off], buf[off + 1]);
            let b = crate::net::stream::u16_from_be(buf[off + 2], buf[off + 3]);
            let result = if type_as_int == MAINTAIN_SUMMARY {
                DelugePacketType::MaintainSummary { version: a, page_num: b }
            } else {
                DelugePacketType::MaintainObjectProfile { version: a, age_vector_size: b }
            };
            SResult::Done(off + 4, result)
        } else if type_as_int == REQUEST_FOR_DATA || type_as_int == DATA_PACKET {
            if buf.len() - off < 6 {
                return SResult::Needed(off + 6);
            }
            let a = crate::net::stream::u16_from_be(buf[off], buf[off + 1]);
            let b = crate::net::stream::u16_from_be(buf[off + 2], buf[off + 3]);
            let c = crate::net::stream::u16_from_be(buf[off + 4], buf[off + 5]);
            let result = if type_as_int == REQUEST_FOR_DATA {
                DelugePacketType::RequestForData { version: a, page_num: b, packet_num: c }
            } else {
                DelugePacketType::DataPacket { version: a, page_num: b, packet_num: c }
            };
            SResult::Done(off + 6, result)
        } else {
            SResult::Error
        }
    }

    /// Encodes the packet at the start of `buffer`, which must have room for
    /// the largest header and the payload.
    pub fn encode(&self, buffer: &mut [u8]) -> (r: SResult<usize>)
        requires
            MAX_HEADER_SIZE + self.buffer@.len() <= usize::MAX,
        ensures
            old(buffer)@.len() < MAX_HEADER_SIZE + self.buffer@.len() ==> r == SResult::<usize>::Needed(
                (MAX_HEADER_SIZE + self.buffer@.len()) as usize,
            ) && final(buffer)@ == old(buffer)@,
            old(buffer)@.len() >= MAX_HEADER_SIZE + self.buffer@.len() ==> ({
                let bytes = packet_bytes(self.object_id, self.payload_type, self.buffer@);
                &&& r == SResult::Done(bytes.len() as usize, bytes.len() as usize)
                &&& final(buffer)@ == splice(old(buffer)@, 0, bytes)
            }),
    {
        if buffer.len() < MAX_HEADER_SIZE + self.buffer.len() {
            return SResult::Needed(MAX_HEADER_SIZE + self.buffer.len());
        }
        let (header, off) = encode_header(self.object_id, self.payload_type);
        copy_into(buffer, 0, &header, 0, off);
        copy_into(buffer, off, self.buffer, 0, self.buffer.len());
        assert(self.buffer@.subrange(0, self.buffer@.len() as int) =~= self.buffer@);
        assert(buffer@ =~= splice(
            old(buffer)@,
            0,
            packet_bytes(self.object_id, self.payload_type, self.buffer@),
        ));
        SResult::Done(off + self.buffer.len(), off + self.buffer.len())
    }
}

/// The encoded header of a packet, in the first bytes of an array, and its
/// length.
fn encode_header(object_id: u16, t: DelugePacketType) -> (r: ([u8; 10], usize))
    ensures
        r.1 <= 10,
        r.0@.subrange(0, r.1 as int) == seq![DELUGE_PACKET_HDR] + be16_bytes(object_id) + type_bytes(t),
{
    let mut h = [0u8; 10];
    h[0] = DELUGE_PACKET_HDR;
    h[1] = u16_hi(object_id);
    h[2] = u16_lo(object_id);
    let (ty, a, b, c, n): (u8, u16, u16, u16, usize) = match t {
        DelugePacketType::MaintainSummary { version, page_num } => (MAINTAIN_SUMMARY, version, page_num, 0, 8),
        DelugePacketType::MaintainObjectProfile { version, age_vector_size } => (
            MAINTAIN_PROFILE,
            version,
            age_vector_size,
            0,
            8,
        ),
        DelugePacketType::RequestForData { version, page_num, packet_num } => (
            REQUEST_FOR_DATA,
            version,
            page_num,
            packet_num,
            10,
        ),
        DelugePacketType::DataPacket { version, page_num, packet_num } => (
            DATA_PACKET,
            version,
            page_num,
            packet_num,
            10,
        ),
    };
    h[3] = ty;
    h[4] = u16_hi(a);
    h[5] = u16_lo(a);
    h[6] = u16_hi(b);
    h[7] = u16_lo(b);
    h[8] = u16_hi(c);
    h[9] = u16_lo(c);
    assert(h@.subrange(0, n as int) =~= seq![DELUGE_PACKET_HDR] + be16_bytes(object_id) + type_bytes(t));
    (h, n)
}

/// The rest of `s` from `off`.
fn slice_from<'b>(s: &'b [u8], off: usize) -> (r: &'b [u8])
    requires
        off <= s@.len(),
    ensures
        r@ == s@.subrange(off as int, s@.len() as int),
{
    vstd::slice::slice_subrange(s, off, s.len())
}

/// Decoding what encoding wrote gives back the packet, with its payload as
/// the rest of the bytes, when the encoding is at least as long as a
/// decoder accepts.
pub proof fn lemma_packet_roundtrip(object_id: u16, t: DelugePacketType, payload: Seq<u8>)
    requires
        packet_bytes(object_id, t, payload).len() >= DECODE_MIN_LEN,
    ensures
        ({
            let s = packet_bytes(object_id, t, payload);
            &&& s[0] == DELUGE_PACKET_HDR
            &&& be16_at(s, 1) == object_id
            &&& type_from(s, 3) matches Some((t2, off)) && t2 == t && s.subrange(off, s.len() as int)
                == payload
        }),
{
    let s = packet_bytes(object_id, t, payload);
    lemma_be16_roundtrip(object_id);
    match t {
        DelugePacketType::MaintainSummary { version, page_num } => {
            lemma_be16_roundtrip(version);
            lemma_be16_roundtrip(page_num);
            assert(s.subrange(8, s.len() as int) =~= payload);
        },
        DelugePacketType::MaintainObjectProfile { version, age_vector_size } => {
            lemma_be16_roundtrip(version);
            lemma_be16_roundtrip(age_vector_size);
            assert(s.subrange(8, s.len() as int) =~= payload);
        },
        DelugePacketType::RequestForData { version, page_num, packet_num } => {
            lemma_be16_roundtrip(version);
            lemma_be16_roundtrip(page_num);
            lemma_be16_roundtrip(packet_num);
            assert(s.subrange(10, s.len() as int) =~= payload);
        },
        DelugePacketType::DataPacket { version, page_num, packet_num } => {
            lemma_be16_roundtrip(version);
            lemma_be16_roundtrip(page_num);
            lemma_be16_roundtrip(packet_num);
            assert(s.subrange(10, s.len() as int) =~= payload);
        },
    }
}

/// The state of the Deluge protocol.
#[derive(Copy, Clone, Debug, PartialEq, Eq, Structural)]
pub enum DelugeState {
    Maintenance,
    Transmit,
    Receive,
}

/// What the protocol does upon a received packet, in this order: tell the
/// program state of a new version, tell Trickle whether the transmission
/// was consistent, note that an older version was heard, change state (and
/// restart the receive timer on entering the receive state), serve a
/// request for a packet, store a data packet, restart the receive timer.
#[derive(Copy, Clone, Debug)]
pub struct DelugeAction {
    pub new_version: Option<u16>,
    pub trickle: Option<bool>,
    pub set_received_old_v: bool,
    pub transition: Option<DelugeState>,
    pub request: Option<(u16, u16)>,
    pub data: Option<(u16, u16, u16)>,
    pub reset_timer: bool,
}

/// Doing nothing.
pub open spec fn no_action() -> DelugeAction {
    DelugeAction {
        new_version: None,
        trickle: None,
        set_received_old_v: false,
        transition: None,
        request: None,
        data: None,
        reset_timer: false,
    }
}

/// The action upon a packet of type `t` received in state `state`, when the
/// program is at version `cv` and receiving page `cp`.
pub open spec fn packet_action(state: DelugeState, t: DelugePacketType, cv: u16, cp: u16) -> DelugeAction {
    match state {
        DelugeState::Maintenance => match t {
            DelugePacketType::MaintainSummary { version, page_num } => if version != cv {
                // An inconsistent summary; a newer version is adopted
                DelugeAction {
                    new_version: if version > cv {
                        Some(version)
                    } else {
                        None
                    },
                    trickle: Some(false),
                    ..no_action()
                }
            } else if page_num != cp {
                // A neighbour with more pages is a reason to receive
                DelugeAction {
                    trickle: Some(false),
                    transition: if page_num > cp {
                        Some(DelugeState::Receive)
                    } else {
                        None
                    },
                    reset_timer: page_num > cp,
                    ..no_action()
                }
            } else {
                DelugeAction { trickle: Some(true), ..no_action() }
            },
            DelugePacketType::MaintainObjectProfile { version, .. } => if version < cv {
                DelugeAction { set_received_old_v: true, trickle: Some(false), ..no_action() }
            } else if version > cv {
                DelugeAction { new_version: Some(version), ..no_action() }
            } else {
                DelugeAction { trickle: Some(true), ..no_action() }
            },
            DelugePacketType::RequestForData { version, page_num, packet_num } => DelugeAction {
                trickle: if version < cv {
                    Some(false)
                } else {
                    None
                },
                transition: if page_num <= cp {
                    Some(DelugeState::Transmit)
                } else {
                    None
                },
                request: if page_num <= cp && version == cv {
                    Some((page_num, packet_num))
                } else {
                    None
                },
                ..no_action()
            },
            DelugePacketType::DataPacket { version, page_num, packet_num } => DelugeAction {
                trickle: if version < cv {
                    Some(false)
                } else {
                    None
                },
                data: Some((version, page_num, packet_num)),
                ..no_action()
            },
        },
        DelugeState::Receive => match t {
            DelugePacketType::RequestForData { .. } => DelugeAction {
                reset_timer: true,
                ..no_action()
            },
            DelugePacketType::DataPacket { version, page_num, packet_num } => DelugeAction {
                reset_timer: true,
                data: Some((version, page_num, packet_num)),
                ..no_action()
            },
            _ => no_action(),
        },
        DelugeState::Transmit => match t {
            DelugePacketType::RequestForData { version, page_num, packet_num } => DelugeAction {
                request: if version == cv && page_num <= cp {
                    Some((page_num, packet_num))
                } else {
                    None
                },
                ..no_action()
            },
            DelugePacketType::DataPacket { version, page_num, packet_num } => DelugeAction {
                data: Some((version, page_num, packet_num)),
                ..no_action()
            },
            _ => no_action(),
        },
    }
}

/// Decides what to do upon a packet of type `t` received in state `state`,
/// when the program is at version `cv` and receiving page `cp`.
pub fn received_packet_action(state: DelugeState, t: DelugePacketType, cv: u16, cp: u16) -> (r: DelugeAction)
    ensures
        r == packet_action(state, t, cv, cp),
{
    let none = DelugeAction {
        new_version: None,
        trickle: None,
        set_received_old_v: false,
        transition: None,
        request: None,
        data: None,
        reset_timer: false,
    };
    match state {
        DelugeState::Maintenance => match t {
            DelugePacketType::MaintainSummary { version, page_num } => if version != cv {
                DelugeAction {
                    new_version: if version > cv {
                        Some(version)
                    } else {
                        None
                    },
                    trickle: Some(false),
                    ..none
                }
            } else if page_num != cp {
                DelugeAction {
                    trickle: Some(false),
                    transition: if page_num > cp {
                        Some(DelugeState::Receive)
                    } else {
                        None
                    },
                    reset_timer: page_num > cp,
                    ..none
                }
            } else {
                DelugeAction { trickle: Some(true), ..none }
            },
            DelugePacketType::MaintainObjectProfile { version, .. } => if version < cv {
                DelugeAction { set_received_old_v: true, trickle: Some(false), ..none }
            } else if version > cv {
                DelugeAction { new_version: Some(version), ..none }
            } else {
                DelugeAction { trickle: Some(true), ..none }
            },
            DelugePacketType::RequestForData { version, page_num, packet_num } => DelugeAction {
                trickle: if version < cv {
                    Some(false)
                } else {
                    None
                },
                transition: if page_num <= cp {
                    Some(DelugeState::Transmit)
                } else {
                    None
                },
                request: if page_num <= cp && version == cv {
                    Some((page_num, packet_num))
                } else {
                    None
                },
                ..none
            },
            DelugePacketType::DataPacket { version, page_num, packet_num } => DelugeAction {
                trickle: if version < cv {
                    Some(false)
                } else {
                    None
                },
                data: Some((version, page_num, packet_num)),
                ..none
            },
        },
        DelugeState::Receive => match t {
            DelugePacketType::RequestForData { .. } => DelugeAction { reset_timer: true, ..none },
            DelugePacketType::DataPacket { version, page_num, packet_num } => DelugeAction {
                reset_timer: true,
                data: Some((version, page_num, packet_num)),
                ..none
            },
            _ => none,
        },
        DelugeState::Transmit => match t {
            DelugePacketType::RequestForData { version, page_num, packet_num } => DelugeAction {
                request: if version == cv && page_num <= cp {
                    Some((page_num, packet_num))
                } else {
                    None
                },
                ..none
            },
            DelugePacketType::DataPacket { version, page_num, packet_num } => DelugeAction {
                data: Some((version, page_num, packet_num)),
                ..none
            },
            _ => none,
        },
    }
}

/// The packet Trickle has a node advertise in the maintenance state: its
/// object profile after hearing an older version, else its summary.
pub open spec fn advertisement(received_old_v: bool, cv: u16, cp: u16) -> DelugePacketType {
    if received_old_v {
        DelugePacketType::MaintainObjectProfile { version: cv, age_vector_size: 0 }
    } else {
        DelugePacketType::MaintainSummary { version: cv, page_num: cp }
    }
}

/// The bytes broadcast for a packet: the 76-byte send buffer with the
/// encoded packet at its start; left zero when the packet does not fit.
pub open spec fn wire_bytes(object_id: u16, t: DelugePacketType, payload: Seq<u8>) -> Seq<u8> {
    let zero = Seq::new(76, |i: int| 0u8);
    if 76 < MAX_HEADER_SIZE + payload.len() {
        zero
    } else {
        splice(zero, 0, packet_bytes(object_id, t, payload))
    }
}

/// The delay of the receive timer, in seconds.
pub const RX_TIMER_DELAY: u32 = 5;

/// The state of the Deluge protocol and the components it drives.
pub struct DelugeData<P: DelugeProgramState, X: DelugeTransmit, T: Trickle, A: Alarm> {
    /// Whether to advertise the full object profile rather than a summary.
    pub received_old_v: bool,
    pub obj_update_count: usize,
    pub last_page_req_time: usize,
    pub data_packet_recv_time: usize,
    pub program_state: P,
    pub state: DelugeState,
    /// Whether a flash operation of the program state is outstanding.
    pub flash_txn_busy: bool,
    pub deluge_transmit_layer: X,
    pub trickle: T,
    pub alarm: A,
}

impl<P: DelugeProgramState, X: DelugeTransmit, T: Trickle, A: Alarm> DelugeData<P, X, T, A> {
    /// A protocol instance in the maintenance state.
    pub fn new(program_state: P, transmit_layer: X, trickle: T, alarm: A) -> (r: DelugeData<P, X, T, A>)
        ensures
            !r.received_old_v,
            r.obj_update_count == 0,
            r.last_page_req_time == usize::MAX,
            r.data_packet_recv_time == usize::MAX,
            r.program_state == program_state,
            r.state == DelugeState::Maintenance,
            !r.flash_txn_busy,
            r.deluge_transmit_layer == transmit_layer,
            r.trickle == trickle,
            r.alarm == alarm,
    {
        DelugeData {
            received_old_v: false,
            obj_update_count: 0,
            last_page_req_time: usize::MAX,
            data_packet_recv_time: usize::MAX,
            program_state: program_state,
            state: DelugeState::Maintenance,
            flash_txn_busy: false,
            deluge_transmit_layer: transmit_layer,
            trickle: trickle,
            alarm: alarm,
        }
    }

    /// Starts the Trickle timer: its first interval is of the smallest size.
    pub fn init(&mut self)
        ensures
            *final(self) == (DelugeData { trickle: final(self).trickle, ..*old(self) }),
            final(self).trickle.current_interval() == old(self).trickle.min_interval(),
    {
        self.trickle.initialize();
    }

    /// Changes state; entering the receive state restarts the receive timer.
    pub fn transition_state(&mut self, new_state: DelugeState)
        requires
            RX_TIMER_DELAY as int * A::Frequency::hz() as int <= u32::MAX,
        ensures
            *final(self) == (DelugeData { state: new_state, alarm: final(self).alarm, ..*old(self) }),
            new_state == DelugeState::Receive ==> armed_after(final(self).alarm, RX_TIMER_DELAY as usize),
            new_state != DelugeState::Receive ==> final(self).alarm == old(self).alarm,
    {
        self.state = new_state;
        if new_state == DelugeState::Receive {
            self.rx_state_reset_timer();
        }
    }

    /// Arms the receive timer.
    pub fn rx_state_reset_timer(&mut self)
        requires
            RX_TIMER_DELAY as int * A::Frequency::hz() as int <= u32::MAX,
        ensures
            *final(self) == (DelugeData { alarm: final(self).alarm, ..*old(self) }),
            armed_after(final(self).alarm, RX_TIMER_DELAY as usize),
    {
        let now = self.alarm.now();
        let tics = now.wrapping_add(RX_TIMER_DELAY * A::Frequency::frequency());
        self.alarm.set_alarm(tics);
    }

    /// Carries out the action decided for a received packet with payload
    /// `payload`.
    pub fn apply_action(&mut self, action: DelugeAction, payload: &[u8])
        requires
            RX_TIMER_DELAY as int * A::Frequency::hz() as int <= u32::MAX,
        ensures
            final(self).state == match action.transition {
                Some(s) => s,
                None => old(self).state,
            },
            final(self).received_old_v == (old(self).received_old_v || action.set_received_old_v),
            action.request is None && action.data is None ==> final(self).flash_txn_busy == old(
                self,
            ).flash_txn_busy,
            final(self).trickle.heard() == match action.trickle {
                Some(consistent) => old(self).trickle.heard().push(consistent),
                None => old(self).trickle.heard(),
            },
            final(self).program_state.versions_heard() == match action.new_version {
                Some(v) => old(self).program_state.versions_heard().push(v as usize),
                None => old(self).program_state.versions_heard(),
            },
            action.reset_timer ==> armed_after(final(self).alarm, RX_TIMER_DELAY as usize),
            !action.reset_timer ==> final(self).alarm == old(self).alarm,
    {
        match action.new_version {
            Some(v) => self.program_state.received_new_version(v as usize),
            None => {},
        }
        match action.trickle {
            Some(consistent) => self.trickle.received_transmission(consistent),
            None => {},
        }
        if action.set_received_old_v {
            self.received_old_v = true;
        }
        match action.transition {
            Some(s) => {
                self.state = s;
            },
            None => {},
        }
        if action.reset_timer {
            self.rx_state_reset_timer();
        }
        match action.request {
            Some((page_num, packet_num)) => {
                // The read completes asynchronously
                self.flash_txn_busy = true;
                if !self.program_state.get_requested_packet(page_num as usize, packet_num as usize) {
                    self.flash_txn_busy = false;
                }
            },
            None => {},
        }
        match action.data {
            Some((version, page_num, packet_num)) => {
                self.flash_txn_busy = true;
                // An invalid packet is dropped
                if !self.program_state.receive_packet(
                    version as usize,
                    page_num as usize,
                    packet_num as usize,
                    payload,
                ) {
                    self.flash_txn_busy = false;
                }
            },
            None => {},
        }
    }

    /// Encodes and broadcasts a packet.
    pub fn transmit_packet(&mut self, deluge_packet: &DelugePacket)
        requires
            MAX_HEADER_SIZE + deluge_packet.buffer@.len() <= usize::MAX,
        ensures
            *final(self) == (DelugeData { deluge_transmit_layer: final(self).deluge_transmit_layer, ..*old(self) }),
            final(self).deluge_transmit_layer.sent() == old(self).deluge_transmit_layer.sent().push(
                wire_bytes(deluge_packet.object_id, deluge_packet.payload_type, deluge_packet.buffer@),
            ),
    {
        let mut send_buf = [0u8; 76];
        proof {
            assert(send_buf@ =~= Seq::new(76, |i: int| 0u8));
        }
        let _encode_result = deluge_packet.encode(&mut send_buf);
        let _result = self.deluge_transmit_layer.transmit_packet(&send_buf);
    }

    /// A packet was read for transmission: it is broadcast as a data packet
    /// of the current version.
    pub fn read_complete(&mut self, page_num: usize, packet_num: usize, buffer: &[u8])
        ensures
            !final(self).flash_txn_busy,
            final(self).state == old(self).state,
    {
        self.flash_txn_busy = false;
        let packet_buf = [0u8; 64];
        let payload_type = DelugePacketType::DataPacket {
            version: #[verifier::truncate] (self.program_state.current_version_number() as u16),
            page_num: #[verifier::truncate] (page_num as u16),
            packet_num: #[verifier::truncate] (packet_num as u16),
        };
        let mut deluge_packet = DelugePacket::new(&packet_buf);
        deluge_packet.payload_type = payload_type;
        self.transmit_packet(&deluge_packet);
    }

    /// A packet was stored; completing a page in the receive state returns
    /// to maintenance.
    pub fn write_complete(&mut self, page_completed: bool)
        requires
            RX_TIMER_DELAY as int * A::Frequency::hz() as int <= u32::MAX,
        ensures
            !final(self).flash_txn_busy,
            final(self).state == (if page_completed && old(self).state == DelugeState::Receive {
                DelugeState::Maintenance
            } else {
                old(self).state
            }),
    {
        self.flash_txn_busy = false;
        if page_completed && self.state == DelugeState::Receive {
            self.transition_state(DelugeState::Maintenance);
        }
    }

    /// The receive timer fired: in the receive state, it is restarted and
    /// the next packet is requested.
    pub fn fired(&mut self)
        requires
            RX_TIMER_DELAY as int * A::Frequency::hz() as int <= u32::MAX,
        ensures
            old(self).state != DelugeState::Receive ==> *final(self) == *old(self),
            old(self).state == DelugeState::Receive ==> {
                &&& *final(self) == (DelugeData {
                    deluge_transmit_layer: final(self).deluge_transmit_layer,
                    alarm: final(self).alarm,
                    ..*old(self)
                })
                &&& armed_after(final(self).alarm, RX_TIMER_DELAY as usize)
                &&& final(self).deluge_transmit_layer.sent() == old(self).deluge_transmit_layer.sent().push(
                    wire_bytes(
                        0,
                        DelugePacketType::RequestForData {
                            version: old(self).program_state.version() as u16,
                            page_num: old(self).program_state.next_page() as u16,
                            packet_num: old(self).program_state.next_packet() as u16,
                        },
                        Seq::empty(),
                    ),
                )
            },
    {
        if self.state == DelugeState::Receive {
            self.rx_state_reset_timer();
            let payload_type = DelugePacketType::RequestForData {
                version: #[verifier::truncate] (self.program_state.current_version_number() as u16),
                page_num: #[verifier::truncate] (self.program_state.next_page_number() as u16),
                packet_num: #[verifier::truncate] (self.program_state.next_packet_number() as u16),
            };
            let empty: [u8; 0] = [];
            let mut deluge_packet = DelugePacket::new(&empty);
            deluge_packet.payload_type = payload_type;
            self.transmit_packet(&deluge_packet);
        }
    }

    /// Trickle asks for an advertisement: in the maintenance state, the
    /// object profile after hearing an older version, else the summary.
    pub fn transmit(&mut self)
        ensures
            old(self).state != DelugeState::Maintenance ==> *final(self) == *old(self),
            old(self).state == DelugeState::Maintenance ==> {
                &&& *final(self) == (DelugeData {
                    deluge_transmit_layer: final(self).deluge_transmit_layer,
                    ..*old(self)
                })
                &&& final(self).deluge_transmit_layer.sent() == old(self).deluge_transmit_layer.sent().push(
                    wire_bytes(
                        0,
                        advertisement(
                            old(self).received_old_v,
                            old(self).program_state.version() as u16,
                            old(self).program_state.page() as u16,
                        ),
                        Seq::empty(),
                    ),
                )
            },
    {
        if self.state != DelugeState::Maintenance {
            return;
        }
        let cv = #[verifier::truncate] (self.program_state.current_version_number() as u16);
        let payload_type = if self.received_old_v {
            DelugePacketType::MaintainObjectProfile { version: cv, age_vector_size: 0 }
        } else {
            DelugePacketType::MaintainSummary {
                version: cv,
                page_num: #[verifier::truncate] (self.program_state.current_page_number() as u16),
            }
        };
        let empty: [u8; 0] = [];
        let mut deluge_packet = DelugePacket::new(&empty);
        deluge_packet.payload_type = payload_type;
        self.transmit_packet(&deluge_packet);
    }

    /// A new Trickle interval starts.
    pub fn new_interval(&mut self)
        ensures
            !final(self).received_old_v,
            final(self).obj_update_count == 0,
            final(self).state == old(self).state,
    {
        self.received_old_v = false;
        self.obj_update_count = 0;
    }

    /// A packet arrived: ignored while a flash operation is outstanding,
    /// else decoded and acted upon according to the state.
    pub fn receive(&mut self, buf: &[u8])
        requires
            !old(self).flash_txn_busy ==> buf@.len() >= DECODE_MIN_LEN && buf@[0] == DELUGE_PACKET_HDR
                && type_from(buf@, 3) is Some,
            RX_TIMER_DELAY as int * A::Frequency::hz() as int <= u32::MAX,
        ensures
            old(self).flash_txn_busy ==> *final(self) == *old(self),
            !old(self).flash_txn_busy ==> ({
                let action = packet_action(
                    old(self).state,
                    (type_from(buf@, 3)->0).0,
                    old(self).program_state.version() as u16,
                    old(self).program_state.page() as u16,
                );
                &&& final(self).state == match action.transition {
                    Some(s) => s,
                    None => old(self).state,
                }
                &&& final(self).received_old_v == (old(self).received_old_v || action.set_received_old_v)
                &&& action.request is None && action.data is None ==> final(self).flash_txn_busy
                    == old(self).flash_txn_busy
                &&& final(self).trickle.heard() == match action.trickle {
                    Some(consistent) => old(self).trickle.heard().push(consistent),
                    None => old(self).trickle.heard(),
                }
                &&& final(self).program_state.versions_heard() == match action.new_version {
                    Some(v) => old(self).program_state.versions_heard().push(v as usize),
                    None => old(self).program_state.versions_heard(),
                }
                &&& action.reset_timer ==> armed_after(final(self).alarm, RX_TIMER_DELAY as usize)
                &&& !action.reset_timer ==> final(self).alarm == old(self).alarm
            }),
    {
        if self.flash_txn_busy {
            return;
        }
        let packet = match DelugePacket::decode(buf) {
            SResult::Done(_, p) => p,
            _ => DelugePacket::new(buf),
        };
        let cv = #[verifier::truncate] (self.program_state.current_version_number() as u16);
        let cp = #[verifier::truncate] (self.program_state.current_page_number() as u16);
        let action = received_packet_action(self.state, packet.payload_type, cv, cp);
        self.apply_action(action, packet.buffer);
    }

    /// A transmission finished: the transmit state returns to maintenance.
    pub fn transmit_done(&mut self, result: ReturnCode)
        requires
            RX_TIMER_DELAY as int * A::Frequency::hz() as int <= u32::MAX,
        ensures
            final(self).state == (if old(self).state == DelugeState::Transmit {
                DelugeState::Maintenance
            } else {
                old(self).state
            }),
    {
        if self.state == DelugeState::Transmit {
            self.transition_state(DelugeState::Maintenance);
        }
    }
}

} // verus!
