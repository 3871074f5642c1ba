//! 6LoWPAN fragmentation (RFC 4944): the fragment headers and the
//! decisions of fragmented transmission and reassembly.

use vstd::prelude::*;
use crate::returncode::ReturnCode;
use crate::net::stream::{be16, be16_bytes, u16_from_be, u16_hi, u16_lo, splice, copy_into};
use crate::net::frag_utils::{Bitmap, tail_mask};
use crate::net::ieee802154::{MacAddress, PanID, SecurityLevel, KeyId, Header};
use crate::mac::{Mac, FrameInfo, frame_fits};
use crate::hil::radio::PSDU_OFFSET;
use crate::hil::time::{Alarm, Frequency, Time};
use crate::net::lowpan::{ContextStore, LoWPAN, MacAddr, NH_UDP, is_lowpan};
use crate::net::util::u16_to_slice;
use crate::net::lowpan_compress::{Outcome, compress_spec, lemma_compress_spec_bounds};
use crate::net::lowpan_decompress::{decompress_spec, lemma_decompress_bounds};
use vstd::slice::slice_subrange;

verus! {

/// Dispatch bits of a subsequent fragment header.
pub const FRAGN_HDR: u8 = 0b11100000;

/// Dispatch bits of a first fragment header.
pub const FRAG1_HDR: u8 = 0b11000000;

/// The size of a first fragment header.
pub const FRAG1_HDR_SIZE: usize = 4;

/// The size of a subsequent fragment header.
pub const FRAGN_HDR_SIZE: usize = 5;

/// Receives reassembled packets and the completion of transmissions.
pub trait SixlowpanClient {
    fn receive(&self, buf: &[u8], len: u16, result: ReturnCode);

    fn send_done(&self, buf: &[u8], acked: bool, result: ReturnCode);
}

/// The bytes of a fragment header: the dispatch bits over the high bits of
/// the datagram size, the rest of the size, the datagram tag and, for a
/// subsequent fragment, the offset in 8-byte units.
pub open spec fn frag_hdr_bytes(dgram_size: u16, dgram_tag: u16, dgram_offset: usize, is_frag1: bool) -> Seq<u8> {
    let mask: u8 = if is_frag1 {
        FRAG1_HDR
    } else {
        FRAGN_HDR
    };
    let head = seq![(mask | (be16_bytes(dgram_size)[0] & !mask)) as u8, be16_bytes(dgram_size)[1]]
        + be16_bytes(dgram_tag);
    if is_frag1 {
        head
    } else {
        head.push((dgram_offset / 8) as u8)
    }
}

/// The fields a fragment header `h` holds: whether it is a first fragment,
/// the datagram size (12 bits), the tag and the offset in bytes.
pub open spec fn frag_hdr_fields(h: Seq<u8>) -> (bool, u16, u16, usize) {
    let is_frag1 = h[0] & FRAGN_HDR == FRAG1_HDR;
    (
        is_frag1,
        (be16(h[0], h[1]) & 0x0fffu16) as u16,
        be16(h[2], h[3]),
        if is_frag1 {
            0usize
        } else {
            (h[4] as usize * 8) as usize
        },
    )
}

/// Writes a fragment header into `hdr`.
pub fn set_frag_hdr(dgram_size: u16, dgram_tag: u16, dgram_offset: usize, hdr: &mut [u8], is_frag1: bool)
    requires
        old(hdr)@.len() >= (if is_frag1 {
            4int
        } else {
            5int
        }),
    ensures
        final(hdr)@ == frag_hdr_bytes(dgram_size, dgram_tag, dgram_offset, is_frag1) + old(
            hdr,
        )@.subrange(frag_hdr_bytes(dgram_size, dgram_tag, dgram_offset, is_frag1).len() as int, old(hdr)@.len() as int),
{
    let mask = if is_frag1 {
        FRAG1_HDR
    } else {
        FRAGN_HDR
    };
    hdr[0] = u16_hi(dgram_size);
    hdr[1] = u16_lo(dgram_size);
    hdr[0] = mask | (hdr[0] & !mask);
    hdr[2] = u16_hi(dgram_tag);
    hdr[3] = u16_lo(dgram_tag);
    if !is_frag1 {
        hdr[4] = (dgram_offset / 8) as u8;
    }
    assert(hdr@ =~= frag_hdr_bytes(dgram_size, dgram_tag, dgram_offset, is_frag1) + old(
        hdr,
    )@.subrange(frag_hdr_bytes(dgram_size, dgram_tag, dgram_offset, is_frag1).len() as int, old(hdr)@.len() as int));
}

/// Reads a fragment header: whether it is a first fragment, the datagram
/// size, the datagram tag and the offset in bytes.
pub fn get_frag_hdr(hdr: &[u8]) -> (r: (bool, u16, u16, usize))
    requires
        hdr@.len() >= 4,
        hdr@[0] & FRAGN_HDR != FRAG1_HDR ==> hdr@.len() >= 5,
    ensures
        r == frag_hdr_fields(hdr@),
{
    let is_frag1 = (hdr[0] & FRAGN_HDR) == FRAG1_HDR;
    // Zero out the upper bits
    let dgram_size = u16_from_be(hdr[0], hdr[1]) & !(0xfu16 << 12u16);
    assert(!(0xfu16 << 12u16) == 0x0fffu16) by (bit_vector);
    let dgram_tag = u16_from_be(hdr[2], hdr[3]);
    let dgram_offset: u8 = if is_frag1 {
        0
    } else {
        hdr[4]
    };
    (is_frag1, dgram_size, dgram_tag, (dgram_offset as usize) * 8)
}

/// Whether a frame payload starts with a fragment header.
pub fn is_fragment(packet: &[u8]) -> (r: bool)
    requires
        packet@.len() >= 1,
    ensures
        r == (packet@[0] & FRAGN_HDR == FRAGN_HDR || packet@[0] & FRAGN_HDR == FRAG1_HDR),
{
    let mask = packet[0] & FRAGN_HDR;
    (mask == FRAGN_HDR) || (mask == FRAG1_HDR)
}

/// Dispatch bits over the high byte of a 12-bit size.
proof fn lemma_frag_dispatch_bits(hi: u8)
    by (bit_vector)
    requires
        hi < 0x10u8,
    ensures
        ((0xc0u8 | (hi & !0xc0u8)) as u8) & 0xe0u8 == 0xc0u8,
        ((0xe0u8 | (hi & !0xe0u8)) as u8) & 0xe0u8 == 0xe0u8,
        ((0xc0u8 | (hi & !0xc0u8)) as u8) & 0x0fu8 == hi,
        ((0xe0u8 | (hi & !0xe0u8)) as u8) & 0x0fu8 == hi,
{
}

/// A fragment header read back gives the fields it was written with, for a
/// datagram size of 12 bits and an offset that is a multiple of 8 below
/// 2048; a first fragment reads back offset 0. Such a header is recognized
/// as a fragment.
pub proof fn lemma_frag_hdr_roundtrip(dgram_size: u16, dgram_tag: u16, dgram_offset: usize, is_frag1: bool)
    requires
        dgram_size < 0x1000,
        is_frag1 || (dgram_offset % 8 == 0 && dgram_offset < 2048),
    ensures
        frag_hdr_fields(frag_hdr_bytes(dgram_size, dgram_tag, dgram_offset, is_frag1)) == (
            is_frag1,
            dgram_size,
            dgram_tag,
            if is_frag1 {
                0usize
            } else {
                dgram_offset
            },
        ),
        ({
            let b = frag_hdr_bytes(dgram_size, dgram_tag, dgram_offset, is_frag1)[0];
            b & FRAGN_HDR == FRAGN_HDR || b & FRAGN_HDR == FRAG1_HDR
        }),
{
    let hi = be16_bytes(dgram_size)[0];
    let lo = be16_bytes(dgram_size)[1];
    lemma_frag_dispatch_bits(hi);
    let h = frag_hdr_bytes(dgram_size, dgram_tag, dgram_offset, is_frag1);
    let b0 = h[0];
    assert((b0 as int * 256 + lo as int) as u16 & 0x0fffu16 == ((b0 & 0x0fu8) as int * 256 + lo as int) as u16)
        by (bit_vector);
    crate::net::stream::lemma_be16_roundtrip(dgram_tag);
}

/// Whether all of a datagram of `dgram_size` bytes has been sent once
/// `dgram_offset` bytes were.
pub fn is_transmit_done(dgram_size: u16, dgram_offset: usize) -> (r: bool)
    ensures
        r == (dgram_size as usize <= dgram_offset),
{
    dgram_size as usize <= dgram_offset
}

/// The number of datagram bytes a fragment carries when `remaining` bytes
/// remain and `capacity` fit: all of them in the last fragment, else the
/// capacity rounded down to a multiple of 8.
pub open spec fn fragment_len(remaining: int, capacity: int) -> int {
    if remaining <= capacity {
        remaining
    } else {
        capacity - capacity % 8
    }
}

/// The number of datagram bytes a fragment carries when `remaining` bytes
/// remain and `capacity` fit.
pub fn fragment_payload_len(remaining: usize, capacity: usize) -> (r: usize)
    ensures
        r == fragment_len(remaining as int, capacity as int),
{
    if remaining > capacity {
        let r = capacity & !0b111usize;
        assert(capacity & !7usize == capacity - capacity % 8) by (bit_vector);
        r
    } else {
        remaining
    }
}

/// The tag of the next datagram: one more than the last, wrapping past
/// 0xffff and skipping 0.
pub fn next_dgram_tag(tag: u16) -> (r: u16)
    ensures
        r == (if tag == 0xffff {
            1
        } else {
            tag + 1
        }),
{
    if tag.wrapping_add(1) == 0 {
        1
    } else {
        tag.wrapping_add(1)
    }
}

/// Whether a reassembly started at `start_time` has expired at
/// `current_time`, given the reassembly timeout in ticks.
pub fn is_expired(start_time: u32, timeout_ticks: u32, current_time: u32) -> (r: bool)
    requires
        start_time + timeout_ticks <= u32::MAX,
    ensures
        r == (current_time >= start_time + timeout_ticks),
{
    current_time >= start_time + timeout_ticks
}

/// How the first frame of a datagram is laid out once its 6LoWPAN header is
/// compressed to `written` bytes with `remaining_payload` datagram bytes
/// left after the compressed part, and the frame has room for `capacity`
/// data bytes (two of which the FCS takes): `Ok((frag1, payload_len))` says
/// whether a first fragment header goes in front and how many datagram bytes
/// follow the header; a datagram that must be split but may not be, or whose
/// compressed header does not fit, fails with `ESIZE`.
pub open spec fn first_fragment_layout(
    compress: bool,
    fragment: bool,
    written: int,
    remaining_payload: int,
    capacity: int,
) -> Result<(bool, int), ReturnCode> {
    let cap0 = capacity - 2;
    let frag1 = written + remaining_payload > cap0;
    if frag1 && !fragment {
        Err(ReturnCode::ESIZE)
    } else {
        let cap1 = if frag1 { cap0 - FRAG1_HDR_SIZE } else { cap0 };
        if compress && written > cap1 {
            Err(ReturnCode::ESIZE)
        } else {
            let cap2 = if compress { cap1 - written } else { cap1 };
            let payload_len = fragment_len(remaining_payload, cap2);
            Ok((frag1, payload_len))
        }
    }
}

/// The layout of the first frame of a datagram: whether it carries a first
/// fragment header, and how many datagram bytes it carries after the
/// compressed header.
pub fn first_fragment_plan(
    compress: bool,
    fragment: bool,
    written: usize,
    remaining_payload: usize,
    capacity: usize,
) -> (r: Result<(bool, usize), ReturnCode>)
    requires
        capacity >= 2,
        written + remaining_payload <= usize::MAX,
        fragment && written + remaining_payload > capacity - 2 ==> capacity - 2 >= FRAG1_HDR_SIZE,
    ensures
        match first_fragment_layout(compress, fragment, written as int, remaining_payload as int, capacity as int) {
            Ok((frag1, payload_len)) => r == Ok::<(bool, usize), ReturnCode>((frag1, payload_len as usize)),
            Err(e) => r == Err::<(bool, usize), ReturnCode>(e),
        },
{
    let lowpan_len = written + remaining_payload;
    let mut remaining_capacity = capacity - 2;
    let frag1 = lowpan_len > remaining_capacity;
    if frag1 {
        if fragment {
            remaining_capacity = remaining_capacity - FRAG1_HDR_SIZE;
        } else {
            return Err(ReturnCode::ESIZE);
        }
    }
    if compress {
        if written <= remaining_capacity {
            remaining_capacity = remaining_capacity - written;
        } else {
            return Err(ReturnCode::ESIZE);
        }
    }
    let payload_len = fragment_payload_len(remaining_payload, remaining_capacity);
    Ok((frag1, payload_len))
}

/// Each fragment makes progress and keeps fragment offsets on 8-byte
/// boundaries: with room for at least 8 bytes, a fragment carries between 1
/// and all of the remaining bytes, and unless it carries all of them, a
/// multiple of 8.
pub proof fn lemma_fragment_progress(remaining: usize, capacity: usize)
    requires
        remaining > 0,
        capacity >= 8,
    ensures
        0 < fragment_len(remaining as int, capacity as int) <= remaining,
        fragment_len(remaining as int, capacity as int) == remaining || fragment_len(
            remaining as int,
            capacity as int,
        ) % 8 == 0,
{
}

/// How long a reassembly may take, in seconds.
pub const FRAG_TIMEOUT: u32 = 60;

/// The link-layer address `a` in the form the header compressor takes.
pub open spec fn lowpan_mac(a: MacAddress) -> MacAddr {
    match a {
        MacAddress::Short(s) => MacAddr::ShortAddr(s),
        MacAddress::Long(l) => MacAddr::LongAddr(l),
    }
}

/// The link-layer address `a` in the form the header compressor takes.
pub fn to_lowpan_mac(a: MacAddress) -> (r: MacAddr)
    ensures
        r == lowpan_mac(a),
{
    match a {
        MacAddress::Short(s) => MacAddr::ShortAddr(s),
        MacAddress::Long(l) => MacAddr::LongAddr(l),
    }
}

/// Whether `a` and `b` are the same address.
pub fn same_mac(a: MacAddress, b: MacAddress) -> (r: bool)
    ensures
        r == (a == b),
{
    match a {
        MacAddress::Short(x) => match b {
            MacAddress::Short(y) => x == y,
            MacAddress::Long(_) => false,
        },
        MacAddress::Long(x) => match b {
            MacAddress::Short(_) => false,
            MacAddress::Long(y) => {
                let mut i: usize = 0;
                while i < 8
                    invariant
                        i <= 8,
                        a == MacAddress::Long(x),
                        b == MacAddress::Long(y),
                        forall|j: int| 0 <= j < i ==> x@[j] == y@[j],
                    decreases 8 - i,
                {
                    if x[i] != y[i] {
                        assert(x@[i as int] != y@[i as int]);
                        return false;
                    }
                    i = i + 1;
                }
                assert(x =~= y);
                true
            },
        },
    }
}

/// The headers of a first fragment, decompressed from it alone, with the
/// lengths of the whole datagram of `dgram_size` bytes: the IPv6 payload
/// length, and the UDP length when a UDP header follows the IPv6 header.
pub open spec fn with_datagram_lengths(p: Seq<u8>, dgram_size: u16) -> Seq<u8> {
    let len = be16_bytes((dgram_size - 40) as u16);
    let p1 = splice(p, 4, len);
    if p[6] == NH_UDP {
        splice(p1, 44, len)
    } else {
        p1
    }
}

/// Whether the first `total` blocks of `b` are set and the rest of their
/// last byte is clear.
pub open spec fn blocks_complete(b: Bitmap, total: int) -> bool {
    &&& forall|k: int| 0 <= k < total / 8 ==> b.bytes()[k] == 0xffu8
    &&& b.bytes()[total / 8] == tail_mask(total)
}

/// Whether `new` and `r` follow from marking the blocks of `n` datagram
/// bytes at `offset` in `old`: a block is set when it was or lies in
/// `offset / 8 .. (offset + n) / 8`; a range that meets a set block fails,
/// else the result says whether the `dgram_size` bytes are all there.
pub open spec fn placed(old: Bitmap, new: Bitmap, offset: int, n: int, dgram_size: u16, r: Result<bool, ReturnCode>) -> bool {
    &&& forall|i: int| 0 <= i < 160 ==> #[trigger] new.is_set(i) == (old.is_set(i) || offset / 8 <= i < (offset + n) / 8)
    &&& new.bytes().len() == 20
    &&& r == if forall|i: int| offset / 8 <= i < (offset + n) / 8 ==> !#[trigger] old.is_set(i) {
        Ok::<bool, ReturnCode>(blocks_complete(new, dgram_size as int / 8))
    } else {
        Err::<bool, ReturnCode>(ReturnCode::FAIL)
    }
}

/// What taking in a fragment of `payload_len` bytes of `payload`, at
/// offset `dgram_offset` of a `dgram_size`-byte datagram, asks of the
/// reassembly state `before`.
pub open spec fn fragment_acceptable<C: ContextStore>(
    store: &C,
    before: RxState,
    payload: Seq<u8>,
    payload_len: usize,
    dgram_size: u16,
    dgram_offset: usize,
) -> bool {
    &&& (payload_len <= payload.len())
    &&& (dgram_size / 8 < 160)
    &&& (dgram_offset != 0 ==> dgram_offset + payload_len <= before.packet@.len() && (dgram_offset
        + payload_len) / 8 < 160)
    &&& (dgram_offset == 0 ==> 48 <= before.packet@.len() && 40 <= dgram_size)
    &&& (dgram_offset == 0 ==> {
        let d = decompress_spec(
            store,
            payload.subrange(0, payload_len as int),
            0,
            lowpan_mac(before.src_mac_addr),
            lowpan_mac(before.dst_mac_addr),
            before.packet@,
            0,
        );
        &&& !(d is Stuck)
        &&& payload_len + before.packet@.len() <= usize::MAX
        &&& d matches Outcome::Done(consumed, _, written) ==> written + (payload_len - consumed)
            <= before.packet@.len() && (written + (payload_len - consumed)) / 8 < 160
    })
}

/// Whether `after` is the reassembly state `before` once it took in a
/// fragment of `payload_len` bytes of `payload` at offset `dgram_offset` of a
/// `dgram_size`-byte datagram, answering `r`.
pub open spec fn took_fragment<C: ContextStore>(
    store: &C,
    before: RxState,
    after: RxState,
    payload: Seq<u8>,
    payload_len: usize,
    dgram_size: u16,
    dgram_offset: usize,
    r: Result<bool, ReturnCode>,
) -> bool {
    &&& (after.dst_mac_addr == before.dst_mac_addr)
    &&& (after.src_mac_addr == before.src_mac_addr)
    &&& (after.dgram_tag == before.dgram_tag)
    &&& (after.dgram_size == before.dgram_size)
    &&& (after.busy == before.busy)
    &&& (after.start_time == before.start_time)
    &&& (dgram_offset != 0 ==> after.packet@ == splice(
        before.packet@,
        dgram_offset as int,
        payload.subrange(0, payload_len as int),
    ) && placed(before.bitmap, after.bitmap, dgram_offset as int, payload_len as int, dgram_size, r))
    &&& (dgram_offset == 0 ==> match decompress_spec(
        store,
        payload.subrange(0, payload_len as int),
        0,
        lowpan_mac(before.src_mac_addr),
        lowpan_mac(before.dst_mac_addr),
        before.packet@,
        0,
    ) {
        Outcome::Done(consumed, out, written) => after.packet@ == with_datagram_lengths(
            splice(out, written, payload.subrange(consumed, payload_len as int)),
            dgram_size,
        ) && placed(before.bitmap, after.bitmap, 0, written + (payload_len - consumed), dgram_size, r),
        Outcome::Fail(out) => r == Err::<bool, ReturnCode>(ReturnCode::FAIL) && after.packet@ == out
            && after.bitmap == before.bitmap,
        Outcome::Stuck => false,
    })
}

/// The reassembly of one datagram: the buffer it is rebuilt in, the 8-byte
/// blocks received so far, and which datagram it is.
pub struct RxState {
    pub packet: Vec<u8>,
    pub bitmap: Bitmap,
    pub dst_mac_addr: MacAddress,
    pub src_mac_addr: MacAddress,
    pub dgram_tag: u16,
    pub dgram_size: u16,
    pub busy: bool,
    pub start_time: u32,
}

impl RxState {
    /// A free reassembly state over the buffer `packet`.
    pub fn new(packet: Vec<u8>) -> (r: RxState)
        ensures
            r.packet == packet,
            r.bitmap.bytes() == Seq::new(20, |i: int| 0u8),
            r.dst_mac_addr == MacAddress::Short(0),
            r.src_mac_addr == MacAddress::Short(0),
            r.dgram_tag == 0,
            r.dgram_size == 0,
            !r.busy,
            r.start_time == 0,
    {
        RxState {
            packet: packet,
            bitmap: Bitmap::new(),
            dst_mac_addr: MacAddress::Short(0),
            src_mac_addr: MacAddress::Short(0),
            dgram_tag: 0,
            dgram_size: 0,
            busy: false,
            start_time: 0,
        }
    }

    /// Whether this state is reassembling the datagram with these addresses,
    /// size and tag.
    pub fn is_my_fragment(&self, src_mac_addr: MacAddress, dst_mac_addr: MacAddress, dgram_size: u16, dgram_tag: u16) -> (r: bool)
        ensures
            r == (self.busy && self.dgram_tag == dgram_tag && self.dgram_size == dgram_size && self.src_mac_addr
                == src_mac_addr && self.dst_mac_addr == dst_mac_addr),
    {
        self.busy && self.dgram_tag == dgram_tag && self.dgram_size == dgram_size && same_mac(
            self.src_mac_addr,
            src_mac_addr,
        ) && same_mac(self.dst_mac_addr, dst_mac_addr)
    }

    /// Whether this state is in use; a reassembly that has run for
    /// `FRAG_TIMEOUT` seconds by `current_time` is abandoned first.
    pub fn is_busy(&mut self, frequency: u32, current_time: u32) -> (r: bool)
        requires
            old(self).start_time + FRAG_TIMEOUT * frequency <= u32::MAX,
        ensures
            ({
                let expired = current_time >= old(self).start_time + FRAG_TIMEOUT * frequency;
                &&& expired ==> !final(self).busy && final(self).start_time == 0 && final(self).bitmap.bytes()
                    == Seq::new(20, |i: int| 0u8)
                &&& !expired ==> *final(self) == *old(self)
                &&& final(self).packet == old(self).packet
                &&& final(self).dgram_size == old(self).dgram_size
                &&& r == final(self).busy
            }),
    {
        let expired = current_time >= self.start_time + FRAG_TIMEOUT * frequency;
        if expired {
            self.end_receive();
        }
        self.busy
    }

    /// Starts reassembling the datagram with these addresses, size and tag
    /// at time `current_tics`, with no block received.
    pub fn start_receive(
        &mut self,
        src_mac_addr: MacAddress,
        dst_mac_addr: MacAddress,
        dgram_size: u16,
        dgram_tag: u16,
        current_tics: u32,
    )
        ensures
            final(self).packet == old(self).packet,
            final(self).bitmap.bytes() == Seq::new(20, |i: int| 0u8),
            final(self).dst_mac_addr == dst_mac_addr,
            final(self).src_mac_addr == src_mac_addr,
            final(self).dgram_tag == dgram_tag,
            final(self).dgram_size == dgram_size,
            final(self).busy,
            final(self).start_time == current_tics,
    {
        self.dst_mac_addr = dst_mac_addr;
        self.src_mac_addr = src_mac_addr;
        self.dgram_tag = dgram_tag;
        self.dgram_size = dgram_size;
        self.busy = true;
        self.bitmap.clear();
        self.start_time = current_tics;
    }

    /// Marks the blocks of `n` datagram bytes at `offset` and tells whether
    /// the datagram is complete; a range that meets a block received before
    /// fails.
    fn place(&mut self, offset: usize, n: usize, dgram_size: u16) -> (r: Result<bool, ReturnCode>)
        requires
            (offset + n) / 8 < 160,
            dgram_size / 8 < 160,
        ensures
            placed(old(self).bitmap, final(self).bitmap, offset as int, n as int, dgram_size, r),
            *final(self) == (RxState { bitmap: final(self).bitmap, ..*old(self) }),
    {
        proof {
            old(self).bitmap.lemma_bytes_len();
        }
        if !self.bitmap.set_bits(offset / 8, (offset + n) / 8) {
            // An overlapping fragment: the datagram is dropped
            Err(ReturnCode::FAIL)
        } else {
            proof {
                self.bitmap.lemma_bytes_len();
            }
            Ok(self.bitmap.is_complete((dgram_size as usize) / 8))
        }
    }

    /// Takes in the fragment payload `payload[..payload_len]` at datagram
    /// offset `dgram_offset`: the first fragment's compressed headers are
    /// decompressed into the buffer, with the lengths of the whole
    /// `dgram_size`-byte datagram, and the rest of it copied after them; a
    /// later fragment is copied in place. Returns whether the datagram is
    /// complete; a first fragment that does not decompress, or a fragment
    /// that overlaps one received before, fails.
    pub fn receive_next_frame<C: ContextStore>(
        &mut self,
        payload: &[u8],
        payload_len: usize,
        dgram_size: u16,
        dgram_offset: usize,
        lowpan: &LoWPAN<C>,
    ) -> (r: Result<bool, ReturnCode>)
        requires
            fragment_acceptable(lowpan.ctx_store, *old(self), payload@, payload_len, dgram_size, dgram_offset),
        ensures
            took_fragment(lowpan.ctx_store, *old(self), *final(self), payload@, payload_len, dgram_size, dgram_offset, r),
    {
        let uncompressed_len = if dgram_offset == 0 {
            let frame = slice_subrange(payload, 0, payload_len);
            let src = to_lowpan_mac(self.src_mac_addr);
            let dst = to_lowpan_mac(self.dst_mac_addr);
            proof {
                lemma_decompress_bounds(lowpan.ctx_store, frame@, 0, src, dst, self.packet@, 0);
            }
            let decompressed = lowpan.decompress(frame, src, dst, self.packet.as_mut_slice());
            match decompressed {
                Err(_) => {
                    return Err(ReturnCode::FAIL);
                },
                Ok((consumed, written)) => {
                    let remaining = payload_len - consumed;
                    copy_into(self.packet.as_mut_slice(), written, payload, consumed, remaining);
                    // The lengths are those of the whole datagram
                    let total = dgram_size - 40;
                    let udp_follows = self.packet[6] == NH_UDP;
                    u16_to_slice(total, self.packet.as_mut_slice(), 4);
                    if udp_follows {
                        u16_to_slice(total, self.packet.as_mut_slice(), 44);
                    }
                    written + remaining
                },
            }
        } else {
            copy_into(self.packet.as_mut_slice(), dgram_offset, payload, 0, payload_len);
            payload_len
        };
        self.place(dgram_offset, uncompressed_len, dgram_size)
    }

    /// Ends the reassembly: the state is free again, with no block
    /// received. Gives the size of the datagram, for the client.
    pub fn end_receive(&mut self) -> (r: u16)
        ensures
            r == old(self).dgram_size,
            !final(self).busy,
            final(self).start_time == 0,
            final(self).bitmap.bytes() == Seq::new(20, |i: int| 0u8),
            final(self).packet == old(self).packet,
            final(self).dst_mac_addr == old(self).dst_mac_addr,
            final(self).src_mac_addr == old(self).src_mac_addr,
            final(self).dgram_tag == old(self).dgram_tag,
            final(self).dgram_size == old(self).dgram_size,
    {
        self.busy = false;
        self.bitmap.clear();
        self.start_time = 0;
        self.dgram_size
    }
}

/// The transmission of one IPv6 datagram, fragment by fragment, and the
/// state shared by successive transmissions.
pub struct TxState {
    pub packet: Option<Vec<u8>>,
    pub src_pan: PanID,
    pub dst_pan: PanID,
    pub src_mac_addr: MacAddress,
    pub dst_mac_addr: MacAddress,
    pub security: Option<(SecurityLevel, KeyId)>,
    pub dgram_tag: u16,
    pub dgram_size: u16,
    /// How many datagram bytes the fragments sent so far carried.
    pub dgram_offset: usize,
    pub fragment: bool,
    pub compress: bool,
    pub tx_dgram_tag: u16,
    pub tx_busy: bool,
    pub tx_buf: Option<Vec<u8>>,
}

/// The number of datagram bytes the next subsequent fragment of `s`
/// carries in a frame `info` over a buffer of `buf_len` bytes.
pub open spec fn next_fragment_len(s: TxState, info: FrameInfo, buf_len: int) -> int {
    fragment_len(s.dgram_size - s.dgram_offset, info.capacity(buf_len) - FRAGN_HDR_SIZE)
}

/// The frame `info` once the next subsequent fragment of `s` is in it.
pub open spec fn next_fragment_info(s: TxState, info: FrameInfo, buf_len: int) -> FrameInfo {
    FrameInfo { data_len: (info.data_len + FRAGN_HDR_SIZE + next_fragment_len(s, info, buf_len)) as usize, ..info }
}

/// The bytes the next subsequent fragment of `s` puts in the frame: its
/// fragment header, then the datagram bytes from the current offset on.
pub open spec fn next_fragment_bytes(s: TxState, packet: Seq<u8>, n: int) -> Seq<u8> {
    frag_hdr_bytes(s.dgram_size, s.dgram_tag, s.dgram_offset, false) + packet.subrange(
        s.dgram_offset as int,
        s.dgram_offset + n,
    )
}

/// The bytes the first frame of the datagram `packet` carries: a first
/// fragment header when the datagram is split, the compressed header when
/// compression is on, then `n` datagram bytes from `consumed` on.
pub open spec fn first_fragment_bytes(
    s: TxState,
    frag1: bool,
    lowpan: Seq<u8>,
    written: int,
    packet: Seq<u8>,
    consumed: int,
    n: int,
) -> Seq<u8> {
    (if frag1 {
        frag_hdr_bytes(s.dgram_size, s.dgram_tag, 0, true)
    } else {
        Seq::empty()
    }) + (if s.compress {
        lowpan.subrange(0, written)
    } else {
        Seq::empty()
    }) + packet.subrange(consumed, consumed + n)
}

/// What the first frame of the datagram of `s` starts from: the datagram
/// bytes the compressed header stands for and the length of that header;
/// none without compression. `None` when compression failed.
pub open spec fn compression_used(s: TxState, compressed: Result<(usize, usize), ()>) -> Option<(int, int)> {
    if s.compress {
        match compressed {
            Ok((c, w)) => Some((c as int, w as int)),
            Err(_) => None,
        }
    } else {
        Some((0, 0))
    }
}

/// Appends `a`, `b` and `c`, in that order, to the data payload of the frame
/// `info` in `buf`.
fn append_pieces(info: &mut FrameInfo, buf: &mut Vec<u8>, a: &[u8], b: &[u8], c: &[u8])
    requires
        old(info).capacity(old(buf)@.len() as int) >= a@.len() + b@.len() + c@.len(),
        old(info).data_len + a@.len() + b@.len() + c@.len() <= usize::MAX,
    ensures
        final(buf)@ == splice(old(buf)@, PSDU_OFFSET + old(info).unsecured_len(), a@ + b@ + c@),
        final(buf)@.len() == old(buf)@.len(),
        *final(info) == (FrameInfo { data_len: (old(info).data_len + a@.len() + b@.len() + c@.len()) as usize, ..*old(info) }),
{
    let ghost off = PSDU_OFFSET + info.unsecured_len();
    let ghost b0 = buf@;
    let ghost i0 = *info;
    let _ = info.append_payload(buf.as_mut_slice(), a);
    let ghost b1 = buf@;
    assert(b1 == splice(b0, off, a@));
    assert(info.data_len == i0.data_len + a@.len());
    let _ = info.append_payload(buf.as_mut_slice(), b);
    let ghost b2 = buf@;
    assert(b2 == splice(b1, off + a@.len(), b@));
    assert(info.data_len == i0.data_len + a@.len() + b@.len());
    let _ = info.append_payload(buf.as_mut_slice(), c);
    assert(buf@ == splice(b2, off + a@.len() + b@.len(), c@));
    assert(buf@ =~= splice(b0, off, a@ + b@ + c@));
}

impl TxState {
    /// A transmit state with no datagram, over the frame buffer `tx_buf`.
    pub fn new(tx_buf: Vec<u8>) -> (r: TxState)
        ensures
            r.packet is None,
            r.src_pan == 0,
            r.dst_pan == 0,
            r.src_mac_addr == MacAddress::Short(0),
            r.dst_mac_addr == MacAddress::Short(0),
            r.security is None,
            r.dgram_tag == 0,
            r.dgram_size == 0,
            r.dgram_offset == 0,
            !r.fragment,
            !r.compress,
            r.tx_dgram_tag == 0,
            !r.tx_busy,
            r.tx_buf == Some(tx_buf),
    {
        TxState {
            packet: None,
            src_pan: 0,
            dst_pan: 0,
            src_mac_addr: MacAddress::Short(0),
            dst_mac_addr: MacAddress::Short(0),
            security: None,
            dgram_tag: 0,
            dgram_size: 0,
            dgram_offset: 0,
            fragment: false,
            compress: false,
            tx_dgram_tag: 0,
            tx_busy: false,
            tx_buf: Some(tx_buf),
        }
    }

    /// Every byte of the datagram has been sent.
    pub open spec fn is_transmit_done_spec(&self) -> bool {
        self.dgram_size as usize <= self.dgram_offset
    }

    /// Whether every byte of the datagram has been sent.
    pub fn is_transmit_done(&self) -> (r: bool)
        ensures
            r == self.is_transmit_done_spec(),
    {
        is_transmit_done(self.dgram_size, self.dgram_offset)
    }

    /// Takes on the datagram `packet`, of `packet_len` bytes, to be sent
    /// from `src_mac_addr` to `dst_mac_addr`.
    pub fn init_transmit(
        &mut self,
        src_mac_addr: MacAddress,
        dst_mac_addr: MacAddress,
        packet: Vec<u8>,
        packet_len: usize,
        security: Option<(SecurityLevel, KeyId)>,
        fragment: bool,
        compress: bool,
    )
        ensures
            *final(self) == (TxState {
                src_mac_addr: src_mac_addr,
                dst_mac_addr: dst_mac_addr,
                fragment: fragment,
                compress: compress,
                security: security,
                packet: Some(packet),
                dgram_size: packet_len as u16,
                ..*old(self)
            }),
    {
        self.src_mac_addr = src_mac_addr;
        self.dst_mac_addr = dst_mac_addr;
        self.fragment = fragment;
        self.compress = compress;
        self.security = security;
        self.packet = Some(packet);
        self.dgram_size = #[verifier::truncate] (packet_len as u16);
    }

    /// Puts the next subsequent fragment into `buf`, where the MAC prepared
    /// a data frame with the outcome `prepared`. Fails with `FAIL` when the
    /// MAC could not prepare the frame, with `ESIZE` when the frame has no
    /// room for the fragment header or the filled frame would not fit the
    /// PHY, and with `ENOMEM` when there is no datagram; each failure hands
    /// `buf` back and changes nothing. On success gives the frame and moves
    /// the datagram offset past the bytes it carries.
    pub fn fill_next_fragment(&mut self, prepared: Result<FrameInfo, ()>, buf: Vec<u8>) -> (r: Result<
        (Vec<u8>, FrameInfo),
        (ReturnCode, Vec<u8>),
    >)
        requires
            old(self).dgram_offset <= old(self).dgram_size,
            old(self).packet is Some ==> old(self).dgram_size <= old(self).packet->0@.len(),
        ensures
            match prepared {
                Err(_) => r == Err::<(Vec<u8>, FrameInfo), (ReturnCode, Vec<u8>)>((ReturnCode::FAIL, buf))
                    && *final(self) == *old(self),
                Ok(info) => {
                    let len = buf@.len() as int;
                    if info.capacity(len) < FRAGN_HDR_SIZE {
                        &&& r == Err::<(Vec<u8>, FrameInfo), (ReturnCode, Vec<u8>)>((ReturnCode::ESIZE, buf))
                        &&& *final(self) == *old(self)
                    } else if old(self).packet is None {
                        &&& r == Err::<(Vec<u8>, FrameInfo), (ReturnCode, Vec<u8>)>((ReturnCode::ENOMEM, buf))
                        &&& *final(self) == *old(self)
                    } else if !frame_fits(next_fragment_info(*old(self), info, len), len) {
                        &&& r == Err::<(Vec<u8>, FrameInfo), (ReturnCode, Vec<u8>)>((ReturnCode::ESIZE, buf))
                        &&& *final(self) == *old(self)
                    } else {
                        let n = next_fragment_len(*old(self), info, len);
                        &&& r matches Ok((b, i))
                        &&& i == next_fragment_info(*old(self), info, len)
                        &&& b@.len() == len
                        &&& b@ == splice(
                            buf@,
                            PSDU_OFFSET + info.unsecured_len(),
                            next_fragment_bytes(*old(self), old(self).packet->0@, n),
                        )
                        &&& *final(self) == (TxState { dgram_offset: (old(self).dgram_offset + n) as usize, ..*old(self) })
                    }
                },
            },
    {
        let mut info = match prepared {
            Err(_) => {
                return Err((ReturnCode::FAIL, buf));
            },
            Ok(info) => info,
        };
        let mut buf = buf;
        if !info.has_capacity(buf.len(), FRAGN_HDR_SIZE) {
            return Err((ReturnCode::ESIZE, buf));
        }
        let remaining_capacity = info.remaining_data_capacity(&buf) - FRAGN_HDR_SIZE;
        let remaining_bytes = self.dgram_size as usize - self.dgram_offset;
        let payload_len = fragment_payload_len(remaining_bytes, remaining_capacity);
        let filled = FrameInfo { data_len: info.data_len + FRAGN_HDR_SIZE + payload_len, ..info };
        let dgram_offset = self.dgram_offset;
        let packet = match &self.packet {
            None => {
                return Err((ReturnCode::ENOMEM, buf));
            },
            Some(p) => p,
        };
        if !filled.fits(buf.len()) {
            return Err((ReturnCode::ESIZE, buf));
        }
        let mut frag_header = [0u8; 5];
        set_frag_hdr(self.dgram_size, self.dgram_tag, dgram_offset, &mut frag_header, false);
        let ghost b0 = buf@;
        let _ = info.append_payload(&mut buf, &frag_header);
        let _ = info.append_payload(&mut buf, slice_subrange(packet.as_slice(), dgram_offset, dgram_offset + payload_len));
        proof {
            let off = PSDU_OFFSET + prepared->Ok_0.unsecured_len();
            let h = frag_header@;
            let q = packet@.subrange(dgram_offset as int, dgram_offset + payload_len);
            assert(h =~= frag_hdr_bytes(self.dgram_size, self.dgram_tag, dgram_offset, false));
            assert(buf@ =~= splice(b0, off, h + q));
        }
        self.dgram_offset = dgram_offset + payload_len;
        Ok((buf, info))
    }

    /// Sends the next subsequent fragment of the datagram in `frag_buf`
    /// through `radio`: the MAC prepares a data frame between the
    /// transmission's addresses, `fill_next_fragment` fills it, and the MAC
    /// transmits it. `Ok(SUCCESS)` when the MAC took the frame; otherwise the
    /// buffer comes back with the reason.
    pub fn prepare_transmit_next_fragment<M: Mac>(&mut self, frag_buf: Vec<u8>, radio: &mut M) -> (r: Result<
        ReturnCode,
        (ReturnCode, Vec<u8>),
    >)
        requires
            old(radio).ready(),
            old(self).dgram_offset <= old(self).dgram_size,
            old(self).packet is Some ==> old(self).dgram_size <= old(self).packet->0@.len(),
        ensures
            final(radio).ready(),
            r is Ok ==> r == Ok::<ReturnCode, (ReturnCode, Vec<u8>)>(ReturnCode::SUCCESS),
            *final(self) == (TxState { dgram_offset: final(self).dgram_offset, ..*old(self) }),
            old(self).dgram_offset <= final(self).dgram_offset <= old(self).dgram_size,
    {
        let mut buf = frag_buf;
        let prepared = radio.prepare_data_frame(
            buf.as_mut_slice(),
            self.dst_pan,
            self.dst_mac_addr,
            self.src_pan,
            self.src_mac_addr,
            self.security,
        );
        match self.fill_next_fragment(prepared, buf) {
            Err(e) => Err(e),
            Ok((frame, info)) => {
                let (result, back) = radio.transmit(frame, info);
                match back {
                    Some(b) => Err((result, b)),
                    None => Ok(ReturnCode::SUCCESS),
                }
            },
        }
    }

    /// Puts the first frame of the datagram into `buf`, where the MAC
    /// prepared a data frame with the outcome `prepared` and the compressor,
    /// when compression is on, wrote `lowpan_packet` with the outcome
    /// `compressed`. Fails with `ENOMEM` when there is no datagram, with
    /// `FAIL` when the MAC or the compressor failed, with `ESIZE` when the
    /// frame has no room for what must go in front of the payload or the
    /// filled frame would not fit the PHY, and with the layout's error when
    /// the datagram must be split but may not be; each failure hands `buf`
    /// back and changes nothing. On success gives the frame and sets the
    /// datagram offset past the bytes it carries.
    pub fn fill_first_fragment(
        &mut self,
        prepared: Result<FrameInfo, ()>,
        buf: Vec<u8>,
        compressed: Result<(usize, usize), ()>,
        lowpan_packet: &[u8],
    ) -> (r: Result<(Vec<u8>, FrameInfo), (ReturnCode, Vec<u8>)>)
        requires
            old(self).packet is Some ==> {
                &&& old(self).packet->0@.len() + lowpan_packet@.len() <= usize::MAX
                &&& compression_used(*old(self), compressed) matches Some((c, w)) ==> c <= old(
                    self,
                ).packet->0@.len() && w <= lowpan_packet@.len()
            },
        ensures
            old(self).packet is None ==> r == Err::<(Vec<u8>, FrameInfo), (ReturnCode, Vec<u8>)>(
                (ReturnCode::ENOMEM, buf),
            ) && *final(self) == *old(self),
            old(self).packet is Some ==> match prepared {
                Err(_) => r == Err::<(Vec<u8>, FrameInfo), (ReturnCode, Vec<u8>)>((ReturnCode::FAIL, buf))
                    && *final(self) == *old(self),
                Ok(info) => match compression_used(*old(self), compressed) {
                    None => r == Err::<(Vec<u8>, FrameInfo), (ReturnCode, Vec<u8>)>((ReturnCode::FAIL, buf))
                        && *final(self) == *old(self),
                    Some((consumed, written)) => {
                        let len = buf@.len() as int;
                        let packet = old(self).packet->0@;
                        let cap = info.capacity(len);
                        let remaining = packet.len() - consumed;
                        if cap < 2 || (old(self).fragment && written + remaining > cap - 2 && cap - 2
                            < FRAG1_HDR_SIZE) {
                            &&& r == Err::<(Vec<u8>, FrameInfo), (ReturnCode, Vec<u8>)>((ReturnCode::ESIZE, buf))
                            &&& *final(self) == *old(self)
                        } else {
                            match first_fragment_layout(old(self).compress, old(self).fragment, written, remaining, cap) {
                                Err(e) => r == Err::<(Vec<u8>, FrameInfo), (ReturnCode, Vec<u8>)>((e, buf))
                                    && *final(self) == *old(self),
                                Ok((frag1, n)) => {
                                    let bytes = first_fragment_bytes(*old(self), frag1, lowpan_packet@, written, packet, consumed, n);
                                    let filled = FrameInfo { data_len: (info.data_len + bytes.len()) as usize, ..info };
                                    if !frame_fits(filled, len) {
                                        &&& r == Err::<(Vec<u8>, FrameInfo), (ReturnCode, Vec<u8>)>((ReturnCode::ESIZE, buf))
                                        &&& *final(self) == *old(self)
                                    } else {
                                        &&& r matches Ok((b, i))
                                        &&& i == filled
                                        &&& b@.len() == len
                                        &&& b@ == splice(buf@, PSDU_OFFSET + info.unsecured_len(), bytes)
                                        &&& *final(self) == (TxState { dgram_offset: (consumed + n) as usize, ..*old(self) })
                                    }
                                },
                            }
                        }
                    },
                },
            },
    {
        let packet = match &self.packet {
            None => {
                return Err((ReturnCode::ENOMEM, buf));
            },
            Some(p) => p,
        };
        let mut info = match prepared {
            Err(_) => {
                return Err((ReturnCode::FAIL, buf));
            },
            Ok(info) => info,
        };
        let (consumed, written) = if self.compress {
            match compressed {
                Err(_) => {
                    return Err((ReturnCode::FAIL, buf));
                },
                Ok(result) => result,
            }
        } else {
            (0, 0)
        };
        let mut buf = buf;
        if !info.has_capacity(buf.len(), 2) {
            return Err((ReturnCode::ESIZE, buf));
        }
        let capacity = info.remaining_data_capacity(&buf);
        let remaining_payload = packet.len() - consumed;
        if self.fragment && written + remaining_payload > capacity - 2 && capacity - 2 < FRAG1_HDR_SIZE {
            return Err((ReturnCode::ESIZE, buf));
        }
        let (frag1, payload_len) = match first_fragment_plan(
            self.compress,
            self.fragment,
            written,
            remaining_payload,
            capacity,
        ) {
            Err(e) => {
                return Err((e, buf));
            },
            Ok(plan) => plan,
        };
        let hdr_len: usize = if frag1 { FRAG1_HDR_SIZE } else { 0 };
        let lowpan_len: usize = if self.compress { written } else { 0 };
        let filled = FrameInfo { data_len: info.data_len + hdr_len + lowpan_len + payload_len, ..info };
        let ghost bytes = first_fragment_bytes(*self, frag1, lowpan_packet@, written as int, packet@, consumed as int, payload_len as int);
        assert(bytes.len() == hdr_len + lowpan_len + payload_len);
        if !filled.fits(buf.len()) {
            return Err((ReturnCode::ESIZE, buf));
        }
        let mut frag_header = [0u8; 4];
        set_frag_hdr(self.dgram_size, self.dgram_tag, 0, &mut frag_header, true);
        assert(frag_header@ =~= frag_hdr_bytes(self.dgram_size, self.dgram_tag, 0, true));
        append_pieces(
            &mut info,
            &mut buf,
            slice_subrange(&frag_header, 0, hdr_len),
            slice_subrange(lowpan_packet, 0, lowpan_len),
            slice_subrange(packet.as_slice(), consumed, consumed + payload_len),
        );
        proof {
            assert(frag_header@.subrange(0, hdr_len as int) + lowpan_packet@.subrange(0, lowpan_len as int)
                + packet@.subrange(consumed as int, consumed + payload_len) =~= bytes);
        }
        self.dgram_offset = consumed + payload_len;
        Ok((buf, info))
    }

    /// Compresses the datagram, when compression is on, puts the first
    /// frame into `buf`, where the MAC prepared a data frame with the
    /// outcome `prepared`, as `fill_first_fragment` says, and has `radio`
    /// transmit it. `Ok(SUCCESS)` when the MAC took the frame; otherwise the
    /// buffer comes back with the reason.
    pub fn prepare_transmit_first_fragment<M: Mac, C: ContextStore>(
        &mut self,
        prepared: Result<FrameInfo, ()>,
        buf: Vec<u8>,
        radio: &mut M,
        lowpan: &LoWPAN<C>,
    ) -> (r: Result<ReturnCode, (ReturnCode, Vec<u8>)>)
        requires
            old(radio).ready(),
            old(self).packet is Some ==> old(self).packet->0@.len() + 127 <= usize::MAX,
            old(self).packet is Some && old(self).compress ==> !(compress_spec(
                lowpan.ctx_store,
                old(self).packet->0@,
                0,
                lowpan_mac(old(self).src_mac_addr),
                lowpan_mac(old(self).dst_mac_addr),
                Seq::new(127, |i: int| 0u8),
                0,
            ) is Stuck),
        ensures
            final(radio).ready(),
            r is Ok ==> r == Ok::<ReturnCode, (ReturnCode, Vec<u8>)>(ReturnCode::SUCCESS),
            *final(self) == (TxState { dgram_offset: final(self).dgram_offset, ..*old(self) }),
    {
        let mut lowpan_packet = [0u8; 127];
        let ghost zeros = lowpan_packet@;
        assert(zeros =~= Seq::new(127, |i: int| 0u8));
        let compressed = match &self.packet {
            Some(packet) => {
                if self.compress {
                    proof {
                        lemma_compress_spec_bounds(
                            lowpan.ctx_store,
                            packet@,
                            0,
                            lowpan_mac(self.src_mac_addr),
                            lowpan_mac(self.dst_mac_addr),
                            zeros,
                            0,
                        );
                    }
                    lowpan.compress(
                        packet.as_slice(),
                        to_lowpan_mac(self.src_mac_addr),
                        to_lowpan_mac(self.dst_mac_addr),
                        &mut lowpan_packet,
                    )
                } else {
                    Ok((0, 0))
                }
            },
            None => Ok((0, 0)),
        };
        match self.fill_first_fragment(prepared, buf, compressed, &lowpan_packet) {
            Err(e) => Err(e),
            Ok((frame, info)) => {
                let (result, back) = radio.transmit(frame, info);
                match back {
                    Some(b) => Err((result, b)),
                    None => Ok(ReturnCode::SUCCESS),
                }
            },
        }
    }

    /// Starts sending the datagram under the tag `dgram_tag`: the MAC
    /// prepares a data frame in `frag_buf` between the transmission's
    /// addresses and the first frame goes out as
    /// `prepare_transmit_first_fragment` says. Fails with `ENOMEM`, handing
    /// `frag_buf` back, when there is no datagram.
    pub fn start_transmit<M: Mac, C: ContextStore>(
        &mut self,
        dgram_tag: u16,
        frag_buf: Vec<u8>,
        radio: &mut M,
        lowpan: &LoWPAN<C>,
    ) -> (r: Result<ReturnCode, (ReturnCode, Vec<u8>)>)
        requires
            old(radio).ready(),
            old(self).packet is Some ==> old(self).packet->0@.len() + 127 <= usize::MAX,
            old(self).packet is Some && old(self).compress ==> !(compress_spec(
                lowpan.ctx_store,
                old(self).packet->0@,
                0,
                lowpan_mac(old(self).src_mac_addr),
                lowpan_mac(old(self).dst_mac_addr),
                Seq::new(127, |i: int| 0u8),
                0,
            ) is Stuck),
        ensures
            final(radio).ready(),
            old(self).packet is None ==> r == Err::<ReturnCode, (ReturnCode, Vec<u8>)>(
                (ReturnCode::ENOMEM, frag_buf),
            ),
            r is Ok ==> r == Ok::<ReturnCode, (ReturnCode, Vec<u8>)>(ReturnCode::SUCCESS),
            *final(self) == (TxState {
                dgram_tag: dgram_tag,
                dgram_offset: final(self).dgram_offset,
                ..*old(self)
            }),
    {
        self.dgram_tag = dgram_tag;
        if self.packet.is_none() {
            return Err((ReturnCode::ENOMEM, frag_buf));
        }
        let mut buf = frag_buf;
        let prepared = radio.prepare_data_frame(
            buf.as_mut_slice(),
            self.dst_pan,
            self.dst_mac_addr,
            self.src_pan,
            self.src_mac_addr,
            self.security,
        );
        self.prepare_transmit_first_fragment(prepared, buf, radio, lowpan)
    }

    /// The transmission finished: `client`, when there is one, gets the
    /// datagram back with the outcome.
    pub fn end_transmit<C: SixlowpanClient>(&mut self, client: Option<&C>, acked: bool, result: ReturnCode)
        requires
            client is Some ==> old(self).packet is Some,
        ensures
            client is Some ==> *final(self) == (TxState { packet: None, ..*old(self) }),
            client is None ==> *final(self) == *old(self),
    {
        match client {
            Some(client) => {
                let packet = self.packet.take();
                match packet {
                    Some(p) => client.send_done(p.as_slice(), acked, result),
                    None => {},
                }
            },
            None => {},
        }
    }
}

/// What sending the datagram of `s` asks of the compressor: when
/// compression is on, the datagram is one it can take on, and it leaves
/// room for the compressed header beside it in memory.
pub open spec fn sendable<C: ContextStore>(store: &C, s: TxState) -> bool {
    s.packet is Some ==> {
        &&& s.packet->0@.len() + 127 <= usize::MAX
        &&& s.compress ==> !(compress_spec(
            store,
            s.packet->0@,
            0,
            lowpan_mac(s.src_mac_addr),
            lowpan_mac(s.dst_mac_addr),
            Seq::new(127, |i: int| 0u8),
            0,
        ) is Stuck)
    }
}

/// The transmit state `s` once it took on the datagram `packet` of
/// `packet_len` bytes.
pub open spec fn initialized(
    s: TxState,
    src_mac_addr: MacAddress,
    dst_mac_addr: MacAddress,
    packet: Vec<u8>,
    packet_len: usize,
    security: Option<(SecurityLevel, KeyId)>,
    fragment: bool,
    compress: bool,
) -> TxState {
    TxState {
        src_mac_addr: src_mac_addr,
        dst_mac_addr: dst_mac_addr,
        fragment: fragment,
        compress: compress,
        security: security,
        packet: Some(packet),
        dgram_size: packet_len as u16,
        ..s
    }
}

/// Whether `st` is reassembling the datagram with these addresses, size and
/// tag.
pub open spec fn reassembling(st: RxState, src_mac_addr: MacAddress, dst_mac_addr: MacAddress, dgram_size: u16, dgram_tag: u16) -> bool {
    &&& st.busy
    &&& st.dgram_tag == dgram_tag
    &&& st.dgram_size == dgram_size
    &&& st.src_mac_addr == src_mac_addr
    &&& st.dst_mac_addr == dst_mac_addr
}

/// Whether `after` is the reassembly state `before`, or `before` abandoned
/// as expired: free, with no block received and its buffer kept.
pub open spec fn same_or_expired(before: RxState, after: RxState) -> bool {
    ||| after == before
    ||| {
        &&& !after.busy
        &&& after.start_time == 0
        &&& after.bitmap.bytes() == Seq::new(20, |i: int| 0u8)
        &&& after.packet == before.packet
        &&& after.dgram_size == before.dgram_size
    }
}

/// What the layer answers once reassembly state `i` took in a fragment with
/// the result `res`: the state when the datagram is complete or failed.
pub open spec fn fragment_answer(i: int, res: Result<bool, ReturnCode>) -> (Option<usize>, ReturnCode) {
    match res {
        Err(_) => (Some(i as usize), ReturnCode::FAIL),
        Ok(true) => (Some(i as usize), ReturnCode::SUCCESS),
        Ok(false) => (None, ReturnCode::SUCCESS),
    }
}

/// The decompression outcome of the unfragmented packet
/// `payload[..payload_len]` from `src` to `dst` into the buffer `packet`.
pub open spec fn single_decompressed<C: ContextStore>(
    store: &C,
    packet: Seq<u8>,
    payload: Seq<u8>,
    payload_len: usize,
    src: MacAddress,
    dst: MacAddress,
) -> Outcome {
    decompress_spec(store, payload.subrange(0, payload_len as int), 0, lowpan_mac(src), lowpan_mac(dst), packet, 0)
}

/// What taking in the unfragmented packet `payload[..payload_len]` asks of
/// the buffer `packet`: a 6LoWPAN packet the decompressor can take on whose
/// datagram fits, or an uncompressed one that fits.
pub open spec fn single_acceptable<C: ContextStore>(
    store: &C,
    packet: Seq<u8>,
    payload: Seq<u8>,
    payload_len: usize,
    src: MacAddress,
    dst: MacAddress,
) -> bool {
    &&& 1 <= payload.len()
    &&& payload_len <= payload.len()
    &&& payload_len + packet.len() <= usize::MAX
    &&& if payload[0] & 0xe0 == 0x60 {
        let d = single_decompressed(store, packet, payload, payload_len, src, dst);
        &&& !(d is Stuck)
        &&& d matches Outcome::Done(c, _, w) ==> w + (payload_len - c) <= packet.len()
    } else {
        payload_len <= packet.len()
    }
}

/// Whether the unfragmented packet `payload[..payload_len]` is taken in,
/// and the buffer `packet` afterwards: the decompressed headers followed by
/// the rest of the packet, or the packet copied as it is when it is not
/// compressed; a packet that does not decompress is not taken in.
pub open spec fn single_received<C: ContextStore>(
    store: &C,
    packet: Seq<u8>,
    payload: Seq<u8>,
    payload_len: usize,
    src: MacAddress,
    dst: MacAddress,
) -> (bool, Seq<u8>) {
    if payload[0] & 0xe0 == 0x60 {
        match single_decompressed(store, packet, payload, payload_len, src, dst) {
            Outcome::Done(c, out, w) => (true, splice(out, w, payload.subrange(c, payload_len as int))),
            Outcome::Fail(out) => (false, out),
            Outcome::Stuck => (false, packet),
        }
    } else {
        (true, splice(packet, 0, payload.subrange(0, payload_len as int)))
    }
}

/// The 6LoWPAN layer over a MAC device: sends one datagram at a time,
/// fragmenting it as needed, and reassembles received ones.
pub struct Sixlowpan<'a, M: Mac, C: ContextStore, A: Alarm, L: SixlowpanClient> {
    pub radio: M,
    pub ctx_store: &'a C,
    pub clock: A,
    pub client: Option<L>,
    pub tx_state: TxState,
    pub rx_states: Vec<RxState>,
}

impl<'a, M: Mac, C: ContextStore, A: Alarm, L: SixlowpanClient> Sixlowpan<'a, M, C, A, L> {
    /// The MAC device is ready, and the frame buffer is at hand whenever no
    /// datagram is being sent.
    pub open spec fn wf(&self) -> bool {
        &&& self.radio.ready()
        &&& !self.tx_state.tx_busy ==> self.tx_state.tx_buf is Some
    }

    /// A layer over `radio` and `ctx_store` that sends through the frame
    /// buffer `tx_buf`, with no reassembly state and no client.
    pub fn new(radio: M, ctx_store: &'a C, tx_buf: Vec<u8>, clock: A) -> (r: Self)
        ensures
            r.radio == radio,
            r.ctx_store == ctx_store,
            r.clock == clock,
            r.client is None,
            r.tx_state.packet is None,
            !r.tx_state.tx_busy,
            r.tx_state.tx_buf == Some(tx_buf),
            r.tx_state.tx_dgram_tag == 0,
            r.rx_states@.len() == 0,
            r.radio.ready() ==> r.wf(),
    {
        Sixlowpan {
            radio: radio,
            ctx_store: ctx_store,
            clock: clock,
            client: None,
            tx_state: TxState::new(tx_buf),
            rx_states: Vec::new(),
        }
    }

    /// Adds a reassembly state, in front of the others.
    pub fn add_rx_state(&mut self, rx_state: RxState)
        ensures
            final(self).rx_states@ == seq![rx_state] + old(self).rx_states@,
            final(self).tx_state == old(self).tx_state,
            final(self).radio == old(self).radio,
            final(self).client == old(self).client,
    {
        self.rx_states.insert(0, rx_state);
        assert(self.rx_states@ =~= seq![rx_state] + old(self).rx_states@);
    }

    pub fn set_client(&mut self, client: L)
        ensures
            final(self).client == Some(client),
            final(self).tx_state == old(self).tx_state,
            final(self).rx_states == old(self).rx_states,
            final(self).radio == old(self).radio,
    {
        self.client = Some(client);
    }

    /// Sends the datagram `ip6_packet` of `ip6_packet_len` bytes from
    /// `src_mac_addr` to `dst_mac_addr`. The transmit state takes it on in
    /// any case; while another datagram is being sent the answer is
    /// `EBUSY`, otherwise the transmission starts as
    /// `start_packet_transmit` says and the answer is `SUCCESS`.
    pub fn transmit_packet(
        &mut self,
        src_mac_addr: MacAddress,
        dst_mac_addr: MacAddress,
        ip6_packet: Vec<u8>,
        ip6_packet_len: usize,
        security: Option<(SecurityLevel, KeyId)>,
        fragment: bool,
        compress: bool,
    ) -> (r: Result<ReturnCode, ReturnCode>)
        requires
            old(self).wf(),
            sendable(
                old(self).ctx_store,
                initialized(
                    old(self).tx_state,
                    src_mac_addr,
                    dst_mac_addr,
                    ip6_packet,
                    ip6_packet_len,
                    security,
                    fragment,
                    compress,
                ),
            ),
        ensures
            final(self).wf(),
            ({
                let s = initialized(
                    old(self).tx_state,
                    src_mac_addr,
                    dst_mac_addr,
                    ip6_packet,
                    ip6_packet_len,
                    security,
                    fragment,
                    compress,
                );
                &&& old(self).tx_state.tx_busy ==> r == Err::<ReturnCode, ReturnCode>(ReturnCode::EBUSY)
                    && final(self).tx_state == s && final(self).radio == old(self).radio
                &&& !old(self).tx_state.tx_busy ==> r == Ok::<ReturnCode, ReturnCode>(ReturnCode::SUCCESS)
                    && started((Sixlowpan { tx_state: s, ..*old(self) }), *final(self))
            }),
    {
        self.tx_state.init_transmit(
            src_mac_addr,
            dst_mac_addr,
            ip6_packet,
            ip6_packet_len,
            security,
            fragment,
            compress,
        );
        if self.tx_state.tx_busy {
            Err(ReturnCode::EBUSY)
        } else {
            self.start_packet_transmit();
            Ok(ReturnCode::SUCCESS)
        }
    }

    /// Starts sending the datagram the transmit state holds, under the next
    /// datagram tag, unless a datagram is being sent already. When the MAC
    /// takes the first frame the layer is busy and the tag is used up;
    /// otherwise the frame buffer comes back and the client, when there is
    /// one, gets the datagram back.
    pub fn start_packet_transmit(&mut self)
        requires
            old(self).wf(),
            sendable(old(self).ctx_store, old(self).tx_state),
            old(self).client is Some && !old(self).tx_state.tx_busy ==> old(self).tx_state.packet is Some,
        ensures
            final(self).wf(),
            old(self).tx_state.tx_busy ==> *final(self) == *old(self),
            !old(self).tx_state.tx_busy ==> started(*old(self), *final(self)),
    {
        if self.tx_state.tx_busy {
            return;
        }
        let dgram_tag = next_dgram_tag(self.tx_state.tx_dgram_tag);
        let frag_buf = match self.tx_state.tx_buf.take() {
            Some(b) => b,
            None => {
                return;
            },
        };
        let lowpan = LoWPAN::new(self.ctx_store);
        match self.tx_state.start_transmit(dgram_tag, frag_buf, &mut self.radio, &lowpan) {
            Ok(_) => {
                self.tx_state.tx_dgram_tag = dgram_tag;
                self.tx_state.tx_busy = true;
            },
            Err((returncode, new_frag_buf)) => {
                self.tx_state.tx_buf = Some(new_frag_buf);
                match &self.client {
                    Some(client) => self.tx_state.end_transmit(Some(client), false, returncode),
                    None => self.tx_state.end_transmit::<L>(None, false, returncode),
                }
            },
        }
    }

    /// Ends the transmission: the layer is free again with the frame buffer
    /// `tx_buf`, and the client, when there is one, gets the datagram back.
    pub fn end_packet_transmit(&mut self, tx_buf: Vec<u8>, acked: bool, returncode: ReturnCode)
        requires
            old(self).radio.ready(),
            old(self).client is Some ==> old(self).tx_state.packet is Some,
        ensures
            final(self).wf(),
            final(self).tx_state == (TxState {
                tx_busy: false,
                tx_buf: Some(tx_buf),
                packet: if old(self).client is Some {
                    None
                } else {
                    old(self).tx_state.packet
                },
                ..old(self).tx_state
            }),
            final(self).radio == old(self).radio,
            final(self).rx_states == old(self).rx_states,
    {
        self.tx_state.tx_busy = false;
        self.tx_state.tx_buf = Some(tx_buf);
        match &self.client {
            Some(client) => self.tx_state.end_transmit(Some(client), acked, returncode),
            None => self.tx_state.end_transmit::<L>(None, acked, returncode),
        }
    }

    /// The MAC finished sending a frame, handing back `tx_buf`: after a
    /// failure or the last fragment the transmission ends, otherwise the
    /// next fragment goes out, and a failure to send it ends the
    /// transmission with its reason.
    pub fn send_done(&mut self, tx_buf: Vec<u8>, acked: bool, result: ReturnCode)
        requires
            old(self).wf(),
            old(self).client is Some ==> old(self).tx_state.packet is Some,
            old(self).tx_state.packet is Some ==> old(self).tx_state.dgram_size <= old(self).tx_state.packet->0@.len(),
        ensures
            final(self).wf(),
            result != ReturnCode::SUCCESS || old(self).tx_state.is_transmit_done_spec() ==> final(self).tx_state
                == (TxState {
                tx_busy: false,
                tx_buf: Some(tx_buf),
                packet: if old(self).client is Some {
                    None
                } else {
                    old(self).tx_state.packet
                },
                ..old(self).tx_state
            }),
            final(self).tx_state.dgram_offset <= final(self).tx_state.dgram_size || final(self).tx_state.dgram_offset
                == old(self).tx_state.dgram_offset,
    {
        if result != ReturnCode::SUCCESS || self.tx_state.is_transmit_done() {
            self.end_packet_transmit(tx_buf, acked, result);
        } else {
            match self.tx_state.prepare_transmit_next_fragment(tx_buf, &mut self.radio) {
                Err((retcode, tx_buf)) => self.end_packet_transmit(tx_buf, acked, retcode),
                Ok(_) => {},
            }
        }
    }

    /// The first reassembly state busy with the datagram with these
    /// addresses, size and tag.
    pub fn find_my_fragment(&self, src_mac_addr: MacAddress, dst_mac_addr: MacAddress, dgram_size: u16, dgram_tag: u16) -> (r: Option<usize>)
        ensures
            match r {
                Some(i) => i < self.rx_states@.len() && reassembling(self.rx_states@[i as int], src_mac_addr, dst_mac_addr, dgram_size, dgram_tag)
                    && forall|j: int| 0 <= j < i ==> !reassembling(#[trigger] self.rx_states@[j], src_mac_addr, dst_mac_addr, dgram_size, dgram_tag),
                None => forall|j: int| 0 <= j < self.rx_states@.len() ==> !reassembling(#[trigger] self.rx_states@[j], src_mac_addr, dst_mac_addr, dgram_size, dgram_tag),
            },
    {
        let mut k: usize = 0;
        while k < self.rx_states.len()
            invariant
                k <= self.rx_states@.len(),
                forall|j: int| 0 <= j < k ==> !reassembling(#[trigger] self.rx_states@[j], src_mac_addr, dst_mac_addr, dgram_size, dgram_tag),
            decreases self.rx_states@.len() - k,
        {
            if self.rx_states[k].is_my_fragment(src_mac_addr, dst_mac_addr, dgram_size, dgram_tag) {
                return Some(k);
            }
            k = k + 1;
        }
        None
    }

    /// Looks for a free reassembly state, abandoning expired reassemblies
    /// on the way, at the clock's time when each state is looked at.
    pub fn find_free_state(&mut self) -> (r: Option<usize>)
        requires
            forall|k: int| 0 <= k < old(self).rx_states@.len() ==> (#[trigger] old(self).rx_states@[k]).start_time + FRAG_TIMEOUT * A::Frequency::hz() <= u32::MAX,
        ensures
            final(self).rx_states@.len() == old(self).rx_states@.len(),
            final(self).radio == old(self).radio,
            final(self).tx_state == old(self).tx_state,
            final(self).client == old(self).client,
            final(self).ctx_store == old(self).ctx_store,
            forall|k: int| 0 <= k < old(self).rx_states@.len() ==> same_or_expired(#[trigger] old(self).rx_states@[k], final(self).rx_states@[k]),
            match r {
                Some(i) => i < old(self).rx_states@.len() && !final(self).rx_states@[i as int].busy
                    && forall|j: int| 0 <= j < i ==> (#[trigger] final(self).rx_states@[j]).busy,
                None => forall|j: int| 0 <= j < old(self).rx_states@.len() ==> (#[trigger] final(self).rx_states@[j]).busy,
            },
    {
        let frequency = A::Frequency::frequency();
        let mut k: usize = 0;
        while k < self.rx_states.len()
            invariant
                k <= self.rx_states@.len(),
                frequency == A::Frequency::hz(),
                forall|j: int| 0 <= j < old(self).rx_states@.len() ==> (#[trigger] old(self).rx_states@[j]).start_time + FRAG_TIMEOUT * A::Frequency::hz() <= u32::MAX,
                self.rx_states@.len() == old(self).rx_states@.len(),
                self.radio == old(self).radio,
                self.tx_state == old(self).tx_state,
                self.client == old(self).client,
                self.ctx_store == old(self).ctx_store,
                forall|j: int| 0 <= j < self.rx_states@.len() ==> same_or_expired(#[trigger] old(self).rx_states@[j], self.rx_states@[j]),
                forall|j: int| k <= j < self.rx_states@.len() ==> #[trigger] self.rx_states@[j] == old(self).rx_states@[j],
                forall|j: int| 0 <= j < k ==> (#[trigger] self.rx_states@[j]).busy,
            decreases self.rx_states@.len() - k,
        {
            let now = self.clock.now();
            assert(self.rx_states@[k as int] == old(self).rx_states@[k as int]);
            if !self.rx_states[k].is_busy(frequency, now) {
                return Some(k);
            }
            k = k + 1;
        }
        None
    }

    /// Takes in a fragment of the datagram with these addresses, size and
    /// tag: the state already reassembling it takes it, or else a free one
    /// starts reassembling it at the clock's time, and `ENOMEM` when there
    /// is none. Gives the state when the datagram is complete or failed.
    pub fn receive_fragment(
        &mut self,
        frag_payload: &[u8],
        payload_len: usize,
        src_mac_addr: MacAddress,
        dst_mac_addr: MacAddress,
        dgram_size: u16,
        dgram_tag: u16,
        dgram_offset: usize,
    ) -> (r: (Option<usize>, ReturnCode))
        requires
            fragment_receivable(*old(self), frag_payload@, payload_len, src_mac_addr, dst_mac_addr, dgram_size, dgram_tag, dgram_offset),
        ensures
            fragment_received(*old(self), *final(self), frag_payload@, payload_len, src_mac_addr, dst_mac_addr, dgram_size, dgram_tag, dgram_offset, r),
    {
        let i = match self.find_my_fragment(src_mac_addr, dst_mac_addr, dgram_size, dgram_tag) {
            Some(i) => {
                assert(self.rx_states@[i as int] == (RxState { src_mac_addr: src_mac_addr, dst_mac_addr: dst_mac_addr, ..self.rx_states@[i as int] }));
                i
            },
            None => {
                match self.find_free_state() {
                    Some(i) => {
                        let now = self.clock.now();
                        self.rx_states[i].start_receive(src_mac_addr, dst_mac_addr, dgram_size, dgram_tag, now);
                        i
                    },
                    None => {
                        return (None, ReturnCode::ENOMEM);
                    },
                }
            },
        };
        let ghost before = self.rx_states@[i as int];
        assert(fragment_acceptable(self.ctx_store, (RxState { src_mac_addr: src_mac_addr, dst_mac_addr: dst_mac_addr, ..old(self).rx_states@[i as int] }), frag_payload@, payload_len, dgram_size, dgram_offset));
        let lowpan = LoWPAN::new(self.ctx_store);
        let res = self.rx_states[i].receive_next_frame(frag_payload, payload_len, dgram_size, dgram_offset, &lowpan);
        match res {
            Err(_) => (Some(i), ReturnCode::FAIL),
            Ok(complete) => {
                if complete {
                    (Some(i), ReturnCode::SUCCESS)
                } else {
                    (None, ReturnCode::SUCCESS)
                }
            },
        }
    }

    /// Takes in an unfragmented packet from `src_mac_addr` to
    /// `dst_mac_addr`: a free reassembly state starts on it at the clock's
    /// time and holds the datagram, decompressed when it is compressed.
    /// `ENOMEM` when no state is free, `FAIL` when the packet does not
    /// decompress; otherwise gives the state.
    pub fn receive_single_packet(
        &mut self,
        payload: &[u8],
        payload_len: usize,
        src_mac_addr: MacAddress,
        dst_mac_addr: MacAddress,
    ) -> (r: (Option<usize>, ReturnCode))
        requires
            single_receivable(*old(self), payload@, payload_len, src_mac_addr, dst_mac_addr),
        ensures
            single_packet_received(*old(self), *final(self), payload@, payload_len, src_mac_addr, dst_mac_addr, r),
    {
        let i = match self.find_free_state() {
            Some(i) => i,
            None => {
                return (None, ReturnCode::ENOMEM);
            },
        };
        let ghost st0 = old(self).rx_states@[i as int];
        assert(same_or_expired(st0, self.rx_states@[i as int]));
        assert(single_acceptable(self.ctx_store, st0.packet@, payload@, payload_len, src_mac_addr, dst_mac_addr));
        let now = self.clock.now();
        self.rx_states[i].start_receive(src_mac_addr, dst_mac_addr, #[verifier::truncate] (payload_len as u16), 0, now);
        let ghost packet0 = self.rx_states@[i as int].packet@;
        assert(single_acceptable(self.ctx_store, packet0, payload@, payload_len, src_mac_addr, dst_mac_addr));
        let mut packet: Vec<u8> = Vec::new();
        std::mem::swap(&mut packet, &mut self.rx_states[i].packet);
        let ok = if is_lowpan(payload) {
            let lowpan = LoWPAN::new(self.ctx_store);
            let frame = slice_subrange(payload, 0, payload_len);
            let decompressed = lowpan.decompress(frame, to_lowpan_mac(src_mac_addr), to_lowpan_mac(dst_mac_addr), packet.as_mut_slice());
            match decompressed {
                Ok((consumed, written)) => {
                    proof {
                        lemma_decompress_bounds(self.ctx_store, frame@, 0, lowpan_mac(src_mac_addr), lowpan_mac(dst_mac_addr), packet0, 0);
                    }
                    let remaining = payload_len - consumed;
                    copy_into(packet.as_mut_slice(), written, payload, consumed, remaining);
                    true
                },
                Err(_) => false,
            }
        } else {
            copy_into(packet.as_mut_slice(), 0, payload, 0, payload_len);
            true
        };
        self.rx_states[i].packet = packet;
        if ok {
            (Some(i), ReturnCode::SUCCESS)
        } else {
            (None, ReturnCode::FAIL)
        }
    }

    /// Takes in the frame payload `packet[..packet_len]` from
    /// `src_mac_addr` to `dst_mac_addr`: a fragment goes to reassembly past
    /// its fragment header, anything else is taken as a whole datagram.
    pub fn receive_frame(&mut self, packet: &[u8], packet_len: usize, src_mac_addr: MacAddress, dst_mac_addr: MacAddress) -> (r: (Option<usize>, ReturnCode))
        requires
            frame_receivable(*old(self), packet@, packet_len, src_mac_addr, dst_mac_addr),
        ensures
            frame_received(*old(self), *final(self), packet@, packet_len, src_mac_addr, dst_mac_addr, r),
    {
        if is_fragment(packet) {
            let hdr = slice_subrange(packet, 0, 5);
            let (is_frag1, dgram_size, dgram_tag, dgram_offset) = get_frag_hdr(hdr);
            assert(hdr@ == packet@.subrange(0, 5));
            let offset_to_payload = if is_frag1 {
                FRAG1_HDR_SIZE
            } else {
                FRAGN_HDR_SIZE
            };
            self.receive_fragment(
                slice_subrange(packet, offset_to_payload, packet.len()),
                packet_len - offset_to_payload,
                src_mac_addr,
                dst_mac_addr,
                dgram_size,
                dgram_tag,
                dgram_offset,
            )
        } else {
            self.receive_single_packet(packet, packet_len, src_mac_addr, dst_mac_addr)
        }
    }

    /// A frame arrived with the MAC header `header`: its data payload, the
    /// `data_len` bytes at `data_offset` of `buf`, is taken in from the
    /// header's addresses (the short address 0 where one is absent). When a
    /// datagram is complete, or failed, the client gets it with its size and
    /// the result, and its reassembly state is free again.
    pub fn receive(&mut self, buf: &[u8], header: Header, data_offset: usize, data_len: usize) -> (r: (Option<usize>, ReturnCode))
        requires
            data_offset + data_len <= buf@.len(),
            data_offset + data_len <= usize::MAX,
            frame_receivable(
                *old(self),
                buf@.subrange(data_offset as int, data_offset + data_len),
                data_len,
                addr_or_zero(header.src_addr),
                addr_or_zero(header.dst_addr),
            ),
        ensures
            ({
                let src = addr_or_zero(header.src_addr);
                let dst = addr_or_zero(header.dst_addr);
                exists|mid: Self| {
                    &&& #[trigger] frame_received(*old(self), mid, buf@.subrange(data_offset as int, data_offset + data_len), data_len, src, dst, r)
                    &&& match r.0 {
                        Some(i) => {
                            &&& i < mid.rx_states@.len()
                            &&& final(self).rx_states@ == mid.rx_states@.update(
                                i as int,
                                final(self).rx_states@[i as int],
                            )
                            &&& !final(self).rx_states@[i as int].busy
                            &&& final(self).rx_states@[i as int].packet == mid.rx_states@[i as int].packet
                            &&& final(self).rx_states@[i as int].dgram_size == mid.rx_states@[i as int].dgram_size
                        },
                        None => final(self).rx_states == mid.rx_states,
                    }
                    &&& final(self).tx_state == mid.tx_state
                    &&& final(self).radio == mid.radio
                }
            }),
    {
        let src_mac_addr = match header.src_addr {
            Some(a) => a,
            None => MacAddress::Short(0),
        };
        let dst_mac_addr = match header.dst_addr {
            Some(a) => a,
            None => MacAddress::Short(0),
        };
        let data = slice_subrange(buf, data_offset, data_offset + data_len);
        let (rx_state, returncode) = self.receive_frame(data, data_len, src_mac_addr, dst_mac_addr);
        let ghost mid = *self;
        match rx_state {
            Some(i) => {
                let dgram_size = self.rx_states[i].end_receive();
                match &self.client {
                    Some(client) => client.receive(self.rx_states[i].packet.as_slice(), dgram_size, returncode),
                    None => {},
                }
                assert(self.rx_states@ =~= mid.rx_states@.update(i as int, self.rx_states@[i as int]));
            },
            None => {},
        }
        (rx_state, returncode)
    }

    /// Abandons every reassembly and the transmission: each reassembly
    /// state is free again, and the client, when there is one, gets the
    /// datagram being sent back with `FAIL`.
    pub fn discard_all_state(&mut self)
        requires
            old(self).client is Some ==> old(self).tx_state.packet is Some,
        ensures
            final(self).rx_states@.len() == old(self).rx_states@.len(),
            forall|k: int| 0 <= k < old(self).rx_states@.len() ==> {
                &&& !(#[trigger] final(self).rx_states@[k]).busy
                &&& final(self).rx_states@[k].start_time == 0
                &&& final(self).rx_states@[k].bitmap.bytes() == Seq::new(20, |i: int| 0u8)
                &&& final(self).rx_states@[k].packet == old(self).rx_states@[k].packet
            },
            final(self).tx_state == (TxState {
                packet: if old(self).client is Some {
                    None
                } else {
                    old(self).tx_state.packet
                },
                ..old(self).tx_state
            }),
            final(self).radio == old(self).radio,
    {
        let mut k: usize = 0;
        while k < self.rx_states.len()
            invariant
                k <= self.rx_states@.len(),
                self.rx_states@.len() == old(self).rx_states@.len(),
                self.tx_state == old(self).tx_state,
                self.client == old(self).client,
                self.radio == old(self).radio,
                forall|j: int| k <= j < self.rx_states@.len() ==> #[trigger] self.rx_states@[j] == old(self).rx_states@[j],
                forall|j: int| 0 <= j < k ==> {
                    &&& !(#[trigger] self.rx_states@[j]).busy
                    &&& self.rx_states@[j].start_time == 0
                    &&& self.rx_states@[j].bitmap.bytes() == Seq::new(20, |i: int| 0u8)
                    &&& self.rx_states@[j].packet == old(self).rx_states@[j].packet
                },
            decreases self.rx_states@.len() - k,
        {
            let _ = self.rx_states[k].end_receive();
            k = k + 1;
        }
        match &self.client {
            Some(client) => self.tx_state.end_transmit(Some(client), false, ReturnCode::FAIL),
            None => self.tx_state.end_transmit::<L>(None, false, ReturnCode::FAIL),
        }
    }
}


/// What taking in a fragment of `payload_len` bytes of `payload`, of the
/// datagram with these addresses, size and tag, at offset `dgram_offset`,
/// asks of the layer `before`: every reassembly state could take it.
pub open spec fn fragment_receivable<'a, M: Mac, C: ContextStore, A: Alarm, L: SixlowpanClient>(
    before: Sixlowpan<'a, M, C, A, L>,
    payload: Seq<u8>,
    payload_len: usize,
    src_mac_addr: MacAddress,
    dst_mac_addr: MacAddress,
    dgram_size: u16,
    dgram_tag: u16,
    dgram_offset: usize,
) -> bool {
    &&& (forall|k: int| 0 <= k < before.rx_states@.len() ==> (#[trigger] before.rx_states@[k]).start_time + FRAG_TIMEOUT * A::Frequency::hz() <= u32::MAX)
    &&& (forall|k: int| 0 <= k < before.rx_states@.len() ==> fragment_acceptable(
        before.ctx_store,
        (RxState { src_mac_addr: src_mac_addr, dst_mac_addr: dst_mac_addr, ..#[trigger] before.rx_states@[k] }),
        payload,
        payload_len,
        dgram_size,
        dgram_offset,
    ))
}

/// Whether `after` is the layer `before` once it took in that fragment,
/// answering `r`.
pub open spec fn fragment_received<'a, M: Mac, C: ContextStore, A: Alarm, L: SixlowpanClient>(
    before: Sixlowpan<'a, M, C, A, L>,
    after: Sixlowpan<'a, M, C, A, L>,
    payload: Seq<u8>,
    payload_len: usize,
    src_mac_addr: MacAddress,
    dst_mac_addr: MacAddress,
    dgram_size: u16,
    dgram_tag: u16,
    dgram_offset: usize,
    r: (Option<usize>, ReturnCode),
) -> bool {
    &&& (r.0 matches Some(i) ==> i < after.rx_states@.len())
    &&& (after.rx_states@.len() == before.rx_states@.len())
    &&& (after.radio == before.radio)
    &&& (after.tx_state == before.tx_state)
    &&& (after.client == before.client)
    &&& (r.1 == ReturnCode::ENOMEM ==> {
        &&& r.0 is None
        &&& forall|k: int| 0 <= k < before.rx_states@.len() ==> !reassembling(#[trigger] before.rx_states@[k], src_mac_addr, dst_mac_addr, dgram_size, dgram_tag)
        &&& forall|k: int| 0 <= k < before.rx_states@.len() ==> (#[trigger] after.rx_states@[k]).busy
    })
    &&& (r.1 != ReturnCode::ENOMEM ==> exists|i: int, st: RxState, res: Result<bool, ReturnCode>| {
        &&& 0 <= i < before.rx_states@.len()
        &&& st.packet == before.rx_states@[i].packet
        &&& reassembling(st, src_mac_addr, dst_mac_addr, dgram_size, dgram_tag)
        &&& took_fragment(before.ctx_store, st, after.rx_states@[i], payload, payload_len, dgram_size, dgram_offset, res)
        &&& r == fragment_answer(i, res)
        &&& (exists|k: int| 0 <= k < before.rx_states@.len() && reassembling(#[trigger] before.rx_states@[k], src_mac_addr, dst_mac_addr, dgram_size, dgram_tag))
            ==> {
            &&& reassembling(before.rx_states@[i], src_mac_addr, dst_mac_addr, dgram_size, dgram_tag)
            &&& st == before.rx_states@[i]
            &&& forall|j: int| 0 <= j < i ==> !reassembling(#[trigger] before.rx_states@[j], src_mac_addr, dst_mac_addr, dgram_size, dgram_tag)
        }
        &&& !(exists|k: int| 0 <= k < before.rx_states@.len() && reassembling(#[trigger] before.rx_states@[k], src_mac_addr, dst_mac_addr, dgram_size, dgram_tag))
            ==> forall|j: int| 0 <= j < i ==> (#[trigger] after.rx_states@[j]).busy
        &&& forall|j: int| 0 <= j < before.rx_states@.len() && j != i ==> same_or_expired(#[trigger] before.rx_states@[j], after.rx_states@[j])
    })
    &&& ((exists|k: int| 0 <= k < before.rx_states@.len() && reassembling(#[trigger] before.rx_states@[k], src_mac_addr, dst_mac_addr, dgram_size, dgram_tag))
        ==> r.1 != ReturnCode::ENOMEM)
}

/// What taking in the unfragmented packet `payload[..payload_len]` asks of
/// the layer `before`: every reassembly state could take it.
pub open spec fn single_receivable<'a, M: Mac, C: ContextStore, A: Alarm, L: SixlowpanClient>(
    before: Sixlowpan<'a, M, C, A, L>,
    payload: Seq<u8>,
    payload_len: usize,
    src_mac_addr: MacAddress,
    dst_mac_addr: MacAddress,
) -> bool {
    &&& (forall|k: int| 0 <= k < before.rx_states@.len() ==> (#[trigger] before.rx_states@[k]).start_time + FRAG_TIMEOUT * A::Frequency::hz() <= u32::MAX)
    &&& (forall|k: int| 0 <= k < before.rx_states@.len() ==> single_acceptable(
        before.ctx_store,
        (#[trigger] before.rx_states@[k]).packet@,
        payload,
        payload_len,
        src_mac_addr,
        dst_mac_addr,
    ))
}

/// Whether `after` is the layer `before` once it took in that packet,
/// answering `r`.
pub open spec fn single_packet_received<'a, M: Mac, C: ContextStore, A: Alarm, L: SixlowpanClient>(
    before: Sixlowpan<'a, M, C, A, L>,
    after: Sixlowpan<'a, M, C, A, L>,
    payload: Seq<u8>,
    payload_len: usize,
    src_mac_addr: MacAddress,
    dst_mac_addr: MacAddress,
    r: (Option<usize>, ReturnCode),
) -> bool {
    &&& (r.0 matches Some(i) ==> i < after.rx_states@.len())
    &&& (after.rx_states@.len() == before.rx_states@.len())
    &&& (after.radio == before.radio)
    &&& (after.tx_state == before.tx_state)
    &&& (after.client == before.client)
    &&& (r.1 == ReturnCode::ENOMEM ==> r.0 is None && forall|k: int| 0 <= k < before.rx_states@.len() ==> (#[trigger] after.rx_states@[k]).busy)
    &&& (r.1 != ReturnCode::ENOMEM ==> exists|i: int| {
        let st = #[trigger] after.rx_states@[i];
        let got = single_received(before.ctx_store, before.rx_states@[i].packet@, payload, payload_len, src_mac_addr, dst_mac_addr);
        &&& 0 <= i < before.rx_states@.len()
        &&& forall|j: int| 0 <= j < i ==> (#[trigger] after.rx_states@[j]).busy
        &&& reassembling(st, src_mac_addr, dst_mac_addr, payload_len as u16, 0)
        &&& st.bitmap.bytes() == Seq::new(20, |b: int| 0u8)
        &&& st.packet@ == got.1
        &&& r == (if got.0 {
            (Some(i as usize), ReturnCode::SUCCESS)
        } else {
            (None::<usize>, ReturnCode::FAIL)
        })
        &&& forall|j: int| 0 <= j < before.rx_states@.len() && j != i ==> same_or_expired(#[trigger] before.rx_states@[j], after.rx_states@[j])
    })
}


/// The address `a`, or the short address 0 where there is none.
pub open spec fn addr_or_zero(a: Option<MacAddress>) -> MacAddress {
    match a {
        Some(a) => a,
        None => MacAddress::Short(0),
    }
}

/// Whether the frame payload `p` starts with a fragment header.
pub open spec fn starts_fragment(p: Seq<u8>) -> bool {
    p[0] & FRAGN_HDR == FRAGN_HDR || p[0] & FRAGN_HDR == FRAG1_HDR
}

/// The size of the fragment header at the start of `p`.
pub open spec fn frag_hdr_len(p: Seq<u8>) -> int {
    if frag_hdr_fields(p.subrange(0, 5)).0 {
        FRAG1_HDR_SIZE as int
    } else {
        FRAGN_HDR_SIZE as int
    }
}

/// What taking in the frame payload `p[..len]` from `src` to `dst` asks of
/// the layer `before`.
pub open spec fn frame_receivable<'a, M: Mac, C: ContextStore, A: Alarm, L: SixlowpanClient>(
    before: Sixlowpan<'a, M, C, A, L>,
    p: Seq<u8>,
    len: usize,
    src: MacAddress,
    dst: MacAddress,
) -> bool {
    &&& p.len() >= 1
    &&& if starts_fragment(p) {
        let (_, size, tag, offset) = frag_hdr_fields(p.subrange(0, 5));
        let h = frag_hdr_len(p);
        &&& p.len() >= 5
        &&& len >= h
        &&& fragment_receivable(before, p.subrange(h, p.len() as int), (len - h) as usize, src, dst, size, tag, offset)
    } else {
        single_receivable(before, p, len, src, dst)
    }
}

/// Whether `after` is the layer `before` once it took in the frame payload
/// `p[..len]` from `src` to `dst`, answering `r`: a fragment goes to
/// reassembly, anything else is a whole datagram.
pub open spec fn frame_received<'a, M: Mac, C: ContextStore, A: Alarm, L: SixlowpanClient>(
    before: Sixlowpan<'a, M, C, A, L>,
    after: Sixlowpan<'a, M, C, A, L>,
    p: Seq<u8>,
    len: usize,
    src: MacAddress,
    dst: MacAddress,
    r: (Option<usize>, ReturnCode),
) -> bool {
    if starts_fragment(p) {
        let (_, size, tag, offset) = frag_hdr_fields(p.subrange(0, 5));
        let h = frag_hdr_len(p);
        fragment_received(before, after, p.subrange(h, p.len() as int), (len - h) as usize, src, dst, size, tag, offset, r)
    } else {
        single_packet_received(before, after, p, len, src, dst, r)
    }

}


/// Whether `after` is the layer `before` once it started sending its
/// datagram: the tag is the next one, and either the MAC took the first
/// frame and the layer is busy with the frame buffer out, or the frame
/// buffer is back and the client, when there is one, got the datagram back.
pub open spec fn started<'a, M: Mac, C: ContextStore, A: Alarm, L: SixlowpanClient>(
    before: Sixlowpan<'a, M, C, A, L>,
    after: Sixlowpan<'a, M, C, A, L>,
) -> bool {
    let tag = if before.tx_state.tx_dgram_tag == 0xffff {
        1u16
    } else {
        (before.tx_state.tx_dgram_tag + 1) as u16
    };
    &&& after.tx_state.dgram_tag == tag
    &&& after.client == before.client
    &&& after.rx_states == before.rx_states
    &&& after.tx_state.src_mac_addr == before.tx_state.src_mac_addr
    &&& after.tx_state.dst_mac_addr == before.tx_state.dst_mac_addr
    &&& after.tx_state.dgram_size == before.tx_state.dgram_size
    &&& if after.tx_state.tx_busy {
        &&& after.tx_state.tx_dgram_tag == tag
        &&& after.tx_state.tx_buf is None
        &&& after.tx_state.packet == before.tx_state.packet
    } else {
        &&& after.tx_state.tx_dgram_tag == before.tx_state.tx_dgram_tag
        &&& after.tx_state.tx_buf is Some
        &&& after.tx_state.packet == (if before.client is Some {
            None
        } else {
            before.tx_state.packet
        })
    }
}

} // verus!
