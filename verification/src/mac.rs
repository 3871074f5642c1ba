//! The 802.15.4 MAC layer over a raw radio: it builds data frames, runs the
//! CCM* outgoing and incoming frame security procedures, and hands frames to
//! and from the radio.
//!
//! The radio buffer holds the PSDU from `PSDU_OFFSET` on. The CCM*
//! transformations work on a separate crypt buffer that the procedures lay
//! out block by block.

use vstd::prelude::*;
use crate::returncode::ReturnCode;
use crate::hil::radio::{Radio, PSDU_OFFSET, MFR_SIZE, MAX_MTU};
use crate::net::ieee802154::{
    FrameType, FrameVersion, SecurityLevel, Security, KeyId, MacAddress, PanID, Header,
    HeaderCodec, level_mic_len, level_encrypts, level_number,
};
use vstd::slice::slice_subrange;
use crate::net::stream::{SResult, splice, be16_bytes, be32_bytes, encode_u8, encode_u16, encode_u32,
    encode_bytes, copy_into};

verus! {

/// Bookkeeping for a frame in a radio buffer: exactly what the security
/// procedures need, and where the payload goes. Offsets are relative to the
/// PSDU.
#[derive(Copy, Clone, Debug)]
pub struct FrameInfo {
    pub frame_type: FrameType,
    /// The MAC payload, payload IEs included.
    pub mac_payload_offset: usize,
    /// The data payload, payload IEs excluded.
    pub data_offset: usize,
    /// The length of the data payload, MIC and FCS excluded.
    pub data_len: usize,
    /// The length of the MIC.
    pub mic_len: usize,
    /// Security level, key and nonce.
    pub security_params: Option<(SecurityLevel, [u8; 16], [u8; 13])>,
}

impl FrameInfo {
    /// The frame length without the MIC.
    pub open spec fn unsecured_len(self) -> int {
        self.data_offset + self.data_len
    }

    /// The frame length with the MIC.
    pub open spec fn secured_len(self) -> int {
        self.data_offset + self.data_len + self.mic_len
    }

    /// The room left for data in a buffer of `buf_len` bytes.
    pub open spec fn capacity(self, buf_len: int) -> int {
        buf_len - PSDU_OFFSET - MFR_SIZE - self.secured_len()
    }

    pub fn unsecured_frame_length(&self) -> (r: usize)
        requires
            self.unsecured_len() <= usize::MAX,
        ensures
            r == self.unsecured_len(),
    {
        self.data_offset + self.data_len
    }

    pub fn secured_frame_length(&self) -> (r: usize)
        requires
            self.secured_len() <= usize::MAX,
        ensures
            r == self.secured_len(),
    {
        self.data_offset + self.data_len + self.mic_len
    }

    /// The number of data bytes that still fit in `buf`, leaving room for the
    /// MIC and the FCS.
    pub fn remaining_data_capacity(&self, buf: &[u8]) -> (r: usize)
        requires
            self.capacity(buf@.len() as int) >= 0,
        ensures
            r == self.capacity(buf@.len() as int),
    {
        buf.len() - PSDU_OFFSET - MFR_SIZE - self.secured_frame_length()
    }

    /// Whether a buffer of `buf_len` bytes has room for `n` more data bytes
    /// in this frame.
    pub fn has_capacity(&self, buf_len: usize, n: usize) -> (r: bool)
        ensures
            r == (self.capacity(buf_len as int) >= n),
    {
        if buf_len < PSDU_OFFSET + MFR_SIZE {
            return false;
        }
        let mut room = buf_len - PSDU_OFFSET - MFR_SIZE;
        if room < self.data_offset {
            return false;
        }
        room = room - self.data_offset;
        if room < self.data_len {
            return false;
        }
        room = room - self.data_len;
        if room < self.mic_len {
            return false;
        }
        room = room - self.mic_len;
        room >= n
    }

    /// Whether the frame fits the PHY and a buffer of `buf_len` bytes, and
    /// the security procedures can process it.
    pub fn fits(&self, buf_len: usize) -> (r: bool)
        ensures
            r == frame_fits(*self, buf_len as int),
    {
        if self.data_offset > MAX_MTU || self.data_len > MAX_MTU || self.mic_len > MAX_MTU {
            return false;
        }
        let len = self.data_offset + self.data_len + self.mic_len;
        if len > MAX_MTU || PSDU_OFFSET + len > buf_len {
            return false;
        }
        match self.security_params {
            Some((level, _, _)) => {
                if level == SecurityLevel::NoSecurity {
                    true
                } else {
                    let allowed_type = match self.frame_type {
                        FrameType::Beacon => false,
                        FrameType::MACCommand => false,
                        _ => true,
                    };
                    allowed_type && self.mic_len == level.mic_len() && (!level.encryption_needed()
                        || self.mac_payload_offset <= self.data_offset + self.data_len)
                }
            },
            None => true,
        }
    }

    /// Appends `payload` to the data payload, or fails with `ENOMEM` when it
    /// does not fit, changing nothing.
    pub fn append_payload(&mut self, buf: &mut [u8], payload: &[u8]) -> (r: ReturnCode)
        requires
            old(self).capacity(old(buf)@.len() as int) >= 0,
        ensures
            payload@.len() > old(self).capacity(old(buf)@.len() as int) ==> {
                &&& r == ReturnCode::ENOMEM
                &&& final(buf)@ == old(buf)@
                &&& *final(self) == *old(self)
            },
            payload@.len() <= old(self).capacity(old(buf)@.len() as int) ==> {
                &&& r == ReturnCode::SUCCESS
                &&& final(buf)@ == splice(old(buf)@, PSDU_OFFSET + old(self).unsecured_len(), payload@)
                &&& *final(self) == (FrameInfo {
                    data_len: (old(self).data_len + payload@.len()) as usize,
                    ..*old(self)
                })
            },
    {
        let _blen = buf.len();
        if payload.len() > self.remaining_data_capacity(buf) {
            return ReturnCode::ENOMEM;
        }
        let begin = PSDU_OFFSET + self.data_offset + self.data_len;
        copy_into(buf, begin, payload, 0, payload.len());
        assert(payload@.subrange(0, payload@.len() as int) =~= payload@);
        self.data_len = self.data_len + payload.len();
        ReturnCode::SUCCESS
    }

    /// Where the CCM* m (or c) data lies in the radio buffer, as an offset
    /// and a length; the a data is the rest of the frame before it. Only
    /// integrity: the whole frame is a data. Encryption: the private payload,
    /// the MAC payload, is m data.
    pub fn get_ccm_encrypt_ranges(&self, level: &SecurityLevel) -> (r: (usize, usize))
        requires
            !(self.frame_type is Beacon),
            !(self.frame_type is MACCommand),
            PSDU_OFFSET + self.unsecured_len() <= usize::MAX,
            level_encrypts(*level) ==> self.mac_payload_offset <= self.unsecured_len(),
        ensures
            r.0 == ccm_ranges(*self, *level).0,
            r.1 == ccm_ranges(*self, *level).1,
    {
        let private_payload_offset = self.mac_payload_offset;
        if !level.encryption_needed() {
            (PSDU_OFFSET + self.unsecured_frame_length(), 0)
        } else {
            (PSDU_OFFSET + private_payload_offset, self.unsecured_frame_length() - private_payload_offset)
        }
    }
}

/// The offset and length of the m data of a frame at a level.
pub open spec fn ccm_ranges(info: FrameInfo, level: SecurityLevel) -> (int, int) {
    if !level_encrypts(level) {
        (PSDU_OFFSET + info.unsecured_len(), 0)
    } else {
        (PSDU_OFFSET + info.mac_payload_offset, info.unsecured_len() - info.mac_payload_offset)
    }
}

/// Room for the CCM* input: a frame plus the first block, the length of the
/// a data and the padding of both parts.
pub const CRYPT_BUF_SIZE: usize = MAX_MTU + 3 * 16;

/// `n` zero bytes.
pub open spec fn zero_bytes(n: nat) -> Seq<u8> {
    Seq::new(n, |i: int| 0u8)
}

/// The number of zero bytes that pad `n` bytes to whole 16-byte blocks.
pub open spec fn pad16(n: int) -> nat {
    ((16 - n % 16) % 16) as nat
}

/// The CCM* nonce: the extended source address, the frame counter and the
/// security level.
pub open spec fn ccm_nonce(addr_long: Seq<u8>, frame_counter: u32, level: SecurityLevel) -> Seq<u8> {
    addr_long + be32_bytes(frame_counter) + seq![level_number(level)]
}

/// The flags byte of the first CCM* authentication block: whether there is a
/// data, the MIC length as (M - 2) / 2, and L - 1 = 1.
pub open spec fn ccm_flags(a_len: int, mic_len: usize) -> u8 {
    let adata: u8 = if a_len != 0 { 0x40u8 } else { 0u8 };
    let m: u8 = if mic_len != 0 { (((mic_len - 2) / 2) as u8) << 3u8 } else { 0u8 };
    adata | m | 1u8
}

/// The input of the CCM* authentication: the block flags | nonce | length of
/// m, then the length of a (when a is not empty) and a, padded to whole
/// blocks, then m, padded to whole blocks.
pub open spec fn ccm_auth_input(nonce: Seq<u8>, mic_len: usize, a: Seq<u8>, m: Seq<u8>) -> Seq<u8> {
    let b0 = seq![ccm_flags(a.len() as int, mic_len)] + nonce + be16_bytes(m.len() as u16);
    let la = if a.len() == 0 { Seq::<u8>::empty() } else { be16_bytes(a.len() as u16) };
    let head = b0 + la + a;
    let body = head + zero_bytes(pad16(head.len() as int)) + m;
    body + zero_bytes(pad16(body.len() as int))
}

/// The input of the CCM* encryption: a zero block, then m padded to whole
/// blocks.
pub open spec fn ccm_encrypt_input(m: Seq<u8>) -> Seq<u8> {
    zero_bytes(16) + m + zero_bytes(pad16(16 + m.len() as int))
}

/// The first counter block A_0 of the CCM* encryption: flags (L - 1 = 1),
/// the nonce, and counter 0.
pub open spec fn ccm_counter_block(nonce: Seq<u8>) -> Seq<u8> {
    seq![1u8] + nonce + seq![0u8, 0u8]
}

/// Writing `x` and then `y` right after it is writing `x + y`.
pub proof fn lemma_splice_concat(s: Seq<u8>, off: int, x: Seq<u8>, y: Seq<u8>)
    requires
        0 <= off,
        off + x.len() + y.len() <= s.len(),
    ensures
        splice(splice(s, off, x), off + x.len(), y) == splice(s, off, x + y),
{
    assert(splice(splice(s, off, x), off + x.len(), y) =~= splice(s, off, x + y));
}

/// Writes the CCM* nonce for a frame from `addr_long` at the start of `buf`.
pub fn encode_ccm_nonce(buf: &mut [u8], addr_long: &[u8; 8], frame_counter: u32, level: SecurityLevel) -> (r: SResult<()>)
    ensures
        old(buf)@.len() >= 13 ==> r == SResult::Done(13, ()) && final(buf)@ == splice(
            old(buf)@,
            0,
            ccm_nonce(addr_long@, frame_counter, level),
        ),
        old(buf)@.len() < 13 ==> r is Needed,
        final(buf)@.len() == old(buf)@.len(),
{
    let addr: &[u8] = addr_long;
    let off: usize = match encode_bytes(buf, 0, addr) {
        SResult::Done(off, _) => off,
        SResult::Needed(n) => { return SResult::Needed(n); },
        SResult::Error => { return SResult::Error; },
    };
    let ghost after_addr = buf@;
    let off: usize = match encode_u32(buf, off, frame_counter) {
        SResult::Done(off, _) => off,
        SResult::Needed(n) => { return SResult::Needed(n); },
        SResult::Error => { return SResult::Error; },
    };
    let ghost after_counter = buf@;
    let off: usize = match encode_u8(buf, off, level.to_u8()) {
        SResult::Done(off, _) => off,
        SResult::Needed(n) => { return SResult::Needed(n); },
        SResult::Error => { return SResult::Error; },
    };
    proof {
        lemma_splice_concat(old(buf)@, 0, addr_long@, be32_bytes(frame_counter));
        lemma_splice_concat(old(buf)@, 0, addr_long@ + be32_bytes(frame_counter), seq![level_number(level)]);
    }
    SResult::Done(off, ())
}

/// Sets `buf[off..]` up to the next 16-byte boundary to zero.
fn zero_pad_block(buf: &mut [u8], off: usize) -> (r: usize)
    requires
        off + pad16(off as int) <= old(buf)@.len(),
    ensures
        r == off + pad16(off as int),
        final(buf)@ == splice(old(buf)@, off as int, zero_bytes(pad16(off as int))),
{
    let _blen = buf.len();
    let rem: usize = off % 16;
    assert(rem != 0 ==> pad16(off as int) == 16 - rem);
    let end: usize = if rem == 0 { off } else { off + (16 - rem) };
    assert(end == off + pad16(off as int));
    let mut i: usize = off;
    while i < end
        invariant
            off <= i <= end,
            end == off + pad16(off as int),
            end <= buf@.len(),
            buf@.len() == old(buf)@.len(),
            forall|j: int| 0 <= j < off ==> buf@[j] == old(buf)@[j],
            forall|j: int| i <= j < buf@.len() ==> buf@[j] == old(buf)@[j],
            forall|j: int| off <= j < i ==> buf@[j] == 0u8,
        decreases end - i,
    {
        buf[i] = 0;
        i = i + 1;
    }
    assert(buf@ =~= splice(old(buf)@, off as int, zero_bytes(pad16(off as int))));
    i
}

/// Lays out the input of the CCM* authentication transformation at the start
/// of `cbuf` and sets the initialization vector `iv` to zero; returns the
/// length of the input.
pub fn prepare_ccm_auth(cbuf: &mut [u8], iv: &mut [u8], nonce: &[u8], mic_len: usize, a_data: &[u8], m_data: &[u8]) -> (len: usize)
    requires
        nonce@.len() == 13,
        mic_len != 1,
        a_data@.len() < 0xff00,
        ccm_auth_input(nonce@, mic_len, a_data@, m_data@).len() <= old(cbuf)@.len(),
    ensures
        len == ccm_auth_input(nonce@, mic_len, a_data@, m_data@).len(),
        final(cbuf)@ == splice(old(cbuf)@, 0, ccm_auth_input(nonce@, mic_len, a_data@, m_data@)),
        final(iv)@ == zero_bytes(old(iv)@.len()),
{
    let a_len = a_data.len();
    let m_len = m_data.len();
    let _clen = cbuf.len();

    let mut k: usize = 0;
    while k < iv.len()
        invariant
            k <= iv@.len(),
            iv@.len() == old(iv)@.len(),
            forall|j: int| 0 <= j < k ==> iv@[j] == 0u8,
        decreases iv@.len() - k,
    {
        iv[k] = 0;
        k = k + 1;
    }
    assert(iv@ =~= zero_bytes(old(iv)@.len()));

    let adata: u8 = if a_len != 0 { 0x40 } else { 0 };
    let m: u8 = if mic_len != 0 { (((mic_len - 2) / 2) as u8) << 3 } else { 0 };
    let flags: u8 = adata | m | 1;

    let ghost b0 = seq![flags] + nonce@ + be16_bytes(m_len as u16);
    let ghost la = if a_len == 0 { Seq::<u8>::empty() } else { be16_bytes(a_len as u16) };
    let ghost head = b0 + la + a_data@;
    let ghost body = head + zero_bytes(pad16(head.len() as int)) + m_data@;
    assert(ccm_auth_input(nonce@, mic_len, a_data@, m_data@) == body + zero_bytes(pad16(body.len() as int)));

    cbuf[0] = flags;
    copy_into(cbuf, 1, nonce, 0, 13);
    let _ = encode_u16(cbuf, 14, m_len as u16);
    proof {
        assert(nonce@.subrange(0, 13) =~= nonce@);
        lemma_splice_concat(old(cbuf)@, 0, seq![flags], nonce@);
        assert(splice(old(cbuf)@, 0, seq![flags]) =~= old(cbuf)@.update(0, flags));
        lemma_splice_concat(old(cbuf)@, 0, seq![flags] + nonce@, be16_bytes(m_len as u16));
    }
    assert(cbuf@ == splice(old(cbuf)@, 0, b0));

    let mut off: usize = 16;
    if a_len != 0 {
        let _ = encode_u16(cbuf, 16, a_len as u16);
        off = 18;
        proof {
            lemma_splice_concat(old(cbuf)@, 0, b0, la);
        }
    } else {
        assert(b0 + la =~= b0);
    }
    assert(cbuf@ == splice(old(cbuf)@, 0, b0 + la));

    copy_into(cbuf, off, a_data, 0, a_len);
    proof {
        assert(a_data@.subrange(0, a_len as int) =~= a_data@);
        lemma_splice_concat(old(cbuf)@, 0, b0 + la, a_data@);
    }
    off = off + a_len;
    let ghost before_pad = cbuf@;
    off = zero_pad_block(cbuf, off);
    proof {
        lemma_splice_concat(old(cbuf)@, 0, head, zero_bytes(pad16(head.len() as int)));
    }

    copy_into(cbuf, off, m_data, 0, m_len);
    proof {
        assert(m_data@.subrange(0, m_len as int) =~= m_data@);
        lemma_splice_concat(old(cbuf)@, 0, head + zero_bytes(pad16(head.len() as int)), m_data@);
    }
    off = off + m_len;
    off = zero_pad_block(cbuf, off);
    proof {
        lemma_splice_concat(old(cbuf)@, 0, body, zero_bytes(pad16(body.len() as int)));
    }
    off
}

/// Lays out the input of the CCM* encryption transformation (a zero block,
/// then `m_data` padded to whole blocks) at the start of `cbuf`, and the
/// first counter block in `iv`; returns the length of the input.
pub fn prepare_ccm_encrypt(cbuf: &mut [u8], iv: &mut [u8], nonce: &[u8], m_data: &[u8]) -> (len: usize)
    requires
        nonce@.len() == 13,
        old(iv)@.len() >= 16,
        ccm_encrypt_input(m_data@).len() <= old(cbuf)@.len(),
    ensures
        len == ccm_encrypt_input(m_data@).len(),
        final(cbuf)@ == splice(old(cbuf)@, 0, ccm_encrypt_input(m_data@)),
        final(iv)@ == splice(old(iv)@, 0, ccm_counter_block(nonce@)),
{
    let _clen = cbuf.len();
    iv[0] = 1;
    copy_into(iv, 1, nonce, 0, 13);
    iv[14] = 0;
    iv[15] = 0;
    assert(nonce@.subrange(0, 13) =~= nonce@);
    assert(iv@ =~= splice(old(iv)@, 0, ccm_counter_block(nonce@)));

    let mut k: usize = 0;
    while k < 16
        invariant
            k <= 16,
            16 <= cbuf@.len(),
            cbuf@.len() == old(cbuf)@.len(),
            forall|j: int| 0 <= j < k ==> cbuf@[j] == 0u8,
            forall|j: int| k <= j < cbuf@.len() ==> cbuf@[j] == old(cbuf)@[j],
        decreases 16 - k,
    {
        cbuf[k] = 0;
        k = k + 1;
    }
    assert(cbuf@ =~= splice(old(cbuf)@, 0, zero_bytes(16)));
    copy_into(cbuf, 16, m_data, 0, m_data.len());
    proof {
        assert(m_data@.subrange(0, m_data@.len() as int) =~= m_data@);
        lemma_splice_concat(old(cbuf)@, 0, zero_bytes(16), m_data@);
    }
    let off = zero_pad_block(cbuf, 16 + m_data.len());
    proof {
        lemma_splice_concat(old(cbuf)@, 0, zero_bytes(16) + m_data@, zero_bytes(pad16(16 + m_data@.len() as int)));
    }
    off
}

/// `s` with the `k.len()` bytes from `off` on XORed with `k`.
pub open spec fn xor_region(s: Seq<u8>, off: int, k: Seq<u8>) -> Seq<u8> {
    Seq::new(s.len(), |j: int| if off <= j < off + k.len() { s[j] ^ k[j - off] } else { s[j] })
}

/// XORs `src[..n]` into `buf[off..off + n]`.
fn xor_into(buf: &mut Vec<u8>, off: usize, src: &[u8], n: usize)
    requires
        off + n <= old(buf)@.len(),
        n <= src@.len(),
    ensures
        final(buf)@ == xor_region(old(buf)@, off as int, src@.subrange(0, n as int)),
{
    let _bl = buf.len();
    let mut i: usize = 0;
    while i < n
        invariant
            i <= n,
            off + n <= usize::MAX,
            off + n <= buf@.len(),
            n <= src@.len(),
            buf@.len() == old(buf)@.len(),
            forall|j: int| 0 <= j < off ==> buf@[j] == old(buf)@[j],
            forall|j: int| off + i <= j < buf@.len() ==> buf@[j] == old(buf)@[j],
            forall|j: int| off <= j < off + i ==> buf@[j] == old(buf)@[j] ^ src@[j - off],
        decreases n - i,
    {
        let b = buf[off + i] ^ src[i];
        buf.set(off + i, b);
        i = i + 1;
    }
    assert(buf@ =~= xor_region(old(buf)@, off as int, src@.subrange(0, n as int)));
}

/// Copies `src[start..start + n]` into `buf[off..off + n]`.
fn copy_into_vec(buf: &mut Vec<u8>, off: usize, src: &[u8], start: usize, n: usize)
    requires
        off + n <= old(buf)@.len(),
        start + n <= src@.len(),
    ensures
        final(buf)@ == splice(old(buf)@, off as int, src@.subrange(start as int, start + n)),
{
    let _bl = buf.len();
    let _sl = src.len();
    let mut i: usize = 0;
    while i < n
        invariant
            i <= n,
            off + n <= usize::MAX,
            start + n <= usize::MAX,
            off + n <= buf@.len(),
            start + n <= src@.len(),
            buf@.len() == old(buf)@.len(),
            forall|j: int| 0 <= j < off ==> buf@[j] == old(buf)@[j],
            forall|j: int| off + n <= j < buf@.len() ==> buf@[j] == old(buf)@[j],
            forall|j: int| off + i <= j < off + n ==> buf@[j] == old(buf)@[j],
            forall|j: int| off <= j < off + i ==> #[trigger] buf@[j] == src@[start + (j - off)],
        decreases n - i,
    {
        buf.set(off + i, src[start + i]);
        i = i + 1;
    }
    assert(buf@ =~= splice(old(buf)@, off as int, src@.subrange(start as int, start + n)));
}

/// Whether `a[a_off..a_off + n]` and `b[b_off..b_off + n]` hold the same bytes.
fn ranges_equal(a: &[u8], a_off: usize, b: &[u8], b_off: usize, n: usize) -> (r: bool)
    requires
        a_off + n <= a@.len(),
        b_off + n <= b@.len(),
    ensures
        r == (a@.subrange(a_off as int, a_off + n) == b@.subrange(b_off as int, b_off + n)),
{
    let _al = a.len();
    let _bl = b.len();
    let mut i: usize = 0;
    while i < n
        invariant
            i <= n,
            a_off + n <= usize::MAX,
            b_off + n <= usize::MAX,
            a_off + n <= a@.len(),
            b_off + n <= b@.len(),
            forall|j: int| 0 <= j < i ==> #[trigger] a@.subrange(a_off as int, a_off + n)[j] == b@.subrange(b_off as int, b_off + n)[j],
        decreases n - i,
    {
        if a[a_off + i] != b[b_off + i] {
            assert(a@.subrange(a_off as int, a_off + n)[i as int] != b@.subrange(b_off as int, b_off + n)[i as int]);
            return false;
        }
        i = i + 1;
    }
    assert(a@.subrange(a_off as int, a_off + n) =~= b@.subrange(b_off as int, b_off + n));
    true
}

/// The states of the transmit pathway.
#[derive(Copy, Clone, Debug, PartialEq, Eq, Structural)]
pub enum TxState {
    Idle,
    ReadyToSecure,
    AuthDone,
    EncDone,
    ReadyToTransmit,
}

/// The states of the receive pathway.
#[derive(Copy, Clone, Debug, PartialEq, Eq, Structural)]
pub enum RxState {
    Idle,
    ReadyToUnsecure,
    DecDone,
    AuthDone,
    ReadyToReturn,
}

/// Receives the outcome of a transmission.
pub trait TxClient {
    fn send_done(&mut self, spi_buf: Vec<u8>, acked: bool, result: ReturnCode);
}

/// Receives frames: the buffer, the header, and the data payload's offset
/// (relative to the PSDU) and length.
pub trait RxClient {
    /// Whether `after` is this client once it was handed the frame in `buf`
    /// with `header`, its data payload's offset and length, and `result`.
    spec fn received(
        &self,
        after: &Self,
        buf: &[u8],
        header: Header,
        data_offset: usize,
        data_len: usize,
        result: ReturnCode,
    ) -> bool;

    fn receive(&mut self, buf: &[u8], header: Header, data_offset: usize, data_len: usize, result: ReturnCode)
        ensures
            old(self).received(final(self), buf, header, data_offset, data_len, result),
    ;
}

/// Whether `codec` decodes the header of the PSDU `psdu` to `d`.
pub open spec fn decodes_to<H: HeaderCodec>(codec: H, psdu: Seq<u8>, d: Option<(usize, Header, usize)>) -> bool {
    exists|s: &[u8]| s@ == psdu && #[trigger] codec.decoded(s) == d
}

/// Whether `after` is `client` once it was handed the frame `frame`, with
/// `header`, its data payload's offset and length, and success; a device
/// without a client hands it to nobody.
pub open spec fn delivered<X: RxClient>(
    client: Option<X>,
    after: Option<X>,
    frame: Seq<u8>,
    header: Header,
    data_offset: usize,
    data_len: usize,
) -> bool {
    match client {
        Some(c) => after is Some && exists|s: &[u8]|
            s@ == frame && #[trigger] c.received(&after->0, s, header, data_offset, data_len, ReturnCode::SUCCESS),
        None => after is None,
    }
}

/// The security level of a frame, when it is secured at all.
pub open spec fn secured_level(info: FrameInfo) -> Option<SecurityLevel> {
    match info.security_params {
        Some((level, _, _)) => if level == SecurityLevel::NoSecurity { None } else { Some(level) },
        None => None,
    }
}

/// What the security procedures need of a frame: a frame type whose private
/// payload is the MAC payload, the MIC length of its level, and an MAC
/// payload inside the frame.
pub open spec fn secure_info_ok(info: FrameInfo) -> bool {
    match secured_level(info) {
        Some(level) => {
            &&& !(info.frame_type is Beacon)
            &&& !(info.frame_type is MACCommand)
            &&& info.mic_len == level_mic_len(level)
            &&& (level_encrypts(level) ==> info.mac_payload_offset <= info.unsecured_len())
        },
        None => true,
    }
}

/// A frame that fits the PHY and a buffer of `buf_len` bytes, and that the
/// security procedures can process.
pub open spec fn frame_fits(info: FrameInfo, buf_len: int) -> bool {
    &&& info.secured_len() <= MAX_MTU
    &&& PSDU_OFFSET + info.secured_len() <= buf_len
    &&& secure_info_ok(info)
}

/// The key of a security level: the fixed test key for every level but
/// `NoSecurity`.
pub open spec fn key_for(level: SecurityLevel) -> Option<[u8; 16]> {
    if level == SecurityLevel::NoSecurity {
        None
    } else {
        Some([0xC0u8, 0xC1, 0xC2, 0xC3, 0xC4, 0xC5, 0xC6, 0xC7, 0xC8, 0xC9, 0xCA, 0xCB, 0xCC, 0xCD, 0xCE, 0xCF])
    }
}

/// The extended address every source resolves to.
pub open spec fn device_addr_long() -> [u8; 8] {
    [0xacu8, 0xde, 0x48, 0, 0, 0, 0, 1]
}

/// A MAC device over a radio.
pub struct MacDevice<R: Radio, H: HeaderCodec, T: TxClient, X: RxClient> {
    pub radio: R,
    pub codec: H,
    pub data_sequence: u8,
    pub config_in_progress: bool,
    pub tx_buf: Option<Vec<u8>>,
    pub tx_info: Option<FrameInfo>,
    pub tx_m_off: usize,
    pub tx_m_len: usize,
    pub tx_state: TxState,
    pub tx_client: Option<T>,
    pub rx_buf: Option<Vec<u8>>,
    pub rx_info: Option<FrameInfo>,
    pub rx_c_off: usize,
    pub rx_c_len: usize,
    pub rx_state: RxState,
    pub rx_client: Option<X>,
    pub crypt_buf: Vec<u8>,
    pub crypt_buf_len: usize,
    pub crypt_iv: Vec<u8>,
    pub crypt_busy: bool,
}

impl<R: Radio, H: HeaderCodec, T: TxClient, X: RxClient> MacDevice<R, H, T, X> {
    /// The crypt buffers are large enough, and the input length inside.
    pub open spec fn crypt_ok(&self) -> bool {
        &&& self.crypt_buf@.len() >= CRYPT_BUF_SIZE
        &&& self.crypt_iv@.len() >= 16
        &&& self.crypt_buf_len <= self.crypt_buf@.len()
    }

    /// What the transmit pathway needs to enter state `st`.
    pub open spec fn tx_inv(&self, st: TxState) -> bool {
        st is Idle || {
            &&& self.tx_info is Some
            &&& self.tx_buf is Some
            &&& frame_fits(self.tx_info->0, self.tx_buf->0@.len() as int)
            &&& (st is ReadyToSecure || st is AuthDone || st is EncDone) ==> secured_level(
                self.tx_info->0,
            ) is Some
            &&& (st is AuthDone || st is EncDone) ==> {
                &&& self.tx_m_off == ccm_ranges(self.tx_info->0, secured_level(self.tx_info->0)->0).0
                &&& self.tx_m_len == ccm_ranges(self.tx_info->0, secured_level(self.tx_info->0)->0).1
            }
            &&& st is AuthDone ==> self.crypt_buf_len >= 16
        }
    }

    /// What the receive pathway needs to enter state `st`.
    pub open spec fn rx_inv(&self, st: RxState) -> bool {
        &&& (st is Idle || self.rx_buf is Some)
        &&& (st is ReadyToUnsecure || st is DecDone || st is AuthDone) ==> {
            &&& self.rx_info is Some
            &&& frame_fits(self.rx_info->0, self.rx_buf->0@.len() as int)
            &&& secured_level(self.rx_info->0) is Some
        }
        &&& (st is DecDone || st is AuthDone) ==> {
            &&& self.rx_c_off == ccm_ranges(self.rx_info->0, secured_level(self.rx_info->0)->0).0
            &&& self.rx_c_len == ccm_ranges(self.rx_info->0, secured_level(self.rx_info->0)->0).1
        }
        &&& st is AuthDone ==> self.crypt_buf_len >= 16
    }

    /// The device's invariant.
    pub open spec fn wf(&self) -> bool {
        &&& self.crypt_ok()
        &&& self.tx_inv(self.tx_state)
        &&& self.rx_inv(self.rx_state)
    }

    /// The receive pathway and the configuration are as in `other`.
    pub open spec fn rx_same(&self, other: &Self) -> bool {
        &&& self.rx_buf == other.rx_buf
        &&& self.rx_info == other.rx_info
        &&& self.rx_c_off == other.rx_c_off
        &&& self.rx_c_len == other.rx_c_len
        &&& self.rx_state == other.rx_state
        &&& self.rx_client == other.rx_client
        &&& self.codec == other.codec
        &&& self.data_sequence == other.data_sequence
        &&& self.config_in_progress == other.config_in_progress
    }

    /// The transmit pathway and the configuration are as in `other`.
    pub open spec fn tx_same(&self, other: &Self) -> bool {
        &&& self.tx_buf == other.tx_buf
        &&& self.tx_info == other.tx_info
        &&& self.tx_m_off == other.tx_m_off
        &&& self.tx_m_len == other.tx_m_len
        &&& self.tx_state == other.tx_state
        &&& self.tx_client == other.tx_client
        &&& self.codec == other.codec
        &&& self.data_sequence == other.data_sequence
        &&& self.config_in_progress == other.config_in_progress
    }

    /// A device over `radio`, with idle pathways and the given crypt buffers.
    pub fn new(radio: R, codec: H, crypt_buf: Vec<u8>, crypt_iv: Vec<u8>) -> (r: Self)
        ensures
            r.radio == radio,
            r.codec == codec,
            r.data_sequence == 0,
            !r.config_in_progress,
            r.tx_buf is None,
            r.tx_info is None,
            r.tx_m_off == 0,
            r.tx_m_len == 0,
            r.tx_state == TxState::Idle,
            r.tx_client is None,
            r.rx_buf is None,
            r.rx_info is None,
            r.rx_c_off == 0,
            r.rx_c_len == 0,
            r.rx_state == RxState::Idle,
            r.rx_client is None,
            r.crypt_buf@ == crypt_buf@,
            r.crypt_buf_len == 0,
            r.crypt_iv@ == crypt_iv@,
            !r.crypt_busy,
    {
        MacDevice {
            radio: radio,
            codec: codec,
            data_sequence: 0,
            config_in_progress: false,
            tx_buf: None,
            tx_info: None,
            tx_m_off: 0,
            tx_m_len: 0,
            tx_state: TxState::Idle,
            tx_client: None,
            rx_buf: None,
            rx_info: None,
            rx_c_off: 0,
            rx_c_len: 0,
            rx_state: RxState::Idle,
            rx_client: None,
            crypt_buf: crypt_buf,
            crypt_buf_len: 0,
            crypt_iv: crypt_iv,
            crypt_busy: false,
        }
    }

    pub fn set_transmit_client(&mut self, client: T)
        ensures
            final(self).tx_client == Some(client),
            final(self).rx_same(old(self)),
            final(self).tx_buf == old(self).tx_buf,
            final(self).tx_info == old(self).tx_info,
            final(self).tx_state == old(self).tx_state,
            final(self).tx_m_off == old(self).tx_m_off,
            final(self).tx_m_len == old(self).tx_m_len,
            final(self).radio == old(self).radio,
            final(self).crypt_buf == old(self).crypt_buf,
            final(self).crypt_iv == old(self).crypt_iv,
            final(self).crypt_buf_len == old(self).crypt_buf_len,
            final(self).crypt_busy == old(self).crypt_busy,
    {
        self.tx_client = Some(client);
    }

    pub fn set_receive_client(&mut self, client: X)
        ensures
            final(self).rx_client == Some(client),
            final(self).tx_buf == old(self).tx_buf,
            final(self).tx_info == old(self).tx_info,
            final(self).tx_state == old(self).tx_state,
            final(self).tx_m_off == old(self).tx_m_off,
            final(self).tx_m_len == old(self).tx_m_len,
            final(self).tx_client == old(self).tx_client,
            final(self).codec == old(self).codec,
            final(self).data_sequence == old(self).data_sequence,
            final(self).config_in_progress == old(self).config_in_progress,
            final(self).rx_buf == old(self).rx_buf,
            final(self).rx_info == old(self).rx_info,
            final(self).rx_state == old(self).rx_state,
            final(self).rx_c_off == old(self).rx_c_off,
            final(self).rx_c_len == old(self).rx_c_len,
            final(self).radio == old(self).radio,
            final(self).crypt_buf == old(self).crypt_buf,
            final(self).crypt_iv == old(self).crypt_iv,
            final(self).crypt_buf_len == old(self).crypt_buf_len,
            final(self).crypt_busy == old(self).crypt_busy,
    {
        self.rx_client = Some(client);
    }
}

/// The key for a security level.
pub fn lookup_key(level: SecurityLevel, key_id: KeyId) -> (r: Option<[u8; 16]>)
    ensures
        r == key_for(level),
{
    let fake_key: [u8; 16] = [0xC0, 0xC1, 0xC2, 0xC3, 0xC4, 0xC5, 0xC6, 0xC7, 0xC8, 0xC9, 0xCA, 0xCB, 0xCC, 0xCD, 0xCE, 0xCF];
    if level == SecurityLevel::NoSecurity {
        None
    } else {
        assert(fake_key == key_for(level)->0);
        Some(fake_key)
    }
}

/// The extended address of a source.
pub fn lookup_addr_long(src_addr: Option<MacAddress>) -> (r: Option<[u8; 8]>)
    ensures
        r == Some(device_addr_long()),
{
    let fake_addr: [u8; 8] = [0xac, 0xde, 0x48, 0, 0, 0, 0, 1];
    assert(fake_addr == device_addr_long());
    Some(fake_addr)
}

/// The nonce of a frame's security parameters.
pub open spec fn info_nonce(info: FrameInfo) -> Seq<u8> {
    (info.security_params->0).2@
}

/// Padding to a 16-byte block adds at most 15 bytes and ends on a block
/// boundary.
pub proof fn lemma_pad16(n: int)
    requires
        0 <= n,
    ensures
        pad16(n) <= 15,
        (n + pad16(n)) % 16 == 0,
{
}

/// The CCM* authentication input is at least one block and at most three
/// blocks longer than the authenticated data and the message together.
pub proof fn lemma_auth_input_len(nonce: Seq<u8>, mic_len: usize, a: Seq<u8>, m: Seq<u8>)
    requires
        nonce.len() == 13,
    ensures
        16 <= ccm_auth_input(nonce, mic_len, a, m).len() <= a.len() + m.len() + 48,
{
    let la: Seq<u8> = if a.len() == 0 { Seq::<u8>::empty() } else { be16_bytes(a.len() as u16) };
    let head_len = 16 + la.len() + a.len();
    lemma_pad16(head_len as int);
    lemma_pad16((head_len + pad16(head_len as int) + m.len()) as int);
}

/// The CCM* encryption input is at least one block and less than two blocks
/// longer than the message.
pub proof fn lemma_encrypt_input_len(m: Seq<u8>)
    ensures
        16 <= ccm_encrypt_input(m).len() <= m.len() + 31,
{
    lemma_pad16(16 + m.len() as int);
}

impl<R: Radio, H: HeaderCodec, T: TxClient, X: RxClient> MacDevice<R, H, T, X> {
    /// The crypt state is as in `other`.
    pub open spec fn crypt_same(&self, other: &Self) -> bool {
        &&& self.crypt_buf == other.crypt_buf
        &&& self.crypt_buf_len == other.crypt_buf_len
        &&& self.crypt_iv == other.crypt_iv
        &&& self.crypt_busy == other.crypt_busy
    }

    /// The CCM* authentication input of the frame in the transmit buffer.
    pub open spec fn tx_auth_input(&self) -> Seq<u8> {
        let info = self.tx_info->0;
        let ranges = ccm_ranges(info, secured_level(info)->0);
        let buf = self.tx_buf->0@;
        ccm_auth_input(
            info_nonce(info),
            info.mic_len,
            buf.subrange(PSDU_OFFSET as int, ranges.0),
            buf.subrange(ranges.0, ranges.0 + ranges.1),
        )
    }

    /// `new` is `self` after the step that starts the CCM* authentication of
    /// the frame to transmit; a busy crypt engine leaves everything as is.
    pub open spec fn tx_secure_step(&self, new: &Self) -> bool {
        if self.crypt_busy {
            *new == *self
        } else {
            let info = self.tx_info->0;
            let ranges = ccm_ranges(info, secured_level(info)->0);
            &&& new.tx_m_off == ranges.0
            &&& new.tx_m_len == ranges.1
            &&& new.tx_state == TxState::AuthDone
            &&& new.crypt_busy
            &&& new.crypt_buf@ == splice(self.crypt_buf@, 0, self.tx_auth_input())
            &&& new.crypt_buf_len == self.tx_auth_input().len()
            &&& new.crypt_iv@ == zero_bytes(self.crypt_iv@.len())
            &&& new.tx_buf == self.tx_buf
            &&& new.tx_info == self.tx_info
            &&& new.tx_client == self.tx_client
            &&& new.rx_same(self)
            &&& new.radio == self.radio
        }
    }

    /// `new` is `self` after the step that appends the authentication tag to
    /// the frame and starts the encryption of its m data.
    pub open spec fn tx_auth_step(&self, new: &Self) -> bool {
        let info = self.tx_info->0;
        let t_off = self.tx_m_off + self.tx_m_len;
        let ct = self.crypt_buf_len - 16;
        let buf = splice(self.tx_buf->0@, t_off, self.crypt_buf@.subrange(ct, ct + info.mic_len));
        let input = ccm_encrypt_input(buf.subrange(self.tx_m_off as int, t_off));
        &&& new.tx_buf is Some
        &&& new.tx_buf->0@ == buf
        &&& new.crypt_buf@ == splice(self.crypt_buf@, 0, input)
        &&& new.crypt_buf_len == input.len()
        &&& new.crypt_iv@ == splice(self.crypt_iv@, 0, ccm_counter_block(info_nonce(info)))
        &&& new.crypt_busy == self.crypt_busy
        &&& new.tx_state == TxState::EncDone
        &&& new.tx_info == self.tx_info
        &&& new.tx_m_off == self.tx_m_off
        &&& new.tx_m_len == self.tx_m_len
        &&& new.tx_client == self.tx_client
        &&& new.rx_same(self)
        &&& new.radio == self.radio
    }

    /// `new` is `self` after the step that turns the tag into the encrypted
    /// MIC and puts the encrypted m data into the frame.
    pub open spec fn tx_enc_step(&self, new: &Self) -> bool {
        let info = self.tx_info->0;
        let t_off = self.tx_m_off + self.tx_m_len;
        let with_mic = xor_region(self.tx_buf->0@, t_off, self.crypt_buf@.subrange(0, info.mic_len as int));
        let buf = splice(with_mic, self.tx_m_off as int, self.crypt_buf@.subrange(16, 16 + self.tx_m_len));
        &&& new.tx_buf is Some
        &&& new.tx_buf->0@ == buf
        &&& !new.crypt_busy
        &&& new.crypt_buf == self.crypt_buf
        &&& new.crypt_buf_len == self.crypt_buf_len
        &&& new.crypt_iv == self.crypt_iv
        &&& new.tx_state == TxState::ReadyToTransmit
        &&& new.tx_info == self.tx_info
        &&& new.tx_m_off == self.tx_m_off
        &&& new.tx_m_len == self.tx_m_len
        &&& new.tx_client == self.tx_client
        &&& new.rx_same(self)
        &&& new.radio == self.radio
    }

    /// `new` and `r` follow from `self` by the step that hands the frame to
    /// the radio, which waits while a configuration is being committed.
    pub open spec fn tx_ready_step(&self, new: &Self, r: (ReturnCode, Option<Vec<u8>>)) -> bool {
        if self.config_in_progress {
            &&& *new == *self
            &&& r == (ReturnCode::SUCCESS, Option::<Vec<u8>>::None)
        } else {
            let frame_len = (self.tx_info->0).secured_len() as usize;
            &&& new.tx_buf is None
            &&& new.tx_info is None
            &&& new.tx_state == TxState::Idle
            &&& new.tx_m_off == self.tx_m_off
            &&& new.tx_m_len == self.tx_m_len
            &&& new.tx_client == self.tx_client
            &&& new.rx_same(self)
            &&& new.crypt_same(self)
            &&& new.radio.last_transmit() == Some((self.tx_buf->0, frame_len))
            &&& r == self.radio.transmit_answer(self.tx_buf->0, frame_len)
        }
    }

    /// `new` and `r` follow from `self` by entering transmit state `st`.
    pub open spec fn tx_step(&self, st: TxState, new: &Self, r: (ReturnCode, Option<Vec<u8>>)) -> bool {
        let entered = MacDevice { tx_state: st, ..*self };
        match st {
            TxState::Idle => r == (ReturnCode::SUCCESS, Option::<Vec<u8>>::None) && *new == entered,
            TxState::ReadyToSecure => r == (ReturnCode::SUCCESS, Option::<Vec<u8>>::None)
                && entered.tx_secure_step(new),
            TxState::AuthDone => r == (ReturnCode::SUCCESS, Option::<Vec<u8>>::None)
                && entered.tx_auth_step(new),
            TxState::EncDone => exists|mid: Self| entered.tx_enc_step(&mid) && mid.tx_ready_step(new, r),
            TxState::ReadyToTransmit => entered.tx_ready_step(new, r),
        }
    }

    /// Stores the frame to transmit and gives the state to start from: the
    /// security procedure for a secured frame, else transmission.
    fn outgoing_frame_security(&mut self, buf: Vec<u8>, frame_info: FrameInfo) -> (r: TxState)
        ensures
            final(self).tx_buf == Some(buf),
            final(self).tx_info == Some(frame_info),
            r == (if secured_level(frame_info) is Some {
                TxState::ReadyToSecure
            } else {
                TxState::ReadyToTransmit
            }),
            final(self).tx_state == old(self).tx_state,
            final(self).tx_m_off == old(self).tx_m_off,
            final(self).tx_m_len == old(self).tx_m_len,
            final(self).tx_client == old(self).tx_client,
            final(self).rx_same(old(self)),
            final(self).crypt_same(old(self)),
            final(self).radio == old(self).radio,
    {
        self.tx_buf = Some(buf);
        self.tx_info = Some(frame_info);
        match frame_info.security_params {
            Some((level, _, _)) => {
                if level == SecurityLevel::NoSecurity {
                    TxState::ReadyToTransmit
                } else {
                    TxState::ReadyToSecure
                }
            },
            None => TxState::ReadyToTransmit,
        }
    }

    fn tx_secure(&mut self)
        requires
            old(self).crypt_ok(),
            old(self).tx_inv(TxState::ReadyToSecure),
            old(self).tx_state == TxState::ReadyToSecure,
        ensures
            old(self).tx_secure_step(final(self)),
    {
        if self.crypt_busy {
            return;
        }
        let frame_info = self.tx_info.unwrap();
        let (level, _key, nonce) = frame_info.security_params.unwrap();
        let (m_off, m_len) = frame_info.get_ccm_encrypt_ranges(&level);
        self.tx_m_off = m_off;
        self.tx_m_len = m_len;
        let buf = self.tx_buf.take().unwrap();
        proof {
            lemma_auth_input_len(nonce@, frame_info.mic_len, buf@.subrange(PSDU_OFFSET as int, m_off as int),
                buf@.subrange(m_off as int, m_off + m_len));
        }
        let len = prepare_ccm_auth(
            &mut self.crypt_buf,
            &mut self.crypt_iv,
            &nonce,
            frame_info.mic_len,
            slice_subrange(buf.as_slice(), PSDU_OFFSET, m_off),
            slice_subrange(buf.as_slice(), m_off, m_off + m_len),
        );
        self.crypt_buf_len = len;
        self.tx_buf = Some(buf);
        self.tx_state = TxState::AuthDone;
        self.crypt_busy = true;
        start_ccm_auth();
    }
}

impl<R: Radio, H: HeaderCodec, T: TxClient, X: RxClient> MacDevice<R, H, T, X> {
    fn tx_auth_done(&mut self)
        requires
            old(self).crypt_ok(),
            old(self).tx_inv(TxState::AuthDone),
            old(self).tx_state == TxState::AuthDone,
        ensures
            old(self).tx_auth_step(final(self)),
    {
        let crypt_t_off = self.crypt_buf_len - 16;
        let frame_info = self.tx_info.unwrap();
        let mic_len = frame_info.mic_len;
        let m_off = self.tx_m_off;
        let m_len = self.tx_m_len;
        let mut buf = self.tx_buf.take().unwrap();
        let t_off = m_off + m_len;
        copy_into_vec(&mut buf, t_off, self.crypt_buf.as_slice(), crypt_t_off, mic_len);
        let (_level, _key, nonce) = frame_info.security_params.unwrap();
        proof {
            lemma_encrypt_input_len(buf@.subrange(m_off as int, t_off as int));
        }
        let len = prepare_ccm_encrypt(
            &mut self.crypt_buf,
            &mut self.crypt_iv,
            &nonce,
            slice_subrange(buf.as_slice(), m_off, t_off),
        );
        self.crypt_buf_len = len;
        self.tx_buf = Some(buf);
        self.tx_state = TxState::EncDone;
        start_ccm_encrypt();
    }

    fn tx_enc_done(&mut self)
        requires
            old(self).crypt_ok(),
            old(self).tx_inv(TxState::EncDone),
            old(self).tx_state == TxState::EncDone,
        ensures
            old(self).tx_enc_step(final(self)),
    {
        let frame_info = self.tx_info.unwrap();
        let mic_len = frame_info.mic_len;
        let m_off = self.tx_m_off;
        let m_len = self.tx_m_len;
        let mut buf = self.tx_buf.take().unwrap();
        let t_off = m_off + m_len;
        xor_into(&mut buf, t_off, self.crypt_buf.as_slice(), mic_len);
        copy_into_vec(&mut buf, m_off, self.crypt_buf.as_slice(), 16, m_len);
        self.tx_buf = Some(buf);
        self.crypt_busy = false;
        self.tx_state = TxState::ReadyToTransmit;
    }

    fn tx_ready(&mut self) -> (r: (ReturnCode, Option<Vec<u8>>))
        requires
            old(self).tx_inv(TxState::ReadyToTransmit),
            old(self).tx_state == TxState::ReadyToTransmit,
        ensures
            old(self).tx_ready_step(final(self), r),
    {
        if self.config_in_progress {
            (ReturnCode::SUCCESS, None)
        } else {
            let frame_info = self.tx_info.unwrap();
            let buf = self.tx_buf.take().unwrap();
            self.tx_state = TxState::Idle;
            self.tx_info = None;
            self.radio.transmit(buf, frame_info.secured_frame_length())
        }
    }

    /// Enters transmit state `next_state` and does its work: securing the
    /// frame step by step, then handing it to the radio.
    fn step_transmit_state(&mut self, next_state: TxState) -> (r: (ReturnCode, Option<Vec<u8>>))
        requires
            old(self).crypt_ok(),
            old(self).tx_inv(next_state),
            old(self).rx_inv(old(self).rx_state),
        ensures
            final(self).wf(),
            old(self).tx_step(next_state, final(self), r),
    {
        self.tx_state = next_state;
        match next_state {
            TxState::Idle => (ReturnCode::SUCCESS, None),
            TxState::ReadyToSecure => {
                self.tx_secure();
                (ReturnCode::SUCCESS, None)
            },
            TxState::AuthDone => {
                self.tx_auth_done();
                (ReturnCode::SUCCESS, None)
            },
            TxState::EncDone => {
                self.tx_enc_done();
                let ghost mid = *self;
                let r = self.tx_ready();
                assert((MacDevice { tx_state: next_state, ..*old(self) }).tx_enc_step(&mid));
                r
            },
            TxState::ReadyToTransmit => self.tx_ready(),
        }
    }
}

/// What the incoming frame security procedure makes of a received frame.
pub enum IncomingFrame {
    /// The frame is dropped and its buffer returned to the radio.
    Drop,
    /// An unsecured frame, handed to the client as it is.
    Plain { header: Header, data_offset: usize, data_len: usize },
    /// A secured frame, to be unsecured.
    Secured(FrameInfo),
}

/// Whether `r` is what the incoming frame security procedure makes of a
/// frame of `frame_len` bytes whose header decoded to `decoded` (data payload
/// offset, header, MAC payload offset). Frames whose header does not decode,
/// whose data payload and MIC do not fit the frame, that use the legacy frame
/// version, no key, no frame counter or an exhausted one, or that the
/// security procedures cannot process, are dropped.
pub open spec fn incoming_ok(decoded: Option<(usize, Header, usize)>, frame_len: usize, r: IncomingFrame) -> bool {
    match decoded {
        None => r is Drop,
        Some((data_offset, header, mpo)) => {
            let mic_len: int = match header.security {
                Some(sec) => level_mic_len(sec.level) as int,
                None => 0,
            };
            if data_offset + mic_len > frame_len {
                r is Drop
            } else {
                let data_len = frame_len - data_offset - mic_len;
                match header.security {
                    None => r == IncomingFrame::Plain {
                        header: header,
                        data_offset: data_offset,
                        data_len: data_len as usize,
                    },
                    Some(sec) => {
                        if header.version == FrameVersion::V2003 || sec.level == SecurityLevel::NoSecurity
                            || sec.frame_counter is None || sec.frame_counter == Some(0xffff_ffffu32)
                            || header.frame_type is Beacon || header.frame_type is MACCommand
                            || (level_encrypts(sec.level) && mpo > data_offset + data_len) {
                            r is Drop
                        } else {
                            &&& r is Secured
                            &&& (r->0).frame_type == header.frame_type
                            &&& (r->0).mac_payload_offset == mpo
                            &&& (r->0).data_offset == data_offset
                            &&& (r->0).data_len == data_len
                            &&& (r->0).mic_len == mic_len
                            &&& (r->0).security_params is Some
                            &&& ((r->0).security_params->0).0 == sec.level
                            &&& ((r->0).security_params->0).1 == key_for(sec.level)->0
                            &&& info_nonce(r->0) == ccm_nonce(device_addr_long()@, sec.frame_counter->0, sec.level)
                        }
                    },
                }
            }
        },
    }
}

/// The decision of the incoming frame security procedure on a frame of
/// `frame_len` bytes whose header decoded to `decoded`.
pub fn incoming_frame(decoded: Option<(usize, Header, usize)>, frame_len: usize) -> (r: IncomingFrame)
    ensures
        incoming_ok(decoded, frame_len, r),
{
    match decoded {
        None => IncomingFrame::Drop,
        Some((data_offset, header, mac_payload_offset)) => {
            let mic_len: usize = match header.security {
                Some(sec) => sec.level.mic_len(),
                None => 0,
            };
            if data_offset > frame_len || mic_len > frame_len - data_offset {
                return IncomingFrame::Drop;
            }
            let data_len = frame_len - data_offset - mic_len;
            match header.security {
                Some(security) => {
                    if header.version == FrameVersion::V2003 {
                        return IncomingFrame::Drop;
                    }
                    let key = match lookup_key(security.level, security.key_id) {
                        Some(key) => key,
                        None => { return IncomingFrame::Drop; },
                    };
                    let device_addr = match lookup_addr_long(header.src_addr) {
                        Some(addr) => addr,
                        None => { return IncomingFrame::Drop; },
                    };
                    let frame_counter = match security.frame_counter {
                        Some(frame_counter) => {
                            if frame_counter == 0xffff_ffff {
                                return IncomingFrame::Drop;
                            }
                            frame_counter
                        },
                        None => { return IncomingFrame::Drop; },
                    };
                    let processable = match header.frame_type {
                        FrameType::Beacon | FrameType::MACCommand => false,
                        _ => !(security.level.encryption_needed() && mac_payload_offset > data_offset + data_len),
                    };
                    if !processable {
                        return IncomingFrame::Drop;
                    }
                    let mut nonce: [u8; 13] = [0; 13];
                    let _ = encode_ccm_nonce(&mut nonce, &device_addr, frame_counter, security.level);
                    proof {
                        assert(nonce@ =~= ccm_nonce(device_addr@, frame_counter, security.level));
                    }
                    IncomingFrame::Secured(FrameInfo {
                        frame_type: header.frame_type,
                        mac_payload_offset: mac_payload_offset,
                        data_offset: data_offset,
                        data_len: data_len,
                        mic_len: security.level.mic_len(),
                        security_params: Some((security.level, key, nonce)),
                    })
                },
                None => IncomingFrame::Plain { header: header, data_offset: data_offset, data_len: data_len },
            }
        },
    }
}

impl<R: Radio, H: HeaderCodec, T: TxClient, X: RxClient> MacDevice<R, H, T, X> {
    /// The offset of the received MIC in the receive buffer.
    pub open spec fn rx_t_off(&self) -> int {
        self.rx_c_off + self.rx_c_len
    }

    /// In the receive state that checks the MIC, the recomputed tag (the
    /// first `mic_len` bytes of the last block of the crypt input) equals the
    /// received one.
    pub open spec fn rx_tag_ok(&self) -> bool {
        self.rx_state is AuthDone ==> {
            let mic_len = (self.rx_info->0).mic_len;
            let ct = self.crypt_buf_len - 16;
            self.crypt_buf@.subrange(ct, ct + mic_len) == self.rx_buf->0@.subrange(
                self.rx_t_off(),
                self.rx_t_off() + mic_len,
            )
        }
    }

    /// `new` is `self` after the step that starts decrypting the received
    /// frame's c data; a busy crypt engine leaves everything as is.
    pub open spec fn rx_unsecure_step(&self, new: &Self) -> bool {
        if self.crypt_busy {
            *new == *self
        } else {
            let info = self.rx_info->0;
            let ranges = ccm_ranges(info, secured_level(info)->0);
            let input = ccm_encrypt_input(self.rx_buf->0@.subrange(ranges.0, ranges.0 + ranges.1));
            &&& new.rx_c_off == ranges.0
            &&& new.rx_c_len == ranges.1
            &&& new.rx_state == RxState::DecDone
            &&& new.crypt_busy
            &&& new.crypt_buf@ == splice(self.crypt_buf@, 0, input)
            &&& new.crypt_buf_len == input.len()
            &&& new.crypt_iv@ == splice(self.crypt_iv@, 0, ccm_counter_block(info_nonce(info)))
            &&& new.rx_buf == self.rx_buf
            &&& new.rx_info == self.rx_info
            &&& new.rx_client == self.rx_client
            &&& new.tx_same(self)
            &&& new.radio == self.radio
        }
    }

    /// `new` is `self` after the step that puts the decrypted c data and the
    /// decrypted tag into the frame and starts recomputing the tag.
    pub open spec fn rx_dec_step(&self, new: &Self) -> bool {
        let info = self.rx_info->0;
        let with_mic = xor_region(self.rx_buf->0@, self.rx_t_off(), self.crypt_buf@.subrange(0, info.mic_len as int));
        let buf = splice(with_mic, self.rx_c_off as int, self.crypt_buf@.subrange(16, 16 + self.rx_c_len));
        let input = ccm_auth_input(
            info_nonce(info),
            info.mic_len,
            buf.subrange(PSDU_OFFSET as int, self.rx_c_off as int),
            buf.subrange(self.rx_c_off as int, self.rx_t_off()),
        );
        &&& new.rx_buf is Some
        &&& new.rx_buf->0@ == buf
        &&& new.crypt_buf@ == splice(self.crypt_buf@, 0, input)
        &&& new.crypt_buf_len == input.len()
        &&& new.crypt_iv@ == zero_bytes(self.crypt_iv@.len())
        &&& new.crypt_busy == self.crypt_busy
        &&& new.rx_state == RxState::AuthDone
        &&& new.rx_info == self.rx_info
        &&& new.rx_c_off == self.rx_c_off
        &&& new.rx_c_len == self.rx_c_len
        &&& new.rx_client == self.rx_client
        &&& new.tx_same(self)
        &&& new.radio == self.radio
    }

    /// `new` is `self` after the receive buffer went back to the radio.
    pub open spec fn rx_return_step(&self, new: &Self) -> bool {
        &&& new.rx_buf is None
        &&& new.rx_info is None
        &&& new.rx_state == RxState::Idle
        &&& new.rx_c_off == self.rx_c_off
        &&& new.rx_c_len == self.rx_c_len
        &&& new.rx_client == self.rx_client
        &&& new.tx_same(self)
        &&& new.crypt_same(self)
        &&& new.radio.receive_buffer() == self.rx_buf
    }

    /// `new.rx_client` is the receive client once the checked frame reached
    /// it: a frame whose recomputed tag matches the received one and whose
    /// header decodes goes to the client; any other frame is dropped and the
    /// client stays as it was.
    pub open spec fn rx_auth_delivery(&self, new: &Self) -> bool {
        let buf = self.rx_buf->0@;
        let info = self.rx_info->0;
        if self.rx_tag_ok() {
            exists|d: Option<(usize, Header, usize)>|
                {
                    &&& #[trigger] decodes_to(self.codec, buf.subrange(PSDU_OFFSET as int, buf.len() as int), d)
                    &&& d is None ==> new.rx_client == self.rx_client
                    &&& d matches Some((_, header, _)) ==> delivered(
                        self.rx_client,
                        new.rx_client,
                        buf,
                        header,
                        info.data_offset,
                        info.data_len,
                    )
                }
        } else {
            new.rx_client == self.rx_client
        }
    }

    /// `new` is `self` after the MIC of the received frame was checked, the
    /// frame went to the client if it passed, and its buffer back to the
    /// radio.
    pub open spec fn rx_auth_step(&self, new: &Self) -> bool {
        &&& new.rx_buf is None
        &&& new.rx_info is None
        &&& new.rx_state == RxState::Idle
        &&& new.rx_c_off == self.rx_c_off
        &&& new.rx_c_len == self.rx_c_len
        &&& !new.crypt_busy
        &&& new.crypt_buf == self.crypt_buf
        &&& new.crypt_buf_len == self.crypt_buf_len
        &&& new.crypt_iv == self.crypt_iv
        &&& new.tx_same(self)
        &&& new.radio.receive_buffer() == self.rx_buf
        &&& self.rx_auth_delivery(new)
    }

    /// `new` follows from `self` by entering receive state `st`.
    pub open spec fn rx_step(&self, st: RxState, new: &Self) -> bool {
        let entered = MacDevice { rx_state: st, ..*self };
        match st {
            RxState::Idle => *new == entered,
            RxState::ReadyToUnsecure => entered.rx_unsecure_step(new),
            RxState::DecDone => entered.rx_dec_step(new),
            RxState::AuthDone => entered.rx_auth_step(new),
            RxState::ReadyToReturn => entered.rx_return_step(new),
        }
    }

    fn rx_unsecure(&mut self)
        requires
            old(self).crypt_ok(),
            old(self).rx_inv(RxState::ReadyToUnsecure),
            old(self).rx_state == RxState::ReadyToUnsecure,
        ensures
            old(self).rx_unsecure_step(final(self)),
    {
        if self.crypt_busy {
            return;
        }
        let frame_info = self.rx_info.unwrap();
        let (level, _key, nonce) = frame_info.security_params.unwrap();
        let (c_off, c_len) = frame_info.get_ccm_encrypt_ranges(&level);
        self.rx_c_off = c_off;
        self.rx_c_len = c_len;
        let buf = self.rx_buf.take().unwrap();
        proof {
            lemma_encrypt_input_len(buf@.subrange(c_off as int, c_off + c_len));
        }
        let len = prepare_ccm_encrypt(
            &mut self.crypt_buf,
            &mut self.crypt_iv,
            &nonce,
            slice_subrange(buf.as_slice(), c_off, c_off + c_len),
        );
        self.crypt_buf_len = len;
        self.rx_buf = Some(buf);
        self.rx_state = RxState::DecDone;
        self.crypt_busy = true;
        start_ccm_encrypt();
    }

    fn rx_dec_done(&mut self)
        requires
            old(self).crypt_ok(),
            old(self).rx_inv(RxState::DecDone),
            old(self).rx_state == RxState::DecDone,
        ensures
            old(self).rx_dec_step(final(self)),
    {
        let frame_info = self.rx_info.unwrap();
        let mic_len = frame_info.mic_len;
        let c_off = self.rx_c_off;
        let c_len = self.rx_c_len;
        let mut buf = self.rx_buf.take().unwrap();
        let t_off = c_off + c_len;
        xor_into(&mut buf, t_off, self.crypt_buf.as_slice(), mic_len);
        copy_into_vec(&mut buf, c_off, self.crypt_buf.as_slice(), 16, c_len);
        let (_level, _key, nonce) = frame_info.security_params.unwrap();
        proof {
            lemma_auth_input_len(nonce@, mic_len, buf@.subrange(PSDU_OFFSET as int, c_off as int),
                buf@.subrange(c_off as int, t_off as int));
        }
        let len = prepare_ccm_auth(
            &mut self.crypt_buf,
            &mut self.crypt_iv,
            &nonce,
            mic_len,
            slice_subrange(buf.as_slice(), PSDU_OFFSET, c_off),
            slice_subrange(buf.as_slice(), c_off, t_off),
        );
        self.crypt_buf_len = len;
        self.rx_buf = Some(buf);
        self.rx_state = RxState::AuthDone;
        start_ccm_auth();
    }

    fn rx_return(&mut self)
        requires
            old(self).rx_buf is Some,
        ensures
            old(self).rx_return_step(final(self)),
    {
        self.rx_state = RxState::Idle;
        self.rx_info = None;
        let buf = self.rx_buf.take().unwrap();
        self.radio.set_receive_buffer(buf);
    }

    fn rx_auth_done(&mut self)
        requires
            old(self).crypt_ok(),
            old(self).rx_inv(RxState::AuthDone),
            old(self).rx_state == RxState::AuthDone,
        ensures
            old(self).rx_auth_step(final(self)),
    {
        let frame_info = self.rx_info.unwrap();
        let mic_len = frame_info.mic_len;
        let crypt_t_off = self.crypt_buf_len - 16;
        let t_off = self.rx_c_off + self.rx_c_len;
        let verified = match &self.rx_buf {
            Some(buf) => ranges_equal(self.crypt_buf.as_slice(), crypt_t_off, buf.as_slice(), t_off, mic_len),
            None => false,
        };
        self.crypt_busy = false;
        let ghost before = *self;
        if verified {
            let buf = self.rx_buf.take().unwrap();
            let psdu = slice_subrange(buf.as_slice(), PSDU_OFFSET, buf.len());
            let decoded = self.codec.decode(psdu);
            proof {
                assert(decodes_to(self.codec, buf@.subrange(PSDU_OFFSET as int, buf@.len() as int), decoded));
            }
            match decoded {
                Some((_, header, _)) => {
                    let frame = buf.as_slice();
                    match &mut self.rx_client {
                        Some(client) => {
                            client.receive(
                                frame,
                                header,
                                frame_info.data_offset,
                                frame_info.data_len,
                                ReturnCode::SUCCESS,
                            );
                        },
                        None => {},
                    }
                    proof {
                        if before.rx_client is Some {
                            assert((before.rx_client->0).received(
                                &self.rx_client->0,
                                frame,
                                header,
                                frame_info.data_offset,
                                frame_info.data_len,
                                ReturnCode::SUCCESS,
                            ));
                        }
                        assert(delivered(
                            before.rx_client,
                            self.rx_client,
                            buf@,
                            header,
                            frame_info.data_offset,
                            frame_info.data_len,
                        ));
                    }
                },
                None => {},
            }
            self.rx_buf = Some(buf);
        }
        self.rx_return();
    }

    /// Enters receive state `next_state` and does its work: unsecuring the
    /// frame step by step, handing it to the client, and returning the buffer
    /// to the radio.
    fn step_receive_state(&mut self, next_state: RxState)
        requires
            old(self).crypt_ok(),
            old(self).rx_inv(next_state),
            old(self).tx_inv(old(self).tx_state),
        ensures
            final(self).wf(),
            old(self).rx_step(next_state, final(self)),
    {
        self.rx_state = next_state;
        match next_state {
            RxState::Idle => {},
            RxState::ReadyToUnsecure => self.rx_unsecure(),
            RxState::DecDone => self.rx_dec_done(),
            RxState::AuthDone => self.rx_auth_done(),
            RxState::ReadyToReturn => self.rx_return(),
        }
    }
}

/// The state the transmit pathway starts a frame in.
pub open spec fn first_tx_state(info: FrameInfo) -> TxState {
    if secured_level(info) is Some {
        TxState::ReadyToSecure
    } else {
        TxState::ReadyToTransmit
    }
}

/// The bookkeeping of a data frame whose header was encoded with the
/// outcome `encoded` (data payload offset and MAC payload offset), with an
/// empty data payload.
pub fn data_frame_info(
    encoded: Option<(usize, usize)>,
    mic_len: usize,
    security_desc: Option<(Security, [u8; 16], [u8; 13])>,
) -> (r: Result<FrameInfo, ()>)
    ensures
        encoded is None ==> r is Err,
        encoded is Some ==> r == Ok::<FrameInfo, ()>(
            FrameInfo {
                frame_type: FrameType::Data,
                mac_payload_offset: (encoded->0).1,
                data_offset: (encoded->0).0,
                data_len: 0,
                mic_len: mic_len,
                security_params: match security_desc {
                    Some((sec, key, nonce)) => Some((sec.level, key, nonce)),
                    None => None,
                },
            },
        ),
{
    match encoded {
        Some((data_offset, mac_payload_offset)) => Ok(
            FrameInfo {
                frame_type: FrameType::Data,
                mac_payload_offset: mac_payload_offset,
                data_offset: data_offset,
                data_len: 0,
                mic_len: mic_len,
                security_params: match security_desc {
                    Some((sec, key, nonce)) => Some((sec.level, key, nonce)),
                    None => None,
                },
            },
        ),
        None => Err(()),
    }
}

impl<R: Radio, H: HeaderCodec, T: TxClient, X: RxClient> MacDevice<R, H, T, X> {
    /// `self` with no configuration in progress.
    pub open spec fn config_cleared(&self) -> Self {
        MacDevice { config_in_progress: false, ..*self }
    }

    /// `self` and `other` differ at most in the radio.
    pub open spec fn same_but_radio(&self, other: &Self) -> bool {
        *self == (MacDevice { radio: self.radio, ..*other })
    }

    /// Runs the incoming frame security procedure on a received frame of
    /// `frame_len` bytes in `buf`, and gives the receive state to enter.
    fn incoming_frame_security(&mut self, buf: &[u8], frame_len: usize) -> (r: RxState)
        requires
            PSDU_OFFSET <= buf@.len(),
        ensures
            exists|d: Option<(usize, Header, usize)>, f: IncomingFrame|
                {
                    &&& #[trigger] incoming_ok(d, frame_len, f)
                    &&& decodes_to(old(self).codec, buf@.subrange(PSDU_OFFSET as int, buf@.len() as int), d)
                    &&& f is Secured ==> r == RxState::ReadyToUnsecure && final(self).rx_info == Some(f->0)
                    &&& !(f is Secured) ==> r == RxState::ReadyToReturn && final(self).rx_info == old(self).rx_info
                    &&& !(f is Plain) ==> final(self).rx_client == old(self).rx_client
                    &&& f matches IncomingFrame::Plain { header, data_offset, data_len } ==> delivered(
                        old(self).rx_client,
                        final(self).rx_client,
                        buf@,
                        header,
                        data_offset,
                        data_len,
                    )
                },
            final(self).rx_buf == old(self).rx_buf,
            final(self).rx_state == old(self).rx_state,
            final(self).rx_c_off == old(self).rx_c_off,
            final(self).rx_c_len == old(self).rx_c_len,
            final(self).tx_same(old(self)),
            final(self).crypt_same(old(self)),
            final(self).radio == old(self).radio,
    {
        let psdu = slice_subrange(buf, PSDU_OFFSET, buf.len());
        let decoded = self.codec.decode(psdu);
        proof {
            assert(decodes_to(self.codec, buf@.subrange(PSDU_OFFSET as int, buf@.len() as int), decoded));
        }
        let f = incoming_frame(decoded, frame_len);
        let ghost before = *self;
        match f {
            IncomingFrame::Drop => RxState::ReadyToReturn,
            IncomingFrame::Plain { header, data_offset, data_len } => {
                match &mut self.rx_client {
                    Some(client) => {
                        client.receive(buf, header, data_offset, data_len, ReturnCode::SUCCESS);
                    },
                    None => {},
                }
                proof {
                    if before.rx_client is Some {
                        assert((before.rx_client->0).received(
                            &self.rx_client->0,
                            buf,
                            header,
                            data_offset,
                            data_len,
                            ReturnCode::SUCCESS,
                        ));
                    }
                    assert(delivered(before.rx_client, self.rx_client, buf@, header, data_offset, data_len));
                }
                RxState::ReadyToReturn
            },
            IncomingFrame::Secured(info) => {
                self.rx_info = Some(info);
                RxState::ReadyToUnsecure
            },
        }
    }

    /// Steps both pathways: the transmit pathway in its state, a buffer it
    /// gives back to the transmit client, then the receive pathway in its
    /// state.
    fn trigger_states(&mut self)
        requires
            old(self).wf(),
        ensures
            final(self).wf(),
            exists|mid: Self, r: (ReturnCode, Option<Vec<u8>>), mid2: Self|
                #![trigger old(self).tx_step(old(self).tx_state, &mid, r), mid2.rx_step(mid.rx_state, final(self))]
                {
                    &&& old(self).tx_step(old(self).tx_state, &mid, r)
                    &&& mid2 == (MacDevice { tx_client: mid2.tx_client, ..mid })
                    &&& r.1 is None ==> mid2 == mid
                    &&& mid2.rx_step(mid.rx_state, final(self))
                },
    {
        let (rval, buf) = self.step_transmit_state(self.tx_state);
        let ghost mid = *self;
        match buf {
            Some(buf) => {
                match &mut self.tx_client {
                    Some(client) => {
                        client.send_done(buf, false, rval);
                    },
                    None => {},
                }
            },
            None => {},
        }
        let ghost mid2 = *self;
        self.step_receive_state(self.rx_state);
        assert(mid2.rx_step(mid.rx_state, self));
    }

    /// The radio finished a transmission: the next frame gets the next
    /// sequence number, and the buffer goes to the transmit client.
    pub fn send_done(&mut self, buf: Vec<u8>, acked: bool, result: ReturnCode)
        requires
            old(self).data_sequence < 255,
        ensures
            final(self).data_sequence == old(self).data_sequence + 1,
            final(self).tx_info is None,
            *final(self) == (MacDevice {
                data_sequence: final(self).data_sequence,
                tx_info: None,
                tx_client: final(self).tx_client,
                ..*old(self)
            }),
            old(self).tx_client is None ==> final(self).tx_client is None,
    {
        self.data_sequence = self.data_sequence + 1;
        self.tx_info = None;
        match &mut self.tx_client {
            Some(client) => {
                client.send_done(buf, acked, result);
            },
            None => {},
        }
    }

    /// The radio received a frame of `frame_len` bytes into `buf`. Frames
    /// with a bad CRC, and frames arriving while another is being processed,
    /// go straight back to the radio; others go through the incoming frame
    /// security procedure.
    pub fn receive(&mut self, buf: Vec<u8>, frame_len: usize, crc_valid: bool, result: ReturnCode)
        requires
            old(self).wf(),
            PSDU_OFFSET + frame_len <= buf@.len(),
            frame_len <= MAX_MTU,
        ensures
            final(self).wf(),
            !crc_valid || !(old(self).rx_state is Idle) ==> final(self).same_but_radio(old(self))
                && final(self).radio.receive_buffer() == Some(buf),
            crc_valid && old(self).rx_state is Idle ==> exists|
                d: Option<(usize, Header, usize)>,
                f: IncomingFrame,
                mid: Self,
            |
                #![trigger incoming_ok(d, frame_len, f), mid.tx_same(old(self))]
                {
                    &&& incoming_ok(d, frame_len, f)
                    &&& decodes_to(old(self).codec, buf@.subrange(PSDU_OFFSET as int, buf@.len() as int), d)
                    &&& mid.rx_buf == Some(buf)
                    &&& mid.radio == old(self).radio
                    &&& !(f is Plain) ==> mid.rx_client == old(self).rx_client
                    &&& f matches IncomingFrame::Plain { header, data_offset, data_len } ==> delivered(
                        old(self).rx_client,
                        mid.rx_client,
                        buf@,
                        header,
                        data_offset,
                        data_len,
                    )
                    &&& mid.tx_same(old(self))
                    &&& mid.crypt_same(old(self))
                    &&& mid.rx_state == old(self).rx_state
                    &&& f is Secured ==> mid.rx_info == Some(f->0) && mid.rx_step(
                        RxState::ReadyToUnsecure,
                        final(self),
                    )
                    &&& !(f is Secured) ==> mid.rx_step(RxState::ReadyToReturn, final(self))
                },
    {
        if !crc_valid {
            self.radio.set_receive_buffer(buf);
            return;
        }
        if self.rx_state != RxState::Idle {
            self.radio.set_receive_buffer(buf);
        } else {
            let ghost before = *self;
            let next_state = self.incoming_frame_security(buf.as_slice(), frame_len);
            let ghost after = *self;
            self.rx_buf = Some(buf);
            let ghost mid = *self;
            self.step_receive_state(next_state);
            proof {
                let (d, f) = choose|d: Option<(usize, Header, usize)>, f: IncomingFrame|
                    {
                        &&& #[trigger] incoming_ok(d, frame_len, f)
                        &&& decodes_to(before.codec, buf@.subrange(PSDU_OFFSET as int, buf@.len() as int), d)
                        &&& f is Secured ==> next_state == RxState::ReadyToUnsecure && after.rx_info == Some(f->0)
                        &&& !(f is Secured) ==> next_state == RxState::ReadyToReturn && after.rx_info == before.rx_info
                        &&& !(f is Plain) ==> after.rx_client == before.rx_client
                        &&& f matches IncomingFrame::Plain { header, data_offset, data_len } ==> delivered(
                            before.rx_client,
                            after.rx_client,
                            buf@,
                            header,
                            data_offset,
                            data_len,
                        )
                    };
                assert(incoming_ok(d, frame_len, f));
                assert(mid.tx_same(old(self)));
                assert(mid.rx_buf == Some(buf));
            }
        }
    }

    /// The radio finished committing a configuration: the pathways waiting
    /// for it continue.
    pub fn config_done(&mut self, result: ReturnCode)
        requires
            old(self).wf(),
        ensures
            final(self).wf(),
            !old(self).config_in_progress ==> *final(self) == *old(self),
            old(self).config_in_progress ==> exists|mid: Self, r: (ReturnCode, Option<Vec<u8>>), mid2: Self|
                #![trigger old(self).config_cleared().tx_step(old(self).tx_state, &mid, r), mid2.rx_step(mid.rx_state, final(self))]
                {
                    &&& old(self).config_cleared().tx_step(old(self).tx_state, &mid, r)
                    &&& mid2 == (MacDevice { tx_client: mid2.tx_client, ..mid })
                    &&& r.1 is None ==> mid2 == mid
                    &&& mid2.rx_step(mid.rx_state, final(self))
                },
    {
        if self.config_in_progress {
            self.config_in_progress = false;
            self.trigger_states();
        }
    }
}

/// The security fields of a data frame secured as `security_needed` asks:
/// its level and key identifier, frame counter 0, no ASN in the nonce.
pub open spec fn data_security(security_needed: Option<(SecurityLevel, KeyId)>) -> Option<Security> {
    match security_needed {
        Some((level, key_id)) => Some(
            Security { level: level, asn_in_nonce: false, frame_counter: Some(0u32), key_id: key_id },
        ),
        None => None,
    }
}

/// The header of a data frame with sequence number `seq` that requests
/// acknowledgement.
pub open spec fn data_header(
    seq: u8,
    dst_pan: PanID,
    dst_addr: MacAddress,
    src_pan: PanID,
    src_addr: MacAddress,
    security: Option<Security>,
) -> Header {
    Header {
        frame_type: FrameType::Data,
        frame_pending: false,
        ack_requested: true,
        version: FrameVersion::V2015,
        seq: Some(seq),
        dst_pan: Some(dst_pan),
        dst_addr: Some(dst_addr),
        src_pan: Some(src_pan),
        src_addr: Some(src_addr),
        security: security,
    }
}

/// The interface of a MAC device to the layers above it.
pub trait Mac {
    /// The device is ready for the operations below.
    spec fn ready(&self) -> bool;

    /// The local short address.
    fn get_address(&self) -> u16;
    /// The local extended address.
    fn get_address_long(&self) -> [u8; 8];
    /// The PAN identifier.
    fn get_pan(&self) -> u16;
    fn get_channel(&self) -> u8;
    fn get_tx_power(&self) -> i8;

    fn set_address(&mut self, addr: u16)
        requires
            old(self).ready(),
        ensures
            final(self).ready(),
    ;

    fn set_address_long(&mut self, addr: [u8; 8])
        requires
            old(self).ready(),
        ensures
            final(self).ready(),
    ;

    fn set_pan(&mut self, id: u16)
        requires
            old(self).ready(),
        ensures
            final(self).ready(),
    ;

    fn set_channel(&mut self, chan: u8) -> (r: ReturnCode)
        requires
            old(self).ready(),
        ensures
            final(self).ready(),
    ;

    fn set_tx_power(&mut self, power: i8) -> (r: ReturnCode)
        requires
            old(self).ready(),
        ensures
            final(self).ready(),
    ;

    /// Applies the configuration.
    fn config_commit(&mut self) -> (r: ReturnCode)
        requires
            old(self).ready(),
        ensures
            final(self).ready(),
    ;

    fn is_on(&self) -> bool;

    /// Writes the header of a data frame from `src_addr` to `dst_addr` into
    /// `buf`, secured at the requested level, and gives the frame's
    /// bookkeeping.
    fn prepare_data_frame(
        &self,
        buf: &mut [u8],
        dst_pan: PanID,
        dst_addr: MacAddress,
        src_pan: PanID,
        src_addr: MacAddress,
        security_needed: Option<(SecurityLevel, KeyId)>,
    ) -> (r: Result<FrameInfo, ()>)
    ;

    /// Secures the frame in `buf` as `frame_info` says and transmits it; the
    /// buffer comes back at once when the device is busy.
    fn transmit(&mut self, buf: Vec<u8>, frame_info: FrameInfo) -> (r: (ReturnCode, Option<Vec<u8>>))
        requires
            old(self).ready(),
            frame_fits(frame_info, buf@.len() as int),
        ensures
            final(self).ready(),
    ;
}

impl<R: Radio, H: HeaderCodec, T: TxClient, X: RxClient> Mac for MacDevice<R, H, T, X> {
    open spec fn ready(&self) -> bool {
        self.wf()
    }

    fn get_address(&self) -> (r: u16)
        ensures
            r == self.radio.address(),
    {
        self.radio.get_address()
    }

    fn get_address_long(&self) -> (r: [u8; 8])
        ensures
            r == self.radio.address_long(),
    {
        self.radio.get_address_long()
    }

    fn get_pan(&self) -> (r: u16)
        ensures
            r == self.radio.pan(),
    {
        self.radio.get_pan()
    }

    fn get_channel(&self) -> (r: u8)
        ensures
            r == self.radio.channel(),
    {
        self.radio.get_channel()
    }

    fn get_tx_power(&self) -> (r: i8)
        ensures
            r == self.radio.tx_power(),
    {
        self.radio.get_tx_power()
    }

    fn set_address(&mut self, addr: u16)
        ensures
            final(self).same_but_radio(old(self)),
            final(self).radio.address() == addr,
    {
        self.radio.set_address(addr)
    }

    fn set_address_long(&mut self, addr: [u8; 8])
        ensures
            final(self).same_but_radio(old(self)),
            final(self).radio.address_long() == addr,
    {
        self.radio.set_address_long(addr)
    }

    fn set_pan(&mut self, id: u16)
        ensures
            final(self).same_but_radio(old(self)),
            final(self).radio.pan() == id,
    {
        self.radio.set_pan(id)
    }

    fn set_channel(&mut self, chan: u8) -> (r: ReturnCode)
        ensures
            final(self).same_but_radio(old(self)),
            (r == ReturnCode::SUCCESS) == old(self).radio.valid_channel(chan),
            r == ReturnCode::SUCCESS ==> final(self).radio.channel() == chan,
            r != ReturnCode::SUCCESS ==> final(self).radio.channel() == old(self).radio.channel(),
    {
        self.radio.set_channel(chan)
    }

    fn set_tx_power(&mut self, power: i8) -> (r: ReturnCode)
        ensures
            final(self).same_but_radio(old(self)),
            (r == ReturnCode::SUCCESS) == old(self).radio.valid_tx_power(power),
            r == ReturnCode::SUCCESS ==> final(self).radio.tx_power() == power,
            r != ReturnCode::SUCCESS ==> final(self).radio.tx_power() == old(self).radio.tx_power(),
    {
        self.radio.set_tx_power(power)
    }

    /// Commits the configuration unless a commit is in progress (`EBUSY`);
    /// a successful commit is in progress until the radio reports it done.
    fn config_commit(&mut self) -> (r: ReturnCode)
        ensures
            old(self).config_in_progress ==> r == ReturnCode::EBUSY && *final(self) == *old(self),
            !old(self).config_in_progress ==> {
                &&& r == old(self).radio.commit_result()
                &&& final(self).config_in_progress == (r == ReturnCode::SUCCESS)
                &&& *final(self) == (MacDevice {
                    radio: final(self).radio,
                    config_in_progress: final(self).config_in_progress,
                    ..*old(self)
                })
            },
    {
        let rval = if !self.config_in_progress {
            self.radio.config_commit()
        } else {
            ReturnCode::EBUSY
        };
        if rval == ReturnCode::SUCCESS {
            self.config_in_progress = true;
        }
        rval
    }

    fn is_on(&self) -> (r: bool)
        ensures
            r == self.radio.powered(),
    {
        self.radio.is_on()
    }

    /// A data frame requesting acknowledgement, with the device's next
    /// sequence number. Secured at `level`, it carries the level's MIC, the
    /// level's key and a nonce of the radio's extended address with frame
    /// counter 0; a level without a key fails. The header goes to the header
    /// encoder, whose outcome gives the frame's offsets; its failure fails
    /// the call.
    fn prepare_data_frame(
        &self,
        buf: &mut [u8],
        dst_pan: PanID,
        dst_addr: MacAddress,
        src_pan: PanID,
        src_addr: MacAddress,
        security_needed: Option<(SecurityLevel, KeyId)>,
    ) -> (r: Result<FrameInfo, ()>)
        ensures
            (security_needed matches Some((level, _)) && level == SecurityLevel::NoSecurity) ==> r is Err,
            ({
                let enc = self.codec.encoded(
                    data_header(
                        self.data_sequence,
                        dst_pan,
                        dst_addr,
                        src_pan,
                        src_addr,
                        data_security(security_needed),
                    ),
                    old(buf)@.len() as usize,
                    PSDU_OFFSET,
                    true,
                );
                let keyed = match security_needed {
                    Some((level, _)) => level != SecurityLevel::NoSecurity,
                    None => true,
                };
                &&& (r is Ok) == (keyed && enc is Some)
                &&& r is Ok ==> (r->Ok_0).data_offset == (enc->0).0 && (r->Ok_0).mac_payload_offset == (
                enc->0).1
                &&& keyed ==> self.codec.wrote(
                    data_header(
                        self.data_sequence,
                        dst_pan,
                        dst_addr,
                        src_pan,
                        src_addr,
                        data_security(security_needed),
                    ),
                    PSDU_OFFSET,
                    true,
                    &*old(buf),
                    &*final(buf),
                )
                &&& !keyed ==> final(buf)@ == old(buf)@
            }),
            r is Ok ==> {
                let info = r->Ok_0;
                &&& info.frame_type == FrameType::Data
                &&& info.data_len == 0
                &&& match security_needed {
                    None => info.mic_len == 0 && info.security_params is None,
                    Some((level, _)) => {
                        &&& info.mic_len == level_mic_len(level)
                        &&& info.security_params is Some
                        &&& (info.security_params->0).0 == level
                        &&& (info.security_params->0).1 == key_for(level)->0
                        &&& info_nonce(info) == ccm_nonce(self.radio.address_long()@, 0, level)
                    },
                }
            },
    {
        let src_addr_long = self.get_address_long();
        let security_desc: Option<(Security, [u8; 16], [u8; 13])> = match security_needed {
            Some((level, key_id)) => {
                match lookup_key(level, key_id) {
                    Some(key) => {
                        let frame_counter: u32 = 0;
                        let mut nonce: [u8; 13] = [0; 13];
                        let _ = encode_ccm_nonce(&mut nonce, &src_addr_long, frame_counter, level);
                        proof {
                            assert(nonce@ =~= ccm_nonce(src_addr_long@, 0, level));
                        }
                        Some(
                            (
                                Security {
                                    level: level,
                                    asn_in_nonce: false,
                                    frame_counter: Some(frame_counter),
                                    key_id: key_id,
                                },
                                key,
                                nonce,
                            ),
                        )
                    },
                    None => None,
                }
            },
            None => None,
        };
        if security_needed.is_some() && security_desc.is_none() {
            return Err(());
        }
        let security: Option<Security> = match security_desc {
            Some((sec, _, _)) => Some(sec),
            None => None,
        };
        let mic_len: usize = match security {
            Some(sec) => sec.level.mic_len(),
            None => 0,
        };
        let header = Header {
            frame_type: FrameType::Data,
            frame_pending: false,
            ack_requested: true,
            version: FrameVersion::V2015,
            seq: Some(self.data_sequence),
            dst_pan: Some(dst_pan),
            dst_addr: Some(dst_addr),
            src_pan: Some(src_pan),
            src_addr: Some(src_addr),
            security: security,
        };
        let encoded = self.codec.encode(&header, buf, PSDU_OFFSET, true);
        data_frame_info(encoded, mic_len, security_desc)
    }

    /// Busy with another frame: `EBUSY`, and the buffer back. Else the frame
    /// enters the transmit pathway.
    fn transmit(&mut self, buf: Vec<u8>, frame_info: FrameInfo) -> (r: (ReturnCode, Option<Vec<u8>>))
        ensures
            !(old(self).tx_state is Idle) ==> r == (ReturnCode::EBUSY, Some(buf)) && *final(self) == *old(self),
            old(self).tx_state is Idle ==> (MacDevice {
                tx_buf: Some(buf),
                tx_info: Some(frame_info),
                ..*old(self)
            }).tx_step(first_tx_state(frame_info), final(self), r),
    {
        if self.tx_state != TxState::Idle {
            return (ReturnCode::EBUSY, Some(buf));
        }
        let next_state = self.outgoing_frame_security(buf, frame_info);
        self.step_transmit_state(next_state)
    }
}

/// Starts the CCM* authentication transformation on the crypt buffer. The
/// transformation is not available yet: the buffer stays as laid out.
fn start_ccm_auth() {
}

/// Starts the CCM* encryption transformation on the crypt buffer. The
/// transformation is not available yet: the buffer stays as laid out.
fn start_ccm_encrypt() {
}

} // verus!
