//! Byte-stream encoding and decoding primitives. Every encoder and decoder
//! works at an offset into a buffer; multi-byte integers are written and read
//! in network byte order (big-endian).

use vstd::prelude::*;

verus! {

/// Result of a stream operation: `Done(end, value)` when the operation
/// completed and the stream now stands at offset `end`, `Needed(end)` when the
/// buffer is too short and at least `end` bytes are needed, and `Error` for
/// malformed input.
pub enum SResult<T> {
    Done(usize, T),
    Needed(usize),
    Error,
}

impl<T> SResult<T> {
    /// Returns `Some((end, value))` for a completed operation.
    pub fn done(self) -> (r: Option<(usize, T)>)
        ensures
            r == (match self {
                SResult::Done(n, v) => Some((n, v)),
                _ => None,
            }),
    {
        match self {
            SResult::Done(n, v) => Some((n, v)),
            _ => None,
        }
    }
}

/// `s` with the bytes starting at `off` replaced by `data`.
pub open spec fn splice(s: Seq<u8>, off: int, data: Seq<u8>) -> Seq<u8> {
    s.subrange(0, off) + data + s.subrange(off + data.len(), s.len() as int)
}

/// The big-endian value of two bytes.
pub open spec fn be16(hi: u8, lo: u8) -> u16 {
    (hi as int * 256 + lo as int) as u16
}

/// The two bytes of `v` in big-endian order.
pub open spec fn be16_bytes(v: u16) -> Seq<u8> {
    seq![(v / 256) as u8, (v % 256) as u8]
}

/// The four bytes of `v` in big-endian order.
pub open spec fn be32_bytes(v: u32) -> Seq<u8> {
    seq![
        (v / 0x100_0000) as u8,
        ((v / 0x1_0000) % 256) as u8,
        ((v / 256) % 256) as u8,
        (v % 256) as u8,
    ]
}

/// The big-endian value of two bytes of `s` starting at `off`.
pub open spec fn be16_at(s: Seq<u8>, off: int) -> u16 {
    be16(s[off], s[off + 1])
}

/// Reading back the two big-endian bytes of a value gives the value.
pub proof fn lemma_be16_roundtrip(v: u16)
    ensures
        be16(be16_bytes(v)[0], be16_bytes(v)[1]) == v,
{
}

/// Writing back the value of two big-endian bytes gives the bytes.
pub proof fn lemma_be16_bytes_of(hi: u8, lo: u8)
    ensures
        be16_bytes(be16(hi, lo)) == seq![hi, lo],
{
    assert(be16_bytes(be16(hi, lo)) =~= seq![hi, lo]);
}

/// High byte of a `u16`, computed with shifts.
pub fn u16_hi(v: u16) -> (r: u8)
    ensures
        r == v / 256,
{
    assert((v >> 8u16) == v / 256) by (bit_vector);
    (v >> 8) as u8
}

/// Low byte of a `u16`.
pub fn u16_lo(v: u16) -> (r: u8)
    ensures
        r == v % 256,
{
    assert((v & 0xffu16) == v % 256) by (bit_vector);
    (v & 0xff) as u8
}

/// Combines two bytes into a big-endian `u16`.
pub fn u16_from_be(hi: u8, lo: u8) -> (r: u16)
    ensures
        r == be16(hi, lo),
{
    (hi as u16) * 256 + (lo as u16)
}

/// Writes one byte at `off`.
pub fn encode_u8(buf: &mut [u8], off: usize, b: u8) -> (r: SResult<()>)
    requires
        off <= old(buf)@.len(),
        off + 1 <= usize::MAX,
    ensures
        off + 1 <= old(buf)@.len() ==> r == SResult::Done((off + 1) as usize, ()) && final(buf)@
            == splice(old(buf)@, off as int, seq![b]),
        off + 1 > old(buf)@.len() ==> r == SResult::<()>::Needed((off + 1) as usize) && final(buf)@
            == old(buf)@,
{
    if buf.len() - off < 1 {
        return SResult::Needed(off + 1);
    }
    buf[off] = b;
    assert(buf@ =~= splice(old(buf)@, off as int, seq![b]));
    SResult::Done(off + 1, ())
}

/// Writes a `u16` in big-endian order at `off`.
pub fn encode_u16(buf: &mut [u8], off: usize, v: u16) -> (r: SResult<()>)
    requires
        off <= old(buf)@.len(),
        off + 2 <= usize::MAX,
    ensures
        off + 2 <= old(buf)@.len() ==> r == SResult::Done((off + 2) as usize, ()) && final(buf)@
            == splice(old(buf)@, off as int, be16_bytes(v)),
        off + 2 > old(buf)@.len() ==> r == SResult::<()>::Needed((off + 2) as usize) && final(buf)@
            == old(buf)@,
{
    if buf.len() - off < 2 {
        return SResult::Needed(off + 2);
    }
    buf[off] = u16_hi(v);
    buf[off + 1] = u16_lo(v);
    assert(buf@ =~= splice(old(buf)@, off as int, be16_bytes(v)));
    SResult::Done(off + 2, ())
}

/// Writes a `u32` in big-endian order at `off`.
pub fn encode_u32(buf: &mut [u8], off: usize, v: u32) -> (r: SResult<()>)
    requires
        off <= old(buf)@.len(),
        off + 4 <= usize::MAX,
    ensures
        off + 4 <= old(buf)@.len() ==> r == SResult::Done((off + 4) as usize, ()) && final(buf)@
            == splice(old(buf)@, off as int, be32_bytes(v)),
        off + 4 > old(buf)@.len() ==> r == SResult::<()>::Needed((off + 4) as usize) && final(buf)@
            == old(buf)@,
{
    if buf.len() - off < 4 {
        return SResult::Needed(off + 4);
    }
    assert((v >> 24u32) == v / 0x100_0000) by (bit_vector);
    assert(((v >> 16u32) & 0xffu32) == (v / 0x1_0000) % 256) by (bit_vector);
    assert(((v >> 8u32) & 0xffu32) == (v / 256) % 256) by (bit_vector);
    assert((v & 0xffu32) == v % 256) by (bit_vector);
    buf[off] = (v >> 24) as u8;
    buf[off + 1] = ((v >> 16) & 0xff) as u8;
    buf[off + 2] = ((v >> 8) & 0xff) as u8;
    buf[off + 3] = (v & 0xff) as u8;
    assert(buf@ =~= splice(old(buf)@, off as int, be32_bytes(v)));
    SResult::Done(off + 4, ())
}

/// Copies `data` into `buf` at `off`.
pub fn encode_bytes(buf: &mut [u8], off: usize, data: &[u8]) -> (r: SResult<()>)
    requires
        off <= old(buf)@.len(),
        off + data@.len() <= usize::MAX,
    ensures
        off + data@.len() <= old(buf)@.len() ==> r == SResult::Done(
            (off + data@.len()) as usize,
            (),
        ) && final(buf)@ == splice(old(buf)@, off as int, data@),
        off + data@.len() > old(buf)@.len() ==> r == SResult::<()>::Needed(
            (off + data@.len()) as usize,
        ) && final(buf)@ == old(buf)@,
{
    if buf.len() - off < data.len() {
        return SResult::Needed(off + data.len());
    }
    copy_into(buf, off, data, 0, data.len());
    SResult::Done(off + data.len(), ())
}

/// Copies `src[start..start + n]` into `buf[off..off + n]`.
pub fn copy_into(buf: &mut [u8], off: usize, src: &[u8], start: usize, n: usize)
    requires
        off + n <= old(buf)@.len(),
        start + n <= src@.len(),
        off + n <= usize::MAX,
        start + n <= usize::MAX,
    ensures
        final(buf)@ == splice(old(buf)@, off as int, src@.subrange(start as int, start + n)),
{
    let mut i: usize = 0;
    while i < n
        invariant
            i <= n,
            off + n <= buf@.len(),
            off + n <= usize::MAX,
            start + n <= usize::MAX,
            start + n <= src@.len(),
            buf@.len() == old(buf)@.len(),
            forall|j: int| 0 <= j < off ==> buf@[j] == old(buf)@[j],
            forall|j: int| off + n <= j < buf@.len() ==> buf@[j] == old(buf)@[j],
            forall|j: int| off <= j < off + i ==> #[trigger] buf@[j] == src@[start + (j - off)],
        decreases n - i,
    {
        buf[off + i] = src[start + i];
        i = i + 1;
    }
    assert(buf@ =~= splice(old(buf)@, off as int, src@.subrange(start as int, start + n)));
}

/// Reads one byte at `off`.
pub fn decode_u8(buf: &[u8], off: usize) -> (r: SResult<u8>)
    requires
        off <= buf@.len(),
        off + 1 <= usize::MAX,
    ensures
        off + 1 <= buf@.len() ==> r == SResult::Done((off + 1) as usize, buf@[off as int]),
        off + 1 > buf@.len() ==> r == SResult::<u8>::Needed((off + 1) as usize),
{
    if buf.len() - off < 1 {
        return SResult::Needed(off + 1);
    }
    SResult::Done(off + 1, buf[off])
}

/// Reads a big-endian `u16` at `off`.
pub fn decode_u16(buf: &[u8], off: usize) -> (r: SResult<u16>)
    requires
        off <= buf@.len(),
        off + 2 <= usize::MAX,
    ensures
        off + 2 <= buf@.len() ==> r == SResult::Done((off + 2) as usize, be16_at(buf@, off as int)),
        off + 2 > buf@.len() ==> r == SResult::<u16>::Needed((off + 2) as usize),
{
    if buf.len() - off < 2 {
        return SResult::Needed(off + 2);
    }
    SResult::Done(off + 2, u16_from_be(buf[off], buf[off + 1]))
}

} // verus!
