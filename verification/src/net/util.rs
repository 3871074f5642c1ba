//! Small helpers shared by the networking layers: big-endian slice access,
//! zero tests and IPv6 prefix comparison.

use vstd::prelude::*;
use crate::net::stream::{be16, be16_bytes, splice, u16_hi, u16_lo, u16_from_be};

verus! {

/// Reads a big-endian `u16` from `buf[off..off + 2]`.
pub fn slice_to_u16(buf: &[u8], off: usize) -> (r: u16)
    requires
        off + 2 <= buf@.len(),
    ensures
        r == be16(buf@[off as int], buf@[off + 1]),
{
    u16_from_be(buf[off], buf[off + 1])
}

/// Writes `num` in big-endian order into `buf[off..off + 2]`.
pub fn u16_to_slice(num: u16, buf: &mut [u8], off: usize)
    requires
        off + 2 <= old(buf)@.len(),
    ensures
        final(buf)@ == splice(old(buf)@, off as int, be16_bytes(num)),
{
    buf[off] = u16_hi(num);
    buf[off + 1] = u16_lo(num);
    assert(buf@ =~= splice(old(buf)@, off as int, be16_bytes(num)));
}

/// True iff all bytes of `s[start..end]` are zero.
pub open spec fn all_zero(s: Seq<u8>, start: int, end: int) -> bool {
    forall|i: int| start <= i < end ==> s[i] == 0
}

/// Tests whether `buf[start..end]` consists of zero bytes only.
pub fn is_zero(buf: &[u8], start: usize, end: usize) -> (r: bool)
    requires
        start <= end <= buf@.len(),
    ensures
        r == all_zero(buf@, start as int, end as int),
{
    let mut i = start;
    while i < end
        invariant
            start <= i <= end <= buf@.len(),
            all_zero(buf@, start as int, i as int),
        decreases end - i,
    {
        if buf[i] != 0 {
            return false;
        }
        i = i + 1;
    }
    true
}

/// Number of whole bytes covered by a prefix of `prefix_len` bits.
pub open spec fn full_bytes(prefix_len: u8) -> int {
    prefix_len as int / 8
}

/// Number of bytes touched by a prefix of `prefix_len` bits.
pub open spec fn prefix_bytes(prefix_len: u8) -> int {
    prefix_len as int / 8 + if prefix_len % 8 != 0 { 1int } else { 0int }
}

/// Mask selecting the `bits` most significant bits of a byte.
pub open spec fn high_mask(bits: u8) -> u8 {
    (0xffu8 << (8 - bits) as u8) as u8
}

/// Mask selecting the `8 - bits` least significant bits of a byte.
pub open spec fn low_mask(bits: u8) -> u8 {
    (0xffu8 >> bits) as u8
}

/// The first `prefix_len` bits of `a` and `b` agree, and both cover them.
pub open spec fn prefix_matches(a: Seq<u8>, b: Seq<u8>, prefix_len: u8) -> bool {
    &&& prefix_bytes(prefix_len) <= a.len()
    &&& prefix_bytes(prefix_len) <= b.len()
    &&& prefix_len % 8 != 0 ==> (a[full_bytes(prefix_len)] ^ b[full_bytes(prefix_len)]) & high_mask(
        prefix_len % 8,
    ) == 0
    &&& a.subrange(0, full_bytes(prefix_len)) == b.subrange(0, full_bytes(prefix_len))
}

/// `prefix` covers `prefix_len` bits and every bit after them is zero.
pub open spec fn prefix_len_valid(prefix: Seq<u8>, prefix_len: u8) -> bool {
    &&& prefix_bytes(prefix_len) <= prefix.len()
    &&& prefix_len % 8 != 0 ==> prefix[full_bytes(prefix_len)] & low_mask(prefix_len % 8) == 0
    &&& all_zero(prefix, prefix_bytes(prefix_len), prefix.len() as int)
}

/// Tests whether the first `prefix_len` bits of `buf1` and `buf2` are equal.
/// Returns `false` when either buffer is too short to hold the prefix.
pub fn matches_prefix(buf1: &[u8], buf2: &[u8], prefix_len: u8) -> (r: bool)
    ensures
        r == prefix_matches(buf1@, buf2@, prefix_len),
{
    let full: usize = (prefix_len / 8) as usize;
    let remaining: u8 = prefix_len % 8;
    let bytes: usize = full + if remaining != 0 { 1 } else { 0 };
    if bytes > buf1.len() || bytes > buf2.len() {
        return false;
    }
    if remaining != 0 {
        let mask: u8 = 0xff << (8 - remaining);
        if (buf1[full] ^ buf2[full]) & mask != 0 {
            return false;
        }
    }
    let mut i: usize = 0;
    while i < full
        invariant
            i <= full <= buf1@.len(),
            full <= buf2@.len(),
            full == prefix_len as int / 8,
            forall|j: int| 0 <= j < i ==> buf1@[j] == buf2@[j],
        decreases full - i,
    {
        if buf1[i] != buf2[i] {
            assert(buf1@.subrange(0, full as int)[i as int] == buf1@[i as int]);
            assert(buf2@.subrange(0, full as int)[i as int] == buf2@[i as int]);
            assert(buf1@.subrange(0, full as int) != buf2@.subrange(0, full as int));
            return false;
        }
        i = i + 1;
    }
    assert(buf1@.subrange(0, full as int) =~= buf2@.subrange(0, full as int));
    true
}

/// Tests whether `prefix` is a valid encoding of a `prefix_len`-bit prefix:
/// it must hold enough bytes, and all bits after the prefix must be zero.
pub fn verify_prefix_len(prefix: &[u8], prefix_len: u8) -> (r: bool)
    ensures
        r == prefix_len_valid(prefix@, prefix_len),
{
    let full: usize = (prefix_len / 8) as usize;
    let remaining: u8 = prefix_len % 8;
    let bytes: usize = full + if remaining != 0 { 1 } else { 0 };
    if bytes > prefix.len() {
        return false;
    }
    if remaining != 0 {
        let mask: u8 = 0xff >> remaining;
        if prefix[full] & mask != 0 {
            return false;
        }
    }
    is_zero(prefix, bytes, prefix.len())
}

} // verus!
