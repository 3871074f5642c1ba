//! 6LoWPAN header compression and decompression (RFC 6282): the LOWPAN_IPHC
//! encoding of the IPv6 header and the LOWPAN_NHC encoding of UDP and IPv6
//! extension headers.

use vstd::prelude::*;
use crate::net::stream::{be16, be16_bytes, splice, u16_hi, u16_lo, u16_from_be, copy_into, lemma_be16_roundtrip};
use vstd::arithmetic::div_mod::{lemma_add_mod_noop, lemma_mod_bound, lemma_small_mod};
use crate::net::util::{all_zero, prefix_len_valid};
use crate::net::ip6::Address;
use vstd::view::View;

verus! {

/// Values of the IPv6 Next Header field that 6LoWPAN treats specially.
pub const NH_HOP_OPTS: u8 = 0;
pub const NH_UDP: u8 = 17;
pub const NH_IP6: u8 = 41;
pub const NH_ROUTING: u8 = 43;
pub const NH_FRAGMENT: u8 = 44;
pub const NH_NO_NEXT: u8 = 59;
pub const NH_DST_OPTS: u8 = 60;
pub const NH_MOBILITY: u8 = 135;

// LOWPAN_IPHC: first byte
pub const IPHC_DISPATCH_0: u8 = 0x60;
pub const IPHC_DISPATCH_1: u8 = 0x00;
pub const IPHC_TF_TRAFFIC_CLASS: u8 = 0x08;
pub const IPHC_TF_FLOW_LABEL: u8 = 0x10;
pub const IPHC_NH: u8 = 0x04;
pub const IPHC_HLIM_MASK: u8 = 0x03;
pub const IPHC_HLIM_INLINE: u8 = 0x00;
pub const IPHC_HLIM_1: u8 = 0x01;
pub const IPHC_HLIM_64: u8 = 0x02;
pub const IPHC_HLIM_255: u8 = 0x03;

// LOWPAN_IPHC: second byte
pub const IPHC_CID: u8 = 0x80;
pub const IPHC_SAC: u8 = 0x40;
pub const IPHC_SAM_MASK: u8 = 0x30;
pub const IPHC_SAM_INLINE: u8 = 0x00;
pub const IPHC_SAM_MODE1: u8 = 0x10;
pub const IPHC_SAM_MODE2: u8 = 0x20;
pub const IPHC_SAM_MODE3: u8 = 0x30;
pub const IPHC_MULTICAST: u8 = 0x08;
pub const IPHC_DAC: u8 = 0x04;
pub const IPHC_DAM_MASK: u8 = 0x03;
pub const IPHC_DAM_INLINE: u8 = 0x00;
pub const IPHC_DAM_MODE1: u8 = 0x01;
pub const IPHC_DAM_MODE2: u8 = 0x02;
pub const IPHC_DAM_MODE3: u8 = 0x03;

/// Interface identifier 0000:00ff:fe00:XXXX used for 16-bit MAC addresses.
pub const MAC_BASE: [u8; 8] = [0, 0, 0, 0xff, 0xfe, 0, 0, 0];
pub const MAC_UL: u8 = 0x02;

// LOWPAN_NHC
pub const NHC_DISPATCH_NHC: u8 = 0xe0;
pub const NHC_DISPATCH_UDP: u8 = 0xf0;
pub const NHC_DISPATCH_MASK: u8 = 0xf0;
pub const NHC_EID_MASK: u8 = 0x0e;
pub const NHC_HOP_OPTS: u8 = 0;
pub const NHC_ROUTING: u8 = 2;
pub const NHC_FRAGMENT: u8 = 4;
pub const NHC_DST_OPTS: u8 = 6;
pub const NHC_MOBILITY: u8 = 8;
pub const NHC_IP6: u8 = 14;
pub const NHC_NH: u8 = 0x01;
pub const NHC_UDP_4BIT_PORT: u16 = 0xf0b0;
pub const NHC_UDP_4BIT_PORT_MASK: u16 = 0xfff0;
pub const NHC_UDP_8BIT_PORT: u16 = 0xf000;
pub const NHC_UDP_8BIT_PORT_MASK: u16 = 0xff00;
pub const NHC_UDP_CHECKSUM_FLAG: u8 = 0b100;
pub const NHC_UDP_SRC_PORT_FLAG: u8 = 0b010;
pub const NHC_UDP_DST_PORT_FLAG: u8 = 0b001;

/// A link-layer address: 16-bit short or 64-bit extended.
#[derive(Copy, Clone, Debug)]
pub enum MacAddr {
    ShortAddr(u16),
    LongAddr([u8; 8]),
}

/// The interface identifier derived from a MAC address, as a model.
pub open spec fn iid_of(mac: MacAddr) -> Seq<u8> {
    match mac {
        MacAddr::ShortAddr(s) => seq![0u8, 0, 0, 0xff, 0xfe, 0, (s >> 8u16) as u8, (s & 0xffu16) as u8],
        MacAddr::LongAddr(l) => l@.update(0, l@[0] ^ MAC_UL),
    }
}

/// Computes the LoWPAN Interface Identifier from either the 16-bit short MAC or
/// the IEEE EUI-64 that is derived from the 48-bit MAC.
pub fn compute_iid(mac_addr: &MacAddr) -> (r: [u8; 8])
    ensures
        r@ == iid_of(*mac_addr),
{
    match mac_addr {
        MacAddr::ShortAddr(short_addr) => {
            let mut iid: [u8; 8] = MAC_BASE;
            iid[6] = (*short_addr >> 8) as u8;
            iid[7] = (*short_addr & 0xff) as u8;
            assert(iid@ =~= iid_of(*mac_addr));
            iid
        },
        MacAddr::LongAddr(long_addr) => {
            let mut iid: [u8; 8] = *long_addr;
            iid[0] = iid[0] ^ MAC_UL;
            assert(iid@ =~= iid_of(*mac_addr));
            iid
        },
    }
}

/// Tests whether a 6LoWPAN frame payload starts with the LOWPAN_IPHC dispatch.
pub fn is_lowpan(packet: &[u8]) -> (r: bool)
    requires
        packet@.len() >= 1,
    ensures
        r == (packet@[0] & 0xe0 == 0x60),
{
    packet[0] & 0xe0 == 0x60
}

/// Whether a next header can be NHC-compressed: `Ok((true, len))` where `len`
/// is the number of header bytes after the first two (for extension headers),
/// `Ok((false, 0))` when it cannot, and `Err(())` for a truncated header.
pub open spec fn nh_compressible(next_header: u8, rest: Seq<u8>) -> Result<(bool, u8), ()> {
    if next_header == NH_IP6 || next_header == NH_UDP {
        Ok((true, 0u8))
    } else if next_header == NH_FRAGMENT || next_header == NH_HOP_OPTS || next_header == NH_ROUTING
        || next_header == NH_DST_OPTS || next_header == NH_MOBILITY {
        if next_header != NH_FRAGMENT && rest.len() < 2 {
            Err(())
        } else {
            let header_len: int = if next_header == NH_FRAGMENT {
                6
            } else {
                6 + rest[1] as int * 8
            };
            if header_len <= 255 {
                Ok((true, header_len as u8))
            } else {
                Ok((false, 0u8))
            }
        }
    } else {
        Ok((false, 0u8))
    }
}

/// Determines if the next header is LoWPAN_NHC compressible; `next_headers`
/// are the bytes starting at `off` of `buf`. See [`nh_compressible`].
pub fn is_ip6_nh_compressible(next_header: u8, buf: &[u8], off: usize) -> (r: Result<(bool, u8), ()>)
    requires
        off <= buf@.len(),
    ensures
        r == nh_compressible(next_header, buf@.subrange(off as int, buf@.len() as int)),
{
    if next_header == NH_IP6 || next_header == NH_UDP {
        Ok((true, 0))
    } else if next_header == NH_FRAGMENT || next_header == NH_HOP_OPTS || next_header == NH_ROUTING
        || next_header == NH_DST_OPTS || next_header == NH_MOBILITY {
        let mut header_len: u32 = 6;
        if next_header != NH_FRAGMENT {
            if buf.len() - off < 2 {
                return Err(());
            } else {
                header_len = header_len + (buf[off + 1] as u32) * 8;
            }
        }
        if header_len <= 255 {
            Ok((true, header_len as u8))
        } else {
            Ok((false, 0))
        }
    } else {
        Ok((false, 0))
    }
}

/// One's complement addition of 16-bit words.
pub open spec fn oc_add(a: u16, b: u16) -> u16 {
    if a as int + b as int > 0xffff {
        (a as int + b as int - 0xffff) as u16
    } else {
        (a as int + b as int) as u16
    }
}

/// Implements one's complement addition for use in calculating the UDP checksum.
pub fn ones_complement_add(a: u16, b: u16) -> (r: u16)
    ensures
        r == oc_add(a, b),
{
    let sum: u32 = a as u32 + b as u32;
    if sum > 0xffff {
        (sum - 0xffff) as u16
    } else {
        sum as u16
    }
}

/// The 16-bit words of `s` taken two bytes at a time (big-endian); an odd
/// final byte is padded with a zero low byte.
pub open spec fn words_of(s: Seq<u8>) -> Seq<u16>
    decreases s.len(),
{
    if s.len() == 0 {
        Seq::empty()
    } else if s.len() == 1 {
        seq![be16(s[0], 0)]
    } else {
        seq![be16(s[0], s[1])] + words_of(s.subrange(2, s.len() as int))
    }
}

/// One's complement sum of `words`, starting from `acc`.
pub open spec fn oc_sum(acc: u16, words: Seq<u16>) -> u16
    decreases words.len(),
{
    if words.len() == 0 {
        acc
    } else {
        oc_sum(oc_add(acc, words[0]), words.subrange(1, words.len() as int))
    }
}

/// The UDP checksum over the IPv6 pseudo-header (source and destination
/// addresses, UDP length, next header 17), the first six bytes of the UDP
/// header and the payload. A result of zero is sent as 0xffff.
pub open spec fn udp_checksum(
    src: Seq<u8>,
    dst: Seq<u8>,
    udp_header: Seq<u8>,
    udp_length: u16,
    payload: Seq<u8>,
) -> u16 {
    let words = words_of(src) + words_of(dst) + seq![udp_length, 17u16] + words_of(
        udp_header.subrange(0, 6),
    ) + words_of(payload);
    let c = oc_sum(0, words);
    if !c != 0 {
        !c
    } else {
        c
    }
}

proof fn lemma_oc_sum_append(acc: u16, a: Seq<u16>, b: Seq<u16>)
    ensures
        oc_sum(acc, a + b) == oc_sum(oc_sum(acc, a), b),
    decreases a.len(),
{
    if a.len() == 0 {
        assert(a + b =~= b);
    } else {
        assert((a + b).subrange(1, (a + b).len() as int) =~= a.subrange(1, a.len() as int) + b);
        lemma_oc_sum_append(oc_add(acc, a[0]), a.subrange(1, a.len() as int), b);
    }
}

proof fn lemma_oc_sum_single(acc: u16, w: u16)
    ensures
        oc_sum(acc, seq![w]) == oc_add(acc, w),
{
    assert(seq![w].subrange(1, 1) =~= Seq::<u16>::empty());
    reveal_with_fuel(oc_sum, 2);
}

proof fn lemma_oc_sum_pair(acc: u16, w1: u16, w2: u16)
    ensures
        oc_sum(acc, seq![w1, w2]) == oc_add(oc_add(acc, w1), w2),
{
    assert(seq![w1, w2].subrange(1, 2) =~= seq![w2]);
    lemma_oc_sum_single(oc_add(acc, w1), w2);
}

proof fn lemma_words_of_step(s: Seq<u8>, i: int)
    requires
        0 <= i,
        i + 2 <= s.len(),
        i % 2 == 0,
    ensures
        words_of(s.subrange(0, i + 2)) == words_of(s.subrange(0, i)) + seq![be16(s[i], s[i + 1])],
    decreases i,
{
    if i == 0 {
        assert(s.subrange(0, 2).subrange(2, 2) =~= Seq::<u8>::empty());
        assert(words_of(s.subrange(0, 0)) =~= Seq::<u16>::empty());
        assert(words_of(Seq::<u8>::empty()) =~= Seq::<u16>::empty());
        assert(words_of(s.subrange(0, 2)) =~= seq![be16(s[0], s[1])] + words_of(Seq::<u8>::empty()));
        assert(words_of(s.subrange(0, 2)) =~= words_of(s.subrange(0, 0)) + seq![be16(s[0], s[1])]);
    } else {
        let t = s.subrange(2, s.len() as int);
        lemma_words_of_step(t, i - 2);
        assert(s.subrange(0, i + 2).subrange(2, i + 2) =~= t.subrange(0, i));
        assert(s.subrange(0, i).subrange(2, i) =~= t.subrange(0, i - 2));
        assert(t[i - 2] == s[i]);
        assert(t[i - 1] == s[i + 1]);
        assert(words_of(s.subrange(0, i + 2)) =~= seq![be16(s[0], s[1])] + words_of(t.subrange(0, i)));
        assert(words_of(s.subrange(0, i)) =~= seq![be16(s[0], s[1])] + words_of(t.subrange(0, i - 2)));
    }
}

proof fn lemma_words_of_last(s: Seq<u8>, i: int)
    requires
        0 <= i,
        i + 1 == s.len(),
        i % 2 == 0,
    ensures
        words_of(s) == words_of(s.subrange(0, i)) + seq![be16(s[i], 0)],
    decreases i,
{
    if i == 0 {
        assert(words_of(s.subrange(0, 0)) =~= Seq::<u16>::empty());
        assert(words_of(s) =~= seq![be16(s[0], 0)]);
    } else {
        let t = s.subrange(2, s.len() as int);
        lemma_words_of_last(t, i - 2);
        assert(s.subrange(0, i).subrange(2, i) =~= t.subrange(0, i - 2));
        assert(words_of(s.subrange(0, i)) =~= seq![be16(s[0], s[1])] + words_of(t.subrange(0, i - 2)));
        assert(words_of(s) =~= seq![be16(s[0], s[1])] + words_of(t));
    }
}

/// Adds the words of `buf[start..end]` to `acc` in one's complement.
fn oc_sum_bytes(acc: u16, buf: &[u8], start: usize, end: usize) -> (r: u16)
    requires
        start <= end <= buf@.len(),
    ensures
        r == oc_sum(acc, words_of(buf@.subrange(start as int, end as int))),
{
    let ghost s = buf@.subrange(start as int, end as int);
    let mut c = acc;
    let mut i: usize = start;
    proof {
        assert(s.subrange(0, 0) =~= Seq::<u8>::empty());
        assert(words_of(Seq::<u8>::empty()) =~= Seq::<u16>::empty());
    }
    while i < end
        invariant
            start <= i <= end <= buf@.len(),
            (i - start) % 2 == 0 || i == end,
            s == buf@.subrange(start as int, end as int),
            c == oc_sum(acc, words_of(s.subrange(0, i - start))),
        decreases end - i,
    {
        let ghost k = (i - start) as int;
        if end - i >= 2 {
            let w = u16_from_be(buf[i], buf[i + 1]);
            proof {
                lemma_words_of_step(s, k);
                lemma_oc_sum_append(acc, words_of(s.subrange(0, k)), seq![w]);
                assert(seq![w].subrange(1, 1) =~= Seq::<u16>::empty());
            }
            proof {
                lemma_oc_sum_single(c, w);
            }
            c = ones_complement_add(c, w);
            i = i + 2;
        } else {
            let w = u16_from_be(buf[i], 0);
            proof {
                assert(s.subrange(0, k + 1) =~= s);
                lemma_words_of_last(s, k);
                lemma_oc_sum_append(acc, words_of(s.subrange(0, k)), seq![w]);
                assert(seq![w].subrange(1, 1) =~= Seq::<u16>::empty());
            }
            proof {
                lemma_oc_sum_single(c, w);
            }
            c = ones_complement_add(c, w);
            i = i + 1;
        }
    }
    proof {
        assert(s.subrange(0, end - start) =~= s);
    }
    c
}

/// The value a ones' complement sum comes to when its words total `n`:
/// zero only when nothing was added, else `n` folded into 1..=0xffff.
pub open spec fn oc_fold(n: int) -> int {
    if n <= 0 {
        0
    } else {
        (n - 1) % 0xffff + 1
    }
}

/// The words of `w` added as integers.
pub open spec fn word_total(w: Seq<u16>) -> int
    decreases w.len(),
{
    if w.len() == 0 {
        0
    } else {
        w[0] + word_total(w.subrange(1, w.len() as int))
    }
}

/// Folding what was folded already, with more added, is folding the whole.
proof fn lemma_oc_fold_fold(x: int, y: int)
    requires
        0 <= x,
        0 <= y,
    ensures
        oc_fold(oc_fold(x) + y) == oc_fold(x + y),
{
    if x > 0 {
        lemma_mod_bound(x - 1, 0xffff);
        lemma_add_mod_noop(x - 1, y, 0xffff);
        lemma_small_mod(y as nat % 0xffff, 0xffff);
        lemma_add_mod_noop((x - 1) % 0xffff, y, 0xffff);
        lemma_mod_bound(y, 0xffff);
        assert(((x - 1) % 0xffff) % 0xffff == (x - 1) % 0xffff) by {
            lemma_small_mod(((x - 1) % 0xffff) as nat, 0xffff);
        }
    }
}

/// One's complement addition folds the integer sum.
proof fn lemma_oc_add_fold(a: u16, b: u16)
    ensures
        oc_add(a, b) == oc_fold(a + b),
{
    let n = a + b;
    if n > 0 {
        if n <= 0xffff {
            lemma_small_mod((n - 1) as nat, 0xffff);
        } else {
            lemma_small_mod((n - 1 - 0xffff) as nat, 0xffff);
            assert((n - 1) % 0xffff == (n - 1 - 0xffff) % 0xffff) by {
                vstd::arithmetic::div_mod::lemma_mod_add_multiples_vanish(n - 1 - 0xffff, 0xffff);
            }
        }
    }
}

/// A ones' complement sum folds the total of the starting value and the
/// words.
proof fn lemma_oc_sum_fold(acc: u16, w: Seq<u16>)
    ensures
        oc_sum(acc, w) == oc_fold(acc + word_total(w)),
    decreases w.len(),
{
    if w.len() == 0 {
        lemma_oc_add_fold(acc, 0);
    } else {
        let rest = w.subrange(1, w.len() as int);
        lemma_oc_sum_fold(oc_add(acc, w[0]), rest);
        lemma_oc_add_fold(acc, w[0]);
        assert(word_total(rest) >= 0) by {
            lemma_word_total_nonneg(rest);
        }
        lemma_oc_fold_fold(acc + w[0], word_total(rest));
    }
}

proof fn lemma_word_total_nonneg(w: Seq<u16>)
    ensures
        word_total(w) >= 0,
    decreases w.len(),
{
    if w.len() > 0 {
        lemma_word_total_nonneg(w.subrange(1, w.len() as int));
    }
}

/// The words of two byte strings, the first of even length, are the words
/// of each.
proof fn lemma_words_of_concat(a: Seq<u8>, b: Seq<u8>)
    requires
        a.len() % 2 == 0,
    ensures
        words_of(a + b) == words_of(a) + words_of(b),
    decreases a.len(),
{
    if a.len() == 0 {
        assert(a + b =~= b);
        assert(words_of(a) =~= Seq::<u16>::empty());
        assert(words_of(a) + words_of(b) =~= words_of(b));
    } else {
        let t = a.subrange(2, a.len() as int);
        lemma_words_of_concat(t, b);
        assert((a + b).subrange(2, (a + b).len() as int) =~= t + b);
        assert(words_of(a + b) == seq![be16(a[0], a[1])] + words_of(t + b));
        assert(words_of(a) == seq![be16(a[0], a[1])] + words_of(t));
        assert(words_of(a + b) =~= words_of(a) + words_of(b));
    }
}

/// A receiver's check of a UDP datagram over IPv6 passes: the ones'
/// complement sum of the pseudo-header (source and destination addresses,
/// UDP length, next header 17), the UDP header carrying the checksum that
/// `udp_checksum` gives in its last two bytes, and the payload, is 0xffff.
pub proof fn lemma_udp_checksum_verifies(
    src: Seq<u8>,
    dst: Seq<u8>,
    udp_header: Seq<u8>,
    udp_length: u16,
    payload: Seq<u8>,
)
    requires
        udp_header.len() >= 6,
    ensures
        oc_sum(
            0,
            words_of(src) + words_of(dst) + seq![udp_length, 17u16] + words_of(
                udp_header.subrange(0, 6) + be16_bytes(udp_checksum(src, dst, udp_header, udp_length, payload)),
            ) + words_of(payload),
        ) == 0xffff,
{
    let c = udp_checksum(src, dst, udp_header, udp_length, payload);
    let uh = udp_header.subrange(0, 6);
    let a = words_of(src) + words_of(dst) + seq![udp_length, 17u16] + words_of(uh);
    let p = words_of(payload);
    lemma_words_of_concat(uh, be16_bytes(c));
    lemma_be16_roundtrip(c);
    let cb = be16_bytes(c);
    assert(cb.len() == 2);
    assert(cb.subrange(2, 2) =~= Seq::<u8>::empty());
    assert(words_of(cb) == seq![be16(cb[0], cb[1])] + words_of(cb.subrange(2, 2)));
    assert(words_of(Seq::<u8>::empty()) =~= Seq::<u16>::empty());
    assert(words_of(cb) =~= seq![c]);
    let lhs = words_of(src) + words_of(dst) + seq![udp_length, 17u16] + words_of(uh + cb) + p;
    assert(lhs =~= a + seq![c] + p);
    lemma_oc_sum_append(0, a + seq![c], p);
    lemma_oc_sum_append(0, a, seq![c]);
    lemma_oc_sum_append(0, a, p);
    lemma_oc_sum_single(oc_sum(0, a), c);
    lemma_oc_sum_fold(0, a);
    lemma_oc_sum_fold(0, p);
    lemma_word_total_nonneg(a);
    lemma_word_total_nonneg(p);
    let ta = word_total(a);
    let tp = word_total(p);
    // The sum the checksum complements.
    let s = oc_sum(0, a + p);
    lemma_oc_sum_fold(oc_sum(0, a), p);
    lemma_oc_fold_fold(ta, tp);
    assert(s == oc_fold(ta + tp));
    assert(!s == 0xffff - s) by (bit_vector);
    // The sum with the checksum.
    let s1 = oc_sum(0, a + seq![c]);
    lemma_oc_add_fold(oc_sum(0, a), c);
    lemma_oc_fold_fold(ta, c as int);
    assert(s1 == oc_fold(ta + c));
    lemma_oc_sum_fold(s1, p);
    lemma_oc_fold_fold(ta + c, tp);
    let n = ta + tp;
    assert(oc_sum(0, lhs) == oc_fold(n + c));
    if n == 0 {
        assert(c == 0xffff);
        lemma_small_mod(0xfffe, 0xffff);
    } else {
        lemma_mod_bound(n - 1, 0xffff);
        if s == 0xffff {
            assert(c == 0xffff);
            vstd::arithmetic::div_mod::lemma_mod_add_multiples_vanish(n - 1, 0xffff);
        } else {
            assert(c == 0xffff - s);
            assert(s == (n - 1) % 0xffff + 1);
            vstd::arithmetic::div_mod::lemma_fundamental_div_mod(n - 1, 0xffff);
            let q = (n - 1) / 0xffff;
            assert(n - 1 + c == 0xffff * q + 0xfffe) by (nonlinear_arith)
                requires
                    n - 1 == 0xffff * q + (n - 1) % 0xffff,
                    c == 0xffff - ((n - 1) % 0xffff + 1),
            ;
            vstd::arithmetic::div_mod::lemma_mod_multiples_vanish(q, 0xfffe, 0xffff);
            lemma_small_mod(0xfffe, 0xffff);
        }
    }
}

/// Computes the UDP checksum for a UDP packet sent over IPv6. The addresses
/// are read from the 40-byte IPv6 header at `ip6[ip_off..]`, the UDP header
/// from `udp[udp_off..udp_off + 6]` and the payload from `payload[pay_off..]`.
pub fn compute_udp_checksum(
    ip6: &[u8],
    ip_off: usize,
    udp: &[u8],
    udp_off: usize,
    udp_length: u16,
    payload: &[u8],
    pay_off: usize,
) -> (r: u16)
    requires
        ip_off + 40 <= ip6@.len(),
        udp_off + 6 <= udp@.len(),
        pay_off <= payload@.len(),
    ensures
        r == udp_checksum(
            ip6@.subrange(ip_off + 8, ip_off + 24),
            ip6@.subrange(ip_off + 24, ip_off + 40),
            udp@.subrange(udp_off as int, udp_off + 6),
            udp_length,
            payload@.subrange(pay_off as int, payload@.len() as int),
        ),
{
    let ghost src = ip6@.subrange(ip_off + 8, ip_off + 24);
    let ghost dst = ip6@.subrange(ip_off + 24, ip_off + 40);
    let ghost uh = udp@.subrange(udp_off as int, udp_off + 6);
    let ghost pl = payload@.subrange(pay_off as int, payload@.len() as int);
    let _ = ip6.len();
    let _ = udp.len();
    let mut checksum: u16 = 0;
    checksum = oc_sum_bytes(checksum, ip6, ip_off + 8, ip_off + 24);
    let ghost c1 = checksum;
    checksum = oc_sum_bytes(checksum, ip6, ip_off + 24, ip_off + 40);
    let ghost c2 = checksum;
    checksum = ones_complement_add(checksum, udp_length);
    checksum = ones_complement_add(checksum, NH_UDP as u16);
    let ghost c3 = checksum;
    checksum = oc_sum_bytes(checksum, udp, udp_off, udp_off + 6);
    let ghost c4 = checksum;
    checksum = oc_sum_bytes(checksum, payload, pay_off, payload.len());
    proof {
        let w1 = words_of(src);
        let w2 = words_of(dst);
        let w3 = seq![udp_length, 17u16];
        let w4 = words_of(uh.subrange(0, 6));
        let w5 = words_of(pl);
        assert(uh.subrange(0, 6) =~= uh);
        lemma_oc_sum_pair(c2, udp_length, 17u16);
        lemma_oc_sum_append(0, w1, w2);
        lemma_oc_sum_append(0, w1 + w2, w3);
        lemma_oc_sum_append(0, w1 + w2 + w3, w4);
        lemma_oc_sum_append(0, w1 + w2 + w3 + w4, w5);
    }
    if !checksum != 0 {
        !checksum
    } else {
        checksum
    }
}

/// The NHC extension identifier for an IPv6 next header value.
pub open spec fn nhc_eid(next_header: u8) -> Option<u8> {
    if next_header == NH_HOP_OPTS {
        Some(NHC_HOP_OPTS)
    } else if next_header == NH_ROUTING {
        Some(NHC_ROUTING)
    } else if next_header == NH_FRAGMENT {
        Some(NHC_FRAGMENT)
    } else if next_header == NH_DST_OPTS {
        Some(NHC_DST_OPTS)
    } else if next_header == NH_MOBILITY {
        Some(NHC_MOBILITY)
    } else if next_header == NH_IP6 {
        Some(NHC_IP6)
    } else {
        None
    }
}

/// Maps values of a IPv6 next header field to a corresponding LoWPAN
/// NHC-encoding extension ID, if that next header type is NHC-compressible.
pub fn ip6_nh_to_nhc_eid(next_header: u8) -> (r: Option<u8>)
    ensures
        r == nhc_eid(next_header),
{
    if next_header == NH_HOP_OPTS {
        Some(NHC_HOP_OPTS)
    } else if next_header == NH_ROUTING {
        Some(NHC_ROUTING)
    } else if next_header == NH_FRAGMENT {
        Some(NHC_FRAGMENT)
    } else if next_header == NH_DST_OPTS {
        Some(NHC_DST_OPTS)
    } else if next_header == NH_MOBILITY {
        Some(NHC_MOBILITY)
    } else if next_header == NH_IP6 {
        Some(NHC_IP6)
    } else {
        None
    }
}

/// The IPv6 next header value that a LoWPAN_NHC byte stands for.
pub open spec fn nhc_next_header(nhc: u8) -> Result<u8, ()> {
    if nhc & NHC_DISPATCH_MASK == NHC_DISPATCH_NHC {
        let eid = nhc & NHC_EID_MASK;
        if eid == NHC_HOP_OPTS {
            Ok(NH_HOP_OPTS)
        } else if eid == NHC_ROUTING {
            Ok(NH_ROUTING)
        } else if eid == NHC_FRAGMENT {
            Ok(NH_FRAGMENT)
        } else if eid == NHC_DST_OPTS {
            Ok(NH_DST_OPTS)
        } else if eid == NHC_MOBILITY {
            Ok(NH_MOBILITY)
        } else if eid == NHC_IP6 {
            Ok(NH_IP6)
        } else {
            Err(())
        }
    } else if nhc & NHC_DISPATCH_MASK == NHC_DISPATCH_UDP {
        Ok(NH_UDP)
    } else {
        Err(())
    }
}

/// Maps a LoWPAN_NHC header the corresponding IPv6 next header type,
/// or an error if the NHC header is invalid.
pub fn nhc_to_ip6_nh(nhc: u8) -> (r: Result<u8, ()>)
    ensures
        r == nhc_next_header(nhc),
{
    if nhc & NHC_DISPATCH_MASK == NHC_DISPATCH_NHC {
        let eid = nhc & NHC_EID_MASK;
        if eid == NHC_HOP_OPTS {
            Ok(NH_HOP_OPTS)
        } else if eid == NHC_ROUTING {
            Ok(NH_ROUTING)
        } else if eid == NHC_FRAGMENT {
            Ok(NH_FRAGMENT)
        } else if eid == NHC_DST_OPTS {
            Ok(NH_DST_OPTS)
        } else if eid == NHC_MOBILITY {
            Ok(NH_MOBILITY)
        } else if eid == NHC_IP6 {
            Ok(NH_IP6)
        } else {
            Err(())
        }
    } else if nhc & NHC_DISPATCH_MASK == NHC_DISPATCH_UDP {
        Ok(NH_UDP)
    } else {
        Err(())
    }
}


/// A compression context: an IPv6 prefix of `prefix_len` bits, its 4-bit
/// identifier, and whether it may be used for compression.
#[derive(Clone, Debug)]
pub struct Context {
    pub prefix: Vec<u8>,
    pub prefix_len: u8,
    pub id: u8,
    pub compress: bool,
}

/// The contents of a [`Context`].
pub struct ContextModel {
    pub prefix: Seq<u8>,
    pub prefix_len: u8,
    pub id: u8,
    pub compress: bool,
}

impl View for Context {
    type V = ContextModel;

    open spec fn view(&self) -> ContextModel {
        ContextModel {
            prefix: self.prefix@,
            prefix_len: self.prefix_len,
            id: self.id,
            compress: self.compress,
        }
    }
}

/// The contents of an optional context.
pub open spec fn opt_ctx(o: Option<Context>) -> Option<ContextModel> {
    match o {
        Some(c) => Some(c@),
        None => None,
    }
}

/// The 6LoWPAN compressor, which looks contexts up in a context store.
pub struct LoWPAN<'a, C: ContextStore> {
    pub ctx_store: &'a C,
}

impl<'a, C: ContextStore> LoWPAN<'a, C> {
    pub fn new(ctx_store: &'a C) -> (r: LoWPAN<'a, C>)
        ensures
            r.ctx_store == ctx_store,
    {
        LoWPAN { ctx_store: ctx_store }
    }
}

/// LoWPAN encoding requires being able to look up the existence of contexts,
/// which are essentially IPv6 address prefixes. Any implementation must ensure
/// that context 0 is always available and contains the mesh-local prefix.
pub trait ContextStore {
    /// The context the store gives for an address.
    spec fn context_for_addr(&self, addr: Seq<u8>) -> Option<ContextModel>;

    /// The context the store gives for an identifier.
    spec fn context_for_id(&self, id: u8) -> Option<ContextModel>;

    /// The context the store gives for a prefix of `prefix_len` bits.
    spec fn context_for_prefix(&self, prefix: Seq<u8>, prefix_len: u8) -> Option<ContextModel>;

    fn get_context_from_addr(&self, ip_addr: Address) -> (r: Option<Context>)
        ensures
            opt_ctx(r) == self.context_for_addr(ip_addr.0@),
    ;

    fn get_context_from_id(&self, ctx_id: u8) -> (r: Option<Context>)
        ensures
            opt_ctx(r) == self.context_for_id(ctx_id),
    ;

    /// Context 0, which every store must hold.
    fn get_context_0(&self) -> (r: Context)
        requires
            self.context_for_id(0) is Some,
        ensures
            r@ == self.context_for_id(0).unwrap(),
    {
        match self.get_context_from_id(0) {
            Some(ctx) => ctx,
            None => Context { prefix: Vec::new(), prefix_len: 0, id: 0, compress: false },
        }
    }

    fn get_context_from_prefix(&self, prefix: &[u8], prefix_len: u8) -> (r: Option<Context>)
        ensures
            opt_ctx(r) == self.context_for_prefix(prefix@, prefix_len),
    ;
}

} // verus!
