//! LOWPAN_IPHC / LOWPAN_NHC compression of an IPv6 datagram's headers.

use vstd::prelude::*;
use crate::net::stream::{be16, be16_bytes, splice, u16_hi, u16_lo, u16_from_be, copy_into};
use crate::net::util::{all_zero, prefix_len_valid, verify_prefix_len, is_zero};
use crate::net::ip6::{Address, is_link_local_bytes};
use crate::net::lowpan::{
    ContextModel, ContextStore, Context, MacAddr, LoWPAN, opt_ctx, iid_of, compute_iid,
    nh_compressible, is_ip6_nh_compressible, nhc_eid, ip6_nh_to_nhc_eid, NH_HOP_OPTS, NH_UDP,
    NH_IP6, NH_FRAGMENT, NH_DST_OPTS, IPHC_DISPATCH_0, IPHC_DISPATCH_1, IPHC_TF_TRAFFIC_CLASS,
    IPHC_TF_FLOW_LABEL, IPHC_NH, IPHC_HLIM_INLINE, IPHC_HLIM_1, IPHC_HLIM_64, IPHC_HLIM_255,
    IPHC_CID, IPHC_SAC, IPHC_SAM_MODE1, IPHC_SAM_MODE2, IPHC_SAM_MODE3, IPHC_MULTICAST,
    IPHC_DAC, IPHC_DAM_INLINE, IPHC_DAM_MODE1, IPHC_DAM_MODE2, IPHC_DAM_MODE3, MAC_BASE,
    NHC_DISPATCH_NHC, NHC_DISPATCH_UDP, NHC_IP6, NHC_NH, NHC_UDP_4BIT_PORT,
    NHC_UDP_4BIT_PORT_MASK, NHC_UDP_8BIT_PORT, NHC_UDP_8BIT_PORT_MASK, NHC_UDP_SRC_PORT_FLAG,
    NHC_UDP_DST_PORT_FLAG,
};

verus! {

/// Outcome of compressing (or decompressing) headers: `Done(consumed, buf,
/// offset)` with the number of input bytes consumed, the resulting buffer and
/// the offset reached in it; `Fail(buf)` for invalid input, with the buffer as
/// left behind; `Stuck` for inputs on which the operation would index out of
/// bounds.
pub enum Outcome {
    Done(int, Seq<u8>, int),
    Fail(Seq<u8>),
    Stuck,
}

/// Contexts not marked for compression are not used.
pub open spec fn ctx_filter(o: Option<ContextModel>) -> Option<ContextModel> {
    match o {
        Some(c) => if c.compress {
            Some(c)
        } else {
            None
        },
        None => None,
    }
}

/// The context looked up for a destination address: by the prefix embedded in
/// a multicast address (when that prefix is validly encoded), else by address.
pub open spec fn dst_ctx_lookup<C: ContextStore>(store: &C, dst: Seq<u8>) -> Option<ContextModel> {
    if dst[0] == 0xff {
        if prefix_len_valid(dst.subrange(4, 12), dst[3]) {
            store.context_for_prefix(dst.subrange(4, 12), dst[3])
        } else {
            None
        }
    } else {
        store.context_for_addr(dst)
    }
}

/// ECN of the IPv6 header bytes `h`.
pub open spec fn hdr_ecn(h: Seq<u8>) -> u8 {
    ((h[1] >> 4u8) & 3u8) as u8
}

/// DSCP of the IPv6 header bytes `h`.
pub open spec fn hdr_dscp(h: Seq<u8>) -> u8 {
    (((h[0] & 0x0fu8) << 2u8) | (h[1] >> 6u8)) as u8
}

/// Flow label of the IPv6 header bytes `h`.
pub open spec fn hdr_flow(h: Seq<u8>) -> u32 {
    ((((h[1] & 0x0fu8) as u32) << 16u32) | ((h[2] as u32) << 8u32) | (h[3] as u32)) as u32
}

/// Context identifier extension: second-byte flag and inline byte.
#[verifier::opaque]
pub open spec fn cie_part(sc: Option<ContextModel>, dc: Option<ContextModel>) -> (u8, Seq<u8>) {
    let s: u8 = match sc {
        Some(c) => if c.id != 0 {
            (c.id << 4u8) as u8
        } else {
            0
        },
        None => 0,
    };
    let d: u8 = match dc {
        Some(c) => if c.id != 0 {
            c.id
        } else {
            0
        },
        None => 0,
    };
    let cie = (s | d) as u8;
    if cie != 0 {
        (IPHC_CID, seq![cie])
    } else {
        (0u8, Seq::empty())
    }
}

/// Traffic class and flow label: first-byte flags and inline bytes.
#[verifier::opaque]
pub open spec fn tf_part(ecn: u8, dscp: u8, flow: u32) -> (u8, Seq<u8>) {
    let tc_elided = dscp == 0 && (ecn == 0 || flow != 0);
    let fl_elided = flow == 0;
    let a: Seq<u8> = if tc_elided {
        Seq::empty()
    } else {
        seq![dscp]
    };
    let b: Seq<u8> = if fl_elided {
        Seq::empty()
    } else {
        seq![((flow >> 16u32) & 0x0fu32) as u8, (flow >> 8u32) as u8, flow as u8]
    };
    let raw = a + b;
    let bytes = if raw.len() > 0 {
        raw.update(0, (raw[0] | (ecn << 6u8)) as u8)
    } else {
        raw
    };
    let f: u8 = ((if tc_elided {
        IPHC_TF_TRAFFIC_CLASS
    } else {
        0u8
    }) | (if fl_elided {
        IPHC_TF_FLOW_LABEL
    } else {
        0u8
    })) as u8;
    (f, bytes)
}

/// Next header: carried inline unless it is NHC-compressed.
pub open spec fn nh_part(is_nhc: bool, nh: u8) -> (u8, Seq<u8>) {
    if is_nhc {
        (IPHC_NH, Seq::empty())
    } else {
        (0u8, seq![nh])
    }
}

/// Hop limit: 1, 64 and 255 are encoded in the flags, others inline.
pub open spec fn hl_part(hl: u8) -> (u8, Seq<u8>) {
    if hl == 1 {
        (IPHC_HLIM_1, Seq::empty())
    } else if hl == 64 {
        (IPHC_HLIM_64, Seq::empty())
    } else if hl == 255 {
        (IPHC_HLIM_255, Seq::empty())
    } else {
        (IPHC_HLIM_INLINE, seq![hl])
    }
}

/// The 0000:00ff:fe00 prefix of an interface identifier built from a short
/// MAC address.
pub open spec fn mac_base_6() -> Seq<u8> {
    seq![0u8, 0, 0, 0xff, 0xfe, 0]
}

/// Interface identifier compression of address `a` against `mac`.
#[verifier::opaque]
pub open spec fn iid_part(a: Seq<u8>, mac: MacAddr, is_src: bool) -> (u8, Seq<u8>) {
    if a.subrange(8, 16) == iid_of(mac) {
        (if is_src {
            IPHC_SAM_MODE3
        } else {
            IPHC_DAM_MODE3
        }, Seq::empty())
    } else if a.subrange(8, 14) == mac_base_6() {
        (if is_src {
            IPHC_SAM_MODE2
        } else {
            IPHC_DAM_MODE2
        }, a.subrange(14, 16))
    } else {
        (if is_src {
            IPHC_SAM_MODE1
        } else {
            IPHC_DAM_MODE1
        }, a.subrange(8, 16))
    }
}

/// Source address compression.
#[verifier::opaque]
pub open spec fn src_part(a: Seq<u8>, mac: MacAddr, sc: Option<ContextModel>) -> (u8, Seq<u8>) {
    if all_zero(a, 0, 16) {
        (IPHC_SAC, Seq::empty())
    } else if is_link_local_bytes(a) {
        iid_part(a, mac, true)
    } else if sc is Some {
        ((IPHC_SAC | iid_part(a, mac, true).0) as u8, iid_part(a, mac, true).1)
    } else {
        (0u8, a)
    }
}

/// Compression of a destination address that is not multicast.
#[verifier::opaque]
pub open spec fn dst_part(a: Seq<u8>, mac: MacAddr, dc: Option<ContextModel>) -> (u8, Seq<u8>) {
    if is_link_local_bytes(a) {
        iid_part(a, mac, false)
    } else if dc is Some {
        ((IPHC_DAC | iid_part(a, mac, false).0) as u8, iid_part(a, mac, false).1)
    } else {
        (0u8, a)
    }
}

/// Compression of a multicast destination address.
#[verifier::opaque]
pub open spec fn mcast_part(a: Seq<u8>, dc: Option<ContextModel>) -> (u8, Seq<u8>) {
    if dc is Some {
        ((IPHC_MULTICAST | IPHC_DAC) as u8, a.subrange(1, 3) + a.subrange(12, 16))
    } else if a[1] == 0x02 && all_zero(a, 2, 15) {
        ((IPHC_MULTICAST | IPHC_DAM_MODE3) as u8, seq![a[15]])
    } else if !all_zero(a, 2, 11) {
        ((IPHC_MULTICAST | IPHC_DAM_INLINE) as u8, a)
    } else if !all_zero(a, 11, 13) {
        ((IPHC_MULTICAST | IPHC_DAM_MODE1) as u8, seq![a[1]] + a.subrange(11, 16))
    } else {
        ((IPHC_MULTICAST | IPHC_DAM_MODE2) as u8, seq![a[1]] + a.subrange(13, 16))
    }
}

/// Destination address compression.
#[verifier::opaque]
pub open spec fn dest_part(a: Seq<u8>, mac: MacAddr, dc: Option<ContextModel>) -> (u8, Seq<u8>) {
    if a[0] == 0xff {
        mcast_part(a, dc)
    } else {
        dst_part(a, mac, dc)
    }
}

/// The compressed header written before the next header is examined.
#[verifier::opaque]
pub open spec fn iphc_stage1(h: Seq<u8>, sc: Option<ContextModel>, dc: Option<ContextModel>) -> Seq<
    u8,
> {
    let (fc, cie) = cie_part(sc, dc);
    let (ftf, tf) = tf_part(hdr_ecn(h), hdr_dscp(h), hdr_flow(h));
    seq![(IPHC_DISPATCH_0 | ftf) as u8, (IPHC_DISPATCH_1 | fc) as u8] + cie + tf
}

/// The complete LOWPAN_IPHC header for the IPv6 header bytes `h`.
#[verifier::opaque]
pub open spec fn iphc_header(
    h: Seq<u8>,
    smac: MacAddr,
    dmac: MacAddr,
    sc: Option<ContextModel>,
    dc: Option<ContextModel>,
    is_nhc: bool,
) -> Seq<u8> {
    let (fc, cie) = cie_part(sc, dc);
    let (ftf, tf) = tf_part(hdr_ecn(h), hdr_dscp(h), hdr_flow(h));
    let (fnh, nhb) = nh_part(is_nhc, h[6]);
    let (fhl, hlb) = hl_part(h[7]);
    let (fs, sb) = src_part(h.subrange(8, 24), smac, sc);
    let (fd, db) = dest_part(h.subrange(24, 40), dmac, dc);
    seq![
        (IPHC_DISPATCH_0 | ftf | fnh | fhl) as u8,
        (IPHC_DISPATCH_1 | fc | fs | fd) as u8,
    ] + cie + tf + nhb + hlb + sb + db
}

/// Splicing data that fits keeps the length of a sequence.
pub proof fn lemma_splice_len(s: Seq<u8>, off: int, data: Seq<u8>)
    requires
        0 <= off,
        off + data.len() <= s.len(),
    ensures
        splice(s, off, data).len() == s.len(),
{
}

/// Compressing UDP ports keeps the buffer length and advances the offset.
pub proof fn lemma_udp_ports_bounds(src: u16, dst: u16, buf: Seq<u8>, p: int)
    requires
        0 <= p,
    ensures
        udp_ports_spec(src, dst, buf, p) matches Some((b, f, q)) ==> b.len() == buf.len() && p < q
            <= buf.len(),
{
}

/// The complete IPHC header is the first-stage header, with the remaining
/// flags ORed into its two flag bytes, followed by the remaining fields.
pub proof fn lemma_iphc_header_shape(
    h: Seq<u8>,
    smac: MacAddr,
    dmac: MacAddr,
    sc: Option<ContextModel>,
    dc: Option<ContextModel>,
    is_nhc: bool,
)
    ensures
        ({
            let s1 = iphc_stage1(h, sc, dc);
            let p_nh = nh_part(is_nhc, h[6]);
            let p_hl = hl_part(h[7]);
            let p_s = src_part(h.subrange(8, 24), smac, sc);
            let p_d = dest_part(h.subrange(24, 40), dmac, dc);
            &&& s1.len() >= 2
            &&& iphc_header(h, smac, dmac, sc, dc, is_nhc) == (s1 + ((p_nh.1 + p_hl.1) + (p_s.1
                + p_d.1))).update(0, (s1[0] | (p_nh.0 | p_hl.0)) as u8).update(
                1,
                (s1[1] | (p_s.0 | p_d.0)) as u8,
            )
        }),
{
    reveal(iphc_header);
    reveal(iphc_stage1);
    let s1 = iphc_stage1(h, sc, dc);
    let p_nh = nh_part(is_nhc, h[6]);
    let p_hl = hl_part(h[7]);
    let p_s = src_part(h.subrange(8, 24), smac, sc);
    let p_d = dest_part(h.subrange(24, 40), dmac, dc);
    let (a, b, c, e, f, g) = (s1[0], p_nh.0, p_hl.0, s1[1], p_s.0, p_d.0);
    assert(((a | b) | c) == (a | (b | c)) && ((e | f) | g) == (e | (f | g))) by (bit_vector);
    assert(iphc_header(h, smac, dmac, sc, dc, is_nhc) =~= (s1 + ((p_nh.1 + p_hl.1) + (p_s.1
        + p_d.1))).update(0, (s1[0] | (p_nh.0 | p_hl.0)) as u8).update(
        1,
        (s1[1] | (p_s.0 | p_d.0)) as u8,
    ));
}

/// Writing the remaining fields after the first-stage header and ORing
/// flags into its two flag bytes yields the spliced complete header.
pub proof fn lemma_stage2_buf(
    old_buf: Seq<u8>,
    b0: int,
    s1: Seq<u8>,
    rest1: Seq<u8>,
    rest2: Seq<u8>,
    f0: u8,
    f1: u8,
)
    requires
        0 <= b0,
        s1.len() >= 2,
        b0 + s1.len() + rest1.len() + rest2.len() <= old_buf.len(),
        old_buf.subrange(b0, b0 + s1.len()) == s1,
    ensures
        ({
            let b = splice(
                splice(old_buf, b0 + s1.len(), rest1),
                b0 + s1.len() + rest1.len(),
                rest2,
            );
            &&& b.len() == old_buf.len()
            &&& b[b0] == s1[0]
            &&& b[b0 + 1] == s1[1]
            &&& b.update(b0, (b[b0] | f0) as u8).update(b0 + 1, (b[b0 + 1] | f1) as u8)
                == splice(
                old_buf,
                b0,
                (s1 + (rest1 + rest2)).update(0, (s1[0] | f0) as u8).update(1, (s1[1] | f1) as u8),
            )
        }),
{
    let b = splice(splice(old_buf, b0 + s1.len(), rest1), b0 + s1.len() + rest1.len(), rest2);
    assert(old_buf[b0] == old_buf.subrange(b0, b0 + s1.len())[0]);
    assert(old_buf[b0 + 1] == old_buf.subrange(b0, b0 + s1.len())[1]);
    assert(b.update(b0, (b[b0] | f0) as u8).update(b0 + 1, (b[b0 + 1] | f1) as u8) =~= splice(
        old_buf,
        b0,
        (s1 + (rest1 + rest2)).update(0, (s1[0] | f0) as u8).update(1, (s1[1] | f1) as u8),
    ));
}

/// Scan of the options of a hop-by-hop or destination options header of
/// `total` bytes starting at `d[pos]`, from option offset `oo`: returns where
/// the trailing padding starts and whether the header ends in a single Pad1 or
/// PadN option.
pub open spec fn pad_scan(d: Seq<u8>, pos: int, total: int, oo: int, prev_pad: bool) -> (int, bool)
    decreases (if oo < total {
        total - oo
    } else {
        0
    }),
{
    if oo >= total {
        (oo, false)
    } else {
        let t = d[pos + oo];
        if oo == total - 1 {
            (oo, !prev_pad && t == 0)
        } else if t == 0 {
            pad_scan(d, pos, total, oo + 1, true)
        } else {
            let nw = oo + d[pos + oo + 1] + 2;
            if nw == total {
                (oo, t == 1 && !prev_pad)
            } else {
                pad_scan(d, pos, total, nw, t == 1)
            }
        }
    }
}

/// Number of option bytes of an extension header that are copied into the
/// compressed header: trailing padding of an 8-octet aligned hop-by-hop or
/// destination options header is elided.
pub open spec fn elide_count(d: Seq<u8>, pos: int, nh_type: u8, nh_len: u8) -> int {
    let total = nh_len + 2;
    if (nh_type == NH_HOP_OPTS || nh_type == NH_DST_OPTS) && total % 8 == 0 {
        let (oo, is_pad) = pad_scan(d, pos, total, 2, false);
        if is_pad {
            oo - 2
        } else {
            nh_len as int
        }
    } else {
        nh_len as int
    }
}

/// Compressed UDP port bytes (written at offset `p` of `buf`), the port flags
/// and the offset after them; `None` when a write falls outside `buf`.
pub open spec fn udp_ports_spec(src: u16, dst: u16, buf: Seq<u8>, p: int) -> Option<(Seq<u8>, u8, int)> {
    if (src & NHC_UDP_4BIT_PORT_MASK) == NHC_UDP_4BIT_PORT && (dst & NHC_UDP_4BIT_PORT_MASK)
        == NHC_UDP_4BIT_PORT {
        if p + 1 > buf.len() {
            None
        } else {
            Some(
                (
                    splice(buf, p, seq![((((src & 0x000fu16) << 4u16) | (dst & 0x000fu16)) as u8)]),
                    (NHC_UDP_SRC_PORT_FLAG | NHC_UDP_DST_PORT_FLAG) as u8,
                    p + 1,
                ),
            )
        }
    } else if (src & NHC_UDP_8BIT_PORT_MASK) == NHC_UDP_8BIT_PORT {
        if p + 3 > buf.len() {
            None
        } else {
            Some(
                (
                    splice(buf, p, seq![(src & 0x00ffu16) as u8] + be16_bytes(dst)),
                    NHC_UDP_SRC_PORT_FLAG,
                    p + 3,
                ),
            )
        }
    } else if (dst & NHC_UDP_8BIT_PORT_MASK) == NHC_UDP_8BIT_PORT {
        if p + 3 > buf.len() {
            None
        } else {
            Some(
                (
                    splice(buf, p, be16_bytes(src) + seq![(dst & 0x00ffu16) as u8]),
                    NHC_UDP_DST_PORT_FLAG,
                    p + 3,
                ),
            )
        }
    } else {
        if p + 4 > buf.len() {
            None
        } else {
            Some((splice(buf, p, be16_bytes(src) + be16_bytes(dst)), 0u8, p + 4))
        }
    }
}

/// LOWPAN_NHC compression of a UDP header at `d[pos..pos + 8]`, with the NHC
/// byte at `buf[off]`.
pub open spec fn udp_spec(d: Seq<u8>, dp: int, pos: int, buf: Seq<u8>, off: int) -> Outcome {
    if pos + 8 > d.len() {
        Outcome::Stuck
    } else {
        let src = be16(d[pos], d[pos + 1]);
        let dst = be16(d[pos + 2], d[pos + 3]);
        match udp_ports_spec(src, dst, buf, off + 1) {
            None => Outcome::Stuck,
            Some((b1, flags, q)) => {
                if q + 2 > buf.len() {
                    Outcome::Stuck
                } else {
                    let b2 = splice(b1, q, seq![d[pos + 6], d[pos + 7]]);
                    Outcome::Done(
                        pos + 8 - dp,
                        b2.update(off, (NHC_DISPATCH_UDP | flags) as u8),
                        q + 2,
                    )
                }
            },
        }
    }
}

/// Result of compressing one extension header: the next header's type,
/// compressibility and length, the buffer and offset reached, and the
/// position of the next header in the datagram.
pub enum ExtStep {
    Next(u8, bool, u8, Seq<u8>, int, int),
    Fail(Seq<u8>),
    Stuck,
}

/// LOWPAN_NHC compression of the extension header of type `nh_type` at
/// `d[pos..]`, with `nh_len` bytes after its first two, into `buf` at `off`.
pub open spec fn ext_step_spec(d: Seq<u8>, pos: int, nh_type: u8, nh_len: u8, buf: Seq<u8>, off: int) -> ExtStep {
    let nno = 2 + nh_len;
    if pos < 0 || off < 0 || pos >= d.len() || pos + nno > d.len() {
        ExtStep::Stuck
    } else {
        match nh_compressible(d[pos], d.subrange(pos + nno, d.len() as int)) {
            Err(_) => ExtStep::Fail(buf),
            Ok((next_is_nhc, next_nh_len)) => {
                let hb = (NHC_DISPATCH_NHC | nhc_eid(nh_type).unwrap() | (if next_is_nhc {
                    NHC_NH
                } else {
                    0u8
                })) as u8;
                let n = elide_count(d, pos, nh_type, nh_len);
                if off + 2 + n > buf.len() {
                    ExtStep::Stuck
                } else {
                    let b1 = buf.update(off, hb);
                    let b2 = if nh_type != NH_FRAGMENT {
                        b1.update(off + 1, nh_len)
                    } else {
                        b1
                    };
                    let b3 = splice(b2, off + 2, d.subrange(pos + 2, pos + 2 + n));
                    ExtStep::Next(d[pos], next_is_nhc, next_nh_len, b3, off + 2 + n, pos + nno)
                }
            },
        }
    }
}

/// Compression of the headers of the IPv6 datagram at `d[dp..]` into `buf`
/// starting at `b0`.
#[verifier::opaque]
pub open spec fn compress_spec<C: ContextStore>(
    store: &C,
    d: Seq<u8>,
    dp: int,
    smac: MacAddr,
    dmac: MacAddr,
    buf: Seq<u8>,
    b0: int,
) -> Outcome
    decreases d.len() - dp, 0int,
{
    if dp < 0 || dp + 40 > d.len() || b0 < 0 {
        Outcome::Stuck
    } else {
        let h = d.subrange(dp, dp + 40);
        let sc = ctx_filter(store.context_for_addr(h.subrange(8, 24)));
        let dc = ctx_filter(dst_ctx_lookup(store, h.subrange(24, 40)));
        let s1 = iphc_stage1(h, sc, dc);
        if b0 + s1.len() > buf.len() {
            Outcome::Stuck
        } else {
            match nh_compressible(h[6], d.subrange(dp + 40, d.len() as int)) {
                Err(_) => Outcome::Fail(splice(buf, b0, s1)),
                Ok((is_nhc, nh_len)) => {
                    let hdr = iphc_header(h, smac, dmac, sc, dc, is_nhc);
                    if b0 + hdr.len() > buf.len() {
                        Outcome::Stuck
                    } else {
                        nhc_spec(
                            store,
                            d,
                            dp,
                            dp + 40,
                            h[6],
                            is_nhc,
                            nh_len,
                            smac,
                            dmac,
                            splice(buf, b0, hdr),
                            b0 + hdr.len(),
                        )
                    }
                },
            }
        }
    }
}

/// Compression of the chain of next headers starting at `d[pos]`, of type
/// `nh_type`, into `buf` at `off`.
#[verifier::opaque]
pub open spec fn nhc_spec<C: ContextStore>(
    store: &C,
    d: Seq<u8>,
    dp: int,
    pos: int,
    nh_type: u8,
    is_nhc: bool,
    nh_len: u8,
    smac: MacAddr,
    dmac: MacAddr,
    buf: Seq<u8>,
    off: int,
) -> Outcome
    decreases d.len() - pos, 1int,
{
    if !is_nhc {
        Outcome::Done(pos - dp, buf, off)
    } else if pos <= dp || pos > d.len() || off < 0 {
        Outcome::Stuck
    } else if nh_type == NH_IP6 {
        if off >= buf.len() {
            Outcome::Stuck
        } else {
            match compress_spec(
                store,
                d,
                pos,
                smac,
                dmac,
                buf.update(off, (NHC_DISPATCH_NHC | NHC_IP6) as u8),
                off + 1,
            ) {
                Outcome::Done(c, b, o) => Outcome::Done(pos - dp + c, b, o),
                other => other,
            }
        }
    } else if nh_type == NH_UDP {
        udp_spec(d, dp, pos, buf, off)
    } else if nhc_eid(nh_type) is Some && nh_type != NH_IP6 {
        match ext_step_spec(d, pos, nh_type, nh_len, buf, off) {
            ExtStep::Next(next_type, next_is_nhc, next_nh_len, b, o, p) => nhc_spec(
                store,
                d,
                dp,
                p,
                next_type,
                next_is_nhc,
                next_nh_len,
                smac,
                dmac,
                b,
                o,
            ),
            ExtStep::Fail(b) => Outcome::Fail(b),
            ExtStep::Stuck => Outcome::Stuck,
        }
    } else {
        Outcome::Stuck
    }
}


/// Whether a compression or decompression result `r`, with the buffer left as
/// `b`, is the one the outcome `o` describes (offsets relative to `b0`).
pub open spec fn result_matches(r: Result<(usize, usize), ()>, b: Seq<u8>, o: Outcome, b0: int) -> bool {
    match o {
        Outcome::Done(c, bb, off) => r == Ok::<(usize, usize), ()>((c as usize, (off - b0) as usize)) && b
            == bb,
        Outcome::Fail(bb) => r == Err::<(usize, usize), ()>(()) && b == bb,
        Outcome::Stuck => false,
    }
}

/// Writes one byte at `*off` and advances it.
fn put_u8(buf: &mut [u8], off: &mut usize, b: u8)
    requires
        *old(off) + 1 <= old(buf)@.len(),
    ensures
        final(buf)@ == splice(old(buf)@, *old(off) as int, seq![b]),
        *final(off) == *old(off) + 1,
{
    buf[*off] = b;
    assert(buf@ =~= splice(old(buf)@, *old(off) as int, seq![b]));
    *off = *off + 1;
}

/// Copies `src[start..start + n]` to `*off` and advances it.
fn put_from(buf: &mut [u8], off: &mut usize, src: &[u8], start: usize, n: usize)
    requires
        *old(off) + n <= old(buf)@.len(),
        start + n <= src@.len(),
    ensures
        final(buf)@ == splice(old(buf)@, *old(off) as int, src@.subrange(start as int, start + n)),
        *final(off) == *old(off) + n,
{
    let _ = buf.len();
    let _ = src.len();
    copy_into(buf, *off, src, start, n);
    *off = *off + n;
}

/// Copies 16 bytes of the IPv6 address at `d[off..off + 16]`.
fn addr_at(d: &[u8], off: usize) -> (r: Address)
    requires
        off + 16 <= d@.len(),
    ensures
        r.0@ == d@.subrange(off as int, off + 16),
{
    let _ = d.len();
    let mut a = [0u8; 16];
    let mut i: usize = 0;
    while i < 16
        invariant
            i <= 16,
            off + 16 <= d@.len(),
            off + 16 <= usize::MAX,
            forall|j: int| 0 <= j < i ==> #[trigger] a@[j] == d@[off + j],
        decreases 16 - i,
    {
        a[i] = d[off + i];
        i = i + 1;
    }
    assert(a@ =~= d@.subrange(off as int, off + 16));
    Address(a)
}

/// Drops a context that is not marked for compression.
fn filter_ctx(o: Option<Context>) -> (r: Option<Context>)
    ensures
        opt_ctx(r) == ctx_filter(opt_ctx(o)),
{
    match o {
        Some(c) => if c.compress {
            Some(c)
        } else {
            None
        },
        None => None,
    }
}

/// Tests whether `a[start..start + n]` equals `b[bstart..bstart + n]`.
fn bytes_eq(a: &[u8], start: usize, b: &[u8], bstart: usize, n: usize) -> (r: bool)
    requires
        start + n <= a@.len(),
        bstart + n <= b@.len(),
    ensures
        r == (a@.subrange(start as int, start + n) == b@.subrange(bstart as int, bstart + n)),
{
    let _ = a.len();
    let _ = b.len();
    let mut i: usize = 0;
    while i < n
        invariant
            i <= n,
            start + n <= a@.len(),
            bstart + n <= b@.len(),
            start + n <= usize::MAX,
            bstart + n <= usize::MAX,
            forall|j: int| start <= j < start + i ==> #[trigger] a@[j] == b@[bstart + (j - start)],
        decreases n - i,
    {
        if a[start + i] != b[bstart + i] {
            assert(a@.subrange(start as int, start + n)[i as int] != b@.subrange(
                bstart as int,
                bstart + n,
            )[i as int]);
            return false;
        }
        i = i + 1;
    }
    assert(a@.subrange(start as int, start + n) =~= b@.subrange(bstart as int, bstart + n));
    true
}

impl<'a, C: ContextStore> LoWPAN<'a, C> {
    /// Writes the context identifier extension, if either context has a
    /// non-zero identifier, and returns the flag for the second IPHC byte.
    fn compress_cie(
        &self,
        src_ctx: &Option<Context>,
        dst_ctx: &Option<Context>,
        buf: &mut [u8],
        offset: &mut usize,
    ) -> (f: u8)
        requires
            *old(offset) + cie_part(opt_ctx(*src_ctx), opt_ctx(*dst_ctx)).1.len() <= old(buf)@.len(),
        ensures
            f == cie_part(opt_ctx(*src_ctx), opt_ctx(*dst_ctx)).0,
            final(buf)@ == splice(
                old(buf)@,
                *old(offset) as int,
                cie_part(opt_ctx(*src_ctx), opt_ctx(*dst_ctx)).1,
            ),
            *final(offset) == *old(offset) + cie_part(opt_ctx(*src_ctx), opt_ctx(*dst_ctx)).1.len(),
    {
        proof {
            reveal(cie_part);
        }
        let s: u8 = match src_ctx {
            Some(ctx) => if ctx.id != 0 {
                ctx.id << 4
            } else {
                0
            },
            None => 0,
        };
        let d: u8 = match dst_ctx {
            Some(ctx) => if ctx.id != 0 {
                ctx.id
            } else {
                0
            },
            None => 0,
        };
        let cie: u8 = s | d;
        if cie != 0 {
            put_u8(buf, offset, cie);
            IPHC_CID
        } else {
            assert(buf@ =~= splice(old(buf)@, *old(offset) as int, Seq::<u8>::empty()));
            0
        }
    }

    /// Writes the inline traffic class and flow label fields and returns the
    /// TF flags for the first IPHC byte.
    fn compress_tf(&self, d: &[u8], dp: usize, buf: &mut [u8], offset: &mut usize) -> (f: u8)
        requires
            dp + 40 <= d@.len(),
            *old(offset) + tf_part(
                hdr_ecn(d@.subrange(dp as int, dp + 40)),
                hdr_dscp(d@.subrange(dp as int, dp + 40)),
                hdr_flow(d@.subrange(dp as int, dp + 40)),
            ).1.len() <= old(buf)@.len(),
        ensures
            ({
                let h = d@.subrange(dp as int, dp + 40);
                let p = tf_part(hdr_ecn(h), hdr_dscp(h), hdr_flow(h));
                &&& f == p.0
                &&& final(buf)@ == splice(old(buf)@, *old(offset) as int, p.1)
                &&& *final(offset) == *old(offset) + p.1.len()
            }),
    {
        proof {
            reveal(tf_part);
        }
        let ghost h = d@.subrange(dp as int, dp + 40);
        let b0 = d[dp];
        let b1 = d[dp + 1];
        let ecn: u8 = (b1 >> 4) & 3;
        let dscp: u8 = ((b0 & 0x0f) << 2) | (b1 >> 6);
        let flow: u32 = (((b1 & 0x0f) as u32) << 16) | ((d[dp + 2] as u32) << 8) | (d[dp + 3] as u32);
        assert(h[0] == b0 && h[1] == b1 && h[2] == d@[dp + 2] && h[3] == d@[dp + 3]);
        let ghost p = tf_part(hdr_ecn(h), hdr_dscp(h), hdr_flow(h));
        assert(ecn == hdr_ecn(h) && dscp == hdr_dscp(h) && flow == hdr_flow(h));
        let tc_elided = dscp == 0 && (ecn == 0 || flow != 0);
        let fl_elided = flow == 0;
        let old_offset = *offset;
        let ghost a: Seq<u8> = if tc_elided {
            Seq::empty()
        } else {
            seq![dscp]
        };
        let ghost b: Seq<u8> = if fl_elided {
            Seq::empty()
        } else {
            seq![((flow >> 16u32) & 0x0fu32) as u8, (flow >> 8u32) as u8, flow as u8]
        };
        if !tc_elided {
            put_u8(buf, offset, dscp);
        }
        assert(buf@ =~= splice(old(buf)@, old_offset as int, a));
        if !fl_elided {
            let ghost before = buf@;
            buf[*offset] = ((flow >> 16) & 0x0f) as u8;
            buf[*offset + 1] = (flow >> 8) as u8;
            buf[*offset + 2] = flow as u8;
            *offset = *offset + 3;
            assert(buf@ =~= splice(old(buf)@, old_offset as int, a + b));
        } else {
            assert(a + b =~= a);
        }
        assert(buf@ =~= splice(old(buf)@, old_offset as int, a + b));
        if *offset != old_offset {
            buf[old_offset] = buf[old_offset] | (ecn << 6);
        }
        assert(buf@ =~= splice(old(buf)@, old_offset as int, p.1));
        (if tc_elided {
            IPHC_TF_TRAFFIC_CLASS
        } else {
            0u8
        }) | (if fl_elided {
            IPHC_TF_FLOW_LABEL
        } else {
            0u8
        })
    }

    /// Writes the inline next header unless it is NHC-compressed, and returns
    /// the NH flag.
    fn compress_nh(&self, next_header: u8, is_nhc: bool, buf: &mut [u8], offset: &mut usize) -> (f: u8)
        requires
            *old(offset) + nh_part(is_nhc, next_header).1.len() <= old(buf)@.len(),
        ensures
            f == nh_part(is_nhc, next_header).0,
            final(buf)@ == splice(old(buf)@, *old(offset) as int, nh_part(is_nhc, next_header).1),
            *final(offset) == *old(offset) + nh_part(is_nhc, next_header).1.len(),
    {
        if is_nhc {
            assert(buf@ =~= splice(old(buf)@, *old(offset) as int, Seq::<u8>::empty()));
            IPHC_NH
        } else {
            put_u8(buf, offset, next_header);
            0
        }
    }

    /// Writes the inline hop limit unless it is 1, 64 or 255, and returns the
    /// HLIM flags.
    fn compress_hl(&self, hop_limit: u8, buf: &mut [u8], offset: &mut usize) -> (f: u8)
        requires
            *old(offset) + hl_part(hop_limit).1.len() <= old(buf)@.len(),
        ensures
            f == hl_part(hop_limit).0,
            final(buf)@ == splice(old(buf)@, *old(offset) as int, hl_part(hop_limit).1),
            *final(offset) == *old(offset) + hl_part(hop_limit).1.len(),
    {
        if hop_limit == 1 || hop_limit == 64 || hop_limit == 255 {
            assert(buf@ =~= splice(old(buf)@, *old(offset) as int, Seq::<u8>::empty()));
            if hop_limit == 1 {
                IPHC_HLIM_1
            } else if hop_limit == 64 {
                IPHC_HLIM_64
            } else {
                IPHC_HLIM_255
            }
        } else {
            put_u8(buf, offset, hop_limit);
            IPHC_HLIM_INLINE
        }
    }

    /// Writes the interface identifier bits of `ip_addr` that cannot be
    /// derived from `mac_addr`, and returns the SAM or DAM flags.
    fn compress_iid(
        &self,
        ip_addr: &Address,
        mac_addr: &MacAddr,
        is_src: bool,
        buf: &mut [u8],
        offset: &mut usize,
    ) -> (f: u8)
        requires
            *old(offset) + iid_part(ip_addr.0@, *mac_addr, is_src).1.len() <= old(buf)@.len(),
        ensures
            f == iid_part(ip_addr.0@, *mac_addr, is_src).0,
            final(buf)@ == splice(
                old(buf)@,
                *old(offset) as int,
                iid_part(ip_addr.0@, *mac_addr, is_src).1,
            ),
            *final(offset) == *old(offset) + iid_part(ip_addr.0@, *mac_addr, is_src).1.len(),
    {
        proof {
            reveal(iid_part);
        }
        let iid: [u8; 8] = compute_iid(mac_addr);
        let base: [u8; 8] = MAC_BASE;
        assert(base@.subrange(0, 6) =~= mac_base_6());
        assert(iid@.subrange(0, 8) =~= iid@);
        if bytes_eq(&ip_addr.0, 8, &iid, 0, 8) {
            assert(buf@ =~= splice(old(buf)@, *old(offset) as int, Seq::<u8>::empty()));
            if is_src {
                IPHC_SAM_MODE3
            } else {
                IPHC_DAM_MODE3
            }
        } else if bytes_eq(&ip_addr.0, 8, &base, 0, 6) {
            put_from(buf, offset, &ip_addr.0, 14, 2);
            if is_src {
                IPHC_SAM_MODE2
            } else {
                IPHC_DAM_MODE2
            }
        } else {
            put_from(buf, offset, &ip_addr.0, 8, 8);
            if is_src {
                IPHC_SAM_MODE1
            } else {
                IPHC_DAM_MODE1
            }
        }
    }

    /// Compresses the source address and returns the SAC/SAM flags.
    fn compress_src(
        &self,
        src_ip_addr: &Address,
        src_mac_addr: &MacAddr,
        src_ctx: &Option<Context>,
        buf: &mut [u8],
        offset: &mut usize,
    ) -> (f: u8)
        requires
            *old(offset) + src_part(src_ip_addr.0@, *src_mac_addr, opt_ctx(*src_ctx)).1.len()
                <= old(buf)@.len(),
        ensures
            f == src_part(src_ip_addr.0@, *src_mac_addr, opt_ctx(*src_ctx)).0,
            final(buf)@ == splice(
                old(buf)@,
                *old(offset) as int,
                src_part(src_ip_addr.0@, *src_mac_addr, opt_ctx(*src_ctx)).1,
            ),
            *final(offset) == *old(offset) + src_part(
                src_ip_addr.0@,
                *src_mac_addr,
                opt_ctx(*src_ctx),
            ).1.len(),
    {
        proof {
            reveal(src_part);
        }
        if src_ip_addr.is_unspecified() {
            assert(buf@ =~= splice(old(buf)@, *old(offset) as int, Seq::<u8>::empty()));
            IPHC_SAC
        } else if src_ip_addr.is_unicast_link_local() {
            self.compress_iid(src_ip_addr, src_mac_addr, true, buf, offset)
        } else if src_ctx.is_some() {
            let f = self.compress_iid(src_ip_addr, src_mac_addr, true, buf, offset);
            IPHC_SAC | f
        } else {
            put_from(buf, offset, &src_ip_addr.0, 0, 16);
            assert(src_ip_addr.0@.subrange(0, 16) =~= src_ip_addr.0@);
            0
        }
    }

    /// Compresses a destination address that is not multicast and returns
    /// the DAC/DAM flags.
    fn compress_dst(
        &self,
        dst_ip_addr: &Address,
        dst_mac_addr: &MacAddr,
        dst_ctx: &Option<Context>,
        buf: &mut [u8],
        offset: &mut usize,
    ) -> (f: u8)
        requires
            *old(offset) + dst_part(dst_ip_addr.0@, *dst_mac_addr, opt_ctx(*dst_ctx)).1.len()
                <= old(buf)@.len(),
        ensures
            f == dst_part(dst_ip_addr.0@, *dst_mac_addr, opt_ctx(*dst_ctx)).0,
            final(buf)@ == splice(
                old(buf)@,
                *old(offset) as int,
                dst_part(dst_ip_addr.0@, *dst_mac_addr, opt_ctx(*dst_ctx)).1,
            ),
            *final(offset) == *old(offset) + dst_part(
                dst_ip_addr.0@,
                *dst_mac_addr,
                opt_ctx(*dst_ctx),
            ).1.len(),
    {
        proof {
            reveal(dst_part);
        }
        if dst_ip_addr.is_unicast_link_local() {
            self.compress_iid(dst_ip_addr, dst_mac_addr, false, buf, offset)
        } else if dst_ctx.is_some() {
            let f = self.compress_iid(dst_ip_addr, dst_mac_addr, false, buf, offset);
            IPHC_DAC | f
        } else {
            put_from(buf, offset, &dst_ip_addr.0, 0, 16);
            assert(dst_ip_addr.0@.subrange(0, 16) =~= dst_ip_addr.0@);
            0
        }
    }

    /// Compresses a multicast destination address and returns the M/DAC/DAM
    /// flags.
    fn compress_multicast(
        &self,
        dst_ip_addr: &Address,
        dst_ctx: &Option<Context>,
        buf: &mut [u8],
        offset: &mut usize,
    ) -> (f: u8)
        requires
            *old(offset) + mcast_part(dst_ip_addr.0@, opt_ctx(*dst_ctx)).1.len() <= old(buf)@.len(),
        ensures
            f == mcast_part(dst_ip_addr.0@, opt_ctx(*dst_ctx)).0,
            final(buf)@ == splice(
                old(buf)@,
                *old(offset) as int,
                mcast_part(dst_ip_addr.0@, opt_ctx(*dst_ctx)).1,
            ),
            *final(offset) == *old(offset) + mcast_part(dst_ip_addr.0@, opt_ctx(*dst_ctx)).1.len(),
    {
        proof {
            reveal(mcast_part);
        }
        let a = &dst_ip_addr.0;
        let ghost s = a@;
        let ghost start = *offset as int;
        if dst_ctx.is_some() {
            put_from(buf, offset, a, 1, 2);
            let ghost b1 = buf@;
            put_from(buf, offset, a, 12, 4);
            assert(buf@ =~= splice(old(buf)@, start, s.subrange(1, 3) + s.subrange(12, 16)));
            IPHC_MULTICAST | IPHC_DAC
        } else if a[1] == 0x02 && is_zero(a, 2, 15) {
            put_u8(buf, offset, a[15]);
            IPHC_MULTICAST | IPHC_DAM_MODE3
        } else if !is_zero(a, 2, 11) {
            put_from(buf, offset, a, 0, 16);
            assert(s.subrange(0, 16) =~= s);
            IPHC_MULTICAST | IPHC_DAM_INLINE
        } else if !is_zero(a, 11, 13) {
            put_u8(buf, offset, a[1]);
            put_from(buf, offset, a, 11, 5);
            assert(buf@ =~= splice(old(buf)@, start, seq![s[1]] + s.subrange(11, 16)));
            IPHC_MULTICAST | IPHC_DAM_MODE1
        } else {
            put_u8(buf, offset, a[1]);
            put_from(buf, offset, a, 13, 3);
            assert(buf@ =~= splice(old(buf)@, start, seq![s[1]] + s.subrange(13, 16)));
            IPHC_MULTICAST | IPHC_DAM_MODE2
        }
    }

    /// Writes the compressed UDP ports of the UDP header at `d[pos..]` after
    /// the NHC byte at `*offset` and returns the port flags.
    fn compress_udp_ports(&self, d: &[u8], pos: usize, buf: &mut [u8], offset: &mut usize) -> (f: u8)
        requires
            pos + 8 <= d@.len(),
            udp_ports_spec(
                be16(d@[pos as int], d@[pos + 1]),
                be16(d@[pos + 2], d@[pos + 3]),
                old(buf)@,
                *old(offset) as int,
            ) is Some,
        ensures
            ({
                let r = udp_ports_spec(
                    be16(d@[pos as int], d@[pos + 1]),
                    be16(d@[pos + 2], d@[pos + 3]),
                    old(buf)@,
                    *old(offset) as int,
                ).unwrap();
                &&& final(buf)@ == r.0
                &&& f == r.1
                &&& *final(offset) == r.2
            }),
    {
        let _ = buf.len();
        let src_port: u16 = u16_from_be(d[pos], d[pos + 1]);
        let dst_port: u16 = u16_from_be(d[pos + 2], d[pos + 3]);
        let ghost p = *offset as int;
        if (src_port & NHC_UDP_4BIT_PORT_MASK) == NHC_UDP_4BIT_PORT && (dst_port
            & NHC_UDP_4BIT_PORT_MASK) == NHC_UDP_4BIT_PORT {
            put_u8(buf, offset, (((src_port & 0x000f) << 4) | (dst_port & 0x000f)) as u8);
            NHC_UDP_SRC_PORT_FLAG | NHC_UDP_DST_PORT_FLAG
        } else if (src_port & NHC_UDP_8BIT_PORT_MASK) == NHC_UDP_8BIT_PORT {
            put_u8(buf, offset, (src_port & 0x00ff) as u8);
            put_u8(buf, offset, u16_hi(dst_port));
            put_u8(buf, offset, u16_lo(dst_port));
            assert(buf@ =~= splice(
                old(buf)@,
                p,
                seq![(src_port & 0x00ffu16) as u8] + be16_bytes(dst_port),
            ));
            NHC_UDP_SRC_PORT_FLAG
        } else if (dst_port & NHC_UDP_8BIT_PORT_MASK) == NHC_UDP_8BIT_PORT {
            put_u8(buf, offset, u16_hi(src_port));
            put_u8(buf, offset, u16_lo(src_port));
            put_u8(buf, offset, (dst_port & 0x00ff) as u8);
            assert(buf@ =~= splice(old(buf)@, p, be16_bytes(src_port) + seq![(dst_port & 0x00ffu16) as u8]));
            NHC_UDP_DST_PORT_FLAG
        } else {
            put_from(buf, offset, d, pos, 4);
            assert(d@.subrange(pos as int, pos + 4) =~= be16_bytes(src_port) + be16_bytes(dst_port))
                by {
                crate::net::stream::lemma_be16_bytes_of(d@[pos as int], d@[pos + 1]);
                crate::net::stream::lemma_be16_bytes_of(d@[pos + 2], d@[pos + 3]);
            }
            0
        }
    }

    /// Writes the option bytes of the extension header at `d[pos..]`, eliding
    /// trailing padding of an 8-octet aligned hop-by-hop or destination
    /// options header.
    fn compress_and_elide_padding(
        &self,
        nh_type: u8,
        nh_len: u8,
        d: &[u8],
        pos: usize,
        buf: &mut [u8],
        offset: &mut usize,
    )
        requires
            pos + 2 + nh_len <= d@.len(),
            *old(offset) + elide_count(d@, pos as int, nh_type, nh_len) <= old(buf)@.len(),
        ensures
            ({
                let n = elide_count(d@, pos as int, nh_type, nh_len);
                &&& 0 <= n <= nh_len
                &&& final(buf)@ == splice(
                    old(buf)@,
                    *old(offset) as int,
                    d@.subrange(pos + 2, pos + 2 + n),
                )
                &&& *final(offset) == *old(offset) + n
            }),
    {
        let _ = d.len();
        let total_len: usize = nh_len as usize + 2;
        let is_multiple = (total_len % 8) == 0;
        let correct_type = (nh_type == NH_HOP_OPTS) || (nh_type == NH_DST_OPTS);
        let mut opt_offset: usize = 2;
        let mut prev_was_padding = false;
        let mut is_padding = false;
        let ghost target = pad_scan(d@, pos as int, total_len as int, 2, false);
        if correct_type && is_multiple {
            let mut done = false;
            while opt_offset < total_len && !done
                invariant
                    pos + total_len <= d@.len(),
                    total_len == nh_len + 2,
                    2 <= opt_offset,
                    opt_offset <= 600,
                    d@.len() <= usize::MAX,
                    !done ==> pad_scan(d@, pos as int, total_len as int, opt_offset as int, prev_was_padding)
                        == target,
                    !done ==> !is_padding,
                    done ==> (opt_offset as int, is_padding) == target,
                    done ==> opt_offset < total_len,
                decreases (if done || opt_offset >= total_len {
                    0
                } else {
                    total_len - opt_offset + 1
                }),
            {
                let opt_type = d[pos + opt_offset];
                if opt_offset == total_len - 1 {
                    if !prev_was_padding && opt_type == 0 {
                        is_padding = true;
                    }
                    done = true;
                } else if opt_type == 0 {
                    prev_was_padding = true;
                    opt_offset = opt_offset + 1;
                } else {
                    let opt_len = d[pos + opt_offset + 1] as usize;
                    let new_opt_offset = opt_offset + opt_len + 2;
                    if new_opt_offset == total_len {
                        if opt_type == 1 && !prev_was_padding {
                            is_padding = true;
                        }
                        done = true;
                    } else {
                        prev_was_padding = opt_type == 1;
                        opt_offset = new_opt_offset;
                    }
                }
            }
        }
        if is_multiple && correct_type && is_padding {
            put_from(buf, offset, d, pos + 2, opt_offset - 2);
        } else {
            put_from(buf, offset, d, pos + 2, nh_len as usize);
        }
    }

    /// Constructs a 6LoWPAN header in `buf` from the given IPv6 datagram and
    /// MAC addresses. If the compression was successful, returns
    /// `Ok((consumed, written))`, where `consumed` is the number of header
    /// bytes consumed from the IPv6 datagram and `written` is the number of
    /// compressed header bytes written into `buf`. Payload bytes and
    /// non-compressed next headers are not written, so the remaining
    /// `ip6_datagram.len() - consumed` bytes must still be copied over to
    /// `buf`. Returns `Err(())` for a truncated extension header.
    pub fn compress(
        &self,
        ip6_datagram: &[u8],
        src_mac_addr: MacAddr,
        dst_mac_addr: MacAddr,
        buf: &mut [u8],
    ) -> (r: Result<(usize, usize), ()>)
        requires
            !(compress_spec(
                self.ctx_store,
                ip6_datagram@,
                0,
                src_mac_addr,
                dst_mac_addr,
                old(buf)@,
                0,
            ) is Stuck),
        ensures
            result_matches(
                r,
                final(buf)@,
                compress_spec(
                    self.ctx_store,
                    ip6_datagram@,
                    0,
                    src_mac_addr,
                    dst_mac_addr,
                    old(buf)@,
                    0,
                ),
                0,
            ),
    {
        self.compress_at(ip6_datagram, 0, src_mac_addr, dst_mac_addr, buf, 0)
    }

    /// Looks up the source and destination contexts of the IPv6 header at
    /// `d[dp..]`, keeping only those marked for compression.
    fn lookup_contexts(&self, src_addr: &Address, dst_addr: &Address) -> (r: (Option<Context>, Option<Context>))
        ensures
            opt_ctx(r.0) == ctx_filter(self.ctx_store.context_for_addr(src_addr.0@)),
            opt_ctx(r.1) == ctx_filter(dst_ctx_lookup(self.ctx_store, dst_addr.0@)),
    {
        let src_ctx = filter_ctx(self.ctx_store.get_context_from_addr(*src_addr));
        let dst_ctx_raw = if dst_addr.is_multicast() {
            let prefix_len = dst_addr.0[3];
            let mut prefix: Vec<u8> = Vec::new();
            let mut i: usize = 4;
            while i < 12
                invariant
                    4 <= i <= 12,
                    prefix@ == dst_addr.0@.subrange(4, i as int),
                decreases 12 - i,
            {
                prefix.push(dst_addr.0[i]);
                i = i + 1;
                assert(prefix@ =~= dst_addr.0@.subrange(4, i as int));
            }
            // This also implicitly verifies that prefix_len <= 64
            if verify_prefix_len(prefix.as_slice(), prefix_len) {
                self.ctx_store.get_context_from_prefix(prefix.as_slice(), prefix_len)
            } else {
                None
            }
        } else {
            self.ctx_store.get_context_from_addr(*dst_addr)
        };
        (src_ctx, filter_ctx(dst_ctx_raw))
    }

    /// Writes the dispatch, context identifier extension and traffic
    /// class / flow label fields.
    fn compress_iphc_stage1(
        &self,
        d: &[u8],
        dp: usize,
        src_ctx: &Option<Context>,
        dst_ctx: &Option<Context>,
        buf: &mut [u8],
        b0: usize,
    ) -> (offset: usize)
        requires
            dp + 40 <= d@.len(),
            b0 + iphc_stage1(d@.subrange(dp as int, dp + 40), opt_ctx(*src_ctx), opt_ctx(*dst_ctx)).len()
                <= old(buf)@.len(),
        ensures
            final(buf)@ == splice(
                old(buf)@,
                b0 as int,
                iphc_stage1(d@.subrange(dp as int, dp + 40), opt_ctx(*src_ctx), opt_ctx(*dst_ctx)),
            ),
            offset == b0 + iphc_stage1(
                d@.subrange(dp as int, dp + 40),
                opt_ctx(*src_ctx),
                opt_ctx(*dst_ctx),
            ).len(),
    {
        let ghost h = d@.subrange(dp as int, dp + 40);
        let ghost s1 = iphc_stage1(h, opt_ctx(*src_ctx), opt_ctx(*dst_ctx));
        proof {
            reveal(iphc_stage1);
        }
        // Initialize the LOWPAN_IPHC header
        buf[b0] = IPHC_DISPATCH_0;
        buf[b0 + 1] = IPHC_DISPATCH_1;
        let mut offset: usize = b0 + 2;
        // Context Identifier Extension
        let fc = self.compress_cie(src_ctx, dst_ctx, buf, &mut offset);
        buf[b0 + 1] = buf[b0 + 1] | fc;
        // Traffic Class & Flow Label
        let ftf = self.compress_tf(d, dp, buf, &mut offset);
        buf[b0] = buf[b0] | ftf;
        assert(buf@ =~= splice(old(buf)@, b0 as int, s1));
        offset
    }

    /// Writes the inline next header and hop limit fields and returns their
    /// flags for the first IPHC byte.
    fn compress_nh_hl(
        &self,
        next_header: u8,
        is_nhc: bool,
        hop_limit: u8,
        buf: &mut [u8],
        offset: &mut usize,
    ) -> (f: u8)
        requires
            *old(offset) + nh_part(is_nhc, next_header).1.len() + hl_part(hop_limit).1.len()
                <= old(buf)@.len(),
        ensures
            f == (nh_part(is_nhc, next_header).0 | hl_part(hop_limit).0),
            final(buf)@ == splice(
                old(buf)@,
                *old(offset) as int,
                nh_part(is_nhc, next_header).1 + hl_part(hop_limit).1,
            ),
            *final(offset) == *old(offset) + nh_part(is_nhc, next_header).1.len() + hl_part(
                hop_limit,
            ).1.len(),
    {
        let fnh = self.compress_nh(next_header, is_nhc, buf, offset);
        let fhl = self.compress_hl(hop_limit, buf, offset);
        assert(buf@ =~= splice(
            old(buf)@,
            *old(offset) as int,
            nh_part(is_nhc, next_header).1 + hl_part(hop_limit).1,
        ));
        fnh | fhl
    }

    /// Writes the compressed source and destination addresses and returns
    /// their flags for the second IPHC byte.
    fn compress_addrs(
        &self,
        src_addr: &Address,
        dst_addr: &Address,
        smac: &MacAddr,
        dmac: &MacAddr,
        src_ctx: &Option<Context>,
        dst_ctx: &Option<Context>,
        buf: &mut [u8],
        offset: &mut usize,
    ) -> (f: u8)
        requires
            *old(offset) + src_part(src_addr.0@, *smac, opt_ctx(*src_ctx)).1.len() + dest_part(
                dst_addr.0@,
                *dmac,
                opt_ctx(*dst_ctx),
            ).1.len() <= old(buf)@.len(),
        ensures
            f == (src_part(src_addr.0@, *smac, opt_ctx(*src_ctx)).0 | dest_part(
                dst_addr.0@,
                *dmac,
                opt_ctx(*dst_ctx),
            ).0),
            final(buf)@ == splice(
                old(buf)@,
                *old(offset) as int,
                src_part(src_addr.0@, *smac, opt_ctx(*src_ctx)).1 + dest_part(
                    dst_addr.0@,
                    *dmac,
                    opt_ctx(*dst_ctx),
                ).1,
            ),
            *final(offset) == *old(offset) + src_part(src_addr.0@, *smac, opt_ctx(*src_ctx)).1.len()
                + dest_part(dst_addr.0@, *dmac, opt_ctx(*dst_ctx)).1.len(),
    {
        proof {
            reveal(dest_part);
        }
        let fs = self.compress_src(src_addr, smac, src_ctx, buf, offset);
        let fd = if dst_addr.is_multicast() {
            self.compress_multicast(dst_addr, dst_ctx, buf, offset)
        } else {
            self.compress_dst(dst_addr, dmac, dst_ctx, buf, offset)
        };
        assert(buf@ =~= splice(
            old(buf)@,
            *old(offset) as int,
            src_part(src_addr.0@, *smac, opt_ctx(*src_ctx)).1 + dest_part(
                dst_addr.0@,
                *dmac,
                opt_ctx(*dst_ctx),
            ).1,
        ));
        fs | fd
    }

    /// Writes the next header, hop limit and address fields after the first
    /// stage, and completes the IPHC flag bytes.
    fn compress_iphc_stage2(
        &self,
        d: &[u8],
        dp: usize,
        smac: MacAddr,
        dmac: MacAddr,
        src_ctx: &Option<Context>,
        dst_ctx: &Option<Context>,
        is_nhc: bool,
        buf: &mut [u8],
        b0: usize,
        offset: usize,
    ) -> (r: usize)
        requires
            dp + 40 <= d@.len(),
            old(buf)@.subrange(
                b0 as int,
                offset as int,
            ) == iphc_stage1(d@.subrange(dp as int, dp + 40), opt_ctx(*src_ctx), opt_ctx(*dst_ctx)),
            b0 + iphc_stage1(d@.subrange(dp as int, dp + 40), opt_ctx(*src_ctx), opt_ctx(*dst_ctx)).len()
                == offset,
            b0 + iphc_header(
                d@.subrange(dp as int, dp + 40),
                smac,
                dmac,
                opt_ctx(*src_ctx),
                opt_ctx(*dst_ctx),
                is_nhc,
            ).len() <= old(buf)@.len(),
        ensures
            final(buf)@ == splice(
                old(buf)@,
                b0 as int,
                iphc_header(
                    d@.subrange(dp as int, dp + 40),
                    smac,
                    dmac,
                    opt_ctx(*src_ctx),
                    opt_ctx(*dst_ctx),
                    is_nhc,
                ),
            ),
            r == b0 + iphc_header(
                d@.subrange(dp as int, dp + 40),
                smac,
                dmac,
                opt_ctx(*src_ctx),
                opt_ctx(*dst_ctx),
                is_nhc,
            ).len(),
    {
        let _ = d.len();
        let ghost h = d@.subrange(dp as int, dp + 40);
        let ghost sc = opt_ctx(*src_ctx);
        let ghost dc = opt_ctx(*dst_ctx);
        let ghost s1 = iphc_stage1(h, sc, dc);
        let src_addr = addr_at(d, dp + 8);
        let dst_addr = addr_at(d, dp + 24);
        proof {
            lemma_iphc_header_shape(h, smac, dmac, sc, dc, is_nhc);
            assert(src_addr.0@ =~= h.subrange(8, 24));
            assert(dst_addr.0@ =~= h.subrange(24, 40));
        }
        let ghost rest1 = nh_part(is_nhc, h[6]).1 + hl_part(h[7]).1;
        let ghost rest2 = src_part(h.subrange(8, 24), smac, sc).1 + dest_part(h.subrange(24, 40), dmac, dc).1;
        let mut offset = offset;
        let f0 = self.compress_nh_hl(d[dp + 6], is_nhc, d[dp + 7], buf, &mut offset);
        let f1 = self.compress_addrs(&src_addr, &dst_addr, &smac, &dmac, src_ctx, dst_ctx, buf, &mut offset);
        proof {
            lemma_stage2_buf(old(buf)@, b0 as int, s1, rest1, rest2, f0, f1);
        }
        buf[b0] = buf[b0] | f0;
        buf[b0 + 1] = buf[b0 + 1] | f1;
        offset
    }

    /// Compresses a UDP header at `d[pos..]` with its NHC byte at
    /// `buf[offset]`; returns the offset after the compressed header.
    fn compress_nhc_udp(&self, d: &[u8], dp: usize, pos: usize, buf: &mut [u8], offset: usize) -> (r: usize)
        requires
            udp_spec(d@, dp as int, pos as int, old(buf)@, offset as int) is Done,
        ensures
            udp_spec(d@, dp as int, pos as int, old(buf)@, offset as int) matches Outcome::Done(_, b, o)
                && final(buf)@ == b && r == o,
    {
        let _ = buf.len();
        let _ = d.len();
        // Leave a space for the UDP LoWPAN_NHC byte
        let udp_nh_offset = offset;
        let mut offset = offset + 1;
        let f_ports = self.compress_udp_ports(d, pos, buf, &mut offset);
        // The checksum is always carried inline
        buf[offset] = d[pos + 6];
        buf[offset + 1] = d[pos + 7];
        let ghost q = offset as int;
        offset = offset + 2;
        buf[udp_nh_offset] = NHC_DISPATCH_UDP | f_ports;
        proof {
            let src = be16(d@[pos as int], d@[pos + 1]);
            let dst = be16(d@[pos + 2], d@[pos + 3]);
            let (b1, flags, qq) = udp_ports_spec(src, dst, old(buf)@, (udp_nh_offset + 1) as int).unwrap();
            let b2 = splice(b1, q, seq![d@[pos + 6], d@[pos + 7]]);
            assert(buf@ =~= b2.update(udp_nh_offset as int, (NHC_DISPATCH_UDP | flags) as u8));
        }
        offset
    }

    /// Compresses one extension header at `d[pos..]` into `buf[offset..]`.
    fn compress_nhc_ext(
        &self,
        d: &[u8],
        pos: usize,
        nh_type: u8,
        nh_len: u8,
        buf: &mut [u8],
        offset: usize,
    ) -> (r: Result<(u8, bool, u8, usize, usize), ()>)
        requires
            nhc_eid(nh_type) is Some,
            offset <= old(buf)@.len(),
            !(ext_step_spec(d@, pos as int, nh_type, nh_len, old(buf)@, offset as int) is Stuck),
        ensures
            match ext_step_spec(d@, pos as int, nh_type, nh_len, old(buf)@, offset as int) {
                ExtStep::Next(t, n, l, b, o, p) => r == Ok::<(u8, bool, u8, usize, usize), ()>(
                    (t, n, l, o as usize, p as usize),
                ) && final(buf)@ == b,
                ExtStep::Fail(b) => r == Err::<(u8, bool, u8, usize, usize), ()>(()) && final(buf)@
                    == b,
                ExtStep::Stuck => false,
            },
    {
        let _ = d.len();
        let _ = buf.len();
        proof {
            lemma_ext_step_bounds(d@, pos as int, nh_type, nh_len, old(buf)@, offset as int);
        }
        let eid: u8 = match ip6_nh_to_nhc_eid(nh_type) {
            Some(e) => e,
            None => 0,
        };
        // next_nh_offset includes the next header field and the length byte
        let next_nh_offset: usize = 2 + nh_len as usize;
        let nh0 = d[pos];
        let (next_is_nhc, next_nh_len) = match is_ip6_nh_compressible(nh0, d, pos + next_nh_offset) {
            Ok(x) => x,
            Err(_) => {
                return Err(());
            },
        };
        let nhc_header: u8 = if next_is_nhc {
            NHC_DISPATCH_NHC | eid | NHC_NH
        } else {
            NHC_DISPATCH_NHC | eid
        };
        assert((0xe0u8 | eid | 0u8) == (0xe0u8 | eid)) by (bit_vector);
        let mut offset = offset;
        buf[offset] = nhc_header;
        if nh_type != NH_FRAGMENT {
            // The fragment header has no length field
            buf[offset + 1] = nh_len;
        }
        offset = offset + 2;
        self.compress_and_elide_padding(nh_type, nh_len, d, pos, buf, &mut offset);
        Ok((nh0, next_is_nhc, next_nh_len, offset, pos + next_nh_offset))
    }

    /// Compresses the datagram at `d[dp..]` into `buf[b0..]`; offsets in the
    /// result are relative to `dp` and `b0`.
    fn compress_at(
        &self,
        d: &[u8],
        dp: usize,
        smac: MacAddr,
        dmac: MacAddr,
        buf: &mut [u8],
        b0: usize,
    ) -> (r: Result<(usize, usize), ()>)
        requires
            !(compress_spec(self.ctx_store, d@, dp as int, smac, dmac, old(buf)@, b0 as int) is Stuck),
        ensures
            result_matches(
                r,
                final(buf)@,
                compress_spec(self.ctx_store, d@, dp as int, smac, dmac, old(buf)@, b0 as int),
                b0 as int,
            ),
        decreases d@.len() - dp,
    {
        let _ = d.len();
        let _ = buf.len();
        let ghost target = compress_spec(self.ctx_store, d@, dp as int, smac, dmac, old(buf)@, b0 as int);
        proof {
            lemma_compress_spec_bounds(self.ctx_store, d@, dp as int, smac, dmac, old(buf)@, b0 as int);
            lemma_compress_unfold(self.ctx_store, d@, dp as int, smac, dmac, old(buf)@, b0 as int);
        }
        let ghost h = d@.subrange(dp as int, dp + 40);
        let src_addr = addr_at(d, dp + 8);
        let dst_addr = addr_at(d, dp + 24);
        assert(src_addr.0@ =~= h.subrange(8, 24));
        assert(dst_addr.0@ =~= h.subrange(24, 40));
        let (src_ctx, dst_ctx) = self.lookup_contexts(&src_addr, &dst_addr);
        let offset1 = self.compress_iphc_stage1(d, dp, &src_ctx, &dst_ctx, buf, b0);
        let ghost buf1 = buf@;
        assert(buf@.subrange(b0 as int, offset1 as int) =~= iphc_stage1(
            h,
            opt_ctx(src_ctx),
            opt_ctx(dst_ctx),
        ));
        // Next Header
        let (is_nhc, nh_len) = match is_ip6_nh_compressible(d[dp + 6], d, dp + 40) {
            Ok(x) => x,
            Err(_) => {
                return Err(());
            },
        };
        let mut offset = self.compress_iphc_stage2(
            d,
            dp,
            smac,
            dmac,
            &src_ctx,
            &dst_ctx,
            is_nhc,
            buf,
            b0,
            offset1,
        );
        proof {
            lemma_iphc_header_shape(h, smac, dmac, opt_ctx(src_ctx), opt_ctx(dst_ctx), is_nhc);
            let hdr = iphc_header(h, smac, dmac, opt_ctx(src_ctx), opt_ctx(dst_ctx), is_nhc);
            assert(buf@ =~= splice(old(buf)@, b0 as int, hdr));
        }
        // Next Headers
        let mut is_nhc = is_nhc;
        let mut nh_len = nh_len;
        let mut pos: usize = dp + 40;
        let mut ip6_nh_type: u8 = d[dp + 6];
        while is_nhc
            invariant
                nhc_spec(
                    self.ctx_store,
                    d@,
                    dp as int,
                    pos as int,
                    ip6_nh_type,
                    is_nhc,
                    nh_len,
                    smac,
                    dmac,
                    buf@,
                    offset as int,
                ) == target,
                target == compress_spec(self.ctx_store, d@, dp as int, smac, dmac, old(buf)@, b0 as int),
                !(target is Stuck),
                dp + 40 <= pos <= d@.len(),
                b0 <= offset <= buf@.len(),
                buf@.len() == old(buf)@.len(),
                d@.len() <= usize::MAX,
                buf@.len() <= usize::MAX,
            decreases d@.len() - pos,
        {
            proof {
                lemma_nhc_spec_bounds(
                    self.ctx_store,
                    d@,
                    dp as int,
                    pos as int,
                    ip6_nh_type,
                    is_nhc,
                    nh_len,
                    smac,
                    dmac,
                    buf@,
                    offset as int,
                );
                lemma_nhc_unfold(
                    self.ctx_store,
                    d@,
                    dp as int,
                    pos as int,
                    ip6_nh_type,
                    is_nhc,
                    nh_len,
                    smac,
                    dmac,
                    buf@,
                    offset as int,
                );
            }
            if ip6_nh_type == NH_IP6 {
                let ghost b_before = buf@;
                let ghost o_before = offset as int;
                // For IPv6 encapsulation, the NH bit in the NHC ID is 0
                buf[offset] = NHC_DISPATCH_NHC | NHC_IP6;
                offset = offset + 1;
                // Recursively place IPHC-encoded IPv6 after the NHC ID
                proof {
                    lemma_compress_spec_bounds(self.ctx_store, d@, pos as int, smac, dmac, buf@, offset as int);
                    assert(buf@ == b_before.update(o_before, (NHC_DISPATCH_NHC | NHC_IP6) as u8));
                    assert(target == match compress_spec(self.ctx_store, d@, pos as int, smac, dmac, buf@, offset as int) {
                        Outcome::Done(c, b, o) => Outcome::Done(pos - dp + c, b, o),
                        other => other,
                    });
                }
                let inner = self.compress_at(d, pos, smac, dmac, buf, offset);
                match inner {
                    Ok((encap_consumed, encap_offset)) => {
                        return Ok((pos - dp + encap_consumed, offset + encap_offset - b0));
                    },
                    Err(_) => {
                        return Err(());
                    },
                }
            } else if ip6_nh_type == NH_UDP {
                let end = self.compress_nhc_udp(d, dp, pos, buf, offset);
                // There cannot be any more next headers after UDP
                return Ok((pos + 8 - dp, end - b0));
            } else {
                proof {
                    lemma_ext_step_bounds(d@, pos as int, ip6_nh_type, nh_len, buf@, offset as int);
                }
                match self.compress_nhc_ext(d, pos, ip6_nh_type, nh_len, buf, offset) {
                    Ok((t, n, l, o, p)) => {
                        ip6_nh_type = t;
                        is_nhc = n;
                        nh_len = l;
                        offset = o;
                        pos = p;
                    },
                    Err(_) => {
                        return Err(());
                    },
                }
            }
        }
        proof {
            lemma_nhc_unfold(
                self.ctx_store,
                d@,
                dp as int,
                pos as int,
                ip6_nh_type,
                is_nhc,
                nh_len,
                smac,
                dmac,
                buf@,
                offset as int,
            );
        }
        Ok((pos - dp, offset - b0))
    }
}


/// One step of next-header compression, by the type of the next header.
pub proof fn lemma_nhc_unfold<C: ContextStore>(
    store: &C,
    d: Seq<u8>,
    dp: int,
    pos: int,
    nh_type: u8,
    is_nhc: bool,
    nh_len: u8,
    smac: MacAddr,
    dmac: MacAddr,
    buf: Seq<u8>,
    off: int,
)
    requires
        0 <= dp < pos <= d.len(),
        0 <= off <= buf.len(),
    ensures
        !is_nhc ==> nhc_spec(store, d, dp, pos, nh_type, is_nhc, nh_len, smac, dmac, buf, off)
            == Outcome::Done(pos - dp, buf, off),
        is_nhc && nh_type == NH_IP6 && off < buf.len() ==> nhc_spec(
            store,
            d,
            dp,
            pos,
            nh_type,
            is_nhc,
            nh_len,
            smac,
            dmac,
            buf,
            off,
        ) == match compress_spec(
            store,
            d,
            pos,
            smac,
            dmac,
            buf.update(off, (NHC_DISPATCH_NHC | NHC_IP6) as u8),
            off + 1,
        ) {
            Outcome::Done(c, b, o) => Outcome::Done(pos - dp + c, b, o),
            other => other,
        },
        is_nhc && nh_type == NH_IP6 && off >= buf.len() ==> nhc_spec(
            store,
            d,
            dp,
            pos,
            nh_type,
            is_nhc,
            nh_len,
            smac,
            dmac,
            buf,
            off,
        ) is Stuck,
        is_nhc && nh_type == NH_UDP ==> nhc_spec(store, d, dp, pos, nh_type, is_nhc, nh_len, smac, dmac, buf, off)
            == udp_spec(d, dp, pos, buf, off),
        is_nhc && nh_type != NH_UDP && nh_type != NH_IP6 ==> nhc_spec(
            store,
            d,
            dp,
            pos,
            nh_type,
            is_nhc,
            nh_len,
            smac,
            dmac,
            buf,
            off,
        ) == if nhc_eid(nh_type) is Some {
            match ext_step_spec(d, pos, nh_type, nh_len, buf, off) {
                ExtStep::Next(next_type, next_is_nhc, next_nh_len, b, o, p) => nhc_spec(
                    store,
                    d,
                    dp,
                    p,
                    next_type,
                    next_is_nhc,
                    next_nh_len,
                    smac,
                    dmac,
                    b,
                    o,
                ),
                ExtStep::Fail(b) => Outcome::Fail(b),
                ExtStep::Stuck => Outcome::Stuck,
            }
        } else {
            Outcome::Stuck
        },
{
    reveal_with_fuel(nhc_spec, 1);
    reveal_with_fuel(compress_spec, 1);
}

/// Compression of one datagram: the IPHC header, then its next headers.
pub proof fn lemma_compress_unfold<C: ContextStore>(
    store: &C,
    d: Seq<u8>,
    dp: int,
    smac: MacAddr,
    dmac: MacAddr,
    buf: Seq<u8>,
    b0: int,
)
    ensures
        !(compress_spec(store, d, dp, smac, dmac, buf, b0) is Stuck) ==> {
            let h = d.subrange(dp, dp + 40);
            let sc = ctx_filter(store.context_for_addr(h.subrange(8, 24)));
            let dc = ctx_filter(dst_ctx_lookup(store, h.subrange(24, 40)));
            let s1 = iphc_stage1(h, sc, dc);
            &&& 0 <= dp
            &&& dp + 40 <= d.len()
            &&& 0 <= b0
            &&& b0 + s1.len() <= buf.len()
            &&& match nh_compressible(h[6], d.subrange(dp + 40, d.len() as int)) {
                Err(_) => compress_spec(store, d, dp, smac, dmac, buf, b0) == Outcome::Fail(
                    splice(buf, b0, s1),
                ),
                Ok((is_nhc, nh_len)) => {
                    let hdr = iphc_header(h, smac, dmac, sc, dc, is_nhc);
                    &&& b0 + hdr.len() <= buf.len()
                    &&& compress_spec(store, d, dp, smac, dmac, buf, b0) == nhc_spec(
                        store,
                        d,
                        dp,
                        dp + 40,
                        h[6],
                        is_nhc,
                        nh_len,
                        smac,
                        dmac,
                        splice(buf, b0, hdr),
                        b0 + hdr.len(),
                    )
                },
            }
        },
{
    reveal_with_fuel(nhc_spec, 1);
    reveal_with_fuel(compress_spec, 1);
}

/// Lengths and offsets in a compression outcome stay within the input and
/// the buffer.
pub proof fn lemma_compress_spec_bounds<C: ContextStore>(
    store: &C,
    d: Seq<u8>,
    dp: int,
    smac: MacAddr,
    dmac: MacAddr,
    buf: Seq<u8>,
    b0: int,
)
    ensures
        match compress_spec(store, d, dp, smac, dmac, buf, b0) {
            Outcome::Done(c, b, o) => 40 <= c <= d.len() - dp && b0 <= o <= buf.len() && b.len()
                == buf.len(),
            Outcome::Fail(b) => b.len() == buf.len(),
            Outcome::Stuck => true,
        },
    decreases d.len() - dp, 0int,
{
    reveal_with_fuel(compress_spec, 1);
    reveal_with_fuel(nhc_spec, 1);
    if dp < 0 || dp + 40 > d.len() || b0 < 0 {
    } else {
        let h = d.subrange(dp, dp + 40);
        let sc = ctx_filter(store.context_for_addr(h.subrange(8, 24)));
        let dc = ctx_filter(dst_ctx_lookup(store, h.subrange(24, 40)));
        let s1 = iphc_stage1(h, sc, dc);
        if b0 + s1.len() > buf.len() {
        } else {
            match nh_compressible(h[6], d.subrange(dp + 40, d.len() as int)) {
                Err(_) => {
                    lemma_splice_len(buf, b0, s1);
                },
                Ok((is_nhc, nh_len)) => {
                    let hdr = iphc_header(h, smac, dmac, sc, dc, is_nhc);
                    if b0 + hdr.len() > buf.len() {
                    } else {
                        lemma_splice_len(buf, b0, hdr);
                        lemma_nhc_spec_bounds(
                            store,
                            d,
                            dp,
                            dp + 40,
                            h[6],
                            is_nhc,
                            nh_len,
                            smac,
                            dmac,
                            splice(buf, b0, hdr),
                            b0 + hdr.len(),
                        );
                    }
                },
            }
        }
    }
}

/// Lengths and offsets in the outcome of next-header compression stay within
/// the input and the buffer.
pub proof fn lemma_nhc_spec_bounds<C: ContextStore>(
    store: &C,
    d: Seq<u8>,
    dp: int,
    pos: int,
    nh_type: u8,
    is_nhc: bool,
    nh_len: u8,
    smac: MacAddr,
    dmac: MacAddr,
    buf: Seq<u8>,
    off: int,
)
    requires
        0 <= dp < pos <= d.len(),
        0 <= off <= buf.len(),
    ensures
        match nhc_spec(store, d, dp, pos, nh_type, is_nhc, nh_len, smac, dmac, buf, off) {
            Outcome::Done(c, b, o) => pos - dp <= c <= d.len() - dp && off <= o <= buf.len()
                && b.len() == buf.len(),
            Outcome::Fail(b) => b.len() == buf.len(),
            Outcome::Stuck => true,
        },
    decreases d.len() - pos, 1int,
{
    reveal_with_fuel(nhc_spec, 1);
    reveal_with_fuel(compress_spec, 1);
    if !is_nhc {
    } else if nh_type == NH_IP6 {
        if off >= buf.len() {
        } else {
            lemma_compress_spec_bounds(
                store,
                d,
                pos,
                smac,
                dmac,
                buf.update(off, (NHC_DISPATCH_NHC | NHC_IP6) as u8),
                off + 1,
            );
            let b2 = buf.update(off, (NHC_DISPATCH_NHC | NHC_IP6) as u8);
            let inner = compress_spec(store, d, pos, smac, dmac, b2, off + 1);
            assert(b2.len() == buf.len());
            assert(inner matches Outcome::Done(c, _, _) ==> c >= 40);
        }
    } else if nh_type == NH_UDP {
        if pos + 8 <= d.len() {
            let src = be16(d[pos], d[pos + 1]);
            let dst = be16(d[pos + 2], d[pos + 3]);
            lemma_udp_ports_bounds(src, dst, buf, off + 1);
            match udp_ports_spec(src, dst, buf, off + 1) {
                Some((b1, flags, q)) => {
                    if q + 2 <= buf.len() {
                        lemma_splice_len(b1, q, seq![d[pos + 6], d[pos + 7]]);
                    }
                },
                None => {},
            }
        }
    } else if nhc_eid(nh_type) is Some && nh_type != NH_IP6 {
        lemma_ext_step_bounds(d, pos, nh_type, nh_len, buf, off);
        match ext_step_spec(d, pos, nh_type, nh_len, buf, off) {
            ExtStep::Next(next_type, next_is_nhc, next_nh_len, b, o, p) => {
                lemma_nhc_spec_bounds(
                    store,
                    d,
                    dp,
                    p,
                    next_type,
                    next_is_nhc,
                    next_nh_len,
                    smac,
                    dmac,
                    b,
                    o,
                );
            },
            _ => {},
        }
    }
}

/// An NHC dispatch byte: that of an extension header (1110xxxx) or of a UDP
/// header (11110xxx).
pub open spec fn is_nhc_byte(b: u8) -> bool {
    b & 0xf0u8 == 0xe0u8 || b & 0xf8u8 == 0xf0u8
}

/// Writing into a buffer at `off` keeps the bytes before `off`.
proof fn lemma_splice_keeps_prefix(s: Seq<u8>, off: int, data: Seq<u8>)
    requires
        0 <= off,
        off + data.len() <= s.len(),
    ensures
        forall|i: int| 0 <= i < off ==> #[trigger] splice(s, off, data)[i] == s[i],
{
}

/// Compressing a datagram into `buf` from `b0` on keeps the bytes before
/// `b0`.
proof fn lemma_compress_spec_keeps_prefix<C: ContextStore>(
    store: &C,
    d: Seq<u8>,
    dp: int,
    smac: MacAddr,
    dmac: MacAddr,
    buf: Seq<u8>,
    b0: int,
)
    ensures
        compress_spec(store, d, dp, smac, dmac, buf, b0) matches Outcome::Done(_, b, _) ==> forall|i: int|
            0 <= i < b0 && i < buf.len() ==> #[trigger] b[i] == buf[i],
    decreases d.len() - dp, 0int,
{
    reveal_with_fuel(compress_spec, 1);
    if dp < 0 || dp + 40 > d.len() || b0 < 0 {
    } else {
        let h = d.subrange(dp, dp + 40);
        let sc = ctx_filter(store.context_for_addr(h.subrange(8, 24)));
        let dc = ctx_filter(dst_ctx_lookup(store, h.subrange(24, 40)));
        let s1 = iphc_stage1(h, sc, dc);
        if b0 + s1.len() > buf.len() {
        } else {
            match nh_compressible(h[6], d.subrange(dp + 40, d.len() as int)) {
                Err(_) => {},
                Ok((is_nhc, nh_len)) => {
                    let hdr = iphc_header(h, smac, dmac, sc, dc, is_nhc);
                    if b0 + hdr.len() > buf.len() {
                    } else {
                        let b1 = splice(buf, b0, hdr);
                        lemma_splice_keeps_prefix(buf, b0, hdr);
                        lemma_splice_len(buf, b0, hdr);
                        lemma_nhc_spec_keeps_prefix(
                            store,
                            d,
                            dp,
                            dp + 40,
                            h[6],
                            is_nhc,
                            nh_len,
                            smac,
                            dmac,
                            b1,
                            b0 + hdr.len(),
                        );
                        lemma_compress_unfold(store, d, dp, smac, dmac, buf, b0);
                        match compress_spec(store, d, dp, smac, dmac, buf, b0) {
                            Outcome::Done(_, b, _) => {
                                assert forall|i: int| 0 <= i < b0 && i < buf.len() implies #[trigger] b[i] == buf[i] by {
                                    assert(b1[i] == buf[i]);
                                }
                            },
                            _ => {},
                        }
                    }
                },
            }
        }
    }
}

/// Compressing a chain of next headers into `buf` from `off` on keeps the
/// bytes before `off`.
proof fn lemma_nhc_spec_keeps_prefix<C: ContextStore>(
    store: &C,
    d: Seq<u8>,
    dp: int,
    pos: int,
    nh_type: u8,
    is_nhc: bool,
    nh_len: u8,
    smac: MacAddr,
    dmac: MacAddr,
    buf: Seq<u8>,
    off: int,
)
    requires
        0 <= dp,
        0 <= off <= buf.len(),
    ensures
        nhc_spec(store, d, dp, pos, nh_type, is_nhc, nh_len, smac, dmac, buf, off) matches Outcome::Done(_, b, _)
            ==> forall|i: int| 0 <= i < off && i < buf.len() ==> #[trigger] b[i] == buf[i],
    decreases d.len() - pos, 1int,
{
    reveal_with_fuel(nhc_spec, 1);
    if 0 <= dp < pos <= d.len() {
        lemma_nhc_unfold(store, d, dp, pos, nh_type, is_nhc, nh_len, smac, dmac, buf, off);
    }
    let out = nhc_spec(store, d, dp, pos, nh_type, is_nhc, nh_len, smac, dmac, buf, off);
    if !is_nhc {
    } else if pos <= dp || pos > d.len() || off < 0 {
    } else if nh_type == NH_IP6 {
        if off < buf.len() {
            let b2 = buf.update(off, (NHC_DISPATCH_NHC | NHC_IP6) as u8);
            lemma_compress_spec_keeps_prefix(store, d, pos, smac, dmac, b2, off + 1);
            match compress_spec(store, d, pos, smac, dmac, b2, off + 1) {
                Outcome::Done(c, b, o) => {
                    assert(out == Outcome::Done(pos - dp + c, b, o));
                    assert forall|i: int| 0 <= i < off && i < buf.len() implies #[trigger] b[i] == buf[i] by {
                        assert(b2[i] == buf[i]);
                    }
                },
                _ => {},
            }
        }
    } else if nh_type == NH_UDP {
        assert(out == udp_spec(d, dp, pos, buf, off));
        if pos + 8 <= d.len() {
            let src = be16(d[pos], d[pos + 1]);
            let dst = be16(d[pos + 2], d[pos + 3]);
            lemma_udp_ports_bounds(src, dst, buf, off + 1);
            lemma_udp_ports_keeps_prefix(src, dst, buf, off + 1);
            match udp_ports_spec(src, dst, buf, off + 1) {
                Some((b1, flags, q)) => {
                    if q + 2 <= buf.len() {
                        let b2 = splice(b1, q, seq![d[pos + 6], d[pos + 7]]);
                        lemma_splice_keeps_prefix(b1, q, seq![d[pos + 6], d[pos + 7]]);
                        let b = b2.update(off, (NHC_DISPATCH_UDP | flags) as u8);
                        assert(out == Outcome::Done(pos + 8 - dp, b, q + 2));
                        assert forall|i: int| 0 <= i < off && i < buf.len() implies #[trigger] b[i] == buf[i] by {
                            assert(b2[i] == b1[i]);
                            assert(b1[i] == buf[i]);
                        }
                    }
                },
                None => {},
            }
        }
    } else if nhc_eid(nh_type) is Some && nh_type != NH_IP6 {
        if 0 <= off <= buf.len() && 0 <= pos {
            lemma_ext_step_bounds(d, pos, nh_type, nh_len, buf, off);
            lemma_ext_step_keeps_prefix(d, pos, nh_type, nh_len, buf, off);
            match ext_step_spec(d, pos, nh_type, nh_len, buf, off) {
                ExtStep::Next(next_type, next_is_nhc, next_nh_len, b1, o, p) => {
                    lemma_nhc_spec_keeps_prefix(
                        store,
                        d,
                        dp,
                        p,
                        next_type,
                        next_is_nhc,
                        next_nh_len,
                        smac,
                        dmac,
                        b1,
                        o,
                    );
                    match nhc_spec(store, d, dp, p, next_type, next_is_nhc, next_nh_len, smac, dmac, b1, o) {
                        Outcome::Done(_, b, _) => {
                            assert forall|i: int| 0 <= i < off && i < buf.len() implies #[trigger] b[i] == buf[i] by {
                                assert(b1[i] == buf[i]);
                            }
                        },
                        _ => {},
                    }
                },
                _ => {},
            }
        }
    }
}

/// Compressing UDP ports at `p` keeps the bytes before `p`.
proof fn lemma_udp_ports_keeps_prefix(src: u16, dst: u16, buf: Seq<u8>, p: int)
    requires
        0 <= p,
    ensures
        udp_ports_spec(src, dst, buf, p) matches Some((b1, _, _)) ==> forall|i: int|
            0 <= i < p ==> #[trigger] b1[i] == buf[i],
{
    if (src & NHC_UDP_4BIT_PORT_MASK) == NHC_UDP_4BIT_PORT && (dst & NHC_UDP_4BIT_PORT_MASK)
        == NHC_UDP_4BIT_PORT {
        if p + 1 <= buf.len() {
            lemma_splice_keeps_prefix(buf, p, seq![((((src & 0x000fu16) << 4u16) | (dst & 0x000fu16)) as u8)]);
        }
    } else if (src & NHC_UDP_8BIT_PORT_MASK) == NHC_UDP_8BIT_PORT {
        if p + 3 <= buf.len() {
            lemma_splice_keeps_prefix(buf, p, seq![(src & 0x00ffu16) as u8] + be16_bytes(dst));
        }
    } else if (dst & NHC_UDP_8BIT_PORT_MASK) == NHC_UDP_8BIT_PORT {
        if p + 3 <= buf.len() {
            lemma_splice_keeps_prefix(buf, p, be16_bytes(src) + seq![(dst & 0x00ffu16) as u8]);
        }
    } else {
        if p + 4 <= buf.len() {
            lemma_splice_keeps_prefix(buf, p, be16_bytes(src) + be16_bytes(dst));
        }
    }
}

/// One extension-header step writes its NHC byte at `off` and keeps the
/// bytes before it.
proof fn lemma_ext_step_keeps_prefix(d: Seq<u8>, pos: int, nh_type: u8, nh_len: u8, buf: Seq<u8>, off: int)
    requires
        0 <= off <= buf.len(),
        nhc_eid(nh_type) is Some,
    ensures
        ext_step_spec(d, pos, nh_type, nh_len, buf, off) matches ExtStep::Next(_, next_is_nhc, _, b, _, _) ==> {
            &&& forall|i: int| 0 <= i < off ==> #[trigger] b[i] == buf[i]
            &&& b[off] & 0xf0u8 == 0xe0u8
            &&& (b[off] & NHC_NH != 0) == next_is_nhc
            &&& next_is_nhc == (nh_compressible(d[pos], d.subrange(pos + 2 + nh_len, d.len() as int)) matches Ok(
                (true, _),
            ))
        },
{
    lemma_elide_count_bounds(d, pos, nh_type, nh_len);
    let nno = 2 + nh_len;
    if pos < 0 || off < 0 || pos >= d.len() || pos + nno > d.len() {
    } else {
        match nh_compressible(d[pos], d.subrange(pos + nno, d.len() as int)) {
            Err(_) => {},
            Ok((next_is_nhc, next_nh_len)) => {
                let n = elide_count(d, pos, nh_type, nh_len);
                if off + 2 + n <= buf.len() {
                    let hb = (NHC_DISPATCH_NHC | nhc_eid(nh_type).unwrap() | (if next_is_nhc {
                        NHC_NH
                    } else {
                        0u8
                    })) as u8;
                    let b1 = buf.update(off, hb);
                    let b2 = if nh_type != NH_FRAGMENT {
                        b1.update(off + 1, nh_len)
                    } else {
                        b1
                    };
                    lemma_splice_keeps_prefix(b2, off + 2, d.subrange(pos + 2, pos + 2 + n));
                    lemma_ext_nhc_byte(nhc_eid(nh_type).unwrap(), if next_is_nhc { NHC_NH } else { 0u8 });
                }
            },
        }
    }
}

/// The NHC bytes: an extension header's keeps its dispatch bits and carries
/// the NH bit as given, a UDP header's keeps its dispatch bits under the
/// port flags, and the two port flags together are 3.
proof fn lemma_nhc_bytes(e: u8, x: u8, f: u8)
    requires
        e == 0 || e == 2 || e == 4 || e == 6 || e == 8 || e == 14,
        x == 0 || x == 1,
        f <= 3,
    ensures
        ((0xe0u8 | e | x) as u8) & 0xf0u8 == 0xe0u8,
        ((((0xe0u8 | e | x) as u8) & 1u8) != 0) == (x == 1),
        ((0xf0u8 | f) as u8) & 0xf8u8 == 0xf0u8,
        (0b010u8 | 0b001u8) == 3u8,
        (0xe0u8 | 14u8) & 0xf0u8 == 0xe0u8,
{
    assert((e == 0 || e == 2 || e == 4 || e == 6 || e == 8 || e == 14) && (x == 0 || x == 1) && f <= 3 ==> ((0xe0u8
        | e | x) as u8) & 0xf0u8 == 0xe0u8 && ((((0xe0u8 | e | x) as u8) & 1u8) != 0) == (x == 1) && ((0xf0u8
        | f) as u8) & 0xf8u8 == 0xf0u8 && (0b010u8 | 0b001u8) == 3u8 && (0xe0u8 | 14u8) & 0xf0u8 == 0xe0u8) by (bit_vector);
}

/// The NHC byte of an extension header: its dispatch bits, and the NH bit
/// as given.
proof fn lemma_ext_nhc_byte(e: u8, x: u8)
    requires
        e == 0 || e == 2 || e == 4 || e == 6 || e == 8 || e == 14,
        x == 0 || x == 1,
    ensures
        ((0xe0u8 | e | x) as u8) & 0xf0u8 == 0xe0u8,
        ((((0xe0u8 | e | x) as u8) & 1u8) != 0) == (x == 1),
{
    lemma_nhc_bytes(e, x, 0);
}

/// The NHC byte of a UDP header.
proof fn lemma_udp_nhc_byte(f: u8)
    requires
        f <= 3,
    ensures
        ((0xf0u8 | f) as u8) & 0xf8u8 == 0xf0u8,
{
    lemma_nhc_bytes(0, 0, f);
}

/// Compressed UDP ports set at most the two port flags.
proof fn lemma_udp_ports_flags(src: u16, dst: u16, buf: Seq<u8>, p: int)
    ensures
        udp_ports_spec(src, dst, buf, p) matches Some((_, f, _)) ==> f <= 3,
{
    lemma_nhc_bytes(0, 0, 0);
}

/// A compressed next header starts with its NHC byte, and takes at least
/// that byte.
proof fn lemma_nhc_first_byte<C: ContextStore>(
    store: &C,
    d: Seq<u8>,
    dp: int,
    pos: int,
    nh_type: u8,
    nh_len: u8,
    smac: MacAddr,
    dmac: MacAddr,
    buf: Seq<u8>,
    off: int,
)
    requires
        0 <= dp < pos <= d.len(),
        0 <= off <= buf.len(),
        nhc_spec(store, d, dp, pos, nh_type, true, nh_len, smac, dmac, buf, off) is Done,
    ensures
        nhc_spec(store, d, dp, pos, nh_type, true, nh_len, smac, dmac, buf, off) matches Outcome::Done(_, b, fo)
            && off < fo && off < b.len() && is_nhc_byte(b[off]),
{
    lemma_nhc_unfold(store, d, dp, pos, nh_type, true, nh_len, smac, dmac, buf, off);
    lemma_nhc_spec_bounds(store, d, dp, pos, nh_type, true, nh_len, smac, dmac, buf, off);
    let out = nhc_spec(store, d, dp, pos, nh_type, true, nh_len, smac, dmac, buf, off);
    if nh_type == NH_IP6 {
        let b2 = buf.update(off, (NHC_DISPATCH_NHC | NHC_IP6) as u8);
        lemma_compress_spec_keeps_prefix(store, d, pos, smac, dmac, b2, off + 1);
        lemma_compress_spec_bounds(store, d, pos, smac, dmac, b2, off + 1);
        lemma_nhc_bytes(0, 0, 0);
        match compress_spec(store, d, pos, smac, dmac, b2, off + 1) {
            Outcome::Done(c, b, o) => {
                assert(b[off] == b2[off]);
            },
            _ => {},
        }
    } else if nh_type == NH_UDP {
        let src = be16(d[pos], d[pos + 1]);
        let dst = be16(d[pos + 2], d[pos + 3]);
        let (b1, flags, q) = udp_ports_spec(src, dst, buf, off + 1)->0;
        lemma_udp_ports_bounds(src, dst, buf, off + 1);
        lemma_udp_ports_flags(src, dst, buf, off + 1);
        lemma_udp_nhc_byte(flags);
    } else {
        lemma_ext_step_bounds(d, pos, nh_type, nh_len, buf, off);
        lemma_ext_step_keeps_prefix(d, pos, nh_type, nh_len, buf, off);
        match ext_step_spec(d, pos, nh_type, nh_len, buf, off) {
            ExtStep::Next(next_type, next_is_nhc, next_nh_len, b1, o, p) => {
                lemma_nhc_spec_keeps_prefix(store, d, dp, p, next_type, next_is_nhc, next_nh_len, smac, dmac, b1, o);
                lemma_nhc_spec_bounds(store, d, dp, p, next_type, next_is_nhc, next_nh_len, smac, dmac, b1, o);
                match nhc_spec(store, d, dp, p, next_type, next_is_nhc, next_nh_len, smac, dmac, b1, o) {
                    Outcome::Done(_, b, _) => {
                        assert(b[off] == b1[off]);
                    },
                    _ => {},
                }
            },
            _ => {},
        }
    }
}

/// The NH bit of an extension header's NHC byte tells whether the header
/// after it is NHC-compressed too: it is set exactly when that header is one
/// the compressor compresses, and then the compressed output goes on, right
/// after the extension header's bytes, with that header's NHC byte.
pub proof fn lemma_ext_nh_bit_marks_compressed_next<C: ContextStore>(
    store: &C,
    d: Seq<u8>,
    dp: int,
    pos: int,
    nh_type: u8,
    nh_len: u8,
    smac: MacAddr,
    dmac: MacAddr,
    buf: Seq<u8>,
    off: int,
)
    requires
        0 <= dp < pos <= d.len(),
        0 <= off <= buf.len(),
        nhc_eid(nh_type) is Some,
        nh_type != NH_IP6,
        nhc_spec(store, d, dp, pos, nh_type, true, nh_len, smac, dmac, buf, off) is Done,
    ensures
        nhc_spec(store, d, dp, pos, nh_type, true, nh_len, smac, dmac, buf, off) matches Outcome::Done(_, b, fo)
            && {
            let o = off + 2 + elide_count(d, pos, nh_type, nh_len);
            let next_compressed = nh_compressible(d[pos], d.subrange(pos + 2 + nh_len, d.len() as int)) matches Ok(
                (true, _),
            );
            &&& b[off] & 0xf0u8 == 0xe0u8
            &&& (b[off] & NHC_NH != 0) == next_compressed
            &&& (b[off] & NHC_NH != 0) == (o < fo)
            &&& o < fo ==> is_nhc_byte(b[o])
        },
{
    reveal_with_fuel(nhc_spec, 1);
    assert(nh_type != NH_UDP);
    lemma_ext_step_bounds(d, pos, nh_type, nh_len, buf, off);
    lemma_ext_step_keeps_prefix(d, pos, nh_type, nh_len, buf, off);
    match ext_step_spec(d, pos, nh_type, nh_len, buf, off) {
        ExtStep::Next(next_type, next_is_nhc, next_nh_len, b1, o, p) => {
            lemma_nhc_spec_keeps_prefix(store, d, dp, p, next_type, next_is_nhc, next_nh_len, smac, dmac, b1, o);
            lemma_nhc_spec_bounds(store, d, dp, p, next_type, next_is_nhc, next_nh_len, smac, dmac, b1, o);
            if next_is_nhc {
                lemma_nhc_first_byte(store, d, dp, p, next_type, next_nh_len, smac, dmac, b1, o);
            } else {
                reveal_with_fuel(nhc_spec, 1);
            }
        },
        _ => {},
    }
}

/// One extension-header step stays within the input and the buffer.
pub proof fn lemma_ext_step_bounds(d: Seq<u8>, pos: int, nh_type: u8, nh_len: u8, buf: Seq<u8>, off: int)
    requires
        0 <= pos,
        0 <= off <= buf.len(),
    ensures
        match ext_step_spec(d, pos, nh_type, nh_len, buf, off) {
            ExtStep::Next(_, _, _, b, o, p) => pos + 2 <= p <= d.len() && off + 2 <= o <= buf.len()
                && b.len() == buf.len(),
            ExtStep::Fail(b) => b == buf,
            ExtStep::Stuck => true,
        },
{
    lemma_elide_count_bounds(d, pos, nh_type, nh_len);
    let nno = 2 + nh_len;
    if pos < 0 || off < 0 || pos >= d.len() || pos + nno > d.len() {
    } else {
        match nh_compressible(d[pos], d.subrange(pos + nno, d.len() as int)) {
            Err(_) => {},
            Ok((next_is_nhc, next_nh_len)) => {
                let n = elide_count(d, pos, nh_type, nh_len);
                if off + 2 + n <= buf.len() {
                    let hb = (NHC_DISPATCH_NHC | nhc_eid(nh_type).unwrap() | (if next_is_nhc {
                        NHC_NH
                    } else {
                        0u8
                    })) as u8;
                    let b1 = buf.update(off, hb);
                    let b2 = if nh_type != NH_FRAGMENT {
                        b1.update(off + 1, nh_len)
                    } else {
                        b1
                    };
                    lemma_splice_len(b2, off + 2, d.subrange(pos + 2, pos + 2 + n));
                }
            },
        }
    }
}

/// The padding scan stops inside the header.
pub proof fn lemma_pad_scan_bounds(d: Seq<u8>, pos: int, total: int, oo: int, prev_pad: bool)
    requires
        2 <= oo,
    ensures
        pad_scan(d, pos, total, oo, prev_pad).1 ==> 2 <= pad_scan(d, pos, total, oo, prev_pad).0
            < total,
    decreases (if oo < total {
        total - oo
    } else {
        0
    }),
{
    if oo >= total {
    } else {
        let t = d[pos + oo];
        if oo == total - 1 {
        } else if t == 0 {
            lemma_pad_scan_bounds(d, pos, total, oo + 1, true);
        } else {
            let nw = oo + d[pos + oo + 1] + 2;
            if nw == total {
            } else {
                lemma_pad_scan_bounds(d, pos, total, nw, t == 1);
            }
        }
    }
}

/// The number of option bytes copied is at most the header's option length.
pub proof fn lemma_elide_count_bounds(d: Seq<u8>, pos: int, nh_type: u8, nh_len: u8)
    ensures
        0 <= elide_count(d, pos, nh_type, nh_len) <= nh_len,
{
    let total = nh_len + 2;
    if (nh_type == NH_HOP_OPTS || nh_type == NH_DST_OPTS) && total % 8 == 0 {
        lemma_pad_scan_bounds(d, pos, total, 2, false);
    }
}

} // verus!
