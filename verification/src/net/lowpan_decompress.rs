//! LOWPAN_IPHC / LOWPAN_NHC decompression of a 6LoWPAN packet's headers into
//! an uncompressed IPv6 datagram.

use vstd::prelude::*;
use crate::net::stream::{be16, be16_bytes, splice, u16_from_be, copy_into};
use crate::net::util::{slice_to_u16, u16_to_slice};
use crate::net::ip6::{Address, with_prefix, prefix_byte_count};
use crate::net::lowpan::{
    ContextModel, ContextStore, Context, MacAddr, LoWPAN, iid_of, compute_iid, nhc_next_header,
    nhc_to_ip6_nh, udp_checksum, compute_udp_checksum, NH_HOP_OPTS, NH_UDP, NH_IP6, NH_ROUTING,
    NH_FRAGMENT, NH_NO_NEXT, NH_DST_OPTS, NH_MOBILITY, IPHC_TF_TRAFFIC_CLASS, IPHC_TF_FLOW_LABEL,
    IPHC_NH, IPHC_HLIM_MASK, IPHC_HLIM_1, IPHC_HLIM_64, IPHC_HLIM_255, IPHC_CID, IPHC_SAC,
    IPHC_SAM_MASK, IPHC_MULTICAST, IPHC_DAC, IPHC_DAM_MASK, MAC_BASE, NHC_NH,
    NHC_UDP_4BIT_PORT, NHC_UDP_8BIT_PORT, NHC_UDP_CHECKSUM_FLAG, NHC_UDP_SRC_PORT_FLAG,
    NHC_UDP_DST_PORT_FLAG,
};
use crate::net::lowpan_compress::{Outcome, mac_base_6, result_matches};

verus! {

/// Result of decoding one field: its value, an invalid encoding, or input
/// too short to read it.
pub enum Dec<T> {
    Val(T),
    Bad,
    Short,
}

/// `n` zero bytes.
pub open spec fn zeros(n: int) -> Seq<u8> {
    Seq::new(n as nat, |i: int| 0u8)
}

/// The unicast link-local prefix fe80::/64.
pub open spec fn ll_prefix() -> Seq<u8> {
    seq![0xfeu8, 0x80, 0, 0, 0, 0, 0, 0]
}

/// A fresh IPv6 header: version 6, no next header, hop limit 255, all other
/// fields zero.
pub open spec fn default_header() -> Seq<u8> {
    seq![0x60u8, 0, 0, 0, 0, 0, NH_NO_NEXT, 255] + zeros(32)
}

/// The first four bytes of an IPv6 header: version 6, traffic class `tc`
/// and flow label `flow`.
pub open spec fn vtf_bytes(tc: u8, flow: u32) -> Seq<u8> {
    seq![
        (0x60u8 | (tc >> 4u8)) as u8,
        ((tc << 4u8) | (((flow >> 16u32) & 0x0fu32) as u8)) as u8,
        (flow >> 8u32) as u8,
        flow as u8,
    ]
}

/// The contexts selected by the context identifier extension (context 0
/// where it is absent or an identifier is 0), and the offset after it.
pub open spec fn cie_decode<C: ContextStore>(store: &C, f1: u8, c: Seq<u8>, off: int) -> Dec<
    (ContextModel, ContextModel, int),
> {
    let c0 = store.context_for_id(0);
    if c0 is None {
        Dec::Short
    } else if f1 & IPHC_CID == 0 {
        Dec::Val((c0.unwrap(), c0.unwrap(), off))
    } else if off + 1 > c.len() {
        Dec::Short
    } else {
        let sci = c[off] >> 4u8;
        let dci = c[off] & 0x0fu8;
        let s = if sci != 0 {
            store.context_for_id(sci)
        } else {
            c0
        };
        let d = if dci != 0 {
            store.context_for_id(dci)
        } else {
            c0
        };
        if s is None || d is None {
            Dec::Bad
        } else {
            Dec::Val((s.unwrap(), d.unwrap(), off + 1))
        }
    }
}

/// Traffic class and flow label from the inline fields at `c[off..]`, and
/// the offset after them.
pub open spec fn tf_decode(f0: u8, c: Seq<u8>, off: int) -> Option<(u8, u32, int)> {
    let fl_c = f0 & IPHC_TF_FLOW_LABEL != 0;
    let tc_c = f0 & IPHC_TF_TRAFFIC_CLASS != 0;
    let o1 = if tc_c {
        off
    } else {
        off + 1
    };
    let o2 = if fl_c {
        o1
    } else {
        o1 + 3
    };
    if o2 > c.len() {
        None
    } else {
        let ecn: u8 = if !fl_c || !tc_c {
            c[off] >> 6u8
        } else {
            0
        };
        let dscp: u8 = if !tc_c {
            c[off] & 0x3fu8
        } else {
            0
        };
        let flow: u32 = if fl_c {
            0
        } else {
            ((((c[o1] & 0x0fu8) as u32) << 16u32) | ((c[o1 + 1] as u32) << 8u32) | (c[o1
                + 2] as u32)) as u32
        };
        Some((((dscp << 2u8) | ecn) as u8, flow, o2))
    }
}

/// Whether the next header is NHC-compressed, the inline next header
/// otherwise (0 when compressed), and the offset after it.
pub open spec fn nh_decode(f0: u8, c: Seq<u8>, off: int) -> Option<(bool, u8, int)> {
    if f0 & IPHC_NH != 0 {
        Some((true, 0u8, off))
    } else if off + 1 > c.len() {
        None
    } else {
        Some((false, c[off], off + 1))
    }
}

/// The hop limit and the offset after its field.
pub open spec fn hl_decode(f0: u8, c: Seq<u8>, off: int) -> Option<(u8, int)> {
    let m = f0 & IPHC_HLIM_MASK;
    if m == IPHC_HLIM_1 {
        Some((1u8, off))
    } else if m == IPHC_HLIM_64 {
        Some((64u8, off))
    } else if m == IPHC_HLIM_255 {
        Some((255u8, off))
    } else if off + 1 > c.len() {
        None
    } else {
        Some((c[off], off + 1))
    }
}

/// A stateless (link-local) address in mode `mode` (0 to 3), and the offset
/// after its inline bytes.
pub open spec fn iid_ll_decode(mode: u8, mac: MacAddr, c: Seq<u8>, off: int) -> Option<
    (Seq<u8>, int),
> {
    if mode == 0 {
        if off + 16 > c.len() {
            None
        } else {
            Some((c.subrange(off, off + 16), off + 16))
        }
    } else if mode == 1 {
        if off + 8 > c.len() {
            None
        } else {
            Some((ll_prefix() + c.subrange(off, off + 8), off + 8))
        }
    } else if mode == 2 {
        if off + 2 > c.len() {
            None
        } else {
            Some((ll_prefix() + mac_base_6() + c.subrange(off, off + 2), off + 2))
        }
    } else {
        Some((ll_prefix() + iid_of(mac), off))
    }
}

/// `a` with the context's prefix bits applied, when the context's prefix is
/// well-formed.
pub open spec fn apply_ctx_prefix(a: Seq<u8>, ctx: ContextModel) -> Seq<u8> {
    if prefix_byte_count(ctx.prefix_len) == ctx.prefix.len() && prefix_byte_count(ctx.prefix_len)
        <= 16 {
        with_prefix(a, ctx.prefix, ctx.prefix_len)
    } else {
        a
    }
}

/// A context-based (stateful) address in mode `mode` (0 to 3), and the
/// offset after its inline bytes; mode 0 is reserved.
pub open spec fn iid_ctx_decode(mode: u8, mac: MacAddr, ctx: ContextModel, c: Seq<u8>, off: int) -> Dec<
    (Seq<u8>, int),
> {
    if mode == 0 {
        Dec::Bad
    } else if mode == 1 {
        if off + 8 > c.len() {
            Dec::Short
        } else {
            Dec::Val((apply_ctx_prefix(zeros(8) + c.subrange(off, off + 8), ctx), off + 8))
        }
    } else if mode == 2 {
        if off + 2 > c.len() {
            Dec::Short
        } else {
            Dec::Val(
                (apply_ctx_prefix(zeros(8) + mac_base_6() + c.subrange(off, off + 2), ctx), off + 2),
            )
        }
    } else {
        Dec::Val((apply_ctx_prefix(zeros(8) + iid_of(mac), ctx), off))
    }
}

/// The source address selected by the SAC and SAM bits of `f1`.
pub open spec fn src_decode(f1: u8, mac: MacAddr, sc: ContextModel, c: Seq<u8>, off: int) -> Option<
    (Seq<u8>, int),
> {
    let sac = f1 & IPHC_SAC != 0;
    let sam = ((f1 & IPHC_SAM_MASK) >> 4u8) as u8;
    if sac && sam == 0 {
        Some((zeros(16), off))
    } else if sac {
        match iid_ctx_decode(sam, mac, sc, c, off) {
            Dec::Val(x) => Some(x),
            _ => None,
        }
    } else {
        iid_ll_decode(sam, mac, c, off)
    }
}

/// The unicast destination address selected by the DAC and DAM bits of
/// `f1`; DAC with DAM 00 is reserved.
pub open spec fn dst_decode(f1: u8, mac: MacAddr, dc: ContextModel, c: Seq<u8>, off: int) -> Dec<
    (Seq<u8>, int),
> {
    let dac = f1 & IPHC_DAC != 0;
    let dam = f1 & IPHC_DAM_MASK;
    if dac && dam == 0 {
        Dec::Bad
    } else if dac {
        iid_ctx_decode(dam, mac, dc, c, off)
    } else {
        match iid_ll_decode(dam, mac, c, off) {
            Some(x) => Dec::Val(x),
            None => Dec::Short,
        }
    }
}

/// The multicast destination address selected by the DAC and DAM bits of
/// `f1`; with DAC only DAM 00 (prefix-based, at most 64 prefix bits) is
/// valid.
pub open spec fn mcast_decode(f1: u8, dc: ContextModel, c: Seq<u8>, off: int) -> Dec<(Seq<u8>, int)> {
    let dac = f1 & IPHC_DAC != 0;
    let dam = f1 & IPHC_DAM_MASK;
    if dac {
        if dam != 0 {
            Dec::Bad
        } else if dc.prefix_len as int + 7 > 255 {
            Dec::Short
        } else {
            let pb = (dc.prefix_len as int + 7) / 8;
            if pb > 8 {
                Dec::Bad
            } else if off + 6 > c.len() || pb > dc.prefix.len() {
                Dec::Short
            } else {
                Dec::Val(
                    (
                        seq![0xffu8, c[off], c[off + 1], dc.prefix_len] + dc.prefix.subrange(0, pb)
                            + zeros(8 - pb) + c.subrange(off + 2, off + 6),
                        off + 6,
                    ),
                )
            }
        }
    } else if dam == 0 {
        if off + 16 > c.len() {
            Dec::Short
        } else {
            Dec::Val((c.subrange(off, off + 16), off + 16))
        }
    } else if dam == 1 {
        if off + 6 > c.len() {
            Dec::Short
        } else {
            Dec::Val((seq![0xffu8, c[off]] + zeros(9) + c.subrange(off + 1, off + 6), off + 6))
        }
    } else if dam == 2 {
        if off + 4 > c.len() {
            Dec::Short
        } else {
            Dec::Val((seq![0xffu8, c[off]] + zeros(11) + c.subrange(off + 1, off + 4), off + 4))
        }
    } else {
        if off + 1 > c.len() {
            Dec::Short
        } else {
            Dec::Val((seq![0xffu8, 0x02u8] + zeros(13) + seq![c[off]], off + 1))
        }
    }
}

/// Result of decoding a LOWPAN_IPHC header: the IPv6 header (payload length
/// still zero), the offset after the IPHC header and whether an NHC header
/// follows; or the IPv6 header as far as it was filled in when the encoding
/// was found invalid; or input too short.
pub enum DecHdr {
    Hdr(Seq<u8>, int, bool),
    Invalid(Seq<u8>),
    Stuck,
}

/// Decoding of the LOWPAN_IPHC header at `c[cp..]`.
#[verifier::opaque]
pub open spec fn iphc_decode<C: ContextStore>(
    store: &C,
    c: Seq<u8>,
    cp: int,
    smac: MacAddr,
    dmac: MacAddr,
) -> DecHdr {
    if cp < 0 || cp + 2 > c.len() {
        DecHdr::Stuck
    } else {
        let f0 = c[cp];
        let f1 = c[cp + 1];
        match cie_decode(store, f1, c, cp + 2) {
            Dec::Short => DecHdr::Stuck,
            Dec::Bad => DecHdr::Invalid(default_header()),
            Dec::Val((sc, dc, o1)) => match tf_decode(f0, c, o1) {
                None => DecHdr::Stuck,
                Some((tc, flow, o2)) => match nh_decode(f0, c, o2) {
                    None => DecHdr::Stuck,
                    Some((is_nhc, nh, o3)) => match hl_decode(f0, c, o3) {
                        None => DecHdr::Stuck,
                        Some((hl, o4)) => match src_decode(f1, smac, sc, c, o4) {
                            None => DecHdr::Stuck,
                            Some((sa, o5)) => {
                                let h1 = vtf_bytes(tc, flow) + seq![0u8, 0u8, NH_NO_NEXT, hl] + sa
                                    + zeros(16);
                                let dd = if f1 & IPHC_MULTICAST != 0 {
                                    mcast_decode(f1, dc, c, o5)
                                } else {
                                    dst_decode(f1, dmac, dc, c, o5)
                                };
                                match dd {
                                    Dec::Short => DecHdr::Stuck,
                                    Dec::Bad => DecHdr::Invalid(h1),
                                    Dec::Val((da, o6)) => {
                                        let h2 = h1.subrange(0, 24) + da;
                                        if !is_nhc {
                                            DecHdr::Hdr(h2.update(6, nh), o6, false)
                                        } else if o6 + 1 > c.len() {
                                            DecHdr::Stuck
                                        } else {
                                            match nhc_next_header(c[o6]) {
                                                Err(_) => DecHdr::Invalid(h2),
                                                Ok(n) => DecHdr::Hdr(h2.update(6, n), o6, true),
                                            }
                                        }
                                    },
                                }
                            },
                        },
                    },
                },
            },
        }
    }
}

/// The UDP ports encoded by the NHC byte `nhc` at `c[off..]`, and the offset
/// after them.
pub open spec fn udp_ports_decode(nhc: u8, c: Seq<u8>, off: int) -> Option<(u16, u16, int)> {
    let src_c = nhc & NHC_UDP_SRC_PORT_FLAG != 0;
    let dst_c = nhc & NHC_UDP_DST_PORT_FLAG != 0;
    if src_c && dst_c {
        if off + 1 > c.len() {
            None
        } else {
            Some(
                (
                    (NHC_UDP_4BIT_PORT | (((c[off] >> 4u8) & 0x0fu8) as u16)) as u16,
                    (NHC_UDP_4BIT_PORT | ((c[off] & 0x0fu8) as u16)) as u16,
                    off + 1,
                ),
            )
        }
    } else if src_c {
        if off + 3 > c.len() {
            None
        } else {
            Some(
                (
                    (NHC_UDP_8BIT_PORT | (c[off] as u16)) as u16,
                    be16(c[off + 1], c[off + 2]),
                    off + 3,
                ),
            )
        }
    } else if dst_c {
        if off + 3 > c.len() {
            None
        } else {
            Some((be16(c[off], c[off + 1]), (NHC_UDP_8BIT_PORT | (c[off + 2] as u16)) as u16, off + 3))
        }
    } else {
        if off + 4 > c.len() {
            None
        } else {
            Some((be16(c[off], c[off + 1]), be16(c[off + 2], c[off + 3]), off + 4))
        }
    }
}

/// The padding option that fills `pad` bytes: Pad1 for one byte, PadN
/// otherwise.
pub open spec fn pad_fill(pad: int) -> Seq<u8> {
    if pad == 1 {
        seq![0u8]
    } else {
        seq![1u8, (pad - 2) as u8] + zeros(pad - 2)
    }
}

/// Result of decompressing one extension header: the next header's type
/// and whether it is NHC-compressed, the output buffer, the input offset
/// reached and the number of bytes written.
pub enum ExtDec {
    Next(u8, bool, Seq<u8>, int, int),
    Fail,
    Stuck,
}

/// Decompression of the NHC-encoded extension header whose NHC byte `nhc`
/// precedes `c[o1..]`, written to `out[nb..]`. The header is padded to a
/// multiple of eight octets.
pub open spec fn ext_dec_spec(c: Seq<u8>, o1: int, nhc: u8, out: Seq<u8>, nb: int) -> ExtDec {
    let next_is_nhc = nhc & NHC_NH != 0;
    if o1 < 0 || o1 + 1 > c.len() {
        ExtDec::Stuck
    } else {
        let len = c[o1] as int;
        let o2 = o1 + 1;
        if o2 + len >= c.len() {
            ExtDec::Fail
        } else if len < 6 {
            ExtDec::Stuck
        } else {
            let hlf = (len - 6) / 8 + (if (len - 6) % 8 != 0 {
                1int
            } else {
                0int
            });
            let pad = hlf * 8 - len + 6;
            let next_r = if next_is_nhc {
                nhc_next_header(c[o2 + len])
            } else {
                Ok(c[o2 + len])
            };
            match next_r {
                Err(_) => ExtDec::Fail,
                Ok(next) => if hlf * 8 < len || pad == 0 || nb < 0 || nb + 8 + hlf * 8 > out.len() {
                    ExtDec::Stuck
                } else {
                    ExtDec::Next(
                        next,
                        next_is_nhc,
                        splice(
                            out,
                            nb,
                            seq![next, hlf as u8] + c.subrange(o2, o2 + len) + pad_fill(pad),
                        ),
                        o2 + len,
                        8 + hlf * 8,
                    )
                },
            }
        }
    }
}

/// The end of decompression at input offset `off` with `bw` bytes written:
/// the IPv6 payload length is filled in.
pub open spec fn finish_spec(c: Seq<u8>, cp: int, off: int, out: Seq<u8>, ob: int, bw: int) -> Outcome {
    if off < cp || off > c.len() || bw < 40 || ob < 0 || ob + 40 > out.len() || bw + (c.len() - off)
        > usize::MAX {
        Outcome::Stuck
    } else {
        let pl = bw + (c.len() - off) - 40;
        Outcome::Done(off - cp, splice(out, ob + 4, be16_bytes(pl as u16)), ob + bw)
    }
}

/// The uncompressed UDP header for the NHC byte `nhc` preceding `c[o1..]`,
/// written to `out[ob + bw..]`, and the input offset after it. Without an
/// inline checksum, it is computed over the addresses of the IPv6 header at
/// `out[ob..]`, the UDP header as written so far and the rest of `c`.
pub open spec fn udp_body_spec(c: Seq<u8>, o1: int, nhc: u8, out: Seq<u8>, ob: int, bw: int) -> Option<
    (Seq<u8>, int),
> {
    let nb = ob + bw;
    if o1 < 0 || o1 > c.len() || ob < 0 || bw < 40 || nb + 8 > out.len() {
        None
    } else {
        match udp_ports_decode(nhc, c, o1) {
            None => None,
            Some((sp, dp, o2)) => {
                let elided = nhc & NHC_UDP_CHECKSUM_FLAG != 0;
                let o3 = if elided { o2 } else { o2 + 2 };
                if o3 > c.len() {
                    None
                } else {
                    let udp_length = (8 + (c.len() - o3)) as u16;
                    let out1 = splice(out, nb, be16_bytes(sp) + be16_bytes(dp) + be16_bytes(udp_length));
                    if elided {
                        let ck = udp_checksum(
                            out1.subrange(ob + 8, ob + 24),
                            out1.subrange(ob + 24, ob + 40),
                            out1.subrange(nb, nb + 6),
                            udp_length,
                            c.subrange(o2, c.len() as int),
                        );
                        Some((splice(out1, nb + 6, be16_bytes(ck)), o2))
                    } else {
                        Some((splice(out1, nb + 6, be16_bytes(be16(c[o2], c[o2 + 1]))), o2 + 2))
                    }
                }
            },
        }
    }
}

/// Decompression of the 6LoWPAN packet at `c[cp..]` into `out` starting at
/// `ob`.
#[verifier::opaque]
pub open spec fn decompress_spec<C: ContextStore>(
    store: &C,
    c: Seq<u8>,
    cp: int,
    smac: MacAddr,
    dmac: MacAddr,
    out: Seq<u8>,
    ob: int,
) -> Outcome
    decreases c.len() - cp, 0int,
{
    if ob < 0 || ob + 40 > out.len() || cp < 0 || cp > c.len() {
        Outcome::Stuck
    } else {
        match iphc_decode(store, c, cp, smac, dmac) {
            DecHdr::Stuck => Outcome::Stuck,
            DecHdr::Invalid(h) => Outcome::Fail(splice(out, ob, h)),
            DecHdr::Hdr(h, off, is_nhc) => if off <= cp || off > c.len() {
                Outcome::Stuck
            } else {
                nhc_dec_spec(store, c, cp, off, h[6], is_nhc, smac, dmac, splice(out, ob, h), ob, 40)
            },
        }
    }
}

/// Decompression of the chain of NHC-encoded next headers at `c[off..]`, the
/// first of type `nh`, after `bw` bytes were written at `out[ob..]`.
#[verifier::opaque]
pub open spec fn nhc_dec_spec<C: ContextStore>(
    store: &C,
    c: Seq<u8>,
    cp: int,
    off: int,
    nh: u8,
    is_nhc: bool,
    smac: MacAddr,
    dmac: MacAddr,
    out: Seq<u8>,
    ob: int,
    bw: int,
) -> Outcome
    decreases c.len() - off, 1int,
{
    if off < 0 || off > c.len() || ob < 0 || bw < 40 {
        Outcome::Stuck
    } else if !is_nhc {
        finish_spec(c, cp, off, out, ob, bw)
    } else if off + 1 > c.len() || ob + bw > out.len() {
        Outcome::Stuck
    } else {
        let nhc = c[off];
        let o1 = off + 1;
        if nh == NH_IP6 {
            if ob + 2 * bw > out.len() {
                Outcome::Stuck
            } else {
                match decompress_spec(store, c, o1, smac, dmac, out, ob + 2 * bw) {
                    Outcome::Done(cons, out2, end) => finish_spec(
                        c,
                        cp,
                        o1 + (end - (ob + 2 * bw)),
                        out2,
                        ob,
                        bw + cons,
                    ),
                    other => other,
                }
            }
        } else if nh == NH_UDP {
            match udp_body_spec(c, o1, nhc, out, ob, bw) {
                Some((out2, o2)) => finish_spec(c, cp, o2, out2, ob, bw + 8),
                None => Outcome::Stuck,
            }
        } else if nh == NH_FRAGMENT || nh == NH_HOP_OPTS || nh == NH_ROUTING || nh == NH_DST_OPTS
            || nh == NH_MOBILITY {
            match ext_dec_spec(c, o1, nhc, out, ob + bw) {
                ExtDec::Next(next, next_is_nhc, out2, o2, n) => if o2 <= off {
                    Outcome::Stuck
                } else {
                    nhc_dec_spec(store, c, cp, o2, next, next_is_nhc, smac, dmac, out2, ob, bw + n)
                },
                ExtDec::Fail => Outcome::Fail(out),
                ExtDec::Stuck => Outcome::Stuck,
            }
        } else {
            Outcome::Stuck
        }
    }
}

/// The context prefix keeps an address 16 bytes long.
pub proof fn lemma_apply_ctx_prefix_len(a: Seq<u8>, ctx: ContextModel)
    requires
        a.len() == 16,
    ensures
        apply_ctx_prefix(a, ctx).len() == 16,
{
}

/// Decoded addresses are 16 bytes long and their inline bytes lie in the
/// input.
pub proof fn lemma_addr_decode_shape(f1: u8, smac: MacAddr, dmac: MacAddr, sc: ContextModel, dc: ContextModel, c: Seq<u8>, off: int)
    requires
        0 <= off <= c.len(),
    ensures
        src_decode(f1, smac, sc, c, off) matches Some((a, o)) ==> a.len() == 16 && off <= o <= c.len(),
        dst_decode(f1, dmac, dc, c, off) matches Dec::Val((a, o)) ==> a.len() == 16 && off <= o
            <= c.len(),
        mcast_decode(f1, dc, c, off) matches Dec::Val((a, o)) ==> a.len() == 16 && off <= o
            <= c.len(),
{
    let sam = ((f1 & IPHC_SAM_MASK) >> 4u8) as u8;
    let dam = f1 & IPHC_DAM_MASK;
    if off + 8 <= c.len() {
        lemma_apply_ctx_prefix_len(zeros(8) + c.subrange(off, off + 8), sc);
        lemma_apply_ctx_prefix_len(zeros(8) + c.subrange(off, off + 8), dc);
    }
    if off + 2 <= c.len() {
        lemma_apply_ctx_prefix_len(zeros(8) + mac_base_6() + c.subrange(off, off + 2), sc);
        lemma_apply_ctx_prefix_len(zeros(8) + mac_base_6() + c.subrange(off, off + 2), dc);
    }
    lemma_apply_ctx_prefix_len(zeros(8) + iid_of(smac), sc);
    lemma_apply_ctx_prefix_len(zeros(8) + iid_of(dmac), dc);
}

/// A decoded IPv6 header is 40 bytes long and the IPHC header occupies at
/// least its two flag bytes.
#[verifier::rlimit(40)]
pub proof fn lemma_iphc_decode_shape<C: ContextStore>(
    store: &C,
    c: Seq<u8>,
    cp: int,
    smac: MacAddr,
    dmac: MacAddr,
)
    ensures
        match iphc_decode(store, c, cp, smac, dmac) {
            DecHdr::Hdr(h, off, _) => h.len() == 40 && 0 <= cp && cp + 2 <= off <= c.len(),
            DecHdr::Invalid(h) => h.len() == 40,
            DecHdr::Stuck => true,
        },
{
    reveal(iphc_decode);
    if 0 <= cp && cp + 2 <= c.len() {
        let f0 = c[cp];
        let f1 = c[cp + 1];
        match cie_decode(store, f1, c, cp + 2) {
            Dec::Val((sc, dc, o1)) => match tf_decode(f0, c, o1) {
                Some((tc, flow, o2)) => match nh_decode(f0, c, o2) {
                    Some((is_nhc, nh, o3)) => match hl_decode(f0, c, o3) {
                        Some((hl, o4)) => {
                            lemma_addr_decode_shape(f1, smac, dmac, sc, dc, c, o4);
                            match src_decode(f1, smac, sc, c, o4) {
                                Some((sa, o5)) => {
                                    lemma_addr_decode_shape(f1, smac, dmac, sc, dc, c, o5);
                                },
                                None => {},
                            }
                        },
                        None => {},
                    },
                    None => {},
                },
                None => {},
            },
            _ => {},
        }
    }
}

/// Decompression of one packet: its IPHC header, then its next headers.
pub proof fn lemma_decompress_unfold<C: ContextStore>(
    store: &C,
    c: Seq<u8>,
    cp: int,
    smac: MacAddr,
    dmac: MacAddr,
    out: Seq<u8>,
    ob: int,
)
    ensures
        !(decompress_spec(store, c, cp, smac, dmac, out, ob) is Stuck) ==> {
            &&& 0 <= ob
            &&& ob + 40 <= out.len()
            &&& 0 <= cp <= c.len()
            &&& match iphc_decode(store, c, cp, smac, dmac) {
                DecHdr::Stuck => false,
                DecHdr::Invalid(h) => decompress_spec(store, c, cp, smac, dmac, out, ob)
                    == Outcome::Fail(splice(out, ob, h)),
                DecHdr::Hdr(h, off, n) => {
                    &&& cp < off <= c.len()
                    &&& decompress_spec(store, c, cp, smac, dmac, out, ob) == nhc_dec_spec(
                        store,
                        c,
                        cp,
                        off,
                        h[6],
                        n,
                        smac,
                        dmac,
                        splice(out, ob, h),
                        ob,
                        40,
                    )
                },
            }
        },
{
    reveal_with_fuel(decompress_spec, 1);
    reveal_with_fuel(nhc_dec_spec, 1);
}

/// One step of next-header decompression, by the type of the next header.
pub proof fn lemma_nhc_dec_unfold<C: ContextStore>(
    store: &C,
    c: Seq<u8>,
    cp: int,
    off: int,
    nh: u8,
    is_nhc: bool,
    smac: MacAddr,
    dmac: MacAddr,
    out: Seq<u8>,
    ob: int,
    bw: int,
)
    requires
        0 <= off <= c.len(),
        0 <= ob,
        40 <= bw,
    ensures
        !is_nhc ==> nhc_dec_spec(store, c, cp, off, nh, is_nhc, smac, dmac, out, ob, bw)
            == finish_spec(c, cp, off, out, ob, bw),
        is_nhc && (off + 1 > c.len() || ob + bw > out.len()) ==> nhc_dec_spec(
            store,
            c,
            cp,
            off,
            nh,
            is_nhc,
            smac,
            dmac,
            out,
            ob,
            bw,
        ) is Stuck,
        is_nhc && off + 1 <= c.len() && ob + bw <= out.len() ==> nhc_dec_spec(
            store,
            c,
            cp,
            off,
            nh,
            is_nhc,
            smac,
            dmac,
            out,
            ob,
            bw,
        ) == if nh == NH_IP6 {
            if ob + 2 * bw > out.len() {
                Outcome::Stuck
            } else {
                match decompress_spec(store, c, off + 1, smac, dmac, out, ob + 2 * bw) {
                    Outcome::Done(cons, out2, end) => finish_spec(
                        c,
                        cp,
                        off + 1 + (end - (ob + 2 * bw)),
                        out2,
                        ob,
                        bw + cons,
                    ),
                    other => other,
                }
            }
        } else if nh == NH_UDP {
            match udp_body_spec(c, off + 1, c[off], out, ob, bw) {
                Some((out2, o2)) => finish_spec(c, cp, o2, out2, ob, bw + 8),
                None => Outcome::Stuck,
            }
        } else if nh == NH_FRAGMENT || nh == NH_HOP_OPTS || nh == NH_ROUTING || nh == NH_DST_OPTS
            || nh == NH_MOBILITY {
            match ext_dec_spec(c, off + 1, c[off], out, ob + bw) {
                ExtDec::Next(next, next_is_nhc, out2, o2, n) => if o2 <= off {
                    Outcome::Stuck
                } else {
                    nhc_dec_spec(store, c, cp, o2, next, next_is_nhc, smac, dmac, out2, ob, bw + n)
                },
                ExtDec::Fail => Outcome::Fail(out),
                ExtDec::Stuck => Outcome::Stuck,
            }
        } else {
            Outcome::Stuck
        },
{
    reveal_with_fuel(decompress_spec, 1);
    reveal_with_fuel(nhc_dec_spec, 1);
}

/// One extension header stays within the input and the output.
pub proof fn lemma_ext_dec_bounds(c: Seq<u8>, o1: int, nhc: u8, out: Seq<u8>, nb: int)
    ensures
        match ext_dec_spec(c, o1, nhc, out, nb) {
            ExtDec::Next(_, _, b, o, n) => o1 < o < c.len() && 8 <= n && nb + n <= out.len()
                && b.len() == out.len(),
            _ => true,
        },
{
}

/// The UDP header stays within the input and the output.
pub proof fn lemma_udp_body_bounds(c: Seq<u8>, o1: int, nhc: u8, out: Seq<u8>, ob: int, bw: int)
    ensures
        match udp_body_spec(c, o1, nhc, out, ob, bw) {
            Some((b, o)) => o1 <= o <= c.len() && b.len() == out.len() && ob + bw + 8 <= out.len(),
            None => true,
        },
{
}

/// Lengths and offsets in a decompression outcome stay within the input
/// and the output.
pub proof fn lemma_decompress_bounds<C: ContextStore>(
    store: &C,
    c: Seq<u8>,
    cp: int,
    smac: MacAddr,
    dmac: MacAddr,
    out: Seq<u8>,
    ob: int,
)
    ensures
        match decompress_spec(store, c, cp, smac, dmac, out, ob) {
            Outcome::Done(cons, b, end) => 0 <= cons <= c.len() - cp && ob + 40 <= end <= out.len()
                + c.len() - cp && b.len() == out.len(),
            Outcome::Fail(b) => b.len() == out.len(),
            Outcome::Stuck => true,
        },
    decreases c.len() - cp, 0int,
{
    lemma_decompress_unfold(store, c, cp, smac, dmac, out, ob);
    lemma_iphc_decode_shape(store, c, cp, smac, dmac);
    if !(decompress_spec(store, c, cp, smac, dmac, out, ob) is Stuck) {
        match iphc_decode(store, c, cp, smac, dmac) {
            DecHdr::Hdr(h, off, n) => {
                lemma_nhc_dec_bounds(
                    store,
                    c,
                    cp,
                    off,
                    h[6],
                    n,
                    smac,
                    dmac,
                    splice(out, ob, h),
                    ob,
                    40,
                );
            },
            _ => {},
        }
    }
}

/// Lengths and offsets in the outcome of next-header decompression stay
/// within the input and the output.
pub proof fn lemma_nhc_dec_bounds<C: ContextStore>(
    store: &C,
    c: Seq<u8>,
    cp: int,
    off: int,
    nh: u8,
    is_nhc: bool,
    smac: MacAddr,
    dmac: MacAddr,
    out: Seq<u8>,
    ob: int,
    bw: int,
)
    requires
        0 <= cp <= off <= c.len(),
        0 <= ob,
        40 <= bw,
        ob + bw <= out.len(),
    ensures
        match nhc_dec_spec(store, c, cp, off, nh, is_nhc, smac, dmac, out, ob, bw) {
            Outcome::Done(cons, b, end) => off - cp <= cons <= c.len() - cp && ob + 40 <= end
                <= out.len() + c.len() - cp && b.len() == out.len(),
            Outcome::Fail(b) => b.len() == out.len(),
            Outcome::Stuck => true,
        },
    decreases c.len() - off, 1int,
{
    lemma_nhc_dec_unfold(store, c, cp, off, nh, is_nhc, smac, dmac, out, ob, bw);
    if is_nhc && off + 1 <= c.len() && ob + bw <= out.len() {
        if nh == NH_IP6 {
            if ob + 2 * bw <= out.len() {
                lemma_decompress_bounds(store, c, off + 1, smac, dmac, out, ob + 2 * bw);
            }
        } else if nh == NH_UDP {
            lemma_udp_body_bounds(c, off + 1, c[off], out, ob, bw);
        } else if nh == NH_FRAGMENT || nh == NH_HOP_OPTS || nh == NH_ROUTING || nh == NH_DST_OPTS
            || nh == NH_MOBILITY {
            lemma_ext_dec_bounds(c, off + 1, c[off], out, ob + bw);
            match ext_dec_spec(c, off + 1, c[off], out, ob + bw) {
                ExtDec::Next(next, next_is_nhc, out2, o2, n) => {
                    if o2 > off {
                        lemma_nhc_dec_bounds(
                            store,
                            c,
                            cp,
                            o2,
                            next,
                            next_is_nhc,
                            smac,
                            dmac,
                            out2,
                            ob,
                            bw + n,
                        );
                    }
                },
                _ => {},
            }
        }
    }
}

/// Copies `n` bytes of `src[start..]` into `a` at `at`.
fn put_addr_bytes(a: &mut Address, at: usize, src: &[u8], start: usize, n: usize)
    requires
        at + n <= 16,
        start + n <= src@.len(),
    ensures
        final(a).0@ == splice(old(a).0@, at as int, src@.subrange(start as int, start + n)),
{
    let _ = src.len();
    copy_into(&mut a.0, at, src, start, n);
}

impl<'a, C: ContextStore> LoWPAN<'a, C> {
    /// Reads the context identifier extension, if present, and looks up the
    /// source and destination contexts.
    fn decompress_cie(&self, iphc_header: u8, buf: &[u8], offset: &mut usize) -> (r: Result<
        (Context, Context),
        (),
    >)
        requires
            !(cie_decode(self.ctx_store, iphc_header, buf@, *old(offset) as int) is Short),
        ensures
            match cie_decode(self.ctx_store, iphc_header, buf@, *old(offset) as int) {
                Dec::Val((s, d, o)) => r matches Ok((sc, dc)) && sc@ == s && dc@ == d
                    && *final(offset) == o,
                Dec::Bad => r is Err,
                Dec::Short => false,
            },
    {
        let ctx_0_src = self.ctx_store.get_context_0();
        let ctx_0_dst = self.ctx_store.get_context_0();
        if iphc_header & IPHC_CID != 0 {
            let sci = buf[*offset] >> 4;
            let dci = buf[*offset] & 0xf;
            *offset = *offset + 1;
            let src_ctx = if sci != 0 {
                match self.ctx_store.get_context_from_id(sci) {
                    Some(ctx) => ctx,
                    None => {
                        return Err(());
                    },
                }
            } else {
                ctx_0_src
            };
            let dst_ctx = if dci != 0 {
                match self.ctx_store.get_context_from_id(dci) {
                    Some(ctx) => ctx,
                    None => {
                        return Err(());
                    },
                }
            } else {
                ctx_0_dst
            };
            Ok((src_ctx, dst_ctx))
        } else {
            Ok((ctx_0_src, ctx_0_dst))
        }
    }

    /// Reads the inline traffic class and flow label fields; returns the
    /// traffic class and the flow label.
    fn decompress_tf(&self, iphc_header: u8, buf: &[u8], offset: &mut usize) -> (r: (u8, u32))
        requires
            tf_decode(iphc_header, buf@, *old(offset) as int) is Some,
        ensures
            tf_decode(iphc_header, buf@, *old(offset) as int) == Some((r.0, r.1, *final(offset) as int)),
    {
        let fl_compressed = (iphc_header & IPHC_TF_FLOW_LABEL) != 0;
        let tc_compressed = (iphc_header & IPHC_TF_TRAFFIC_CLASS) != 0;
        // ECN and DSCP are stored in the opposite order from the IPv6
        // traffic class field
        let mut ecn: u8 = 0;
        let mut dscp: u8 = 0;
        if !fl_compressed || !tc_compressed {
            ecn = buf[*offset] >> 6;
        }
        if !tc_compressed {
            dscp = buf[*offset] & 0b111111;
            *offset = *offset + 1;
        }
        // The flow label is always in the same bit position relative to the
        // last three bytes of the inline fields
        let flow: u32 = if fl_compressed {
            0
        } else {
            let f = (((buf[*offset] & 0x0f) as u32) << 16) | ((buf[*offset + 1] as u32) << 8)
                | (buf[*offset + 2] as u32);
            *offset = *offset + 3;
            f
        };
        ((dscp << 2) | ecn, flow)
    }

    /// Reads the inline next header unless it is NHC-compressed.
    fn decompress_nh(&self, iphc_header: u8, buf: &[u8], offset: &mut usize) -> (r: (bool, u8))
        requires
            nh_decode(iphc_header, buf@, *old(offset) as int) is Some,
        ensures
            nh_decode(iphc_header, buf@, *old(offset) as int) == Some((r.0, r.1, *final(offset) as int)),
    {
        let is_nhc = (iphc_header & IPHC_NH) != 0;
        let mut next_header: u8 = 0;
        if !is_nhc {
            next_header = buf[*offset];
            *offset = *offset + 1;
        }
        (is_nhc, next_header)
    }

    /// Reads the hop limit.
    fn decompress_hl(&self, iphc_header: u8, buf: &[u8], offset: &mut usize) -> (r: u8)
        requires
            hl_decode(iphc_header, buf@, *old(offset) as int) is Some,
        ensures
            hl_decode(iphc_header, buf@, *old(offset) as int) == Some((r, *final(offset) as int)),
    {
        let m = iphc_header & IPHC_HLIM_MASK;
        if m == IPHC_HLIM_1 {
            1
        } else if m == IPHC_HLIM_64 {
            64
        } else if m == IPHC_HLIM_255 {
            255
        } else {
            let hl = buf[*offset];
            *offset = *offset + 1;
            hl
        }
    }

    /// Decompresses a stateless (link-local) address in mode `mode` (0 to 3).
    fn decompress_iid_link_local(&self, mode: u8, mac_addr: &MacAddr, buf: &[u8], offset: &mut usize) -> (r: Address)
        requires
            mode < 4,
            iid_ll_decode(mode, *mac_addr, buf@, *old(offset) as int) is Some,
        ensures
            iid_ll_decode(mode, *mac_addr, buf@, *old(offset) as int) == Some(
                (r.0@, *final(offset) as int),
            ),
    {
        let _ = buf.len();
        let mut ip_addr = Address::default();
        let ghost o = *offset as int;
        if mode == 0 {
            // Inline
            put_addr_bytes(&mut ip_addr, 0, buf, *offset, 16);
            *offset = *offset + 16;
            assert(ip_addr.0@ =~= buf@.subrange(o, o + 16));
        } else if mode == 1 {
            // Link-local prefix (64 bits) + 64 bits carried inline
            ip_addr.set_unicast_link_local();
            put_addr_bytes(&mut ip_addr, 8, buf, *offset, 8);
            *offset = *offset + 8;
            assert(ip_addr.0@ =~= ll_prefix() + buf@.subrange(o, o + 8));
        } else if mode == 2 {
            // Link-local prefix (112 bits) + 0000:00ff:fe00:XXXX
            ip_addr.set_unicast_link_local();
            let base: [u8; 8] = MAC_BASE;
            put_addr_bytes(&mut ip_addr, 11, &base, 3, 2);
            put_addr_bytes(&mut ip_addr, 14, buf, *offset, 2);
            *offset = *offset + 2;
            assert(ip_addr.0@ =~= ll_prefix() + mac_base_6() + buf@.subrange(o, o + 2));
        } else {
            // Link-local prefix (64 bits) + IID from the encapsulating header
            ip_addr.set_unicast_link_local();
            let iid = compute_iid(mac_addr);
            put_addr_bytes(&mut ip_addr, 8, &iid, 0, 8);
            assert(ip_addr.0@ =~= ll_prefix() + iid_of(*mac_addr));
        }
        ip_addr
    }

    /// Decompresses a context-based (stateful) address in mode `mode` (0 to
    /// 3); mode 0 is reserved.
    fn decompress_iid_context(
        &self,
        mode: u8,
        mac_addr: &MacAddr,
        ctx: &Context,
        buf: &[u8],
        offset: &mut usize,
    ) -> (r: Result<Address, ()>)
        requires
            mode < 4,
            !(iid_ctx_decode(mode, *mac_addr, ctx@, buf@, *old(offset) as int) is Short),
        ensures
            match iid_ctx_decode(mode, *mac_addr, ctx@, buf@, *old(offset) as int) {
                Dec::Val((a, o)) => r matches Ok(ip) && ip.0@ == a && *final(offset) == o,
                Dec::Bad => r is Err,
                Dec::Short => false,
            },
    {
        let _ = buf.len();
        let mut ip_addr = Address::default();
        let ghost o = *offset as int;
        if mode == 0 {
            // Reserved
            return Err(());
        } else if mode == 1 {
            // The suffix is the 64 bits carried inline
            put_addr_bytes(&mut ip_addr, 8, buf, *offset, 8);
            *offset = *offset + 8;
            assert(ip_addr.0@ =~= zeros(8) + buf@.subrange(o, o + 8));
        } else if mode == 2 {
            // The suffix is 0000:00ff:fe00:XXXX
            let base: [u8; 8] = MAC_BASE;
            put_addr_bytes(&mut ip_addr, 8, &base, 0, 8);
            put_addr_bytes(&mut ip_addr, 14, buf, *offset, 2);
            *offset = *offset + 2;
            assert(ip_addr.0@ =~= zeros(8) + mac_base_6() + buf@.subrange(o, o + 2));
        } else {
            // The suffix is the IID computed from the encapsulating header
            let iid = compute_iid(mac_addr);
            put_addr_bytes(&mut ip_addr, 8, &iid, 0, 8);
            assert(ip_addr.0@ =~= zeros(8) + iid_of(*mac_addr));
        }
        // The bits covered by the context are always used, so they are
        // copied in after the other bits are set
        let _ = ip_addr.set_prefix(ctx.prefix.as_slice(), ctx.prefix_len);
        Ok(ip_addr)
    }

    /// Decompresses the source address.
    fn decompress_src(
        &self,
        iphc_header: u8,
        mac_addr: &MacAddr,
        ctx: &Context,
        buf: &[u8],
        offset: &mut usize,
    ) -> (r: Address)
        requires
            src_decode(iphc_header, *mac_addr, ctx@, buf@, *old(offset) as int) is Some,
        ensures
            src_decode(iphc_header, *mac_addr, ctx@, buf@, *old(offset) as int) == Some(
                (r.0@, *final(offset) as int),
            ),
    {
        let uses_context = (iphc_header & IPHC_SAC) != 0;
        let sam_mode = (iphc_header & IPHC_SAM_MASK) >> 4;
        assert((iphc_header & 0x30u8) >> 4u8 < 4u8) by (bit_vector);
        if uses_context && sam_mode == 0 {
            // SAC = 1, SAM = 00: the unspecified address ::
            let a = Address::default();
            assert(a.0@ =~= zeros(16));
            a
        } else if uses_context {
            match self.decompress_iid_context(sam_mode, mac_addr, ctx, buf, offset) {
                Ok(a) => a,
                Err(_) => Address::default(),
            }
        } else {
            self.decompress_iid_link_local(sam_mode, mac_addr, buf, offset)
        }
    }

    /// Decompresses a unicast destination address.
    fn decompress_dst(
        &self,
        iphc_header: u8,
        mac_addr: &MacAddr,
        ctx: &Context,
        buf: &[u8],
        offset: &mut usize,
    ) -> (r: Result<Address, ()>)
        requires
            !(dst_decode(iphc_header, *mac_addr, ctx@, buf@, *old(offset) as int) is Short),
        ensures
            match dst_decode(iphc_header, *mac_addr, ctx@, buf@, *old(offset) as int) {
                Dec::Val((a, o)) => r matches Ok(ip) && ip.0@ == a && *final(offset) == o,
                Dec::Bad => r is Err,
                Dec::Short => false,
            },
    {
        let uses_context = (iphc_header & IPHC_DAC) != 0;
        let dam_mode = iphc_header & IPHC_DAM_MASK;
        assert(iphc_header & 3u8 < 4u8) by (bit_vector);
        if uses_context && dam_mode == 0 {
            // DAC = 1, DAM = 00: reserved
            Err(())
        } else if uses_context {
            self.decompress_iid_context(dam_mode, mac_addr, ctx, buf, offset)
        } else {
            Ok(self.decompress_iid_link_local(dam_mode, mac_addr, buf, offset))
        }
    }

    /// Decompresses a multicast destination address.
    fn decompress_multicast(&self, iphc_header: u8, ctx: &Context, buf: &[u8], offset: &mut usize) -> (r:
        Result<Address, ()>)
        requires
            !(mcast_decode(iphc_header, ctx@, buf@, *old(offset) as int) is Short),
        ensures
            match mcast_decode(iphc_header, ctx@, buf@, *old(offset) as int) {
                Dec::Val((a, o)) => r matches Ok(ip) && ip.0@ == a && *final(offset) == o,
                Dec::Bad => r is Err,
                Dec::Short => false,
            },
    {
        let _ = buf.len();
        let uses_context = (iphc_header & IPHC_DAC) != 0;
        let dam_mode = iphc_header & IPHC_DAM_MASK;
        let mut ip_addr = Address::default();
        let ghost o = *offset as int;
        if uses_context {
            if dam_mode == 0 {
                // DAC = 1, DAM = 00: 48 bits
                // ffXX:XXLL:PPPP:PPPP:PPPP:PPPP:XXXX:XXXX
                let prefix_bytes: usize = ((ctx.prefix_len + 7) / 8) as usize;
                if prefix_bytes > 8 {
                    // The maximum prefix length for this mode is 64 bits
                    return Err(());
                }
                ip_addr.0[0] = 0xff;
                ip_addr.0[1] = buf[*offset];
                ip_addr.0[2] = buf[*offset + 1];
                ip_addr.0[3] = ctx.prefix_len;
                put_addr_bytes(&mut ip_addr, 4, ctx.prefix.as_slice(), 0, prefix_bytes);
                put_addr_bytes(&mut ip_addr, 12, buf, *offset + 2, 4);
                *offset = *offset + 6;
                assert(ip_addr.0@ =~= seq![0xffu8, buf@[o], buf@[o + 1], ctx.prefix_len]
                    + ctx@.prefix.subrange(0, prefix_bytes as int) + zeros(8 - prefix_bytes)
                    + buf@.subrange(o + 2, o + 6));
            } else {
                // DAC = 1, DAM = 01, 10, 11: reserved
                return Err(());
            }
        } else if dam_mode == 0 {
            // Inline
            put_addr_bytes(&mut ip_addr, 0, buf, *offset, 16);
            *offset = *offset + 16;
            assert(ip_addr.0@ =~= buf@.subrange(o, o + 16));
        } else if dam_mode == 1 {
            // 48 bits: ffXX::00XX:XXXX:XXXX
            ip_addr.0[0] = 0xff;
            ip_addr.0[1] = buf[*offset];
            put_addr_bytes(&mut ip_addr, 11, buf, *offset + 1, 5);
            *offset = *offset + 6;
            assert(ip_addr.0@ =~= seq![0xffu8, buf@[o]] + zeros(9) + buf@.subrange(o + 1, o + 6));
        } else if dam_mode == 2 {
            // 32 bits: ffXX::00XX:XXXX
            ip_addr.0[0] = 0xff;
            ip_addr.0[1] = buf[*offset];
            put_addr_bytes(&mut ip_addr, 13, buf, *offset + 1, 3);
            *offset = *offset + 4;
            assert(ip_addr.0@ =~= seq![0xffu8, buf@[o]] + zeros(11) + buf@.subrange(o + 1, o + 4));
        } else {
            // 8 bits: ff02::00XX
            ip_addr.0[0] = 0xff;
            ip_addr.0[1] = 0x02;
            ip_addr.0[15] = buf[*offset];
            *offset = *offset + 1;
            assert(ip_addr.0@ =~= seq![0xffu8, 0x02u8] + zeros(13) + seq![buf@[o]]);
        }
        Ok(ip_addr)
    }

    /// Decodes the LOWPAN_IPHC header at `buf[cp..]` into an IPv6 header.
    /// On an invalid encoding, returns the IPv6 header as far as it was
    /// filled in.
    fn decompress_iphc(&self, buf: &[u8], cp: usize, src_mac_addr: &MacAddr, dst_mac_addr: &MacAddr) -> (r:
        Result<([u8; 40], usize, bool), [u8; 40]>)
        requires
            !(iphc_decode(self.ctx_store, buf@, cp as int, *src_mac_addr, *dst_mac_addr) is Stuck),
        ensures
            match iphc_decode(self.ctx_store, buf@, cp as int, *src_mac_addr, *dst_mac_addr) {
                DecHdr::Hdr(h, off, n) => r matches Ok((a, o, m)) && a@ == h && o == off && m == n,
                DecHdr::Invalid(h) => r matches Err(a) && a@ == h,
                DecHdr::Stuck => false,
            },
    {
        proof {
            reveal(iphc_decode);
        }
        let _ = buf.len();
        // Get the LOWPAN_IPHC header (the first two bytes are the header)
        let iphc_header_1: u8 = buf[cp];
        let iphc_header_2: u8 = buf[cp + 1];
        let mut offset: usize = cp + 2;
        let mut hdr: [u8; 40] = [0u8; 40];
        hdr[0] = 0x60;
        hdr[6] = NH_NO_NEXT;
        hdr[7] = 255;
        assert(hdr@ =~= default_header());
        // Decompress CID and CIE fields if they exist
        let (src_ctx, dst_ctx) = match self.decompress_cie(iphc_header_2, buf, &mut offset) {
            Ok(x) => x,
            Err(_) => {
                return Err(hdr);
            },
        };
        // Traffic Class & Flow Label
        let (tc, flow) = self.decompress_tf(iphc_header_1, buf, &mut offset);
        // Next Header
        let (is_nhc, next_header) = self.decompress_nh(iphc_header_1, buf, &mut offset);
        // Hop limit
        let hop_limit = self.decompress_hl(iphc_header_1, buf, &mut offset);
        // Source address
        let src_addr = self.decompress_src(iphc_header_2, src_mac_addr, &src_ctx, buf, &mut offset);
        hdr[0] = 0x60 | (tc >> 4);
        hdr[1] = (tc << 4) | (((flow >> 16) & 0x0f) as u8);
        hdr[2] = (flow >> 8) as u8;
        hdr[3] = flow as u8;
        hdr[7] = hop_limit;
        copy_into(&mut hdr, 8, &src_addr.0, 0, 16);
        let ghost h1 = hdr@;
        assert(src_addr.0@.subrange(0, 16) =~= src_addr.0@);
        assert(h1 =~= vtf_bytes(tc, flow) + seq![0u8, 0u8, NH_NO_NEXT, hop_limit] + src_addr.0@
            + zeros(16));
        // Destination address
        let dst = if (iphc_header_2 & IPHC_MULTICAST) != 0 {
            self.decompress_multicast(iphc_header_2, &dst_ctx, buf, &mut offset)
        } else {
            self.decompress_dst(iphc_header_2, dst_mac_addr, &dst_ctx, buf, &mut offset)
        };
        let dst_addr = match dst {
            Ok(a) => a,
            Err(_) => {
                return Err(hdr);
            },
        };
        copy_into(&mut hdr, 24, &dst_addr.0, 0, 16);
        assert(dst_addr.0@.subrange(0, 16) =~= dst_addr.0@);
        assert(hdr@ =~= h1.subrange(0, 24) + dst_addr.0@);
        // Note that next_header is already set only if is_nhc is false
        if is_nhc {
            match nhc_to_ip6_nh(buf[offset]) {
                Ok(nh) => {
                    hdr[6] = nh;
                },
                Err(_) => {
                    return Err(hdr);
                },
            }
        } else {
            hdr[6] = next_header;
        }
        Ok((hdr, offset, is_nhc))
    }

    /// Reads the compressed UDP ports.
    fn decompress_udp_ports(&self, udp_nhc: u8, buf: &[u8], offset: &mut usize) -> (r: (u16, u16))
        requires
            udp_ports_decode(udp_nhc, buf@, *old(offset) as int) is Some,
        ensures
            udp_ports_decode(udp_nhc, buf@, *old(offset) as int) == Some(
                (r.0, r.1, *final(offset) as int),
            ),
    {
        let _ = buf.len();
        let src_compressed = (udp_nhc & NHC_UDP_SRC_PORT_FLAG) != 0;
        let dst_compressed = (udp_nhc & NHC_UDP_DST_PORT_FLAG) != 0;
        if src_compressed && dst_compressed {
            // Both ports are compressed to 4 bits
            let src_short = ((buf[*offset] >> 4) & 0xf) as u16;
            let dst_short = (buf[*offset] & 0xf) as u16;
            *offset = *offset + 1;
            (NHC_UDP_4BIT_PORT | src_short, NHC_UDP_4BIT_PORT | dst_short)
        } else if src_compressed {
            // The source port is compressed to 8 bits
            let src_port = NHC_UDP_8BIT_PORT | (buf[*offset] as u16);
            let dst_port = slice_to_u16(buf, *offset + 1);
            *offset = *offset + 3;
            (src_port, dst_port)
        } else if dst_compressed {
            // The destination port is compressed to 8 bits
            let src_port = slice_to_u16(buf, *offset);
            let dst_port = NHC_UDP_8BIT_PORT | (buf[*offset + 2] as u16);
            *offset = *offset + 3;
            (src_port, dst_port)
        } else {
            // Both ports are uncompressed
            let src_port = slice_to_u16(buf, *offset);
            let dst_port = slice_to_u16(buf, *offset + 2);
            *offset = *offset + 4;
            (src_port, dst_port)
        }
    }

    /// Writes the uncompressed UDP header at `out[ob + bw..]` and returns
    /// the input offset after the compressed one.
    fn decompress_udp(
        &self,
        udp_nhc: u8,
        buf: &[u8],
        o1: usize,
        out: &mut [u8],
        ob: usize,
        bw: usize,
    ) -> (r: usize)
        requires
            udp_body_spec(buf@, o1 as int, udp_nhc, old(out)@, ob as int, bw as int) is Some,
            buf@.len() + old(out)@.len() <= usize::MAX,
        ensures
            udp_body_spec(buf@, o1 as int, udp_nhc, old(out)@, ob as int, bw as int) == Some(
                (final(out)@, r as int),
            ),
    {
        let _ = buf.len();
        let _ = out.len();
        let nb = ob + bw;
        let mut offset = o1;
        let (src_port, dst_port) = self.decompress_udp_ports(udp_nhc, buf, &mut offset);
        let ghost o2 = offset as int;
        let elided = (udp_nhc & NHC_UDP_CHECKSUM_FLAG) != 0;
        // The payload follows the ports and the inline checksum, if any
        let payload_offset = if elided { offset } else { offset + 2 };
        // The UDP length covers the UDP header and its payload
        let udp_length = (8 + (buf.len() - payload_offset)) as u16;
        u16_to_slice(src_port, out, nb);
        u16_to_slice(dst_port, out, nb + 2);
        u16_to_slice(udp_length, out, nb + 4);
        let ghost out1 = out@;
        assert(out1 =~= splice(
            old(out)@,
            nb as int,
            be16_bytes(src_port) + be16_bytes(dst_port) + be16_bytes(udp_length),
        ));
        // The checksum is computed over the header values filled in above
        let udp_checksum = if elided {
            compute_udp_checksum(out, ob, out, nb, udp_length, buf, offset)
        } else {
            let checksum = slice_to_u16(buf, offset);
            offset = offset + 2;
            checksum
        };
        u16_to_slice(udp_checksum, out, nb + 6);
        offset
    }

    /// Writes the uncompressed extension header, padded to a multiple of
    /// eight octets, at `out[nb..]`. Returns the type of the header after it,
    /// whether that one is NHC-compressed, the input offset after this one
    /// and the number of bytes written.
    #[verifier::rlimit(40)]
    fn decompress_ext(
        &self,
        nhc_header: u8,
        buf: &[u8],
        o1: usize,
        out: &mut [u8],
        nb: usize,
    ) -> (r: Result<(u8, bool, usize, usize), ()>)
        requires
            !(ext_dec_spec(buf@, o1 as int, nhc_header, old(out)@, nb as int) is Stuck),
        ensures
            match ext_dec_spec(buf@, o1 as int, nhc_header, old(out)@, nb as int) {
                ExtDec::Next(t, n, b, o, w) => r == Ok::<(u8, bool, usize, usize), ()>(
                    (t, n, o as usize, w as usize),
                ) && final(out)@ == b,
                ExtDec::Fail => r is Err && final(out)@ == old(out)@,
                ExtDec::Stuck => false,
            },
    {
        let _ = buf.len();
        let _ = out.len();
        // True if the next header is also compressed
        let is_nhc = (nhc_header & NHC_NH) != 0;
        // len is the number of octets following the length field
        let len = buf[o1] as usize;
        let offset = o1 + 1;
        // There must be a next header in the buffer
        if len >= buf.len() - offset {
            return Err(());
        }
        // Length in 8-octet units after the first 8 octets
        let mut hdr_len_field = (len - 6) / 8;
        if (len - 6) % 8 != 0 {
            hdr_len_field = hdr_len_field + 1;
        }
        // The type of the subsequent next header
        let next_header = if is_nhc {
            match nhc_to_ip6_nh(buf[offset + len]) {
                Ok(nh) => nh,
                Err(_) => {
                    return Err(());
                },
            }
        } else {
            buf[offset + len]
        };
        let ghost body = seq![next_header, hdr_len_field as u8] + buf@.subrange(
            offset as int,
            offset + len,
        ) + pad_fill(hdr_len_field * 8 - len + 6);
        // Fill in the extension header in uncompressed IPv6 format
        out[nb] = next_header;
        out[nb + 1] = hdr_len_field as u8;
        copy_into(out, nb + 2, buf, offset, len);
        let ghost pre = out@;
        assert(pre =~= splice(
            old(out)@,
            nb as int,
            seq![next_header, hdr_len_field as u8] + buf@.subrange(offset as int, offset + len),
        ));
        // Fill in padding
        let pad_bytes = hdr_len_field * 8 - len + 6;
        if pad_bytes == 1 {
            // Pad1
            out[nb + 2 + len] = 0;
            assert(out@ =~= splice(old(out)@, nb as int, body));
        } else {
            // PadN, 2 <= pad_bytes <= 7
            out[nb + 2 + len] = 1;
            out[nb + 2 + len + 1] = pad_bytes as u8 - 2;
            let mut i: usize = 2;
            while i < pad_bytes
                invariant
                    2 <= i <= pad_bytes <= 7,
                    nb + 2 + len + pad_bytes <= out@.len(),
                    out@.len() <= usize::MAX,
                    forall|j: int| nb + 2 + len + 2 <= j < nb + 2 + len + i ==> out@[j] == 0,
                    out@.len() == old(out)@.len(),
                    out@[nb + 2 + len] == 1,
                    out@[nb + 2 + len + 1] == pad_bytes - 2,
                    forall|j: int| 0 <= j < nb + 2 + len ==> out@[j] == #[trigger] pre[j],
                    forall|j: int| nb + 2 + len + pad_bytes <= j < out@.len() ==> out@[j] == old(
                        out,
                    )@[j],
                decreases pad_bytes - i,
            {
                out[nb + 2 + len + i] = 0;
                i = i + 1;
            }
            assert(pad_fill(pad_bytes as int) =~= seq![1u8, (pad_bytes - 2) as u8] + zeros(
                pad_bytes - 2,
            ));
            assert forall|j: int| 0 <= j < out@.len() implies out@[j] == splice(
                old(out)@,
                nb as int,
                body,
            )[j] by {
                if j < nb + 2 + len {
                    assert(out@[j] == pre[j]);
                } else if j < nb + 2 + len + pad_bytes {
                } else {
                }
            }
            assert(out@ =~= splice(old(out)@, nb as int, body));
        }
        Ok((next_header, is_nhc, offset + len, 8 + hdr_len_field * 8))
    }

    /// Decompresses the 6LoWPAN packet at `buf[cp..]` into `out[ob..]`;
    /// offsets in the result are relative to `cp` and `ob`.
    fn decompress_at(
        &self,
        buf: &[u8],
        cp: usize,
        src_mac_addr: MacAddr,
        dst_mac_addr: MacAddr,
        out: &mut [u8],
        ob: usize,
    ) -> (r: Result<(usize, usize), ()>)
        requires
            !(decompress_spec(
                self.ctx_store,
                buf@,
                cp as int,
                src_mac_addr,
                dst_mac_addr,
                old(out)@,
                ob as int,
            ) is Stuck),
            buf@.len() + old(out)@.len() <= usize::MAX,
        ensures
            result_matches(
                r,
                final(out)@,
                decompress_spec(
                    self.ctx_store,
                    buf@,
                    cp as int,
                    src_mac_addr,
                    dst_mac_addr,
                    old(out)@,
                    ob as int,
                ),
                ob as int,
            ),
        decreases buf@.len() - cp,
    {
        let _ = buf.len();
        let _ = out.len();
        let ghost target = decompress_spec(
            self.ctx_store,
            buf@,
            cp as int,
            src_mac_addr,
            dst_mac_addr,
            old(out)@,
            ob as int,
        );
        proof {
            lemma_decompress_unfold(self.ctx_store, buf@, cp as int, src_mac_addr, dst_mac_addr, old(out)@, ob as int);
            lemma_iphc_decode_shape(self.ctx_store, buf@, cp as int, src_mac_addr, dst_mac_addr);
            lemma_decompress_bounds(self.ctx_store, buf@, cp as int, src_mac_addr, dst_mac_addr, old(out)@, ob as int);
        }
        let (hdr, iphc_end, iphc_nhc) = match self.decompress_iphc(buf, cp, &src_mac_addr, &dst_mac_addr) {
            Ok(x) => x,
            Err(h) => {
                copy_into(out, ob, &h, 0, 40);
                assert(h@.subrange(0, 40) =~= h@);
                return Err(());
            },
        };
        copy_into(out, ob, &hdr, 0, 40);
        assert(hdr@.subrange(0, 40) =~= hdr@);
        let mut offset: usize = iphc_end;
        let mut is_nhc = iphc_nhc;
        let mut next_header: u8 = hdr[6];
        let mut bytes_written: usize = 40;
        // While the next header is still compressed. At each iteration,
        // offset points to the NHC header and next_header is its type.
        while is_nhc
            invariant
                nhc_dec_spec(
                    self.ctx_store,
                    buf@,
                    cp as int,
                    offset as int,
                    next_header,
                    is_nhc,
                    src_mac_addr,
                    dst_mac_addr,
                    out@,
                    ob as int,
                    bytes_written as int,
                ) == target,
                target == decompress_spec(
                    self.ctx_store,
                    buf@,
                    cp as int,
                    src_mac_addr,
                    dst_mac_addr,
                    old(out)@,
                    ob as int,
                ),
                !(target is Stuck),
                cp <= offset <= buf@.len(),
                40 <= bytes_written,
                is_nhc ==> ob + bytes_written <= out@.len(),
                bytes_written <= out@.len() + buf@.len(),
                out@.len() == old(out)@.len(),
                buf@.len() + out@.len() <= usize::MAX,
            decreases buf@.len() - offset, (if is_nhc { 1int } else { 0int }),
        {
            proof {
                lemma_nhc_dec_unfold(
                    self.ctx_store,
                    buf@,
                    cp as int,
                    offset as int,
                    next_header,
                    is_nhc,
                    src_mac_addr,
                    dst_mac_addr,
                    out@,
                    ob as int,
                    bytes_written as int,
                );
            }
            // Advance past the LoWPAN NHC byte
            let nhc_header = buf[offset];
            offset = offset + 1;
            if next_header == NH_IP6 {
                proof {
                    lemma_decompress_bounds(
                        self.ctx_store,
                        buf@,
                        offset as int,
                        src_mac_addr,
                        dst_mac_addr,
                        out@,
                        ob + 2 * bytes_written,
                    );
                }
                // The encapsulated header is decompressed at twice the
                // current offset and its result is read in reverse order
                let inner = self.decompress_at(
                    buf,
                    offset,
                    src_mac_addr,
                    dst_mac_addr,
                    out,
                    ob + 2 * bytes_written,
                );
                match inner {
                    Ok((encap_written, encap_processed)) => {
                        bytes_written = bytes_written + encap_written;
                        offset = offset + encap_processed;
                        is_nhc = false;
                        proof {
                            lemma_nhc_dec_unfold(
                                self.ctx_store,
                                buf@,
                                cp as int,
                                offset as int,
                                next_header,
                                false,
                                src_mac_addr,
                                dst_mac_addr,
                                out@,
                                ob as int,
                                bytes_written as int,
                            );
                        }
                    },
                    Err(_) => {
                        return Err(());
                    },
                }
            } else if next_header == NH_UDP {
                proof {
                    lemma_udp_body_bounds(buf@, offset as int, nhc_header, out@, ob as int, bytes_written as int);
                }
                offset = self.decompress_udp(nhc_header, buf, offset, out, ob, bytes_written);
                bytes_written = bytes_written + 8;
                is_nhc = false;
                proof {
                    lemma_nhc_dec_unfold(
                        self.ctx_store,
                        buf@,
                        cp as int,
                        offset as int,
                        next_header,
                        false,
                        src_mac_addr,
                        dst_mac_addr,
                        out@,
                        ob as int,
                        bytes_written as int,
                    );
                }
            } else {
                proof {
                    lemma_ext_dec_bounds(buf@, offset as int, nhc_header, out@, (ob + bytes_written) as int);
                }
                match self.decompress_ext(nhc_header, buf, offset, out, ob + bytes_written) {
                    Ok((nh, n, o, w)) => {
                        next_header = nh;
                        is_nhc = n;
                        offset = o;
                        bytes_written = bytes_written + w;
                    },
                    Err(_) => {
                        return Err(());
                    },
                }
            }
        }
        proof {
            lemma_nhc_dec_unfold(
                self.ctx_store,
                buf@,
                cp as int,
                offset as int,
                next_header,
                is_nhc,
                src_mac_addr,
                dst_mac_addr,
                out@,
                ob as int,
                bytes_written as int,
            );
        }
        // The IPv6 payload length covers the extension headers and the
        // payload: the uncompressed size less the fixed IPv6 header.
        let payload_len = bytes_written + (buf.len() - offset) - 40;
        u16_to_slice(#[verifier::truncate] (payload_len as u16), out, ob + 4);
        Ok((offset - cp, bytes_written))
    }

    /// Decompresses a 6LoWPAN header into `out_buf`, given the source and
    /// destination MAC addresses. `buf` is the 6LoWPAN packet with its
    /// payload. If decompression succeeds, returns `Ok((consumed, written))`,
    /// where `consumed` is the number of header bytes consumed from the
    /// 6LoWPAN packet and `written` is the number of uncompressed header
    /// bytes written into `out_buf`. Payload bytes and non-compressed next
    /// headers are not written, so the remaining `buf.len() - consumed` bytes
    /// must still be copied over to `out_buf`. Returns `Err(())` for an
    /// invalid encoding.
    pub fn decompress(
        &self,
        buf: &[u8],
        src_mac_addr: MacAddr,
        dst_mac_addr: MacAddr,
        out_buf: &mut [u8],
    ) -> (r: Result<(usize, usize), ()>)
        requires
            !(decompress_spec(
                self.ctx_store,
                buf@,
                0,
                src_mac_addr,
                dst_mac_addr,
                old(out_buf)@,
                0,
            ) is Stuck),
            buf@.len() + old(out_buf)@.len() <= usize::MAX,
        ensures
            result_matches(
                r,
                final(out_buf)@,
                decompress_spec(
                    self.ctx_store,
                    buf@,
                    0,
                    src_mac_addr,
                    dst_mac_addr,
                    old(out_buf)@,
                    0,
                ),
                0,
            ),
    {
        self.decompress_at(buf, 0, src_mac_addr, dst_mac_addr, out_buf, 0)
    }
}

} // verus!
