//! What decompression gives back of what compression wrote.

use vstd::prelude::*;
use crate::net::stream::splice;
use crate::net::util::all_zero;
use crate::net::ip6::is_link_local_bytes;
use crate::net::lowpan::{
    ContextModel, ContextStore, MacAddr, iid_of, nhc_next_header, IPHC_DISPATCH_0,
    IPHC_DISPATCH_1, IPHC_TF_TRAFFIC_CLASS, IPHC_TF_FLOW_LABEL, IPHC_NH, IPHC_HLIM_MASK, IPHC_CID,
    IPHC_SAC, IPHC_SAM_MASK, IPHC_MULTICAST, IPHC_DAC, IPHC_DAM_MASK, NH_NO_NEXT, NH_UDP,
    NHC_DISPATCH_UDP, NHC_UDP_CHECKSUM_FLAG,
};
use crate::net::lowpan::nh_compressible;
use crate::net::stream::{be16, be16_bytes, lemma_be16_roundtrip, lemma_be16_bytes_of};
use crate::net::lowpan_compress::{
    Outcome, compress_spec, lemma_compress_unfold, lemma_nhc_unfold, udp_ports_spec, udp_spec, ctx_filter, dst_ctx_lookup, hdr_ecn, hdr_dscp, hdr_flow, cie_part, tf_part, nh_part, hl_part,
    iid_part, src_part, dst_part, mcast_part, dest_part, iphc_header, mac_base_6,
};
use crate::net::lowpan_decompress::{
    Dec, DecHdr, zeros, ll_prefix, vtf_bytes, cie_decode, tf_decode, nh_decode, hl_decode,
    iid_ll_decode, iid_ctx_decode, apply_ctx_prefix, src_decode, dst_decode, mcast_decode,
    iphc_decode, decompress_spec, nhc_dec_spec, lemma_nhc_dec_unfold, lemma_iphc_decode_shape,
    udp_ports_decode, udp_body_spec, finish_spec,
};

verus! {

/// Traffic class and flow label fields survive the ECN/DSCP reordering of
/// the compressed form: the first four bytes of a version 6 header are
/// rebuilt from its traffic class and flow label.
proof fn lemma_vtf_bytes(h0: u8, h1: u8, h2: u8, h3: u8)
    by (bit_vector)
    requires
        h0 >> 4u8 == 6u8,
    ensures
        ({
            let ecn = ((h1 >> 4u8) & 3u8) as u8;
            let dscp = (((h0 & 0x0fu8) << 2u8) | (h1 >> 6u8)) as u8;
            let flow = ((((h1 & 0x0fu8) as u32) << 16u32) | ((h2 as u32) << 8u32) | (h3 as u32)) as u32;
            let tc = ((dscp << 2u8) | ecn) as u8;
            &&& (0x60u8 | (tc >> 4u8)) as u8 == h0
            &&& ((tc << 4u8) | (((flow >> 16u32) & 0x0fu32) as u8)) as u8 == h1
            &&& (flow >> 8u32) as u8 == h2
            &&& flow as u8 == h3
            &&& dscp < 64u8
            &&& ecn < 4u8
            &&& flow < 0x100000u32
        }),
{
}

/// Reading back an inline byte that carries ECN in its top two bits.
proof fn lemma_ecn_byte(ecn: u8, low: u8)
    by (bit_vector)
    requires
        ecn < 4u8,
        low < 64u8,
    ensures
        ((low | (ecn << 6u8)) as u8) >> 6u8 == ecn,
        ((low | (ecn << 6u8)) as u8) & 0x3fu8 == low,
        ((low | (ecn << 6u8)) as u8) & 0x0fu8 == low & 0x0fu8,
{
}

/// The flow label bytes of the compressed form give back the flow label.
proof fn lemma_flow_bytes(flow: u32)
    by (bit_vector)
    requires
        flow < 0x100000u32,
    ensures
        (((((((flow >> 16u32) & 0x0fu32) as u8) & 0x0fu8) as u32) << 16u32) | ((((flow >> 8u32) as u8)
            as u32) << 8u32) | (((flow as u8) as u32))) as u32 == flow,
        (((flow >> 16u32) & 0x0fu32) as u8) < 64u8,
{
}

/// Decoding the traffic class and flow label fields that compression wrote
/// gives back the first four bytes of the IPv6 header.
pub proof fn lemma_tf_roundtrip(h: Seq<u8>, f0: u8, c: Seq<u8>, off: int)
    requires
        h.len() == 40,
        h[0] >> 4u8 == 6u8,
        f0 & 0x18u8 == tf_part(hdr_ecn(h), hdr_dscp(h), hdr_flow(h)).0,
        0 <= off,
        off + tf_part(hdr_ecn(h), hdr_dscp(h), hdr_flow(h)).1.len() <= c.len(),
        c.subrange(off, off + tf_part(hdr_ecn(h), hdr_dscp(h), hdr_flow(h)).1.len()) == tf_part(
            hdr_ecn(h),
            hdr_dscp(h),
            hdr_flow(h),
        ).1,
    ensures
        tf_decode(f0, c, off) matches Some((tc, flow, o)) && vtf_bytes(tc, flow) == h.subrange(0, 4)
            && o == off + tf_part(hdr_ecn(h), hdr_dscp(h), hdr_flow(h)).1.len(),
{
    reveal(tf_part);
    let ecn = hdr_ecn(h);
    let dscp = hdr_dscp(h);
    let flow = hdr_flow(h);
    lemma_vtf_bytes(h[0], h[1], h[2], h[3]);
    let p = tf_part(ecn, dscp, flow);
    let tc_elided = dscp == 0 && (ecn == 0 || flow != 0);
    let fl_elided = flow == 0;
    let p0: u8 = p.0;
    assert(((f0 & 0x10u8 != 0) == (p0 & 0x10u8 != 0)) && ((f0 & 0x08u8 != 0) == (p0 & 0x08u8 != 0)))
        by (bit_vector)
        requires
            f0 & 0x18u8 == p0,
    ;
    assert((p0 & 0x10u8 != 0) == fl_elided && (p0 & 0x08u8 != 0) == tc_elided) by {
        let a: u8 = if tc_elided { 0x08u8 } else { 0u8 };
        let b: u8 = if fl_elided { 0x10u8 } else { 0u8 };
        assert(((a | b) & 0x10u8 != 0) == (b == 0x10u8) && ((a | b) & 0x08u8 != 0) == (a == 0x08u8))
            by (bit_vector)
            requires
                a == 0x08u8 || a == 0u8,
                b == 0x10u8 || b == 0u8,
        ;
    }
    lemma_flow_bytes(flow);
    if !tc_elided {
        lemma_ecn_byte(ecn, dscp);
        assert(c[off] == p.1[0]);
        if !fl_elided {
            assert(c[off + 1] == p.1[1] && c[off + 2] == p.1[2] && c[off + 3] == p.1[3]);
        }
    } else if !fl_elided {
        lemma_ecn_byte(ecn, ((flow >> 16u32) & 0x0fu32) as u8);
        assert(c[off] == p.1[0] && c[off + 1] == p.1[1] && c[off + 2] == p.1[2]);
    }
    if tc_elided && fl_elided {
        assert((((0u8 << 2u8) | 0u8) as u8) == 0u8) by (bit_vector);
    } else if tc_elided {
        assert(dscp == 0);
        assert((((0u8 << 2u8) | ecn) as u8) == (((dscp << 2u8) | ecn) as u8));
    } else if fl_elided {
        assert(flow == 0);
    }
}

/// Flag values ORed together in the IPHC header.
proof fn lemma_flag_consts()
    by (bit_vector)
    ensures
        (0x40u8 | 0x10u8) == 0x50u8,
        (0x40u8 | 0x20u8) == 0x60u8,
        (0x40u8 | 0x30u8) == 0x70u8,
        (0x04u8 | 0x01u8) == 0x05u8,
        (0x04u8 | 0x02u8) == 0x06u8,
        (0x04u8 | 0x03u8) == 0x07u8,
        (0x08u8 | 0x04u8) == 0x0cu8,
        (0x08u8 | 0x03u8) == 0x0bu8,
        (0x08u8 | 0x00u8) == 0x08u8,
        (0x08u8 | 0x01u8) == 0x09u8,
        (0x08u8 | 0x02u8) == 0x0au8,
{
}

/// The fields of the first IPHC byte.
proof fn lemma_f0_bits(a: u8, b: u8, n: u8, l: u8)
    by (bit_vector)
    requires
        a == 0u8 || a == 0x08u8,
        b == 0u8 || b == 0x10u8,
        n == 0u8 || n == 0x04u8,
        l < 4u8,
    ensures
        ({
            let f0 = ((((0x60u8 | ((a | b) as u8)) as u8) | n) as u8 | l) as u8;
            &&& f0 & 0x18u8 == (a | b) as u8
            &&& (f0 & 0x04u8 != 0) == (n == 0x04u8)
            &&& f0 & 0x03u8 == l
        }),
{
}

/// The fields of the second IPHC byte.
proof fn lemma_f1_bits(c: u8, s: u8, d: u8)
    by (bit_vector)
    requires
        c == 0u8 || c == 0x80u8,
        s == 0u8 || s == 0x10u8 || s == 0x20u8 || s == 0x30u8 || s == 0x40u8 || s == 0x50u8 || s
            == 0x60u8 || s == 0x70u8,
        d < 0x10u8,
    ensures
        ({
            let f1 = ((((0u8 | c) as u8) | s) as u8 | d) as u8;
            &&& (f1 & 0x80u8 != 0) == (c == 0x80u8)
            &&& (f1 & 0x40u8 != 0) == (s >= 0x40u8)
            &&& ((f1 & 0x30u8) >> 4u8) as int == (s as int % 64) / 16
            &&& (f1 & 0x08u8 != 0) == (d >= 0x08u8)
            &&& (f1 & 0x04u8 != 0) == (d as int % 8 >= 4)
            &&& (f1 & 0x03u8) as int == d as int % 4
        }),
{
}

/// The context identifier extension byte carries both identifiers.
proof fn lemma_cie_byte(sid: u8, did: u8)
    by (bit_vector)
    requires
        sid < 16u8,
        did < 16u8,
    ensures
        ((((sid << 4u8) as u8) | did) as u8) >> 4u8 == sid,
        ((((sid << 4u8) as u8) | did) as u8) & 0x0fu8 == did,
        ((((sid << 4u8) as u8) | did) as u8 == 0u8) == (sid == 0u8 && did == 0u8),
        (((sid << 4u8) as u8) == 0u8) == (sid == 0u8),
        ((0u8 | did) as u8) == did,
        ((((sid << 4u8) as u8) | 0u8) as u8) == ((sid << 4u8) as u8),
{
}

/// A context chosen for compression is handed out again under its 4-bit
/// identifier (context 0 when the identifier is 0).
pub open spec fn ctx_reissued<C: ContextStore>(store: &C, x: Option<ContextModel>) -> bool {
    match x {
        Some(m) => m.id < 16 && store.context_for_id(m.id) == Some(m),
        None => true,
    }
}

/// The context the decompressor ends up with for a context chosen by the
/// compressor: that context, or context 0 where none was chosen.
pub open spec fn decoded_ctx<C: ContextStore>(store: &C, x: Option<ContextModel>) -> ContextModel {
    match x {
        Some(m) => m,
        None => store.context_for_id(0).unwrap(),
    }
}

/// The unicast address `a` is rebuilt from its last 64 bits and the prefix
/// of context `x`: the context's prefix is the address's, and the bits
/// between the prefix and the interface identifier are zero.
pub open spec fn ctx_restores(a: Seq<u8>, x: ContextModel) -> bool {
    apply_ctx_prefix(zeros(8) + a.subrange(8, 16), x) == a
}

/// The multicast address `a` is rebuilt from its flags, scope, group
/// identifier and the prefix of context `x` of at most 64 bits.
pub open spec fn mcast_ctx_restores(a: Seq<u8>, x: ContextModel) -> bool {
    let pb = (x.prefix_len as int + 7) / 8;
    &&& x.prefix_len as int + 7 <= 255
    &&& pb <= 8
    &&& pb <= x.prefix.len()
    &&& seq![0xffu8, a[1], a[2], x.prefix_len] + x.prefix.subrange(0, pb) + zeros(8 - pb)
        + a.subrange(12, 16) == a
}

/// Decoding the context identifier extension that compression wrote gives
/// back the contexts it used.
proof fn lemma_cie_roundtrip<C: ContextStore>(
    store: &C,
    sc: Option<ContextModel>,
    dc: Option<ContextModel>,
    f1: u8,
    c: Seq<u8>,
    off: int,
)
    requires
        store.context_for_id(0) is Some,
        ctx_reissued(store, sc),
        ctx_reissued(store, dc),
        (f1 & 0x80u8 != 0) == (cie_part(sc, dc).0 == 0x80u8),
        0 <= off,
        off + cie_part(sc, dc).1.len() <= c.len(),
        c.subrange(off, off + cie_part(sc, dc).1.len()) == cie_part(sc, dc).1,
    ensures
        cie_decode(store, f1, c, off) == Dec::Val(
            (decoded_ctx(store, sc), decoded_ctx(store, dc), off + cie_part(sc, dc).1.len()),
        ),
{
    reveal(cie_part);
    let sid: u8 = match sc {
        Some(m) => m.id,
        None => 0,
    };
    let did: u8 = match dc {
        Some(m) => m.id,
        None => 0,
    };
    lemma_cie_byte(sid, did);
    if cie_part(sc, dc).1.len() > 0 {
        assert(c[off] == cie_part(sc, dc).1[0]);
    }
}

/// Decoding an address that compression wrote in one of the interface
/// identifier modes gives it back: link-local, or context-based where the
/// context restores it.
proof fn lemma_iid_roundtrip(a: Seq<u8>, mac: MacAddr, is_src: bool, c: Seq<u8>, off: int)
    requires
        a.len() == 16,
        0 <= off,
        off + iid_part(a, mac, is_src).1.len() <= c.len(),
        c.subrange(off, off + iid_part(a, mac, is_src).1.len()) == iid_part(a, mac, is_src).1,
    ensures
        ({
            let p = iid_part(a, mac, is_src);
            let m: u8 = if is_src {
                (p.0 / 16) as u8
            } else {
                p.0
            };
            &&& 1 <= m <= 3
            &&& p.0 == (if is_src { m * 16 } else { m as int })
            &&& is_link_local_bytes(a) ==> iid_ll_decode(m, mac, c, off) == Some(
                (a, off + p.1.len()),
            )
            &&& forall|x: ContextModel| #[trigger]
                ctx_restores(a, x) ==> iid_ctx_decode(m, mac, x, c, off) == Dec::Val(
                    (a, off + p.1.len()),
                )
        }),
{
    reveal(iid_part);
    let p = iid_part(a, mac, is_src);
    let ll = is_link_local_bytes(a);
    if ll {
        assert(a.subrange(0, 8) =~= ll_prefix());
    }
    if a.subrange(8, 16) == iid_of(mac) {
        if ll {
            assert(ll_prefix() + iid_of(mac) =~= a.subrange(0, 8) + a.subrange(8, 16));
        }
        assert(zeros(8) + iid_of(mac) =~= zeros(8) + a.subrange(8, 16));
    } else if a.subrange(8, 14) == mac_base_6() {
        assert(c.subrange(off, off + 2) =~= a.subrange(14, 16));
        assert(mac_base_6() + a.subrange(14, 16) =~= a.subrange(8, 16));
        if ll {
            assert(ll_prefix() + mac_base_6() + c.subrange(off, off + 2) =~= a.subrange(0, 8)
                + a.subrange(8, 16));
        }
        assert(zeros(8) + mac_base_6() + c.subrange(off, off + 2) =~= zeros(8) + a.subrange(8, 16));
    } else {
        assert(c.subrange(off, off + 8) =~= a.subrange(8, 16));
        if ll {
            assert(ll_prefix() + c.subrange(off, off + 8) =~= a.subrange(0, 8) + a.subrange(8, 16));
        }
        assert(zeros(8) + c.subrange(off, off + 8) =~= zeros(8) + a.subrange(8, 16));
    }
    assert(a.subrange(0, 8) + a.subrange(8, 16) =~= a);
}

/// Decoding the source address that compression wrote gives it back.
proof fn lemma_src_roundtrip(
    a: Seq<u8>,
    mac: MacAddr,
    sc: Option<ContextModel>,
    dsc: ContextModel,
    f1: u8,
    c: Seq<u8>,
    off: int,
)
    requires
        a.len() == 16,
        (f1 & 0x40u8 != 0) == (src_part(a, mac, sc).0 >= 0x40u8),
        ((f1 & 0x30u8) >> 4u8) as int == (src_part(a, mac, sc).0 as int % 64) / 16,
        sc matches Some(x) ==> dsc == x,
        sc matches Some(x) ==> (!all_zero(a, 0, 16) && !is_link_local_bytes(a) ==> ctx_restores(
            a,
            x,
        )),
        0 <= off,
        off + src_part(a, mac, sc).1.len() <= c.len(),
        c.subrange(off, off + src_part(a, mac, sc).1.len()) == src_part(a, mac, sc).1,
    ensures
        src_decode(f1, mac, dsc, c, off) == Some((a, off + src_part(a, mac, sc).1.len())),
{
    reveal(src_part);
    lemma_flag_consts();
    if all_zero(a, 0, 16) {
        assert(a =~= zeros(16));
    } else if is_link_local_bytes(a) {
        lemma_iid_roundtrip(a, mac, true, c, off);
    } else if sc is Some {
        lemma_iid_roundtrip(a, mac, true, c, off);
        assert(ctx_restores(a, dsc));
    } else {
        assert(c.subrange(off, off + 16) =~= a);
    }
}

/// Decoding the destination address that compression wrote gives it back.
proof fn lemma_dest_roundtrip(
    a: Seq<u8>,
    mac: MacAddr,
    dc: Option<ContextModel>,
    ddc: ContextModel,
    f1: u8,
    c: Seq<u8>,
    off: int,
)
    requires
        a.len() == 16,
        (f1 & 0x08u8 != 0) == (dest_part(a, mac, dc).0 >= 0x08u8),
        (f1 & 0x04u8 != 0) == (dest_part(a, mac, dc).0 as int % 8 >= 4),
        (f1 & 0x03u8) as int == dest_part(a, mac, dc).0 as int % 4,
        dc matches Some(x) ==> ddc == x,
        dc matches Some(x) ==> (a[0] == 0xff ==> mcast_ctx_restores(a, x)),
        dc matches Some(x) ==> (a[0] != 0xff && !is_link_local_bytes(a) ==> ctx_restores(a, x)),
        0 <= off,
        off + dest_part(a, mac, dc).1.len() <= c.len(),
        c.subrange(off, off + dest_part(a, mac, dc).1.len()) == dest_part(a, mac, dc).1,
    ensures
        (if f1 & IPHC_MULTICAST != 0 {
            mcast_decode(f1, ddc, c, off)
        } else {
            dst_decode(f1, mac, ddc, c, off)
        }) == Dec::Val((a, off + dest_part(a, mac, dc).1.len())),
{
    reveal(dest_part);
    reveal(dst_part);
    reveal(mcast_part);
    lemma_flag_consts();
    let p = dest_part(a, mac, dc).1;
    assert forall|i: int| 0 <= i < p.len() implies c[off + i] == p[i] by {
        assert(c.subrange(off, off + p.len())[i] == p[i]);
    }
    if a[0] == 0xff {
        if dc is Some {
            assert(p == a.subrange(1, 3) + a.subrange(12, 16));
            assert(c[off] == p[0] && c[off + 1] == p[1]);
            assert(c[off] == a[1] && c[off + 1] == a[2]);
            assert forall|i: int| 0 <= i < 4 implies #[trigger] c.subrange(off + 2, off + 6)[i] == a.subrange(12, 16)[i] by {
                assert(c[off + 2 + i] == p[2 + i]);
            }
            assert(c.subrange(off + 2, off + 6) =~= a.subrange(12, 16));
        } else if a[1] == 0x02 && all_zero(a, 2, 15) {
            assert(p == seq![a[15]]);
            assert(c[off] == p[0]);
            assert(seq![0xffu8, 0x02u8] + zeros(13) + seq![c[off]] =~= a);
        } else if !all_zero(a, 2, 11) {
            assert(c.subrange(off, off + 16) =~= a);
        } else if !all_zero(a, 11, 13) {
            assert(p == seq![a[1]] + a.subrange(11, 16));
            assert(c[off] == p[0]);
            assert forall|i: int| 0 <= i < 5 implies #[trigger] c.subrange(off + 1, off + 6)[i]
                == a.subrange(11, 16)[i] by {
                assert(c[off + 1 + i] == p[1 + i]);
            }
            assert(c.subrange(off + 1, off + 6) =~= a.subrange(11, 16));
            assert(seq![0xffu8, c[off]] + zeros(9) + c.subrange(off + 1, off + 6) =~= a);
        } else {
            assert(p == seq![a[1]] + a.subrange(13, 16));
            assert(c[off] == p[0]);
            assert forall|i: int| 0 <= i < 3 implies #[trigger] c.subrange(off + 1, off + 4)[i]
                == a.subrange(13, 16)[i] by {
                assert(c[off + 1 + i] == p[1 + i]);
            }
            assert(c.subrange(off + 1, off + 4) =~= a.subrange(13, 16));
            assert(seq![0xffu8, c[off]] + zeros(11) + c.subrange(off + 1, off + 4) =~= a);
        }
    } else {
        if is_link_local_bytes(a) {
            lemma_iid_roundtrip(a, mac, false, c, off);
        } else if dc is Some {
            lemma_iid_roundtrip(a, mac, false, c, off);
            assert(ctx_restores(a, ddc));
        } else {
            assert(c.subrange(off, off + 16) =~= a);
        }
    }
}

/// The flags each part of the IPHC header contributes.
proof fn lemma_part_flags(h: Seq<u8>, smac: MacAddr, dmac: MacAddr, sc: Option<ContextModel>, dc: Option<ContextModel>, is_nhc: bool)
    requires
        h.len() == 40,
    ensures
        cie_part(sc, dc).0 == 0u8 || cie_part(sc, dc).0 == 0x80u8,
        ({
            let s = src_part(h.subrange(8, 24), smac, sc).0;
            s == 0u8 || s == 0x10u8 || s == 0x20u8 || s == 0x30u8 || s == 0x40u8 || s == 0x50u8
                || s == 0x60u8 || s == 0x70u8
        }),
        dest_part(h.subrange(24, 40), dmac, dc).0 < 16u8,
        nh_part(is_nhc, h[6]).0 == 0u8 || nh_part(is_nhc, h[6]).0 == 0x04u8,
        hl_part(h[7]).0 < 4u8,
{
    reveal(cie_part);
    reveal(src_part);
    reveal(dest_part);
    reveal(dst_part);
    reveal(mcast_part);
    reveal(iid_part);
    lemma_flag_consts();
}

/// The compressed header of `h` can be read back: context 0 exists, the
/// contexts chosen for compression are handed out again under their
/// identifiers, and they restore the addresses they compress.
pub open spec fn iphc_restorable<C: ContextStore>(store: &C, h: Seq<u8>) -> bool {
    let src = h.subrange(8, 24);
    let dst = h.subrange(24, 40);
    let sc = ctx_filter(store.context_for_addr(src));
    let dc = ctx_filter(dst_ctx_lookup(store, dst));
    &&& store.context_for_id(0) is Some
    &&& ctx_reissued(store, sc)
    &&& ctx_reissued(store, dc)
    &&& sc matches Some(x) ==> (!all_zero(src, 0, 16) && !is_link_local_bytes(src) ==> ctx_restores(
        src,
        x,
    ))
    &&& dc matches Some(x) ==> (dst[0] == 0xff ==> mcast_ctx_restores(dst, x))
    &&& dc matches Some(x) ==> (dst[0] != 0xff && !is_link_local_bytes(dst) ==> ctx_restores(
        dst,
        x,
    ))
}

/// A piece of a sequence that `c` holds at `cp` is held by `c` at the
/// corresponding offset.
proof fn lemma_sub_of(c: Seq<u8>, cp: int, s: Seq<u8>, i: int, j: int)
    requires
        0 <= cp,
        cp + s.len() <= c.len(),
        c.subrange(cp, cp + s.len()) == s,
        0 <= i <= j <= s.len(),
    ensures
        c.subrange(cp + i, cp + j) == s.subrange(i, j),
{
    assert(c.subrange(cp + i, cp + j) =~= s.subrange(i, j)) by {
        assert forall|k: int| 0 <= k < j - i implies #[trigger] c.subrange(cp + i, cp + j)[k]
            == s.subrange(i, j)[k] by {
            assert(c.subrange(cp, cp + s.len())[i + k] == s[i + k]);
        }
    }
}

/// The first flag byte of the IPHC header of `h`.
pub open spec fn iphc_f0(h: Seq<u8>, is_nhc: bool) -> u8 {
    ((((IPHC_DISPATCH_0 | tf_part(hdr_ecn(h), hdr_dscp(h), hdr_flow(h)).0) as u8) | nh_part(
        is_nhc,
        h[6],
    ).0) as u8 | hl_part(h[7]).0) as u8
}

/// The second flag byte of the IPHC header of `h`.
pub open spec fn iphc_f1(
    h: Seq<u8>,
    smac: MacAddr,
    dmac: MacAddr,
    sc: Option<ContextModel>,
    dc: Option<ContextModel>,
) -> u8 {
    ((((IPHC_DISPATCH_1 | cie_part(sc, dc).0) as u8) | src_part(h.subrange(8, 24), smac, sc).0) as u8
        | dest_part(h.subrange(24, 40), dmac, dc).0) as u8
}

/// The layout of the IPHC header of `h` and the fields its flag bytes
/// select.
proof fn lemma_iphc_layout(
    h: Seq<u8>,
    smac: MacAddr,
    dmac: MacAddr,
    sc: Option<ContextModel>,
    dc: Option<ContextModel>,
    is_nhc: bool,
)
    requires
        h.len() == 40,
    ensures
        ({
            let f0 = iphc_f0(h, is_nhc);
            let f1 = iphc_f1(h, smac, dmac, sc, dc);
            let p_s = src_part(h.subrange(8, 24), smac, sc).0;
            let p_d = dest_part(h.subrange(24, 40), dmac, dc).0;
            &&& iphc_header(h, smac, dmac, sc, dc, is_nhc) == seq![f0, f1] + cie_part(sc, dc).1
                + tf_part(hdr_ecn(h), hdr_dscp(h), hdr_flow(h)).1 + nh_part(is_nhc, h[6]).1
                + hl_part(h[7]).1 + src_part(h.subrange(8, 24), smac, sc).1 + dest_part(
                h.subrange(24, 40),
                dmac,
                dc,
            ).1
            &&& f0 & 0x18u8 == tf_part(hdr_ecn(h), hdr_dscp(h), hdr_flow(h)).0
            &&& (f0 & 0x04u8 != 0) == is_nhc
            &&& f0 & 0x03u8 == hl_part(h[7]).0
            &&& (f1 & 0x80u8 != 0) == (cie_part(sc, dc).0 == 0x80u8)
            &&& (f1 & 0x40u8 != 0) == (p_s >= 0x40u8)
            &&& ((f1 & 0x30u8) >> 4u8) as int == (p_s as int % 64) / 16
            &&& (f1 & 0x08u8 != 0) == (p_d >= 0x08u8)
            &&& (f1 & 0x04u8 != 0) == (p_d as int % 8 >= 4)
            &&& (f1 & 0x03u8) as int == p_d as int % 4
        }),
{
    reveal(tf_part);
    let ta: u8 = if hdr_dscp(h) == 0 && (hdr_ecn(h) == 0 || hdr_flow(h) != 0) {
        0x08u8
    } else {
        0u8
    };
    let tb: u8 = if hdr_flow(h) == 0 {
        0x10u8
    } else {
        0u8
    };
    assert(tf_part(hdr_ecn(h), hdr_dscp(h), hdr_flow(h)).0 == (ta | tb) as u8);
    lemma_part_flags(h, smac, dmac, sc, dc, is_nhc);
    lemma_f0_bits(ta, tb, nh_part(is_nhc, h[6]).0, hl_part(h[7]).0);
    lemma_f1_bits(
        cie_part(sc, dc).0,
        src_part(h.subrange(8, 24), smac, sc).0,
        dest_part(h.subrange(24, 40), dmac, dc).0,
    );
    reveal(iphc_header);
}

/// Decoding each field of the IPHC header of `h` gives back the field.
#[verifier::rlimit(30)]
proof fn lemma_iphc_fields<C: ContextStore>(
    store: &C,
    h: Seq<u8>,
    smac: MacAddr,
    dmac: MacAddr,
    is_nhc: bool,
    c: Seq<u8>,
    cp: int,
)
    requires
        h.len() == 40,
        h[0] >> 4u8 == 6u8,
        iphc_restorable(store, h),
        0 <= cp,
        ({
            let sc = ctx_filter(store.context_for_addr(h.subrange(8, 24)));
            let dc = ctx_filter(dst_ctx_lookup(store, h.subrange(24, 40)));
            let hdr = iphc_header(h, smac, dmac, sc, dc, is_nhc);
            &&& cp + hdr.len() <= c.len()
            &&& c.subrange(cp, cp + hdr.len()) == hdr
        }),
    ensures
        ({
            let src = h.subrange(8, 24);
            let dst = h.subrange(24, 40);
            let sc = ctx_filter(store.context_for_addr(src));
            let dc = ctx_filter(dst_ctx_lookup(store, dst));
            let f0 = iphc_f0(h, is_nhc);
            let f1 = iphc_f1(h, smac, dmac, sc, dc);
            let o1 = cp + 2 + cie_part(sc, dc).1.len();
            let o2 = o1 + tf_part(hdr_ecn(h), hdr_dscp(h), hdr_flow(h)).1.len();
            let o3 = o2 + nh_part(is_nhc, h[6]).1.len();
            let o4 = o3 + hl_part(h[7]).1.len();
            let o5 = o4 + src_part(src, smac, sc).1.len();
            let o6 = o5 + dest_part(dst, dmac, dc).1.len();
            &&& o6 == cp + iphc_header(h, smac, dmac, sc, dc, is_nhc).len()
            &&& c[cp] == f0
            &&& c[cp + 1] == f1
            &&& cie_decode(store, f1, c, cp + 2) == Dec::Val(
                (decoded_ctx(store, sc), decoded_ctx(store, dc), o1),
            )
            &&& tf_decode(f0, c, o1) matches Some((tc, flow, o)) && vtf_bytes(tc, flow)
                == h.subrange(0, 4) && o == o2
            &&& nh_decode(f0, c, o2) == Some((is_nhc, if is_nhc { 0u8 } else { h[6] }, o3))
            &&& hl_decode(f0, c, o3) == Some((h[7], o4))
            &&& src_decode(f1, smac, decoded_ctx(store, sc), c, o4) == Some((src, o5))
            &&& (if f1 & IPHC_MULTICAST != 0 {
                mcast_decode(f1, decoded_ctx(store, dc), c, o5)
            } else {
                dst_decode(f1, dmac, decoded_ctx(store, dc), c, o5)
            }) == Dec::Val((dst, o6))
        }),
{
    let src = h.subrange(8, 24);
    let dst = h.subrange(24, 40);
    let sc = ctx_filter(store.context_for_addr(src));
    let dc = ctx_filter(dst_ctx_lookup(store, dst));
    let hdr = iphc_header(h, smac, dmac, sc, dc, is_nhc);
    let p_cie = cie_part(sc, dc);
    let p_tf = tf_part(hdr_ecn(h), hdr_dscp(h), hdr_flow(h));
    let p_nh = nh_part(is_nhc, h[6]);
    let p_hl = hl_part(h[7]);
    let p_s = src_part(src, smac, sc);
    let p_d = dest_part(dst, dmac, dc);
    let f0 = iphc_f0(h, is_nhc);
    let f1 = iphc_f1(h, smac, dmac, sc, dc);
    lemma_iphc_layout(h, smac, dmac, sc, dc, is_nhc);
    let o1 = cp + 2 + p_cie.1.len();
    let o2 = o1 + p_tf.1.len();
    let o3 = o2 + p_nh.1.len();
    let o4 = o3 + p_hl.1.len();
    let o5 = o4 + p_s.1.len();
    let o6 = o5 + p_d.1.len();
    assert(c[cp] == f0 && c[cp + 1] == f1) by {
        assert(c.subrange(cp, cp + hdr.len())[0] == hdr[0]);
        assert(c.subrange(cp, cp + hdr.len())[1] == hdr[1]);
    }
    lemma_sub_of(c, cp, hdr, 2, o1 - cp);
    lemma_sub_of(c, cp, hdr, o1 - cp, o2 - cp);
    lemma_sub_of(c, cp, hdr, o2 - cp, o3 - cp);
    lemma_sub_of(c, cp, hdr, o3 - cp, o4 - cp);
    lemma_sub_of(c, cp, hdr, o4 - cp, o5 - cp);
    lemma_sub_of(c, cp, hdr, o5 - cp, o6 - cp);
    assert(hdr.subrange(2, o1 - cp) =~= p_cie.1);
    assert(hdr.subrange(o1 - cp, o2 - cp) =~= p_tf.1);
    assert(hdr.subrange(o2 - cp, o3 - cp) =~= p_nh.1);
    assert(hdr.subrange(o3 - cp, o4 - cp) =~= p_hl.1);
    assert(hdr.subrange(o4 - cp, o5 - cp) =~= p_s.1);
    assert(hdr.subrange(o5 - cp, o6 - cp) =~= p_d.1);
    lemma_cie_roundtrip(store, sc, dc, f1, c, cp + 2);
    lemma_tf_roundtrip(h, f0, c, o1);
    if !is_nhc {
        assert(c[o2] == p_nh.1[0]) by {
            assert(c.subrange(o2, o3)[0] == p_nh.1[0]);
        }
    }
    if h[7] != 1 && h[7] != 64 && h[7] != 255 {
        assert(c[o3] == p_hl.1[0]) by {
            assert(c.subrange(o3, o4)[0] == p_hl.1[0]);
        }
    }
    lemma_src_roundtrip(src, smac, sc, decoded_ctx(store, sc), f1, c, o4);
    lemma_dest_roundtrip(dst, dmac, dc, decoded_ctx(store, dc), f1, c, o5);
}

/// The bits behind the compressed UDP ports: a port in a compressible
/// range is rebuilt from its low bits, and each NHC byte that compression
/// writes carries the port flags it set, no checksum flag, and the UDP
/// dispatch.
proof fn lemma_udp_port_bits(src: u16, dst: u16)
    by (bit_vector)
    ensures
        (src & 0xfff0u16) == 0xf0b0u16 ==> (0xf0b0u16 | (((((((src & 0x000fu16) << 4u16) | (dst
            & 0x000fu16)) as u8) >> 4u8) & 0x0fu8) as u16)) as u16 == src,
        (dst & 0xfff0u16) == 0xf0b0u16 ==> (0xf0b0u16 | ((((((src & 0x000fu16) << 4u16) | (dst
            & 0x000fu16)) as u8) & 0x0fu8) as u16)) as u16 == dst,
        (src & 0xff00u16) == 0xf000u16 ==> (0xf000u16 | (((src & 0x00ffu16) as u8) as u16)) as u16 == src,
        (dst & 0xff00u16) == 0xf000u16 ==> (0xf000u16 | (((dst & 0x00ffu16) as u8) as u16)) as u16 == dst,
        ((0xf0u8 | 0b011u8) & 0b010u8) != 0u8 && ((0xf0u8 | 0b011u8) & 0b001u8) != 0u8 && ((0xf0u8
            | 0b011u8) & 0b100u8) == 0u8 && ((0xf0u8 | 0b011u8) & 0xf0u8) == 0xf0u8,
        ((0xf0u8 | 0b010u8) & 0b010u8) != 0u8 && ((0xf0u8 | 0b010u8) & 0b001u8) == 0u8 && ((0xf0u8
            | 0b010u8) & 0b100u8) == 0u8 && ((0xf0u8 | 0b010u8) & 0xf0u8) == 0xf0u8,
        ((0xf0u8 | 0b001u8) & 0b010u8) == 0u8 && ((0xf0u8 | 0b001u8) & 0b001u8) != 0u8 && ((0xf0u8
            | 0b001u8) & 0b100u8) == 0u8 && ((0xf0u8 | 0b001u8) & 0xf0u8) == 0xf0u8,
        ((0xf0u8 | 0u8) & 0b010u8) == 0u8 && ((0xf0u8 | 0u8) & 0b001u8) == 0u8 && ((0xf0u8 | 0u8)
            & 0b100u8) == 0u8 && ((0xf0u8 | 0u8) & 0xf0u8) == 0xf0u8,
        (0b010u8 | 0b001u8) == 0b011u8,
{
}

/// The UDP ports that compression writes at `p` decode back to the ports,
/// from any input holding the same bytes there; the NHC byte they go with
/// announces UDP and an inline checksum.
proof fn lemma_udp_ports_roundtrip(src: u16, dst: u16, buf: Seq<u8>, p: int, c: Seq<u8>)
    requires
        0 <= p,
        udp_ports_spec(src, dst, buf, p) is Some,
        ({
            let (b, flags, q) = udp_ports_spec(src, dst, buf, p)->0;
            q <= c.len() && c.subrange(p, q) == b.subrange(p, q)
        }),
    ensures
        ({
            let (b, flags, q) = udp_ports_spec(src, dst, buf, p)->0;
            let nhc = (NHC_DISPATCH_UDP | flags) as u8;
            &&& b.len() == buf.len()
            &&& p < q <= p + 4
            &&& q <= buf.len()
            &&& forall|i: int| 0 <= i < buf.len() && !(p <= i < q) ==> b[i] == buf[i]
            &&& nhc & NHC_UDP_CHECKSUM_FLAG == 0
            &&& nhc_next_header(nhc) == Ok::<u8, ()>(NH_UDP)
            &&& udp_ports_decode(nhc, c, p) == Some((src, dst, q))
        }),
{
    let (b, flags, q) = udp_ports_spec(src, dst, buf, p)->0;
    let nhc = (NHC_DISPATCH_UDP | flags) as u8;
    lemma_udp_port_bits(src, dst);
    lemma_be16_roundtrip(src);
    lemma_be16_roundtrip(dst);
    assert forall|i: int| p <= i < q implies c[i] == b[i] by {
        assert(c.subrange(p, q)[i - p] == b.subrange(p, q)[i - p]);
    }
    if (src & 0xfff0u16) == 0xf0b0u16 && (dst & 0xfff0u16) == 0xf0b0u16 {
        assert(flags == 0b011u8);
        assert(nhc == (0xf0u8 | 0b011u8) as u8);
    } else if (src & 0xff00u16) == 0xf000u16 {
        assert(flags == 0b010u8);
        assert(nhc == (0xf0u8 | 0b010u8) as u8);
        assert(c[p + 1] == be16_bytes(dst)[0] && c[p + 2] == be16_bytes(dst)[1]);
    } else if (dst & 0xff00u16) == 0xf000u16 {
        assert(flags == 0b001u8);
        assert(nhc == (0xf0u8 | 0b001u8) as u8);
        assert(c[p] == be16_bytes(src)[0] && c[p + 1] == be16_bytes(src)[1]);
    } else {
        assert(flags == 0u8);
        assert(nhc == (0xf0u8 | 0u8) as u8);
        assert(c[p] == be16_bytes(src)[0] && c[p + 1] == be16_bytes(src)[1]);
        assert(c[p + 2] == be16_bytes(dst)[0] && c[p + 3] == be16_bytes(dst)[1]);
    }
}

/// The IPHC header round trip: decompressing the LOWPAN_IPHC header that
/// compression writes for the IPv6 header `h` (version 6) gives back `h`
/// with its payload length cleared, and reads exactly the compressed
/// header. When the next header is NHC-compressed, it is recovered from the
/// NHC byte that follows.
pub proof fn lemma_iphc_roundtrip<C: ContextStore>(
    store: &C,
    h: Seq<u8>,
    smac: MacAddr,
    dmac: MacAddr,
    is_nhc: bool,
    c: Seq<u8>,
    cp: int,
)
    requires
        h.len() == 40,
        h[0] >> 4u8 == 6u8,
        iphc_restorable(store, h),
        0 <= cp,
        ({
            let sc = ctx_filter(store.context_for_addr(h.subrange(8, 24)));
            let dc = ctx_filter(dst_ctx_lookup(store, h.subrange(24, 40)));
            let hdr = iphc_header(h, smac, dmac, sc, dc, is_nhc);
            &&& cp + hdr.len() <= c.len()
            &&& c.subrange(cp, cp + hdr.len()) == hdr
            &&& is_nhc ==> cp + hdr.len() < c.len() && nhc_next_header(c[cp + hdr.len()]) == Ok::<
                u8,
                (),
            >(h[6])
        }),
    ensures
        ({
            let sc = ctx_filter(store.context_for_addr(h.subrange(8, 24)));
            let dc = ctx_filter(dst_ctx_lookup(store, h.subrange(24, 40)));
            let hdr = iphc_header(h, smac, dmac, sc, dc, is_nhc);
            iphc_decode(store, c, cp, smac, dmac) == DecHdr::Hdr(
                h.update(4, 0u8).update(5, 0u8),
                cp + hdr.len(),
                is_nhc,
            )
        }),
{
    lemma_iphc_fields(store, h, smac, dmac, is_nhc, c, cp);
    let src = h.subrange(8, 24);
    let dst = h.subrange(24, 40);
    reveal(iphc_decode);
    let tcf = tf_decode(c[cp], c, match cie_decode(store, c[cp + 1], c, cp + 2) {
        Dec::Val((_, _, o)) => o,
        _ => 0,
    }).unwrap();
    let h1 = vtf_bytes(tcf.0, tcf.1) + seq![0u8, 0u8, NH_NO_NEXT, h[7]] + src + zeros(16);
    let h2 = h1.subrange(0, 24) + dst;
    assert(h2.update(6, h[6]) =~= h.update(4, 0u8).update(5, 0u8));
}

/// The datagram round trip: when the next header of the IPv6 datagram `d`
/// is carried inline, compression consumes its 40-byte header, and
/// decompressing the compressed header followed by the rest of `d` writes
/// back that header, with the payload length set to the number of bytes
/// that follow it, and reads exactly the compressed header.
pub proof fn lemma_datagram_roundtrip<C: ContextStore>(
    store: &C,
    d: Seq<u8>,
    smac: MacAddr,
    dmac: MacAddr,
    buf: Seq<u8>,
    out: Seq<u8>,
)
    requires
        40 <= d.len() <= usize::MAX,
        d[0] >> 4u8 == 6u8,
        iphc_restorable(store, d.subrange(0, 40)),
        nh_compressible(d[6], d.subrange(40, d.len() as int)) == Ok::<(bool, u8), ()>((false, 0u8)),
        !(compress_spec(store, d, 0, smac, dmac, buf, 0) is Stuck),
        40 <= out.len(),
    ensures
        compress_spec(store, d, 0, smac, dmac, buf, 0) matches Outcome::Done(consumed, b, written)
            && consumed == 40 && decompress_spec(
            store,
            b.subrange(0, written) + d.subrange(40, d.len() as int),
            0,
            smac,
            dmac,
            out,
            0,
        ) == Outcome::Done(
            written,
            splice(out, 0, splice(d.subrange(0, 40), 4, be16_bytes(#[verifier::truncate] ((d.len() - 40) as u16)))),
            40,
        ),
{
    let h = d.subrange(0, 40);
    let sc = ctx_filter(store.context_for_addr(h.subrange(8, 24)));
    let dc = ctx_filter(dst_ctx_lookup(store, h.subrange(24, 40)));
    let hdr = iphc_header(h, smac, dmac, sc, dc, false);
    lemma_compress_unfold(store, d, 0, smac, dmac, buf, 0);
    lemma_nhc_unfold(store, d, 0, 40, d[6], false, 0u8, smac, dmac, splice(buf, 0, hdr), hdr.len() as int);
    let b = splice(buf, 0, hdr);
    let c = b.subrange(0, hdr.len() as int) + d.subrange(40, d.len() as int);
    assert(b.subrange(0, hdr.len() as int) =~= hdr);
    assert(c.subrange(0, hdr.len() as int) =~= hdr);
    lemma_iphc_roundtrip(store, h, smac, dmac, false, c, 0);
    let h2 = h.update(4, 0u8).update(5, 0u8);
    assert(decompress_spec(store, c, 0, smac, dmac, out, 0) == nhc_dec_spec(
        store,
        c,
        0,
        hdr.len() as int,
        h2[6],
        false,
        smac,
        dmac,
        splice(out, 0, h2),
        0,
        40,
    )) by {
        lemma_iphc_decode_shape(store, c, 0, smac, dmac);
        reveal_with_fuel(decompress_spec, 1);
    }
    lemma_nhc_dec_unfold(store, c, 0, hdr.len() as int, h2[6], false, smac, dmac, splice(out, 0, h2), 0, 40);
    assert(splice(splice(out, 0, h2), 4, be16_bytes(#[verifier::truncate] ((d.len() - 40) as u16))) =~= splice(
        out,
        0,
        splice(h, 4, be16_bytes(#[verifier::truncate] ((d.len() - 40) as u16))),
    ));
}

/// The UDP datagram round trip: when the IPv6 datagram `d` carries a UDP
/// header whose length field counts the UDP header and the rest of `d`,
/// compression consumes both headers, and decompressing the compressed
/// headers followed by the rest of `d` writes back both headers, with the
/// IPv6 payload length set to the number of bytes after the IPv6 header,
/// and reads exactly the compressed headers.
pub proof fn lemma_udp_datagram_roundtrip<C: ContextStore>(
    store: &C,
    d: Seq<u8>,
    smac: MacAddr,
    dmac: MacAddr,
    buf: Seq<u8>,
    out: Seq<u8>,
)
    requires
        48 <= d.len() <= 40 + 0xffff,
        d[0] >> 4u8 == 6u8,
        d[6] == NH_UDP,
        iphc_restorable(store, d.subrange(0, 40)),
        d.subrange(44, 46) == be16_bytes((d.len() - 40) as u16),
        !(compress_spec(store, d, 0, smac, dmac, buf, 0) is Stuck),
        48 <= out.len(),
    ensures
        compress_spec(store, d, 0, smac, dmac, buf, 0) matches Outcome::Done(consumed, b, written)
            && consumed == 48 && decompress_spec(
            store,
            b.subrange(0, written) + d.subrange(48, d.len() as int),
            0,
            smac,
            dmac,
            out,
            0,
        ) == Outcome::Done(
            written,
            splice(out, 0, splice(d.subrange(0, 48), 4, be16_bytes((d.len() - 40) as u16))),
            48,
        ),
{
    let h = d.subrange(0, 40);
    let sc = ctx_filter(store.context_for_addr(h.subrange(8, 24)));
    let dc = ctx_filter(dst_ctx_lookup(store, h.subrange(24, 40)));
    let hdr = iphc_header(h, smac, dmac, sc, dc, true);
    let off = hdr.len() as int;
    lemma_compress_unfold(store, d, 0, smac, dmac, buf, 0);
    assert(nh_compressible(h[6], d.subrange(40, d.len() as int)) == Ok::<(bool, u8), ()>((true, 0u8)));
    let b1 = splice(buf, 0, hdr);
    lemma_nhc_unfold(store, d, 0, 40, h[6], true, 0u8, smac, dmac, b1, off);
    let src = be16(d[40], d[41]);
    let dst = be16(d[42], d[43]);
    assert(compress_spec(store, d, 0, smac, dmac, buf, 0) == udp_spec(d, 0, 40, b1, off));
    let (b2, flags, q) = udp_ports_spec(src, dst, b1, off + 1)->0;
    let nhc = (NHC_DISPATCH_UDP | flags) as u8;
    let b3 = splice(b2, q, seq![d[46], d[47]]);
    let b = b3.update(off, nhc);
    let written = q + 2;
    let rest = d.subrange(48, d.len() as int);
    let c = b.subrange(0, written) + rest;
    assert(compress_spec(store, d, 0, smac, dmac, buf, 0) == Outcome::Done(48, b, written));
    assert(off + 1 < q <= off + 5 && q + 2 <= b1.len() && b2.len() == b1.len());
    assert(c.subrange(off + 1, q) =~= b2.subrange(off + 1, q));
    lemma_udp_ports_roundtrip(src, dst, b1, off + 1, c);
    assert(c.subrange(0, off) =~= hdr);
    assert(c[off] == nhc);
    assert(c[q] == d[46] && c[q + 1] == d[47]);
    lemma_iphc_roundtrip(store, h, smac, dmac, true, c, 0);
    let h2 = h.update(4, 0u8).update(5, 0u8);
    let out1 = splice(out, 0, h2);
    assert(decompress_spec(store, c, 0, smac, dmac, out, 0) == nhc_dec_spec(
        store,
        c,
        0,
        off,
        h2[6],
        true,
        smac,
        dmac,
        out1,
        0,
        40,
    )) by {
        lemma_iphc_decode_shape(store, c, 0, smac, dmac);
        reveal_with_fuel(decompress_spec, 1);
    }
    lemma_nhc_dec_unfold(store, c, 0, off, h2[6], true, smac, dmac, out1, 0, 40);
    let len = (d.len() - 40) as u16;
    assert((8 + (c.len() - (q + 2))) as u16 == len);
    lemma_be16_roundtrip(len);
    lemma_be16_bytes_of(d[46], d[47]);
    lemma_be16_bytes_of(d[40], d[41]);
    lemma_be16_bytes_of(d[42], d[43]);
    let out2 = splice(
        splice(out1, 40, be16_bytes(src) + be16_bytes(dst) + be16_bytes(len)),
        46,
        be16_bytes(be16(c[q], c[q + 1])),
    );
    assert(udp_body_spec(c, off + 1, c[off], out1, 0, 40) == Some((out2, q + 2)));
    assert(finish_spec(c, 0, q + 2, out2, 0, 48) == Outcome::Done(written, splice(out2, 4, be16_bytes(len)), 48));
    assert(splice(out2, 4, be16_bytes(len)) =~= splice(out, 0, splice(d.subrange(0, 48), 4, be16_bytes(len))));
}

} // verus!
