//! The IPv6 headers of the 6LoWPAN compression test: one per combination of
//! traffic class and flow label shape, hop limit, and source and destination
//! address shape, so that each compressed form of the header is exercised.

use vstd::prelude::*;
use crate::net::ip6::{Address, Header, NextHeaderType};
use crate::net::lowpan::{compute_iid, iid_of, MacAddr};
use crate::net::udp::UDPHeader;
use crate::net::stream::{be16, u16_from_be};

verus! {

/// The mesh-local prefix, held by context 0 of the test's context store.
pub const MLP: [u8; 8] = [0xc0, 0xc1, 0xc2, 0xc3, 0xc4, 0xc5, 0xc6, 0xc7];

/// The size of the test datagram's payload.
pub const PAYLOAD_LEN: usize = 200;

/// Which of the traffic class and the flow label the header lets the
/// compressor elide.
#[derive(Copy, Clone, Debug, PartialEq, Eq, Structural)]
pub enum TF {
    Inline,
    Traffic,
    Flow,
    TrafficFlow,
}

/// The shape of the source address.
#[derive(Copy, Clone, Debug, PartialEq, Eq, Structural)]
pub enum SAC {
    Inline,
    LLP64,
    LLP16,
    LLPIID,
    Unspecified,
    Ctx64,
    Ctx16,
    CtxIID,
}

/// The shape of the destination address.
#[derive(Copy, Clone, Debug, PartialEq, Eq, Structural)]
pub enum DAC {
    Inline,
    LLP64,
    LLP16,
    LLPIID,
    Ctx64,
    Ctx16,
    CtxIID,
    McastInline,
    Mcast48,
    Mcast32,
    Mcast8,
    McastCtx,
}

/// The source address of the test.
pub open spec fn src_addr_bytes() -> Seq<u8> {
    Seq::new(16, |i: int| 0u8)
}

/// The destination address of the test.
pub open spec fn dst_addr_bytes() -> Seq<u8> {
    Seq::new(16, |i: int| 0u8)
}

/// The MAC address of the sender.
pub open spec fn src_mac() -> MacAddr {
    MacAddr::LongAddr([0x10u8, 0x11, 0x12, 0x13, 0x14, 0x15, 0x16, 0x17])
}

/// The MAC address of the receiver.
pub open spec fn dst_mac() -> MacAddr {
    MacAddr::LongAddr([0x18u8, 0x19, 0x1a, 0x1b, 0x1c, 0x1d, 0x1e, 0x1f])
}

/// The traffic class of a header of shape `tf`: DSCP 0 when the traffic
/// class may be elided, else `0b101010`; ECN 1 unless both fields may be
/// elided.
pub open spec fn tf_traffic_class(tf: TF) -> u8 {
    let dscp: u8 = if tf is Traffic || tf is TrafficFlow { 0 } else { 0b101010 };
    let ecn: u8 = if tf is TrafficFlow { 0 } else { 1 };
    (dscp * 4 + ecn) as u8
}

/// The flow label of a header of shape `tf`: 0 when it may be elided.
pub open spec fn tf_flow_label(tf: TF) -> u32 {
    if tf is Flow || tf is TrafficFlow { 0 } else { 0xABCDE }
}

/// The link-local prefix fe80::/64.
pub open spec fn llp() -> Seq<u8> {
    seq![0xfeu8, 0x80, 0, 0, 0, 0, 0, 0]
}

/// The interface identifier `::ff:fe00:xxxx` with `last` as its last two
/// bytes.
pub open spec fn iid16(last: Seq<u8>) -> Seq<u8> {
    seq![0u8, 0, 0, 0xff, 0xfe, 0] + last
}

/// The source address of shape `sac`, taking its inline parts from `src`.
pub open spec fn src_for(sac: SAC, src: Seq<u8>, smac: MacAddr) -> Seq<u8> {
    match sac {
        SAC::Inline => src,
        SAC::LLP64 => llp() + src.subrange(8, 16),
        SAC::LLP16 => llp() + iid16(src.subrange(14, 16)),
        SAC::LLPIID => llp() + iid_of(smac),
        SAC::Unspecified => Seq::new(16, |i: int| 0u8),
        SAC::Ctx64 => MLP@ + src.subrange(8, 16),
        SAC::Ctx16 => MLP@ + iid16(src.subrange(14, 16)),
        SAC::CtxIID => MLP@ + iid_of(smac),
    }
}

/// The destination address of shape `dac`, taking its inline parts from
/// `dst`, except that the 16-bit and 64-bit link-local and context forms
/// take them from `src`.
pub open spec fn dst_for(dac: DAC, src: Seq<u8>, dst: Seq<u8>, dmac: MacAddr) -> Seq<u8> {
    let zeros = |n: nat| Seq::new(n, |i: int| 0u8);
    match dac {
        DAC::Inline => dst,
        DAC::LLP64 => llp() + dst.subrange(8, 16),
        DAC::LLP16 => llp() + iid16(src.subrange(14, 16)),
        DAC::LLPIID => llp() + iid_of(dmac),
        DAC::Ctx64 => MLP@ + src.subrange(8, 16),
        DAC::Ctx16 => MLP@ + iid16(src.subrange(14, 16)),
        DAC::CtxIID => MLP@ + iid_of(dmac),
        DAC::McastInline => dst.update(0, 0xffu8),
        DAC::Mcast48 => seq![0xffu8, dst[1]] + zeros(9) + dst.subrange(11, 16),
        DAC::Mcast32 => seq![0xffu8, dst[1]] + zeros(11) + dst.subrange(13, 16),
        DAC::Mcast8 => seq![0xffu8, dst[1]] + zeros(13) + seq![dst[15]],
        DAC::McastCtx => seq![0xffu8, dst[1], dst[2], 64u8] + MLP@ + dst.subrange(12, 16),
    }
}

/// Copies `src[from..16]` over `addr[from..16]`.
fn copy_tail(addr: &mut Address, src: &Address, from: usize)
    requires
        from <= 16,
    ensures
        final(addr).0@ == old(addr).0@.subrange(0, from as int) + src.0@.subrange(from as int, 16),
{
    let mut i = from;
    while i < 16
        invariant
            from <= i <= 16,
            forall|j: int| 0 <= j < from ==> addr.0@[j] == old(addr).0@[j],
            forall|j: int| from <= j < i ==> addr.0@[j] == src.0@[j],
            forall|j: int| i <= j < 16 ==> addr.0@[j] == old(addr).0@[j],
        decreases 16 - i,
    {
        addr.0[i] = src.0[i];
        i = i + 1;
    }
    assert(addr.0@ =~= old(addr).0@.subrange(0, from as int) + src.0@.subrange(from as int, 16));
}

/// Writes the interface identifier `iid` into the last eight bytes of `addr`.
fn set_iid(addr: &mut Address, iid: [u8; 8])
    ensures
        final(addr).0@ == old(addr).0@.subrange(0, 8) + iid@,
{
    let mut i: usize = 0;
    while i < 8
        invariant
            i <= 8,
            forall|j: int| 0 <= j < 8 ==> addr.0@[j] == old(addr).0@[j],
            forall|j: int| 0 <= j < i ==> addr.0@[8 + j] == iid@[j],
            forall|j: int| 8 + i <= j < 16 ==> addr.0@[j] == old(addr).0@[j],
        decreases 8 - i,
    {
        addr.0[8 + i] = iid[i];
        i = i + 1;
    }
    assert(addr.0@ =~= old(addr).0@.subrange(0, 8) + iid@);
}

/// Sets the mesh-local prefix as the first eight bytes of `addr`.
fn set_mlp(addr: &mut Address)
    ensures
        final(addr).0@ == MLP@ + old(addr).0@.subrange(8, 16),
{
    let mut i: usize = 0;
    while i < 8
        invariant
            i <= 8,
            forall|j: int| 0 <= j < i ==> addr.0@[j] == MLP@[j],
            forall|j: int| i <= j < 16 ==> addr.0@[j] == old(addr).0@[j],
        decreases 8 - i,
    {
        addr.0[i] = MLP[i];
        i = i + 1;
    }
    assert(addr.0@ =~= MLP@ + old(addr).0@.subrange(8, 16));
}

/// The link-local or mesh-local address with the interface identifier
/// `::ff:fe00:xxxx` whose last two bytes come from `from`.
fn short_iid_addr(mesh_local: bool, from: &Address) -> (r: Address)
    ensures
        r.0@ == (if mesh_local { MLP@ } else { llp() }) + iid16(from.0@.subrange(14, 16)),
{
    let mut a = Address::default();
    if mesh_local {
        set_mlp(&mut a);
    } else {
        a.set_unicast_link_local();
    }
    a.0[11] = 0xff;
    a.0[12] = 0xfe;
    copy_tail(&mut a, from, 14);
    assert(a.0@ =~= (if mesh_local { MLP@ } else { llp() }) + iid16(from.0@.subrange(14, 16)));
    a
}

/// The link-local or mesh-local address whose interface identifier is the
/// last eight bytes of `from`.
fn prefixed_addr(mesh_local: bool, from: &Address) -> (r: Address)
    ensures
        r.0@ == (if mesh_local { MLP@ } else { llp() }) + from.0@.subrange(8, 16),
{
    let mut a = Address::default();
    if mesh_local {
        set_mlp(&mut a);
    } else {
        a.set_unicast_link_local();
    }
    copy_tail(&mut a, from, 8);
    assert(a.0@ =~= (if mesh_local { MLP@ } else { llp() }) + from.0@.subrange(8, 16));
    a
}

/// The link-local or mesh-local address whose interface identifier is
/// derived from `mac`.
fn mac_iid_addr(mesh_local: bool, mac: &MacAddr) -> (r: Address)
    ensures
        r.0@ == (if mesh_local { MLP@ } else { llp() }) + iid_of(*mac),
{
    let mut a = Address::default();
    if mesh_local {
        set_mlp(&mut a);
    } else {
        a.set_unicast_link_local();
    }
    set_iid(&mut a, compute_iid(mac));
    assert(a.0@ =~= (if mesh_local { MLP@ } else { llp() }) + iid_of(*mac));
    a
}

/// The test header of shape `tf`, `hop_limit`, `sac` and `dac`, built from
/// the addresses `src` and `dst` and the MAC addresses `smac` and `dmac`: a
/// payload of `PAYLOAD_LEN` bytes and no next header.
pub fn prepare_header(
    tf: TF,
    hop_limit: u8,
    sac: SAC,
    dac: DAC,
    src: &Address,
    dst: &Address,
    smac: &MacAddr,
    dmac: &MacAddr,
) -> (h: Header)
    ensures
        h.traffic_class == tf_traffic_class(tf),
        h.flow_label == tf_flow_label(tf),
        h.payload_len == PAYLOAD_LEN,
        h.next_header == NextHeaderType::NoNext,
        h.hop_limit == hop_limit,
        h.src_addr.0@ == src_for(sac, src.0@, *smac),
        h.dst_addr.0@ == dst_for(dac, src.0@, dst.0@, *dmac),
{
    let mut h = Header::default();
    h.payload_len = PAYLOAD_LEN as u16;
    if tf != TF::TrafficFlow {
        h.set_ecn(0b01);
    }
    let elide_traffic = tf == TF::Traffic || tf == TF::TrafficFlow;
    if elide_traffic {
        h.set_dscp(0b000000);
    } else {
        h.set_dscp(0b101010);
    }
    proof {
        assert(((((0u8 & 0b11111100u8) | (1u8 & 0b11u8)) & 0b11u8) | ((0u8 << 2u8) & 0b11111100u8)) == 1u8)
            by (bit_vector);
        assert(((((0u8 & 0b11111100u8) | (1u8 & 0b11u8)) & 0b11u8) | ((0b101010u8 << 2u8) & 0b11111100u8))
            == 0xa9u8) by (bit_vector);
        assert(((0u8 & 0b11u8) | ((0u8 << 2u8) & 0b11111100u8)) == 0u8) by (bit_vector);
    }
    let elide_flow = tf == TF::Flow || tf == TF::TrafficFlow;
    if elide_flow {
        h.flow_label = 0;
    } else {
        h.flow_label = 0xABCDE;
    }
    h.next_header = NextHeaderType::NoNext;
    h.hop_limit = hop_limit;
    h.src_addr = match sac {
        SAC::Inline => Address(src.0),
        SAC::LLP64 => prefixed_addr(false, src),
        SAC::LLP16 => short_iid_addr(false, src),
        SAC::LLPIID => mac_iid_addr(false, smac),
        SAC::Unspecified => Address::default(),
        SAC::Ctx64 => prefixed_addr(true, src),
        SAC::Ctx16 => short_iid_addr(true, src),
        SAC::CtxIID => mac_iid_addr(true, smac),
    };
    h.dst_addr = match dac {
        DAC::Inline => Address(dst.0),
        DAC::LLP64 => prefixed_addr(false, dst),
        DAC::LLP16 => short_iid_addr(false, src),
        DAC::LLPIID => mac_iid_addr(false, dmac),
        DAC::Ctx64 => prefixed_addr(true, src),
        DAC::Ctx16 => short_iid_addr(true, src),
        DAC::CtxIID => mac_iid_addr(true, dmac),
        DAC::McastInline => {
            let mut a = Address(dst.0);
            a.0[0] = 0xff;
            a
        },
        DAC::Mcast48 => {
            let mut a = Address::default();
            a.0[0] = 0xff;
            a.0[1] = dst.0[1];
            copy_tail(&mut a, dst, 11);
            assert(a.0@ =~= dst_for(dac, src.0@, dst.0@, *dmac));
            a
        },
        DAC::Mcast32 => {
            let mut a = Address::default();
            a.0[0] = 0xff;
            a.0[1] = dst.0[1];
            copy_tail(&mut a, dst, 13);
            assert(a.0@ =~= dst_for(dac, src.0@, dst.0@, *dmac));
            a
        },
        DAC::Mcast8 => {
            let mut a = Address::default();
            a.0[0] = 0xff;
            a.0[1] = dst.0[1];
            a.0[15] = dst.0[15];
            assert(a.0@ =~= dst_for(dac, src.0@, dst.0@, *dmac));
            a
        },
        DAC::McastCtx => {
            let mut a = Address::default();
            a.0[0] = 0xff;
            a.0[1] = dst.0[1];
            a.0[2] = dst.0[2];
            a.0[3] = 64;
            let mut i: usize = 0;
            while i < 8
                invariant
                    i <= 8,
                    a.0@[0] == 0xff,
                    a.0@[1] == dst.0@[1],
                    a.0@[2] == dst.0@[2],
                    a.0@[3] == 64,
                    forall|j: int| 0 <= j < i ==> a.0@[4 + j] == MLP@[j],
                decreases 8 - i,
            {
                a.0[4 + i] = MLP[i];
                i = i + 1;
            }
            copy_tail(&mut a, dst, 12);
            assert(a.0@ =~= dst_for(dac, src.0@, dst.0@, *dmac));
            a
        },
    };
    proof {
        if sac is Inline {
            assert(h.src_addr.0@ =~= src.0@);
        }
        if dac is Inline {
            assert(h.dst_addr.0@ =~= dst.0@);
        }
        if dac is McastInline {
            assert(h.dst_addr.0@ =~= dst.0@.update(0, 0xffu8));
        }
    }
    h
}

/// The test datagram of shape `tf`, `hop_limit`, `sac` and `dac` over the
/// test's addresses: its header, and the UDP payload of `PAYLOAD_LEN - 8`
/// bytes, all zero.
pub fn ipv6_prepare_packet(tf: TF, hop_limit: u8, sac: SAC, dac: DAC) -> (r: (Header, Vec<u8>))
    ensures
        r.0.traffic_class == tf_traffic_class(tf),
        r.0.flow_label == tf_flow_label(tf),
        r.0.payload_len == PAYLOAD_LEN,
        r.0.next_header == NextHeaderType::NoNext,
        r.0.hop_limit == hop_limit,
        r.0.src_addr.0@ == src_for(sac, src_addr_bytes(), src_mac()),
        r.0.dst_addr.0@ == dst_for(dac, src_addr_bytes(), dst_addr_bytes(), dst_mac()),
        r.1@ == Seq::new((PAYLOAD_LEN - 8) as nat, |i: int| 0u8),
{
    let mut payload: Vec<u8> = Vec::new();
    let mut i: usize = 0;
    while i < PAYLOAD_LEN - 8
        invariant
            i <= PAYLOAD_LEN - 8,
            payload@ == Seq::new(i as nat, |j: int| 0u8),
        decreases PAYLOAD_LEN - 8 - i,
    {
        payload.push(0);
        i = i + 1;
        assert(payload@ =~= Seq::new(i as nat, |j: int| 0u8));
    }
    let src = Address::default();
    let dst = Address::default();
    let smac = MacAddr::LongAddr([0x10, 0x11, 0x12, 0x13, 0x14, 0x15, 0x16, 0x17]);
    let dmac = MacAddr::LongAddr([0x18, 0x19, 0x1a, 0x1b, 0x1c, 0x1d, 0x1e, 0x1f]);
    proof {
        assert(src.0@ =~= src_addr_bytes());
        assert(dst.0@ =~= dst_addr_bytes());
    }
    (prepare_header(tf, hop_limit, sac, dac, &src, &dst, &smac, &dmac), payload)
}

/// The traffic class carried by the IPv6 header at the start of `s`.
pub open spec fn wire_traffic_class(s: Seq<u8>) -> u8 {
    (((s[0] & 0x0fu8) << 4u8) | (s[1] >> 4u8)) as u8
}

/// Which fields of a received test datagram agree with the datagram the
/// test sent: each flag holds when the field matches.
#[derive(Copy, Clone, Debug)]
pub struct ReceiveCheck {
    pub version: bool,
    pub traffic_class: bool,
    pub dscp: bool,
    pub ecn: bool,
    pub payload_len: bool,
    pub next_header: bool,
    pub hop_limit: bool,
    pub src_port: bool,
    pub dst_port: bool,
    pub udp_len: bool,
    pub cksum: bool,
    /// Every byte after the two headers, up to the received length, is the
    /// byte the test sent there.
    pub payload: bool,
}

/// What a comparison of the received bytes `s`, of which `len` count, finds
/// against the test datagram of shape `tf` and `hop_limit` sent behind
/// `sent_udp`.
pub open spec fn receive_check(tf: TF, hop_limit: u8, sent_udp: UDPHeader, s: Seq<u8>, len: u16) -> ReceiveCheck {
    let tc = wire_traffic_class(s);
    ReceiveCheck {
        version: s[0] >> 4u8 == 6,
        traffic_class: tc == tf_traffic_class(tf),
        dscp: (tc & 0b11111100u8) >> 2u8 == (tf_traffic_class(tf) & 0b11111100u8) >> 2u8,
        ecn: tc & 0b11u8 == tf_traffic_class(tf) & 0b11u8,
        payload_len: be16(s[4], s[5]) == PAYLOAD_LEN,
        next_header: s[6] == 59,
        hop_limit: s[7] == hop_limit,
        src_port: be16(s[40], s[41]) == sent_udp.src_port,
        dst_port: be16(s[42], s[43]) == sent_udp.dst_port,
        udp_len: be16(s[44], s[45]) == sent_udp.len,
        cksum: be16(s[46], s[47]) == sent_udp.cksum,
        payload: forall|i: int| 48 <= i < len ==> s[i] == 0,
    }
}

/// Compares the datagram `recv_packet`, of which `len` bytes were received,
/// with the test datagram of shape `tf`, `hop_limit`, `sac` and `dac` sent
/// behind the UDP header `sent_udp`. The IPv6 header occupies the first 40
/// bytes, the UDP header the next 8, both in network byte order.
pub fn ipv6_check_receive_packet(
    tf: TF,
    hop_limit: u8,
    sac: SAC,
    dac: DAC,
    sent_udp: &UDPHeader,
    recv_packet: &[u8],
    len: u16,
) -> (r: ReceiveCheck)
    requires
        recv_packet@.len() >= 48,
        len as int <= recv_packet@.len(),
        len as int <= 48 + (PAYLOAD_LEN - 8),
    ensures
        r == receive_check(tf, hop_limit, *sent_udp, recv_packet@, len),
{
    let (expected, payload) = ipv6_prepare_packet(tf, hop_limit, sac, dac);
    let tc: u8 = ((recv_packet[0] & 0x0f) << 4) | (recv_packet[1] >> 4);
    let rcv_dscp: u8 = (tc & 0b11111100) >> 2;
    let rcv_ecn: u8 = tc & 0b11;
    let version = recv_packet[0] >> 4;
    let mut test_success = true;
    let mut i: usize = 48;
    while i < len as usize
        invariant_except_break
            test_success,
        invariant
            48 <= i,
            len as int <= recv_packet@.len(),
            len as int <= 48 + (PAYLOAD_LEN - 8),
            payload@ == Seq::new((PAYLOAD_LEN - 8) as nat, |j: int| 0u8),
            forall|j: int| 48 <= j < i ==> recv_packet@[j] == 0,
        ensures
            test_success == (forall|j: int| 48 <= j < len ==> recv_packet@[j] == 0),
        decreases len as usize - i,
    {
        if recv_packet[i] != payload[i - 48] {
            test_success = false;
            break;
        }
        i = i + 1;
    }
    ReceiveCheck {
        version: version == 6,
        traffic_class: tc == expected.traffic_class,
        dscp: rcv_dscp == expected.get_dscp(),
        ecn: rcv_ecn == expected.get_ecn(),
        payload_len: u16_from_be(recv_packet[4], recv_packet[5]) as usize == PAYLOAD_LEN,
        next_header: recv_packet[6] == expected.next_header.to_u8(),
        hop_limit: recv_packet[7] == expected.hop_limit,
        src_port: u16_from_be(recv_packet[40], recv_packet[41]) == sent_udp.src_port,
        dst_port: u16_from_be(recv_packet[42], recv_packet[43]) == sent_udp.dst_port,
        udp_len: u16_from_be(recv_packet[44], recv_packet[45]) == sent_udp.len,
        cksum: u16_from_be(recv_packet[46], recv_packet[47]) == sent_udp.cksum,
        payload: test_success,
    }
}

/// The shape of test `test_id` of the run: the first tests vary the traffic
/// class and flow label, the next ones the hop limit, then the source address
/// and last the destination address; `None` past the last test.
pub open spec fn test_shape(test_id: int) -> Option<(TF, u8, SAC, DAC)> {
    if 0 <= test_id < 4 {
        let tf = if test_id == 0 {
            TF::Inline
        } else if test_id == 1 {
            TF::Traffic
        } else if test_id == 2 {
            TF::Flow
        } else {
            TF::TrafficFlow
        };
        Some((tf, 255u8, SAC::Inline, DAC::Inline))
    } else if 4 <= test_id < 8 {
        let hop_limit: u8 = if test_id == 4 {
            255
        } else if test_id == 5 {
            64
        } else if test_id == 6 {
            1
        } else {
            42
        };
        Some((TF::TrafficFlow, hop_limit, SAC::Inline, DAC::Inline))
    } else if 8 <= test_id < 16 {
        let sac = seq![
            SAC::Inline,
            SAC::LLP64,
            SAC::LLP16,
            SAC::LLPIID,
            SAC::Unspecified,
            SAC::Ctx64,
            SAC::Ctx16,
            SAC::CtxIID,
        ][test_id - 8];
        Some((TF::TrafficFlow, 42u8, sac, DAC::Inline))
    } else if 16 <= test_id < 28 {
        let dac = seq![
            DAC::Inline,
            DAC::LLP64,
            DAC::LLP16,
            DAC::LLPIID,
            DAC::Ctx64,
            DAC::Ctx16,
            DAC::CtxIID,
            DAC::McastInline,
            DAC::Mcast48,
            DAC::Mcast32,
            DAC::Mcast8,
            DAC::McastCtx,
        ][test_id - 16];
        Some((TF::TrafficFlow, 42u8, SAC::CtxIID, dac))
    } else {
        None
    }
}

/// The number of tests in a run.
pub fn num_tests() -> (r: usize)
    ensures
        r == 28,
        test_shape(r as int) is None,
        forall|i: int| 0 <= i < r ==> test_shape(i) is Some,
{
    28
}

/// The shape of test `test_id`, or `None` past the last test.
pub fn lowpan_test_shape(test_id: usize) -> (r: Option<(TF, u8, SAC, DAC)>)
    ensures
        r == test_shape(test_id as int),
{
    match test_id {
        0 => Some((TF::Inline, 255, SAC::Inline, DAC::Inline)),
        1 => Some((TF::Traffic, 255, SAC::Inline, DAC::Inline)),
        2 => Some((TF::Flow, 255, SAC::Inline, DAC::Inline)),
        3 => Some((TF::TrafficFlow, 255, SAC::Inline, DAC::Inline)),
        4 => Some((TF::TrafficFlow, 255, SAC::Inline, DAC::Inline)),
        5 => Some((TF::TrafficFlow, 64, SAC::Inline, DAC::Inline)),
        6 => Some((TF::TrafficFlow, 1, SAC::Inline, DAC::Inline)),
        7 => Some((TF::TrafficFlow, 42, SAC::Inline, DAC::Inline)),
        8 => Some((TF::TrafficFlow, 42, SAC::Inline, DAC::Inline)),
        9 => Some((TF::TrafficFlow, 42, SAC::LLP64, DAC::Inline)),
        10 => Some((TF::TrafficFlow, 42, SAC::LLP16, DAC::Inline)),
        11 => Some((TF::TrafficFlow, 42, SAC::LLPIID, DAC::Inline)),
        12 => Some((TF::TrafficFlow, 42, SAC::Unspecified, DAC::Inline)),
        13 => Some((TF::TrafficFlow, 42, SAC::Ctx64, DAC::Inline)),
        14 => Some((TF::TrafficFlow, 42, SAC::Ctx16, DAC::Inline)),
        15 => Some((TF::TrafficFlow, 42, SAC::CtxIID, DAC::Inline)),
        16 => Some((TF::TrafficFlow, 42, SAC::CtxIID, DAC::Inline)),
        17 => Some((TF::TrafficFlow, 42, SAC::CtxIID, DAC::LLP64)),
        18 => Some((TF::TrafficFlow, 42, SAC::CtxIID, DAC::LLP16)),
        19 => Some((TF::TrafficFlow, 42, SAC::CtxIID, DAC::LLPIID)),
        20 => Some((TF::TrafficFlow, 42, SAC::CtxIID, DAC::Ctx64)),
        21 => Some((TF::TrafficFlow, 42, SAC::CtxIID, DAC::Ctx16)),
        22 => Some((TF::TrafficFlow, 42, SAC::CtxIID, DAC::CtxIID)),
        23 => Some((TF::TrafficFlow, 42, SAC::CtxIID, DAC::McastInline)),
        24 => Some((TF::TrafficFlow, 42, SAC::CtxIID, DAC::Mcast48)),
        25 => Some((TF::TrafficFlow, 42, SAC::CtxIID, DAC::Mcast32)),
        26 => Some((TF::TrafficFlow, 42, SAC::CtxIID, DAC::Mcast8)),
        27 => Some((TF::TrafficFlow, 42, SAC::CtxIID, DAC::McastCtx)),
        _ => None,
    }
}

/// Checks the datagram received during test `test_id` against the one the
/// test sent; `None` past the last test.
pub fn run_check_test(test_id: usize, sent_udp: &UDPHeader, buf: &[u8], len: u16) -> (r: Option<ReceiveCheck>)
    requires
        test_shape(test_id as int) is Some ==> {
            &&& buf@.len() >= 48
            &&& len as int <= buf@.len()
            &&& len as int <= 48 + (PAYLOAD_LEN - 8)
        },
    ensures
        r == match test_shape(test_id as int) {
            Some((tf, hop_limit, _, _)) => Some(receive_check(tf, hop_limit, *sent_udp, buf@, len)),
            None => None,
        },
{
    match lowpan_test_shape(test_id) {
        Some((tf, hop_limit, sac, dac)) => Some(ipv6_check_receive_packet(tf, hop_limit, sac, dac, sent_udp, buf, len)),
        None => None,
    }
}

} // verus!
