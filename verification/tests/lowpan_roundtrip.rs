use lib::boards::ip_dummy::DummyStore;
use lib::boards::lowpan_frag_dummy::{prepare_header, DAC, MLP, PAYLOAD_LEN, SAC, TF};
use lib::net::ip6::Address;
use lib::net::lowpan::{compute_iid, is_lowpan, Context, LoWPAN, MacAddr};
use lib::net::stream::SResult;

const SRC_MAC: [u8; 8] = [0x10, 0x11, 0x12, 0x13, 0x14, 0x15, 0x16, 0x17];
const DST_MAC: [u8; 8] = [0x18, 0x19, 0x1a, 0x1b, 0x1c, 0x1d, 0x1e, 0x1f];

/// A store whose context 0 is the mesh-local prefix, held as exactly the
/// eight bytes its 64 bits take.
fn mlp_store(compress: bool) -> DummyStore {
    DummyStore::new(Context { prefix: MLP.to_vec(), prefix_len: 64, id: 0, compress })
}

/// Builds the test datagram of one configuration: the 40-byte IPv6 header
/// of the given shape over `src` and `dst`, followed by `PAYLOAD_LEN`
/// payload bytes.
fn prepare_packet(tf: TF, hop_limit: u8, sac: SAC, dac: DAC, src: [u8; 16], dst: [u8; 16]) -> Vec<u8> {
    let h = prepare_header(
        tf,
        hop_limit,
        sac,
        dac,
        &Address(src),
        &Address(dst),
        &MacAddr::LongAddr(SRC_MAC),
        &MacAddr::LongAddr(DST_MAC),
    );
    let mut packet = vec![0u8; 40];
    match h.encode(&mut packet) {
        SResult::Done(40, ()) => {}
        _ => panic!("header does not encode"),
    }
    for i in 0..PAYLOAD_LEN {
        packet.push((i * 7) as u8);
    }
    packet
}

/// Compresses `packet` into a 6LoWPAN frame, decompresses the frame, and
/// returns the frame and the datagram it decompresses to.
fn roundtrip(store: &DummyStore, packet: &[u8]) -> (Vec<u8>, Vec<u8>) {
    let lowpan = LoWPAN::new(store);
    let src_mac = MacAddr::LongAddr(SRC_MAC);
    let dst_mac = MacAddr::LongAddr(DST_MAC);
    let mut header_buf = [0u8; 127];
    let (consumed, written) = lowpan
        .compress(packet, src_mac, dst_mac, &mut header_buf)
        .expect("compression succeeds");
    let mut frame = header_buf[..written].to_vec();
    frame.extend_from_slice(&packet[consumed..]);

    let mut out = vec![0u8; 400];
    let (consumed2, written2) = lowpan
        .decompress(&frame, src_mac, dst_mac, &mut out)
        .expect("decompression succeeds");
    let rest = frame.len() - consumed2;
    out[written2..written2 + rest].copy_from_slice(&frame[consumed2..]);
    out.truncate(written2 + rest);
    (frame, out)
}

const CONFIGS: [(TF, u8, SAC, DAC); 28] = [
    (TF::Inline, 255, SAC::Inline, DAC::Inline),
    (TF::Traffic, 255, SAC::Inline, DAC::Inline),
    (TF::Flow, 255, SAC::Inline, DAC::Inline),
    (TF::TrafficFlow, 255, SAC::Inline, DAC::Inline),
    (TF::TrafficFlow, 255, SAC::Inline, DAC::Inline),
    (TF::TrafficFlow, 64, SAC::Inline, DAC::Inline),
    (TF::TrafficFlow, 1, SAC::Inline, DAC::Inline),
    (TF::TrafficFlow, 42, SAC::Inline, DAC::Inline),
    (TF::TrafficFlow, 42, SAC::Inline, DAC::Inline),
    (TF::TrafficFlow, 42, SAC::LLP64, DAC::Inline),
    (TF::TrafficFlow, 42, SAC::LLP16, DAC::Inline),
    (TF::TrafficFlow, 42, SAC::LLPIID, DAC::Inline),
    (TF::TrafficFlow, 42, SAC::Unspecified, DAC::Inline),
    (TF::TrafficFlow, 42, SAC::Ctx64, DAC::Inline),
    (TF::TrafficFlow, 42, SAC::Ctx16, DAC::Inline),
    (TF::TrafficFlow, 42, SAC::CtxIID, DAC::Inline),
    (TF::TrafficFlow, 42, SAC::CtxIID, DAC::Inline),
    (TF::TrafficFlow, 42, SAC::CtxIID, DAC::LLP64),
    (TF::TrafficFlow, 42, SAC::CtxIID, DAC::LLP16),
    (TF::TrafficFlow, 42, SAC::CtxIID, DAC::LLPIID),
    (TF::TrafficFlow, 42, SAC::CtxIID, DAC::Ctx64),
    (TF::TrafficFlow, 42, SAC::CtxIID, DAC::Ctx16),
    (TF::TrafficFlow, 42, SAC::CtxIID, DAC::CtxIID),
    (TF::TrafficFlow, 42, SAC::CtxIID, DAC::McastInline),
    (TF::TrafficFlow, 42, SAC::CtxIID, DAC::Mcast48),
    (TF::TrafficFlow, 42, SAC::CtxIID, DAC::Mcast32),
    (TF::TrafficFlow, 42, SAC::CtxIID, DAC::Mcast8),
    (TF::TrafficFlow, 42, SAC::CtxIID, DAC::McastCtx),
];

const ZERO_ADDR: [u8; 16] = [0; 16];
const SRC_PATTERN: [u8; 16] = [
    0x00, 0x01, 0x02, 0x03, 0x04, 0x05, 0x06, 0x07, 0x08, 0x09, 0x0a, 0x0b, 0x0c, 0x0d, 0x0e, 0x0f,
];
const DST_PATTERN: [u8; 16] = [
    0x20, 0x21, 0x22, 0x23, 0x24, 0x25, 0x26, 0x27, 0x28, 0x29, 0x2a, 0x2b, 0x2c, 0x2d, 0x2e, 0x2f,
];

fn check_all(store: &DummyStore, src: [u8; 16], dst: [u8; 16]) {
    let mut failures = Vec::new();
    for (i, &(tf, hl, sac, dac)) in CONFIGS.iter().enumerate() {
        let packet = prepare_packet(tf, hl, sac, dac, src, dst);
        let (frame, out) = roundtrip(store, &packet);
        assert!(is_lowpan(&frame), "configuration {} is not a 6LoWPAN frame", i);
        assert!(frame.len() <= packet.len(), "configuration {} grew", i);
        if out != packet {
            failures.push((i, frame[..4].to_vec(), out[..out.len().min(40)].to_vec(), packet[..40].to_vec()));
        }
    }
    assert!(failures.is_empty(), "configurations that do not survive compression: {:?}", failures);
}

#[test]
fn all_header_configurations_roundtrip_with_zero_addresses() {
    check_all(&mlp_store(true), ZERO_ADDR, ZERO_ADDR);
}

#[test]
fn all_header_configurations_roundtrip_with_patterned_addresses() {
    check_all(&mlp_store(true), SRC_PATTERN, DST_PATTERN);
}

#[test]
fn all_header_configurations_roundtrip_without_context_compression() {
    check_all(&mlp_store(false), SRC_PATTERN, DST_PATTERN);
}

#[test]
fn fully_compressible_header_shrinks() {
    let store = mlp_store(true);
    let packet = prepare_packet(TF::TrafficFlow, 64, SAC::LLPIID, DAC::LLPIID, SRC_PATTERN, DST_PATTERN);
    let (frame, out) = roundtrip(&store, &packet);
    assert_eq!(out, packet);
    // Dispatch and IPHC bytes, then the inline next header: traffic class,
    // flow label, hop limit and both addresses are elided.
    assert_eq!(frame.len(), 3 + PAYLOAD_LEN);
    assert_eq!(frame[0] & 0xe0, 0x60);
}

#[test]
fn inline_header_keeps_every_field() {
    let store = mlp_store(true);
    let packet = prepare_packet(TF::Inline, 42, SAC::Inline, DAC::Inline, SRC_PATTERN, DST_PATTERN);
    let (frame, out) = roundtrip(&store, &packet);
    assert_eq!(out, packet);
    // Two IPHC bytes, four bytes of traffic class and flow label, the next
    // header, the hop limit and two full addresses.
    assert_eq!(frame.len(), 2 + 4 + 1 + 1 + 16 + 16 + PAYLOAD_LEN);
}

#[test]
fn context_prefix_held_in_more_bytes_than_it_covers_is_not_restored() {
    // A context must hold its prefix in exactly the bytes its length covers:
    // with 16 bytes for a 64-bit prefix the decompressor cannot write it back.
    let mut prefix = MLP.to_vec();
    prefix.extend_from_slice(&[0u8; 8]);
    let store = DummyStore::new(Context { prefix, prefix_len: 64, id: 0, compress: true });
    let packet = prepare_packet(TF::TrafficFlow, 42, SAC::CtxIID, DAC::Inline, SRC_PATTERN, DST_PATTERN);
    let (_, out) = roundtrip(&store, &packet);
    assert_eq!(&out[8..16], &[0u8; 8]);
    assert_eq!(&out[16..24], &packet[16..24]);
}

#[test]
fn compute_iid_flips_universal_local_bit() {
    let iid = compute_iid(&MacAddr::LongAddr(SRC_MAC));
    assert_eq!(iid, [0x12, 0x11, 0x12, 0x13, 0x14, 0x15, 0x16, 0x17]);
}

#[test]
fn is_lowpan_checks_dispatch() {
    assert!(is_lowpan(&[0x60, 0x00]));
    assert!(is_lowpan(&[0x7b, 0x3c]));
    assert!(!is_lowpan(&[0xc0, 0x00]));
    assert!(!is_lowpan(&[0x41]));
}
