use lib::boards::ip_dummy::DummyStore;
use lib::net::ieee802154::MacAddress;
use lib::mac::FrameInfo;
use lib::net::ieee802154::FrameType;
use lib::net::sixlowpan::{RxState, Sixlowpan, SixlowpanClient, TxState};
use lib::mac::Mac;
use lib::hil::time::{Alarm, Freq1KHz, Time};
use lib::net::ieee802154::{FrameVersion, Header as MacHeader, KeyId, SecurityLevel};
use std::cell::RefCell;
use lib::net::deluge::transmit_layer::{DelugeRxClient, DelugeTransmitLayer, DelugeTxClient};
use lib::returncode::ReturnCode;
use lib::boards::lowpan_frag_dummy::{
    ipv6_check_receive_packet, ipv6_prepare_packet, lowpan_test_shape, num_tests, run_check_test, DAC, SAC, TF,
};
use lib::net::udp::UDPHeader;
use lib::net::lowpan::{compute_iid, compute_udp_checksum, Context, LoWPAN, MacAddr};

const MLP: [u8; 8] = [0xc0, 0xc1, 0xc2, 0xc3, 0xc4, 0xc5, 0xc6, 0xc7];

fn store() -> DummyStore {
    DummyStore::new(Context { prefix: MLP.to_vec(), prefix_len: 64, id: 0, compress: false })
}

fn link_local(iid: [u8; 8]) -> [u8; 16] {
    let mut a = [0u8; 16];
    a[0] = 0xfe;
    a[1] = 0x80;
    a[8..16].copy_from_slice(&iid);
    a
}

#[test]
fn short_mac_interface_identifier() {
    assert_eq!(compute_iid(&MacAddr::ShortAddr(0x1234)), [0, 0, 0, 0xff, 0xfe, 0, 0x12, 0x34]);
    assert_eq!(compute_iid(&MacAddr::ShortAddr(0x0001)), [0, 0, 0, 0xff, 0xfe, 0, 0x00, 0x01]);
    assert_eq!(
        compute_iid(&MacAddr::LongAddr([0x10, 1, 2, 3, 4, 5, 6, 7])),
        [0x12, 1, 2, 3, 4, 5, 6, 7]
    );
}

#[test]
fn addresses_derived_from_short_macs_are_elided() {
    let src = link_local([0, 0, 0, 0xff, 0xfe, 0, 0, 0x01]);
    let dst = link_local([0, 0, 0, 0xff, 0xfe, 0, 0x12, 0x34]);
    let mut d = vec![0x60, 0, 0, 0, 0, 0, 59, 64];
    d.extend_from_slice(&src);
    d.extend_from_slice(&dst);
    let s = store();
    let lowpan = LoWPAN::new(&s);
    let smac = MacAddr::ShortAddr(0x0001);
    let dmac = MacAddr::ShortAddr(0x1234);
    let mut buf = [0u8; 64];
    assert_eq!(lowpan.compress(&d, smac, dmac, &mut buf), Ok((40, 3)));
    assert_eq!(&buf[0..3], &[0x7a, 0x33, 0x3b]);
    let mut out = [0u8; 64];
    assert_eq!(lowpan.decompress(&buf[0..3], smac, dmac, &mut out), Ok((3, 40)));
    assert_eq!(&out[0..40], &d[..]);
}

#[test]
fn udp_checksum_pads_an_odd_byte() {
    let ip6 = [0u8; 40];
    let udp = [0, 1, 0, 2, 0, 9, 0, 0];
    // Words: 9 (length), 17, 1, 2, 9 and the padded byte 0xab00.
    assert_eq!(compute_udp_checksum(&ip6, 0, &udp, 0, 9, &[0xab], 0), !(9u16 + 17 + 1 + 2 + 9 + 0xab00));
}

#[test]
fn udp_eight_bit_destination_port_round_trip() {
    let src = link_local([1, 2, 3, 4, 5, 6, 7, 8]);
    let dst = link_local([9, 10, 11, 12, 13, 14, 15, 16]);
    let mut d = vec![0x60, 0, 0, 0, 0, 10, 17, 64];
    d.extend_from_slice(&src);
    d.extend_from_slice(&dst);
    d.extend_from_slice(&[0x03, 0xe8, 0xf0, 0x05, 0, 10, 0x12, 0x34, 0xaa, 0xbb]);
    let s = store();
    let lowpan = LoWPAN::new(&s);
    let mac = MacAddr::ShortAddr(0x0002);
    let mut buf = [0u8; 80];
    let (consumed, written) = lowpan.compress(&d, mac, mac, &mut buf).unwrap();
    let mut frame = buf[0..written].to_vec();
    frame.extend_from_slice(&d[consumed..]);
    let mut out = [0u8; 80];
    let (_, w) = lowpan.decompress(&frame, mac, mac, &mut out).unwrap();
    assert!(w >= 48);
    assert_eq!(&out[40..44], &[0x03, 0xe8, 0xf0, 0x05]);
}

#[test]
fn prepared_test_header_follows_its_shape() {
    let (h, payload) = ipv6_prepare_packet(TF::Inline, 42, SAC::LLPIID, DAC::Mcast8);
    assert_eq!(payload, vec![0u8; 192]);
    assert_eq!(h.traffic_class, 0xa9);
    assert_eq!(h.flow_label, 0xABCDE);
    assert_eq!(h.payload_len, 200);
    assert_eq!(h.hop_limit, 42);
    assert_eq!(
        h.src_addr.0,
        [0xfe, 0x80, 0, 0, 0, 0, 0, 0, 0x12, 0x11, 0x12, 0x13, 0x14, 0x15, 0x16, 0x17]
    );
    assert_eq!(h.dst_addr.0, [0xff, 0, 0, 0, 0, 0, 0, 0, 0, 0, 0, 0, 0, 0, 0, 0]);
    let (h, _) = ipv6_prepare_packet(TF::TrafficFlow, 1, SAC::Ctx16, DAC::McastCtx);
    assert_eq!(h.traffic_class, 0);
    assert_eq!(h.flow_label, 0);
    assert_eq!(
        h.src_addr.0,
        [0xc0, 0xc1, 0xc2, 0xc3, 0xc4, 0xc5, 0xc6, 0xc7, 0, 0, 0, 0xff, 0xfe, 0, 0, 0]
    );
    assert_eq!(
        h.dst_addr.0,
        [0xff, 0, 0, 64, 0xc0, 0xc1, 0xc2, 0xc3, 0xc4, 0xc5, 0xc6, 0xc7, 0, 0, 0, 0]
    );
    let (h, _) = ipv6_prepare_packet(TF::Traffic, 255, SAC::Unspecified, DAC::Inline);
    assert_eq!(h.traffic_class, 0x01);
}

/// Compresses `d`, decompresses the frame and returns the datagram it
/// decompresses to.
fn udp_round_trip(d: &[u8]) -> Vec<u8> {
    let s = store();
    let lowpan = LoWPAN::new(&s);
    let mac = MacAddr::ShortAddr(0x0002);
    let mut buf = [0u8; 80];
    let (consumed, written) = lowpan.compress(d, mac, mac, &mut buf).unwrap();
    assert_eq!(consumed, 48);
    let mut frame = buf[0..written].to_vec();
    frame.extend_from_slice(&d[consumed..]);
    let mut out = [0u8; 80];
    let (read, w) = lowpan.decompress(&frame, mac, mac, &mut out).unwrap();
    assert_eq!(read, written);
    let mut back = out[0..w].to_vec();
    back.extend_from_slice(&frame[read..]);
    back
}

#[test]
fn udp_datagram_round_trip_restores_both_headers() {
    let src = link_local([1, 2, 3, 4, 5, 6, 7, 8]);
    let dst = link_local([9, 10, 11, 12, 13, 14, 15, 16]);
    for ports in [[0x03, 0xe8, 0xf0, 0x05], [0xf0, 0xb1, 0xf0, 0xb2], [0xf0, 0x42, 0x03, 0xe8], [0x12, 0x34, 0x56, 0x78]] {
        let mut d = vec![0x60, 0, 0, 0, 0, 11, 17, 64];
        d.extend_from_slice(&src);
        d.extend_from_slice(&dst);
        d.extend_from_slice(&ports);
        d.extend_from_slice(&[0, 11, 0x12, 0x34, 0xaa, 0xbb, 0xcc]);
        assert_eq!(udp_round_trip(&d), d);
    }
}

#[test]
fn fragments_reassemble_and_overlaps_fail() {
    let src = link_local([1, 2, 3, 4, 5, 6, 7, 8]);
    let dst = link_local([9, 10, 11, 12, 13, 14, 15, 16]);
    let mut d = vec![0x60, 0, 0, 0, 0, 24, 59, 64];
    d.extend_from_slice(&src);
    d.extend_from_slice(&dst);
    for i in 0..24u8 {
        d.push(i * 3);
    }
    let s = store();
    let lowpan = LoWPAN::new(&s);
    let mac = MacAddr::ShortAddr(0x0002);
    let mut buf = [0u8; 80];
    let (consumed, written) = lowpan.compress(&d, mac, mac, &mut buf).unwrap();
    assert_eq!(consumed, 40);
    let mut first = buf[0..written].to_vec();
    first.extend_from_slice(&d[40..48]);

    let mut rx = RxState::new(vec![0u8; 1280]);
    rx.start_receive(MacAddress::Short(2), MacAddress::Short(2), 64, 7, 100);
    assert!(rx.is_my_fragment(MacAddress::Short(2), MacAddress::Short(2), 64, 7));
    assert!(!rx.is_my_fragment(MacAddress::Short(2), MacAddress::Short(2), 64, 8));
    assert!(!rx.is_my_fragment(MacAddress::Long([0; 8]), MacAddress::Short(2), 64, 7));
    // The later fragment first: blocks 6 and 7
    assert_eq!(rx.receive_next_frame(&d[48..64], 16, 64, 48, &lowpan), Ok(false));
    // The first fragment: blocks 0 to 5, and the datagram is complete
    assert_eq!(rx.receive_next_frame(&first, first.len(), 64, 0, &lowpan), Ok(true));
    assert_eq!(&rx.packet[0..64], &d[..]);
    // A fragment over blocks received before fails
    assert_eq!(rx.receive_next_frame(&d[48..56], 8, 64, 48, &lowpan), Err(ReturnCode::FAIL));
    assert_eq!(rx.end_receive(), 64);
    assert!(!rx.busy);
}

#[test]
fn first_fragment_carries_the_datagram_lengths() {
    // A UDP datagram of 40 + 8 + 40 bytes, of which the first fragment
    // holds the headers and 8 payload bytes.
    let src = link_local([1, 2, 3, 4, 5, 6, 7, 8]);
    let dst = link_local([9, 10, 11, 12, 13, 14, 15, 16]);
    let mut d = vec![0x60, 0, 0, 0, 0, 48, 17, 64];
    d.extend_from_slice(&src);
    d.extend_from_slice(&dst);
    d.extend_from_slice(&[0x12, 0x34, 0x56, 0x78, 0, 48, 0xab, 0xcd]);
    for i in 0..40u8 {
        d.push(i);
    }
    let s = store();
    let lowpan = LoWPAN::new(&s);
    let mac = MacAddr::ShortAddr(0x0002);
    let mut buf = [0u8; 80];
    let (consumed, written) = lowpan.compress(&d, mac, mac, &mut buf).unwrap();
    assert_eq!(consumed, 48);
    let mut first = buf[0..written].to_vec();
    first.extend_from_slice(&d[48..56]);
    let mut rx = RxState::new(vec![0u8; 1280]);
    rx.start_receive(MacAddress::Short(2), MacAddress::Short(2), 88, 1, 0);
    assert_eq!(rx.receive_next_frame(&first, first.len(), 88, 0, &lowpan), Ok(false));
    assert_eq!(rx.receive_next_frame(&d[56..88], 32, 88, 56, &lowpan), Ok(true));
    assert_eq!(&rx.packet[0..88], &d[..]);
}

#[test]
fn reassembly_expires_after_the_timeout() {
    let mut rx = RxState::new(vec![0u8; 1280]);
    rx.start_receive(MacAddress::Short(1), MacAddress::Short(2), 64, 3, 100);
    assert!(rx.is_busy(1000, 100 + 59_999));
    assert!(!rx.is_busy(1000, 100 + 60_000));
    assert_eq!(rx.start_time, 0);
}

/// The datagram of test shape `tf` and `hop_limit` as it arrives: the
/// encoded IPv6 header, a UDP header and the zeroed payload.
fn received_datagram(tf: TF, hop_limit: u8, udp: &UDPHeader) -> Vec<u8> {
    let (h, payload) = ipv6_prepare_packet(tf, hop_limit, SAC::Inline, DAC::Inline);
    let mut buf = vec![0u8; 48];
    h.encode(&mut buf);
    buf[40..42].copy_from_slice(&udp.src_port.to_be_bytes());
    buf[42..44].copy_from_slice(&udp.dst_port.to_be_bytes());
    buf[44..46].copy_from_slice(&udp.len.to_be_bytes());
    buf[46..48].copy_from_slice(&udp.cksum.to_be_bytes());
    buf.extend_from_slice(&payload);
    buf
}

fn test_udp_header() -> UDPHeader {
    UDPHeader { src_port: 12345, dst_port: 54321, len: 200, cksum: 0x1234 }
}

#[test]
fn received_test_datagram_matches_what_was_sent() {
    let udp = test_udp_header();
    let buf = received_datagram(TF::Flow, 64, &udp);
    let c = ipv6_check_receive_packet(TF::Flow, 64, SAC::Inline, DAC::Inline, &udp, &buf, 240);
    assert!(c.version && c.traffic_class && c.dscp && c.ecn && c.payload_len && c.next_header);
    assert!(c.hop_limit && c.src_port && c.dst_port && c.udp_len && c.cksum && c.payload);
}

#[test]
fn received_test_datagram_mismatches_are_flagged() {
    let udp = test_udp_header();
    let mut buf = received_datagram(TF::Flow, 64, &udp);
    buf[7] = 63;
    buf[43] ^= 1;
    buf[100] = 7;
    let c = ipv6_check_receive_packet(TF::Flow, 64, SAC::Inline, DAC::Inline, &udp, &buf, 240);
    assert!(!c.hop_limit);
    assert!(!c.dst_port);
    assert!(!c.payload);
    assert!(c.src_port && c.traffic_class && c.next_header);
    // A byte past the received length is not compared.
    let c = ipv6_check_receive_packet(TF::Flow, 64, SAC::Inline, DAC::Inline, &udp, &buf, 100);
    assert!(c.payload);
    // Checked against another traffic class shape, the class differs.
    let c = ipv6_check_receive_packet(TF::Traffic, 64, SAC::Inline, DAC::Inline, &udp, &buf, 100);
    assert!(!c.traffic_class && !c.dscp && c.ecn);
}

#[test]
fn check_test_follows_the_test_table() {
    assert_eq!(num_tests(), 28);
    assert!(lowpan_test_shape(28).is_none());
    let (tf, hop, sac, dac) = lowpan_test_shape(6).unwrap();
    assert!(tf == TF::TrafficFlow && hop == 1 && sac == SAC::Inline && dac == DAC::Inline);
    let (_, hop, sac, dac) = lowpan_test_shape(12).unwrap();
    assert!(hop == 42 && sac == SAC::Unspecified && dac == DAC::Inline);
    let (_, _, sac, dac) = lowpan_test_shape(27).unwrap();
    assert!(sac == SAC::CtxIID && dac == DAC::McastCtx);
    let udp = test_udp_header();
    let buf = received_datagram(TF::TrafficFlow, 42, &udp);
    let c = run_check_test(20, &udp, &buf, 240).unwrap();
    assert!(c.hop_limit && c.traffic_class && c.payload);
    let c = run_check_test(2, &udp, &buf, 240).unwrap();
    assert!(!c.hop_limit && !c.traffic_class);
    assert!(run_check_test(28, &udp, &buf, 240).is_none());
}

fn data_frame(data_offset: usize) -> FrameInfo {
    FrameInfo {
        frame_type: FrameType::Data,
        mac_payload_offset: data_offset,
        data_offset,
        data_len: 0,
        mic_len: 0,
        security_params: None,
    }
}

fn sending(len: usize, fragment: bool, compress: bool) -> TxState {
    let mut tx = TxState::new(vec![0u8; 129]);
    let packet: Vec<u8> = (0..len).map(|i| i as u8).collect();
    tx.init_transmit(MacAddress::Short(1), MacAddress::Short(2), packet, len, None, fragment, compress);
    tx.dgram_tag = 7;
    tx
}

#[test]
fn next_fragment_carries_header_and_datagram_bytes() {
    let mut tx = sending(200, true, false);
    tx.dgram_offset = 96;
    let (buf, info) = tx.fill_next_fragment(Ok(data_frame(9)), vec![0u8; 129]).unwrap();
    assert_eq!(info.data_len, 109);
    assert_eq!(&buf[11..16], &[0xe0, 0xc8, 0x00, 0x07, 12]);
    let expected: Vec<u8> = (96..200).map(|i| i as u8).collect();
    assert_eq!(&buf[16..120], &expected[..]);
    assert!(buf[120..].iter().all(|&b| b == 0));
    assert_eq!(tx.dgram_offset, 200);
    assert!(tx.is_transmit_done());
}

#[test]
fn next_fragment_rounds_to_eight_bytes_when_more_follow() {
    let mut tx = sending(400, true, false);
    tx.dgram_offset = 8;
    let (_, info) = tx.fill_next_fragment(Ok(data_frame(9)), vec![0u8; 129]).unwrap();
    assert_eq!(info.data_len, 5 + 104);
    assert_eq!(tx.dgram_offset, 112);
    assert!(!tx.is_transmit_done());
}

#[test]
fn next_fragment_failures_hand_the_buffer_back() {
    let mut tx = sending(200, true, false);
    match tx.fill_next_fragment(Err(()), vec![3u8; 129]) {
        Err((code, buf)) => {
            assert_eq!(code, ReturnCode::FAIL);
            assert_eq!(buf, vec![3u8; 129]);
        }
        Ok(_) => panic!("expected FAIL"),
    }
    match tx.fill_next_fragment(Ok(data_frame(9)), vec![0u8; 15]) {
        Err((code, _)) => assert_eq!(code, ReturnCode::ESIZE),
        Ok(_) => panic!("expected ESIZE"),
    }
    let mut empty = TxState::new(vec![]);
    match empty.fill_next_fragment(Ok(data_frame(9)), vec![0u8; 129]) {
        Err((code, _)) => assert_eq!(code, ReturnCode::ENOMEM),
        Ok(_) => panic!("expected ENOMEM"),
    }
    assert_eq!(tx.dgram_offset, 0);
}

#[test]
fn first_fragment_of_a_large_datagram_is_a_frag1() {
    let mut tx = sending(200, true, false);
    let (buf, info) = tx.fill_first_fragment(Ok(data_frame(9)), vec![0u8; 129], Err(()), &[]).unwrap();
    assert_eq!(info.data_len, 4 + 104);
    assert_eq!(&buf[11..15], &[0xc0, 0xc8, 0x00, 0x07]);
    let expected: Vec<u8> = (0..104).map(|i| i as u8).collect();
    assert_eq!(&buf[15..119], &expected[..]);
    assert_eq!(tx.dgram_offset, 104);
    let mut unsplittable = sending(200, false, false);
    match unsplittable.fill_first_fragment(Ok(data_frame(9)), vec![0u8; 129], Err(()), &[]) {
        Err((code, _)) => assert_eq!(code, ReturnCode::ESIZE),
        Ok(_) => panic!("expected ESIZE"),
    }
}

#[test]
fn first_fragment_with_compression_carries_the_compressed_header() {
    let mut tx = sending(60, true, true);
    let lowpan = [0x7a, 0x33, 0x3a];
    let (buf, info) = tx.fill_first_fragment(Ok(data_frame(9)), vec![0u8; 129], Ok((40, 3)), &lowpan).unwrap();
    assert_eq!(info.data_len, 23);
    assert_eq!(&buf[11..14], &lowpan);
    let expected: Vec<u8> = (40..60).map(|i| i as u8).collect();
    assert_eq!(&buf[14..34], &expected[..]);
    assert_eq!(tx.dgram_offset, 60);
    let mut failed = sending(60, true, true);
    match failed.fill_first_fragment(Ok(data_frame(9)), vec![0u8; 129], Err(()), &lowpan) {
        Err((code, _)) => assert_eq!(code, ReturnCode::FAIL),
        Ok(_) => panic!("expected FAIL"),
    }
}

/// A MAC that prepares nine-byte headers and records what it transmits.
struct RecordingMac {
    frames: Vec<(Vec<u8>, FrameInfo)>,
}

impl Mac for RecordingMac {
    fn ready(&self) -> bool {
        true
    }
    fn get_address(&self) -> u16 {
        1
    }
    fn get_address_long(&self) -> [u8; 8] {
        [0; 8]
    }
    fn get_pan(&self) -> u16 {
        0xabcd
    }
    fn get_channel(&self) -> u8 {
        26
    }
    fn get_tx_power(&self) -> i8 {
        0
    }
    fn set_address(&mut self, _addr: u16) {}
    fn set_address_long(&mut self, _addr: [u8; 8]) {}
    fn set_pan(&mut self, _id: u16) {}
    fn set_channel(&mut self, _chan: u8) -> ReturnCode {
        ReturnCode::SUCCESS
    }
    fn set_tx_power(&mut self, _power: i8) -> ReturnCode {
        ReturnCode::SUCCESS
    }
    fn config_commit(&mut self) -> ReturnCode {
        ReturnCode::SUCCESS
    }
    fn is_on(&self) -> bool {
        true
    }
    fn prepare_data_frame(
        &self,
        _buf: &mut [u8],
        _dst_pan: u16,
        _dst_addr: MacAddress,
        _src_pan: u16,
        _src_addr: MacAddress,
        _security_needed: Option<(SecurityLevel, KeyId)>,
    ) -> Result<FrameInfo, ()> {
        Ok(data_frame(9))
    }
    fn transmit(&mut self, buf: Vec<u8>, frame_info: FrameInfo) -> (ReturnCode, Option<Vec<u8>>) {
        self.frames.push((buf, frame_info));
        (ReturnCode::SUCCESS, None)
    }
}

struct StillClock;

impl Time for StillClock {
    type Frequency = Freq1KHz;
    fn last_reading(&self) -> Option<u32> {
        None
    }
    fn now(&mut self) -> u32 {
        0
    }
}

impl Alarm for StillClock {
    fn armed(&self) -> Option<u32> {
        None
    }
    fn set_alarm(&mut self, _tics: u32) {}
}

#[derive(Default)]
struct SendLog {
    done: RefCell<Vec<(usize, bool, ReturnCode)>>,
    received: RefCell<Vec<(Vec<u8>, u16, ReturnCode)>>,
}

impl SixlowpanClient for SendLog {
    fn receive(&self, buf: &[u8], len: u16, result: ReturnCode) {
        self.received.borrow_mut().push((buf[..len as usize].to_vec(), len, result));
    }
    fn send_done(&self, buf: &[u8], acked: bool, result: ReturnCode) {
        self.done.borrow_mut().push((buf.len(), acked, result));
    }
}

#[test]
fn sixlowpan_sends_a_large_datagram_in_fragments() {
    let s = store();
    let mut layer: Sixlowpan<RecordingMac, DummyStore, StillClock, SendLog> =
        Sixlowpan::new(RecordingMac { frames: Vec::new() }, &s, vec![0u8; 129], StillClock);
    layer.set_client(SendLog::default());
    let packet: Vec<u8> = (0..200).map(|i| i as u8).collect();
    let r = layer.transmit_packet(MacAddress::Short(1), MacAddress::Short(2), packet, 200, None, true, false);
    assert_eq!(r, Ok(ReturnCode::SUCCESS));
    assert!(layer.tx_state.tx_busy);
    assert_eq!(layer.tx_state.tx_dgram_tag, 1);
    assert_eq!(layer.radio.frames.len(), 1);
    assert_eq!(&layer.radio.frames[0].0[11..15], &[0xc0, 0xc8, 0x00, 0x01]);
    assert_eq!(layer.tx_state.dgram_offset, 104);
    // A second datagram while the first is under way is refused.
    let r = layer.transmit_packet(MacAddress::Short(1), MacAddress::Short(2), vec![0u8; 10], 10, None, true, false);
    assert_eq!(r, Err(ReturnCode::EBUSY));
    layer.tx_state.packet = Some((0..200).map(|i| i as u8).collect());
    layer.tx_state.dgram_size = 200;
    let (buf, _) = layer.radio.frames[0].clone();
    layer.send_done(buf, true, ReturnCode::SUCCESS);
    assert_eq!(layer.radio.frames.len(), 2);
    assert_eq!(&layer.radio.frames[1].0[11..16], &[0xe0, 0xc8, 0x00, 0x01, 13]);
    assert_eq!(layer.tx_state.dgram_offset, 200);
    let (buf, _) = layer.radio.frames[1].clone();
    layer.send_done(buf, true, ReturnCode::SUCCESS);
    assert!(!layer.tx_state.tx_busy);
    assert!(layer.tx_state.tx_buf.is_some());
    assert!(layer.tx_state.packet.is_none());
    let done = layer.client.as_ref().unwrap().done.borrow().clone();
    assert_eq!(done, vec![(200, true, ReturnCode::SUCCESS)]);
}

#[derive(Default)]
struct DelugeLog {
    done: Vec<ReturnCode>,
    received: Vec<Vec<u8>>,
}

impl DelugeTxClient for DelugeLog {
    fn transmit_done(&mut self, result: ReturnCode) {
        self.done.push(result);
    }
}

impl DelugeRxClient for DelugeLog {
    fn receive(&mut self, buffer: &[u8]) {
        self.received.push(buffer.to_vec());
    }
}

#[test]
fn deluge_layer_broadcasts_packets_in_data_frames() {
    let mut layer: DelugeTransmitLayer<RecordingMac, DelugeLog, DelugeLog> =
        DelugeTransmitLayer::new(MacAddress::Short(5), 0x1234, vec![0u8; 129], RecordingMac { frames: Vec::new() });
    layer.set_tx_client(DelugeLog::default());
    layer.set_rx_client(DelugeLog::default());
    assert_eq!(layer.transmit_packet(&[1, 2, 3]), ReturnCode::SUCCESS);
    assert!(layer.tx_buffer.is_none());
    let (frame, info) = layer.radio.frames[0].clone();
    assert_eq!(&frame[11..14], &[1, 2, 3]);
    assert_eq!(info.data_len, 3);
    layer.send_done(frame, true, ReturnCode::SUCCESS);
    assert!(layer.tx_buffer.is_some());
    assert_eq!(layer.tx_client.as_ref().unwrap().done, vec![ReturnCode::SUCCESS]);
    layer.receive(&[9, 9, 4, 5, 6, 9], 2, 3);
    assert_eq!(layer.rx_client.as_ref().unwrap().received, vec![vec![4u8, 5, 6]]);
}

#[test]
fn deluge_frame_leaves_out_a_packet_too_large_for_it() {
    type Layer = DelugeTransmitLayer<RecordingMac, DelugeLog, DelugeLog>;
    let (frame, info) = Layer::fill_packet_frame(Ok(data_frame(9)), vec![0u8; 129], &[7u8; 200]).unwrap();
    assert_eq!(info.data_len, 0);
    assert!(frame.iter().all(|&b| b == 0));
    match Layer::fill_packet_frame(Err(()), vec![1u8; 4], &[7u8; 2]) {
        Err(buf) => assert_eq!(buf, vec![1u8; 4]),
        Ok(_) => panic!("expected the buffer back"),
    }
    match Layer::fill_packet_frame(Ok(data_frame(9)), vec![1u8; 4], &[7u8; 2]) {
        Err(buf) => assert_eq!(buf, vec![1u8; 4]),
        Ok(_) => panic!("expected the buffer back"),
    }
}

fn receiving_layer(s: &DummyStore, states: usize) -> Sixlowpan<'_, RecordingMac, DummyStore, StillClock, SendLog> {
    let mut layer = Sixlowpan::new(RecordingMac { frames: Vec::new() }, s, vec![0u8; 129], StillClock);
    for _ in 0..states {
        layer.add_rx_state(RxState::new(vec![0u8; 1280]));
    }
    layer.set_client(SendLog::default());
    layer
}

#[test]
fn sixlowpan_reassembles_fragments_in_any_order() {
    let src = link_local([1, 2, 3, 4, 5, 6, 7, 8]);
    let dst = link_local([9, 10, 11, 12, 13, 14, 15, 16]);
    let mut d = vec![0x60, 0, 0, 0, 0, 24, 59, 64];
    d.extend_from_slice(&src);
    d.extend_from_slice(&dst);
    for i in 0..24u8 {
        d.push(i * 3);
    }
    let s = store();
    let lowpan = LoWPAN::new(&s);
    let mac = MacAddr::ShortAddr(0x0002);
    let mut buf = [0u8; 80];
    let (_, written) = lowpan.compress(&d, mac, mac, &mut buf).unwrap();
    let mut frag1 = vec![0xc0, 64, 0, 7];
    frag1.extend_from_slice(&buf[0..written]);
    frag1.extend_from_slice(&d[40..48]);
    let mut fragn = vec![0xe0, 64, 0, 7, 6];
    fragn.extend_from_slice(&d[48..64]);

    let mut layer = receiving_layer(&s, 2);
    let a = MacAddress::Short(2);
    assert_eq!(layer.receive_frame(&fragn, fragn.len(), a, a), (None, ReturnCode::SUCCESS));
    assert!(layer.rx_states[0].busy);
    assert_eq!(layer.rx_states[0].dgram_tag, 7);
    assert_eq!(layer.receive_frame(&frag1, frag1.len(), a, a), (Some(0), ReturnCode::SUCCESS));
    assert_eq!(&layer.rx_states[0].packet[0..64], &d[..]);
    assert!(!layer.rx_states[1].busy);
}

#[test]
fn sixlowpan_hands_complete_datagrams_to_its_client() {
    let s = store();
    let mut layer = receiving_layer(&s, 1);
    let header = MacHeader {
        frame_type: FrameType::Data,
        frame_pending: false,
        ack_requested: false,
        version: FrameVersion::V2006,
        seq: Some(1),
        dst_pan: Some(0xabcd),
        dst_addr: Some(MacAddress::Short(2)),
        src_pan: None,
        src_addr: None,
        security: None,
    };
    // An uncompressed packet after two bytes of MAC header.
    let frame = [0xaa, 0xbb, 0x41, 1, 2, 3, 4];
    assert_eq!(layer.receive(&frame, header, 2, 5), (Some(0), ReturnCode::SUCCESS));
    assert!(!layer.rx_states[0].busy);
    assert!(matches!(layer.rx_states[0].src_mac_addr, MacAddress::Short(0)));
    let received = layer.client.as_ref().unwrap().received.borrow().clone();
    assert_eq!(received, vec![(vec![0x41, 1, 2, 3, 4], 5, ReturnCode::SUCCESS)]);
}

#[test]
fn sixlowpan_without_free_state_answers_enomem() {
    let s = store();
    let mut layer = receiving_layer(&s, 0);
    assert_eq!(layer.receive_frame(&[0x41, 1, 2], 3, MacAddress::Short(1), MacAddress::Short(2)), (None, ReturnCode::ENOMEM));
    let mut busy = receiving_layer(&s, 1);
    busy.rx_states[0].start_receive(MacAddress::Short(9), MacAddress::Short(9), 100, 3, 0);
    assert_eq!(busy.receive_frame(&[0x41, 1, 2], 3, MacAddress::Short(1), MacAddress::Short(2)), (None, ReturnCode::ENOMEM));
    busy.discard_all_state();
    assert!(!busy.rx_states[0].busy);
}
