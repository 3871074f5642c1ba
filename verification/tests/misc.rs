
use lib::boards::icmp_lowpan_test::{dst_addr, src_addr, IcmpTestAction, LowpanICMPTest};
use lib::boards::ip_dummy::DummyStore;
use lib::chips::ast::{compute_alarm, Ast, Clock};
use lib::chips::trng::Trng;
use lib::chips::uart::UART;
use lib::hil::radio::AddressedRadio;
use lib::hil::rng::{Client as RngClient, Continue};
use lib::hil::time::{Alarm, Client as TimeClient, Freq1KHz, Freq16MHz, Frequency, Time};
use lib::net::deluge::flash_layer::FlashState;
use lib::net::frag_utils::Bitmap;
use lib::net::ip::{IP6Packet, IPPayload, TransportHeader};
use lib::net::ip6::{Address, Header, NextHeaderType};
use lib::net::lowpan::{Context, ContextStore};
use lib::net::sixlowpan::{
    first_fragment_plan, fragment_payload_len, is_expired, is_transmit_done, next_dgram_tag,
};
use lib::net::stream::SResult;
use lib::net::udp::UDPHeader;
use lib::process::{ipsr_isr_number_to_str, TbfHeader};
use lib::process::tbf_parse::parse_and_validate_tbf_header;
use lib::radio_loopback::{payload_rows, RadioLoopback};
use lib::returncode::ReturnCode;
use lib::sensys::Sensys;
use lib::hil::sensors::AmbientLight;
use lib::trickle::{TrickleClient, TrickleData};

#[test]
fn bitmap_tracks_received_blocks() {
    let mut b = Bitmap::new();
    assert!(!b.is_complete(20));
    assert!(b.set_bits(0, 9));
    assert!(!b.is_complete(20));
    assert!(b.set_bits(9, 20));
    assert!(b.is_complete(20));
    assert!(!b.set_bits(5, 7), "overlapping blocks are reported");
    b.clear();
    assert!(!b.is_complete(20));
    assert!(!b.set_bits(4, 2), "a reversed range is refused");
}

#[test]
fn bitmap_byte_aligned_ranges() {
    let mut b = Bitmap::new();
    assert!(b.set_bits(2, 16));
    // Blocks 2..16 fill byte 1 and the top six bits of byte 0; byte 2 stays clear.
    assert!(!b.is_complete(16));
    assert!(b.set_bits(0, 2));
    assert!(b.is_complete(16));
    assert!(!b.is_complete(17));
    assert!(b.set_bits(16, 24));
    assert!(!b.is_complete(16));
    assert!(b.is_complete(24));
    assert!(!b.set_bits(8, 16), "overlapping blocks are reported");
}

#[test]
fn bitmap_single_bits() {
    let mut b = Bitmap::new();
    for i in 0..3 {
        b.set_bit(i);
    }
    assert!(b.is_complete(3));
    b.clear_bit(1);
    assert!(!b.is_complete(3));
}

#[test]
fn fragments_carry_multiples_of_eight() {
    assert_eq!(fragment_payload_len(10, 100), 10);
    assert_eq!(fragment_payload_len(100, 100), 100);
    assert_eq!(fragment_payload_len(200, 100), 96);
    assert_eq!(fragment_payload_len(200, 7), 0);
    assert!(is_transmit_done(100, 100));
    assert!(!is_transmit_done(100, 96));
}

#[test]
fn first_fragment_layouts() {
    // Everything fits: no fragment header, the whole payload.
    assert_eq!(first_fragment_plan(true, true, 3, 50, 100), Ok((false, 50)));
    // Too large: a first fragment header and a multiple of 8.
    assert_eq!(first_fragment_plan(true, true, 3, 200, 100), Ok((true, 88)));
    // Too large and fragmentation is not allowed.
    assert_eq!(first_fragment_plan(true, false, 3, 200, 100), Err(ReturnCode::ESIZE));
    // Without compression the header bytes do not count against the frame.
    assert_eq!(first_fragment_plan(false, true, 0, 200, 100), Ok((true, 88)));
}

#[test]
fn datagram_tags_and_timeouts() {
    assert_eq!(next_dgram_tag(0), 1);
    assert_eq!(next_dgram_tag(41), 42);
    assert_eq!(next_dgram_tag(0xffff), 1);
    assert!(is_expired(100, 60, 160));
    assert!(!is_expired(100, 60, 159));
}

struct FakeAlarm {
    now: u32,
    armed: Option<u32>,
    reading: Option<u32>,
}

impl FakeAlarm {
    fn at(now: u32) -> FakeAlarm {
        FakeAlarm { now, armed: None, reading: None }
    }
}

impl Time for FakeAlarm {
    type Frequency = Freq1KHz;
    fn last_reading(&self) -> Option<u32> {
        self.reading
    }
    fn now(&mut self) -> u32 {
        self.reading = Some(self.now);
        self.now
    }
}

impl Alarm for FakeAlarm {
    fn armed(&self) -> Option<u32> {
        self.armed
    }
    fn set_alarm(&mut self, tics: u32) {
        self.armed = Some(tics);
    }
}

struct CountingClient {
    transmissions: usize,
}

impl TrickleClient for CountingClient {
    fn transmitted(&self, after: &Self) -> bool {
        after.transmissions == self.transmissions + 1
    }
    fn transmit(&mut self) {
        self.transmissions += 1;
    }
}

#[test]
fn trickle_intervals() {
    let client = CountingClient { transmissions: 0 };
    let alarm = FakeAlarm::at(1000);
    let mut t = TrickleData::new(client, alarm);
    assert_eq!(t.i_max_val, 1280000);
    assert_eq!(t.i_min, 10000);
    assert_eq!(t.k, 4);
    t.initialize();
    assert_eq!(t.i_cur, 10000);
    assert_eq!(t.c, 0);
    assert!(t.t >= 5000 && t.t < 10000);
    assert_eq!(t.t, 0x15 % 5000 + 5000);
    // The transmission timer is armed t times the clock frequency ticks
    // after now.
    assert_eq!(t.clock.armed, Some(1000 + t.t as u32 * 1000));
    t.received_transmission(true);
    t.received_transmission(true);
    assert_eq!(t.c, 2);
    // The transmission timer fires: fewer than k consistent messages heard.
    t.fired();
    assert!(t.t_fired);
    assert_eq!(t.client.transmissions, 1);
    // The interval ends: it doubles.
    t.fired();
    assert_eq!(t.i_cur, 20000);
    assert_eq!(t.c, 0);
    assert!(!t.t_fired);
    // An inconsistent message resets it.
    t.received_transmission(false);
    assert_eq!(t.i_cur, 10000);
}

#[test]
fn frequencies() {
    assert_eq!(Freq1KHz::frequency(), 1000);
    assert_eq!(Freq16MHz::frequency(), 16_000_000);
}

#[test]
fn icmp_test_runs_two_tests() {
    let alarm = FakeAlarm::at(5);
    let mut app = LowpanICMPTest::new(alarm);
    app.start();
    assert_eq!(app.alarm.armed, Some(5 + 10000));
    assert_eq!(app.num_tests(), 2);
    assert_eq!(app.fired(), IcmpTestAction::SendEchoRequest);
    assert_eq!(app.fired(), IcmpTestAction::SendEchoRequest);
    assert_eq!(app.fired(), IcmpTestAction::NoTest);
    assert_eq!(app.test_counter, 3);
    app.alarm.now = 100;
    assert!(app.send_done(ReturnCode::SUCCESS));
    assert_eq!(app.alarm.armed, Some(100 + 10000));
    app.alarm.now = 200;
    assert!(!app.send_done(ReturnCode::FAIL));
    assert_eq!(app.alarm.armed, Some(100 + 10000));
    assert_eq!(LowpanICMPTest::<FakeAlarm>::next_alarm(u32::MAX), 9999);
    assert_eq!(src_addr().0[15], 0x0f);
    assert_eq!(dst_addr().0[0], 0x20);
}

#[test]
fn dummy_store_holds_context_zero() {
    let store = DummyStore::new(Context { prefix: vec![0xfd, 0x00, 0x12], prefix_len: 24, id: 0, compress: true });
    let mut addr = [0u8; 16];
    addr[0] = 0xfd;
    addr[2] = 0x12;
    assert_eq!(store.get_context_from_addr(Address(addr)).unwrap().prefix_len, 24);
    addr[2] = 0x13;
    assert!(store.get_context_from_addr(Address(addr)).is_none());
    assert_eq!(store.get_context_from_id(0).unwrap().prefix, vec![0xfd, 0x00, 0x12]);
    assert!(store.get_context_from_id(1).is_none());
    assert!(store.get_context_from_prefix(&[0xfd, 0x00, 0x12], 24).is_some());
    assert!(store.get_context_from_prefix(&[0xfd, 0x00, 0x12], 16).is_none());
}

#[test]
fn uart_configuration() {
    let mut uart = UART::new();
    assert!(uart.tx_pin.is_none());
    uart.set_pins(3, 2);
    assert_eq!(uart.configured_pins(), (3, 2));
    // 48 MHz: 64 * 48e6 / (16 * 115200) = 1666.67, rounded to 1667 = 26 * 64 + 3.
    assert_eq!(UART::baud_divisors(115200), (26, 3));
    assert_eq!(UART::baud_divisors(9600), (312, 32));
}

struct Fired {
    count: usize,
}

impl TimeClient for Fired {
    fn alarm_handled(&self, after: &Self) -> bool {
        after.count == self.count + 1
    }
    fn fired(&mut self) {
        self.count += 1;
    }
}

#[test]
fn ast_alarm_values() {
    assert_eq!(compute_alarm(100, 1000), 1000);
    assert_eq!(compute_alarm(100, 105), 108);
    assert_eq!(compute_alarm(100, 50), 50);
    assert_eq!(compute_alarm(u32::MAX - 2, 1), 5);
    assert_eq!(Clock::ClockOsc32.number(), 1);
    assert_eq!(Clock::Clock1K.number(), 4);
    let mut ast = Ast::new();
    ast.handle_interrupt();
    ast.set_client(Fired { count: 0 });
    ast.handle_interrupt();
    ast.handle_interrupt();
    assert_eq!(ast.callback.as_ref().unwrap().count, 2);
}

struct Consumer {
    wanted: usize,
    got: Vec<u32>,
}

impl RngClient for Consumer {
    fn took(&self, after: &Self, randomness: &[u32], r: Continue) -> bool {
        let room = self.wanted.saturating_sub(self.got.len());
        let n = randomness.len().min(room);
        after.got.len() == self.got.len() + n
            && after.got[self.got.len()..] == randomness[..n]
            && (r == Continue::Done) == (after.got.len() >= self.wanted)
    }
    fn randomness_available(&mut self, randomness: &[u32]) -> Continue {
        for r in randomness {
            if self.got.len() < self.wanted {
                self.got.push(*r);
            }
        }
        if self.got.len() < self.wanted {
            Continue::More
        } else {
            Continue::Done
        }
    }
}

#[test]
fn trng_hands_words_to_its_client() {
    let mut trng: Trng<Consumer> = Trng::new();
    assert_eq!(trng.handle_interrupt(&[1, 2]), None);
    trng.set_client(Consumer { wanted: 3, got: Vec::new() });
    assert_eq!(trng.handle_interrupt(&[1, 2]), Some(Continue::More));
    assert_eq!(trng.handle_interrupt(&[3, 4]), Some(Continue::Done));
    assert_eq!(trng.client.as_ref().unwrap().got, vec![1, 2, 3]);
}

struct Light;

impl AmbientLight for Light {
    fn read_light_intensity(&self) -> ReturnCode {
        ReturnCode::SUCCESS
    }
}

#[test]
fn sensys_greets() {
    let alarm = FakeAlarm::at(0);
    let light = Light;
    let capsule = Sensys::new(&alarm, &light);
    assert_eq!(capsule.start(), "Hello World");
}

struct EchoRadio {
    sent: Vec<(u16, Vec<u8>, u8)>,
    sent_long: Vec<([u8; 8], Vec<u8>, u8)>,
    on: bool,
    addr: u16,
    addr_long: [u8; 8],
    pan: u16,
    power: i8,
    chan: u8,
    rx_buf: Option<Vec<u8>>,
}

fn echo_radio() -> EchoRadio {
    EchoRadio {
        sent: Vec::new(),
        sent_long: Vec::new(),
        on: false,
        addr: 0,
        addr_long: [0; 8],
        pan: 0,
        power: 0,
        chan: 11,
        rx_buf: None,
    }
}

impl AddressedRadio for EchoRadio {
    fn initialize_result(&self, _buf: Vec<u8>, _reg_write: Vec<u8>, _reg_read: Vec<u8>) -> ReturnCode {
        ReturnCode::SUCCESS
    }
    fn reset_result(&self) -> ReturnCode {
        ReturnCode::SUCCESS
    }
    fn start_result(&self) -> ReturnCode {
        if self.on { ReturnCode::EALREADY } else { ReturnCode::SUCCESS }
    }
    fn stop_result(&self) -> ReturnCode {
        if self.on { ReturnCode::SUCCESS } else { ReturnCode::EALREADY }
    }
    fn powered(&self) -> bool {
        self.on
    }
    fn is_busy(&self) -> bool {
        false
    }
    fn address(&self) -> u16 {
        self.addr
    }
    fn address_long(&self) -> [u8; 8] {
        self.addr_long
    }
    fn pan(&self) -> u16 {
        self.pan
    }
    fn tx_power(&self) -> i8 {
        self.power
    }
    fn channel(&self) -> u8 {
        self.chan
    }
    fn set_tx_power_result(&self, power: i8) -> ReturnCode {
        if power > 4 { ReturnCode::EINVAL } else { ReturnCode::SUCCESS }
    }
    fn set_channel_result(&self, chan: u8) -> ReturnCode {
        if (11..=26).contains(&chan) { ReturnCode::SUCCESS } else { ReturnCode::EINVAL }
    }
    fn commit_result(&self) -> ReturnCode {
        ReturnCode::SUCCESS
    }
    fn header_len(&self, long_src: bool, _long_dest: bool) -> u8 {
        if long_src { 17 } else { 11 }
    }
    fn payload_start(&self, _long_src: bool, _long_dest: bool) -> u8 {
        11
    }
    fn packet_header_len(&self, _packet: &[u8]) -> u8 {
        11
    }
    fn packet_src(&self, packet: &[u8]) -> u16 {
        u16::from_le_bytes([packet[9], packet[10]])
    }
    fn packet_dest(&self, packet: &[u8]) -> u16 {
        u16::from_le_bytes([packet[5], packet[6]])
    }
    fn packet_src_is_long(&self, _packet: &[u8]) -> bool {
        false
    }
    fn packet_dest_is_long(&self, _packet: &[u8]) -> bool {
        false
    }
    fn packet_src_long(&self, _packet: &[u8]) -> [u8; 8] {
        [0; 8]
    }
    fn packet_dest_long(&self, _packet: &[u8]) -> [u8; 8] {
        [0; 8]
    }
    fn packet_length(&self, packet: &[u8]) -> u8 {
        packet[0]
    }
    fn packet_pan(&self, packet: &[u8]) -> u16 {
        u16::from_le_bytes([packet[3], packet[4]])
    }
    fn receive_buffer(&self) -> Option<Vec<u8>> {
        self.rx_buf.clone()
    }
    fn transmit_result(&self, _dest: u16, _payload: Vec<u8>, _len: u8, _source_long: bool) -> ReturnCode {
        ReturnCode::SUCCESS
    }
    fn transmit_long_result(&self, _dest: [u8; 8], _payload: Vec<u8>, _len: u8, _source_long: bool) -> ReturnCode {
        ReturnCode::SUCCESS
    }
    fn initialize(&mut self, _buf: Vec<u8>, _reg_write: Vec<u8>, _reg_read: Vec<u8>) -> ReturnCode {
        ReturnCode::SUCCESS
    }
    fn reset(&mut self) -> ReturnCode {
        ReturnCode::SUCCESS
    }
    fn start(&mut self) -> ReturnCode {
        let r = self.start_result();
        self.on = true;
        r
    }
    fn stop(&mut self) -> ReturnCode {
        let r = self.stop_result();
        self.on = false;
        r
    }
    fn is_on(&self) -> bool {
        self.on
    }
    fn busy(&self) -> bool {
        false
    }
    fn config_set_address(&mut self, addr: u16) {
        self.addr = addr;
    }
    fn config_set_address_long(&mut self, addr: [u8; 8]) {
        self.addr_long = addr;
    }
    fn config_set_pan(&mut self, id: u16) {
        self.pan = id;
    }
    fn config_set_tx_power(&mut self, power: i8) -> ReturnCode {
        let r = self.set_tx_power_result(power);
        if r == ReturnCode::SUCCESS {
            self.power = power;
        }
        r
    }
    fn config_set_channel(&mut self, chan: u8) -> ReturnCode {
        let r = self.set_channel_result(chan);
        if r == ReturnCode::SUCCESS {
            self.chan = chan;
        }
        r
    }
    fn config_address(&self) -> u16 {
        self.addr
    }
    fn config_address_long(&self) -> [u8; 8] {
        self.addr_long
    }
    fn config_pan(&self) -> u16 {
        self.pan
    }
    fn config_tx_power(&self) -> i8 {
        self.power
    }
    fn config_channel(&self) -> u8 {
        self.chan
    }
    fn config_commit(&mut self) -> ReturnCode {
        ReturnCode::SUCCESS
    }
    fn payload_offset(&self, _long_src: bool, _long_dest: bool) -> u8 {
        11
    }
    fn header_size(&self, long_src: bool, _long_dest: bool) -> u8 {
        if long_src { 17 } else { 11 }
    }
    fn packet_header_size(&self, packet: &[u8]) -> u8 {
        self.packet_header_len(packet)
    }
    fn packet_get_src(&self, packet: &[u8]) -> u16 {
        self.packet_src(packet)
    }
    fn packet_get_dest(&self, packet: &[u8]) -> u16 {
        self.packet_dest(packet)
    }
    fn packet_has_src_long(&self, packet: &[u8]) -> bool {
        self.packet_src_is_long(packet)
    }
    fn packet_has_dest_long(&self, packet: &[u8]) -> bool {
        self.packet_dest_is_long(packet)
    }
    fn packet_get_src_long(&self, packet: &[u8]) -> [u8; 8] {
        self.packet_src_long(packet)
    }
    fn packet_get_dest_long(&self, packet: &[u8]) -> [u8; 8] {
        self.packet_dest_long(packet)
    }
    fn packet_get_length(&self, packet: &[u8]) -> u8 {
        self.packet_length(packet)
    }
    fn packet_get_pan(&self, packet: &[u8]) -> u16 {
        self.packet_pan(packet)
    }
    fn set_receive_buffer(&mut self, buffer: Vec<u8>) {
        self.rx_buf = Some(buffer);
    }
    fn transmit(&mut self, dest: u16, payload: Vec<u8>, len: u8, _source_long: bool) -> ReturnCode {
        self.sent.push((dest, payload, len));
        ReturnCode::SUCCESS
    }
    fn transmit_long(&mut self, dest: [u8; 8], payload: Vec<u8>, len: u8, _source_long: bool) -> ReturnCode {
        self.sent_long.push((dest, payload, len));
        ReturnCode::SUCCESS
    }
}

#[test]
fn radio_loopback_logs_and_forwards() {
    let mut lb = RadioLoopback::new(echo_radio());
    let payload: Vec<u8> = (0u8..30).collect();
    let rows = lb.transmit_log(&payload, 11 + 19, false);
    assert_eq!(rows.len(), 3);
    assert_eq!(rows[0], (0u8..8).collect::<Vec<u8>>());
    assert_eq!(rows[2], vec![16, 17, 18]);
    assert_eq!(lb.header_size(true, false), 17);
    assert_eq!(lb.transmit(0x1234, payload, 30, false), ReturnCode::SUCCESS);
    assert_eq!(lb.radio.sent.len(), 1);
    assert!(payload_rows(&[1, 2, 3, 4, 5, 6, 7, 8], 8).len() == 1);
    assert!(payload_rows(&[1, 2, 3], 0).is_empty());
}

#[test]
fn radio_loopback_forwards_configuration_and_queries() {
    let mut lb = RadioLoopback::new(echo_radio());
    assert!(!lb.is_on());
    assert_eq!(lb.start(), ReturnCode::SUCCESS);
    assert!(lb.is_on());
    assert_eq!(lb.start(), ReturnCode::EALREADY);
    lb.config_set_pan(0xabcd);
    lb.config_set_address(0x1234);
    lb.config_set_address_long([1, 2, 3, 4, 5, 6, 7, 8]);
    assert_eq!(lb.config_pan(), 0xabcd);
    assert_eq!(lb.config_address(), 0x1234);
    assert_eq!(lb.config_address_long(), [1, 2, 3, 4, 5, 6, 7, 8]);
    assert_eq!(lb.config_set_channel(30), ReturnCode::EINVAL);
    assert_eq!(lb.config_channel(), 11);
    assert_eq!(lb.config_set_channel(20), ReturnCode::SUCCESS);
    assert_eq!(lb.config_channel(), 20);
    assert_eq!(lb.config_set_tx_power(5), ReturnCode::EINVAL);
    assert_eq!(lb.config_set_tx_power(-3), ReturnCode::SUCCESS);
    assert_eq!(lb.config_tx_power(), -3);
    assert_eq!(lb.config_commit(), ReturnCode::SUCCESS);
    let frame = [20u8, 0, 0, 0xcd, 0xab, 0x34, 0x12, 0, 0, 0x78, 0x56];
    assert_eq!(lb.packet_get_pan(&frame), 0xabcd);
    assert_eq!(lb.packet_get_dest(&frame), 0x1234);
    assert_eq!(lb.packet_get_src(&frame), 0x5678);
    assert_eq!(lb.packet_get_length(&frame), 20);
    lb.set_receive_buffer(vec![0; 4]);
    assert_eq!(lb.radio.rx_buf, Some(vec![0; 4]));
    assert_eq!(lb.transmit_long([9; 8], vec![1, 2], 13, true), ReturnCode::SUCCESS);
    assert_eq!(lb.radio.sent_long.len(), 1);
    assert_eq!(lb.stop(), ReturnCode::SUCCESS);
    assert!(!lb.is_on());
}

#[test]
fn ip6_packet_with_udp_payload() {
    let udp = UDPHeader { src_port: 1000, dst_port: 2000, len: 12, cksum: 0 };
    let payload = IPPayload::new(TransportHeader::UDP(udp), vec![1, 2, 3, 4, 5]);
    let mut header = Header::default();
    header.payload_len = 12;
    header.src_addr = Address([0xfe; 16]);
    header.dst_addr = Address([0x01; 16]);
    let mut packet = IP6Packet { header, payload };
    assert_eq!(packet.get_total_len(), 52);
    assert_eq!(packet.get_total_hdr_size(), 48);
    assert_eq!(packet.get_payload(), &[1, 2, 3, 4, 5]);
    packet.change_transport_type(TransportHeader::UDP(udp));
    assert_eq!(packet.header.next_header, NextHeaderType::UDP);
    packet.set_transpo_cksum();
    let cksum = match packet.payload.header {
        TransportHeader::UDP(h) => h.cksum,
        _ => panic!("not UDP"),
    };
    assert_ne!(cksum, 0);
    let mut buf = [0u8; 60];
    assert!(matches!(packet.encode(&mut buf), SResult::Done(52, 52)));
    assert_eq!(buf[6], 17);
    assert_eq!(&buf[40..44], &[0x03, 0xe8, 0x07, 0xd0]);
    assert_eq!(&buf[48..52], &[1, 2, 3, 4]);
    let mut short = [0u8; 50];
    assert!(matches!(packet.encode(&mut short), SResult::Needed(52)));
    packet.reset();
    assert_eq!(packet.header.hop_limit, 255);
}

#[test]
fn ip_payload_changes() {
    let udp = UDPHeader { src_port: 1, dst_port: 2, len: 11, cksum: 0 };
    let mut payload = IPPayload::new(TransportHeader::UDP(udp), vec![0; 3]);
    assert_eq!(payload.change_payload(&[7, 8, 9]), ReturnCode::SUCCESS);
    assert_eq!(payload.payload, vec![7, 8, 9]);
    assert_eq!(payload.change_payload(&[1, 1, 1, 1]), ReturnCode::SUCCESS);
    assert_eq!(payload.payload, vec![7, 8, 9]);
    let mut buf = [0u8; 16];
    assert!(matches!(payload.encode(&mut buf, 2), SResult::Done(13, 13)));
    assert_eq!(&buf[10..13], &[7, 8, 9]);
}

fn put32(v: &mut Vec<u8>, x: u32) {
    v.extend_from_slice(&x.to_le_bytes());
}

fn put16(v: &mut Vec<u8>, x: u16) {
    v.extend_from_slice(&x.to_le_bytes());
}

fn v2_header(options: &[u8], total_size: u32, flags: u32) -> Vec<u8> {
    let header_size = (16 + options.len()) as u16;
    let mut h = Vec::new();
    put16(&mut h, 2);
    put16(&mut h, header_size);
    put32(&mut h, total_size);
    put32(&mut h, flags);
    put32(&mut h, 0);
    h.extend_from_slice(options);
    let mut checksum = 0u32;
    for (i, w) in h.chunks(4).enumerate() {
        if i != 3 {
            checksum ^= u32::from_le_bytes([w[0], w[1], w[2], w[3]]);
        }
    }
    h[12..16].copy_from_slice(&checksum.to_le_bytes());
    h
}

#[test]
fn tbf_v2_application_header() {
    let mut opts = Vec::new();
    // Main: init offset, protected size, minimum RAM.
    put16(&mut opts, 1);
    put16(&mut opts, 12);
    put32(&mut opts, 0x41);
    put32(&mut opts, 0x20);
    put32(&mut opts, 4096);
    // Package name, padded to 4 bytes.
    put16(&mut opts, 3);
    put16(&mut opts, 5);
    opts.extend_from_slice(b"blink\0\0\0");
    // Two writeable flash regions.
    put16(&mut opts, 2);
    put16(&mut opts, 16);
    put32(&mut opts, 0x100);
    put32(&mut opts, 0x200);
    put32(&mut opts, 0x300);
    put32(&mut opts, 0x400);
    let mut flash = v2_header(&opts, 0x2000, 1);
    flash.extend_from_slice(&[0xee; 32]);
    let header = parse_and_validate_tbf_header(&flash).expect("valid header");
    assert!(header.is_app());
    assert!(header.enabled());
    assert_eq!(header.get_total_size(), 0x2000);
    assert_eq!(header.get_init_function_offset(), 0x41);
    assert_eq!(header.get_protected_size(), 0x20);
    assert_eq!(header.get_minimum_app_ram_size(), 4096);
    assert!(!header.needs_pic_fixup());
    assert_eq!(header.number_writeable_flash_regions(), 2);
    assert_eq!(header.get_writeable_flash_region(1), (0x300, 0x400));
    assert_eq!(header.get_writeable_flash_region(2), (0, 0));
    match header {
        TbfHeader::TbfHeaderV2(h) => assert_eq!(h.package_name, Some(b"blink".to_vec())),
        _ => panic!("expected a version 2 header"),
    }
}

#[test]
fn tbf_v2_padding_and_errors() {
    let padding = v2_header(&[], 0x100, 0);
    let header = parse_and_validate_tbf_header(&padding).expect("padding");
    assert!(!header.is_app());
    assert!(!header.enabled());
    assert_eq!(header.get_total_size(), 0x100);

    let mut corrupted = padding.clone();
    corrupted[8] ^= 1;
    assert!(parse_and_validate_tbf_header(&corrupted).is_none());

    // A header at least as large as the application is refused.
    let too_big = v2_header(&[], 16, 0);
    assert!(parse_and_validate_tbf_header(&too_big).is_none());

    // Options without a main section make no application.
    let mut opts = Vec::new();
    put16(&mut opts, 3);
    put16(&mut opts, 4);
    opts.extend_from_slice(b"name");
    assert!(parse_and_validate_tbf_header(&v2_header(&opts, 0x400, 1)).is_none());

    assert!(parse_and_validate_tbf_header(&[7, 0, 0, 0]).is_none());
    assert!(parse_and_validate_tbf_header(&[2]).is_none());
}

#[test]
fn tbf_v1_header() {
    let fields: [u32; 18] = [1, 0x800, 0x40, 0, 0, 0x50, 0x100, 0x150, 0x10, 0x160, 0x20, 0x180, 0x30, 0x400, 0x800, 0x200, 0, 0];
    let mut h = Vec::new();
    let mut checksum = 0u32;
    for f in fields.iter() {
        put32(&mut h, *f);
        checksum ^= *f;
    }
    put32(&mut h, checksum);
    let header = parse_and_validate_tbf_header(&h).expect("valid v1 header");
    assert!(header.is_app());
    assert!(header.enabled());
    assert!(header.needs_pic_fixup());
    assert_eq!(header.get_total_size(), 0x800);
    assert_eq!(header.get_init_function_offset(), 0x40);
    h[72] ^= 0xff;
    assert!(parse_and_validate_tbf_header(&h).is_none());
}

#[test]
fn exception_names() {
    assert_eq!(ipsr_isr_number_to_str(0), "Thread Mode");
    assert_eq!(ipsr_isr_number_to_str(3), "HardFault");
    assert_eq!(ipsr_isr_number_to_str(11), "SVCall");
}

#[test]
fn trickle_suppresses_after_k_consistent_transmissions() {
    let client = CountingClient { transmissions: 0 };
    let alarm = FakeAlarm::at(0);
    let mut t = TrickleData::new(client, alarm);
    t.initialize();
    for _ in 0..4 {
        t.received_transmission(true);
    }
    assert_eq!(t.c, t.k);
    t.fired();
    assert!(t.t_fired);
    assert_eq!(t.client.transmissions, 0);
    // The timer is re-armed for the rest of the interval.
    assert_eq!(t.clock.armed, Some((t.i_cur - t.t) as u32 * 1000));
}

struct RecordingSender {
    src: Address,
    gw: lib::net::ieee802154::MacAddress,
    sent: Vec<(Address, TransportHeader, Vec<u8>)>,
}

impl lib::net::ipv6::ipv6_send::IP6Sender for RecordingSender {
    fn src_addr(&self) -> Address {
        self.src
    }
    fn gateway(&self) -> lib::net::ieee802154::MacAddress {
        self.gw
    }
    fn sent(&self, after: &Self, _dst: Address, _th: TransportHeader, _payload: &[u8], _r: ReturnCode) -> bool {
        after.sent.len() == self.sent.len() + 1
    }
    fn set_addr(&mut self, src_addr: Address) {
        self.src = src_addr;
    }
    fn set_gateway(&mut self, gateway: lib::net::ieee802154::MacAddress) {
        self.gw = gateway;
    }
    fn send_to(&mut self, dst: Address, transport_header: TransportHeader, payload: &[u8]) -> ReturnCode {
        self.sent.push((dst, transport_header, payload.to_vec()));
        ReturnCode::SUCCESS
    }
}

struct NoUdpClient;

impl lib::net::udp::udp_send::UDPSendClient for NoUdpClient {
    fn send_done(&self, _result: ReturnCode) {}
}

#[test]
fn udp_send_sets_ports_and_length() {
    let sender = RecordingSender {
        src: Address([0; 16]),
        gw: lib::net::ieee802154::MacAddress::Short(0),
        sent: Vec::new(),
    };
    let mut udp: lib::net::udp::udp_send::UDPSendStruct<RecordingSender, NoUdpClient> =
        lib::net::udp::udp_send::UDPSendStruct::new(sender);
    let dest = Address([0xfe, 0x80, 0, 0, 0, 0, 0, 0, 0, 0, 0, 0, 0, 0, 0, 1]);
    let payload = [1u8, 2, 3, 4, 5];
    assert_eq!(udp.send_to(dest, 7000, 6000, &payload), ReturnCode::SUCCESS);
    assert_eq!(udp.ip_send_struct.sent.len(), 1);
    let (d, th, p) = &udp.ip_send_struct.sent[0];
    assert_eq!(d.0, dest.0);
    assert_eq!(p, &payload.to_vec());
    match th {
        TransportHeader::UDP(h) => {
            assert_eq!(h.src_port, 6000);
            assert_eq!(h.dst_port, 7000);
            assert_eq!(h.len, 13);
            assert_eq!(h.cksum, 0);
        }
        TransportHeader::TCP(_) => panic!("expected a UDP header"),
    }
}

struct PageFlash {
    read: Option<usize>,
    written: Option<(usize, Vec<u8>)>,
}

impl lib::hil::flash::Flash for PageFlash {
    fn last_read(&self) -> Option<usize> {
        self.read
    }
    fn last_write(&self) -> Option<(usize, Vec<u8>)> {
        self.written.clone()
    }
    fn read_page(&mut self, page_number: usize) {
        self.read = Some(page_number);
    }
    fn write_page(&mut self, page_number: usize, data: &[u8]) {
        self.written = Some((page_number, data.to_vec()));
    }
}

#[derive(Default)]
struct FlashCompletions {
    reads: Vec<Vec<u8>>,
    writes: usize,
}

impl lib::net::deluge::flash_layer::DelugeFlashClient for FlashCompletions {
    fn read_complete(&mut self, buffer: &[u8]) {
        self.reads.push(buffer.to_vec());
    }
    fn write_complete(&mut self) {
        self.writes += 1;
    }
}

#[test]
fn flash_layer_offsets_pages_and_reports_completions() {
    let mut fs: FlashState<PageFlash, FlashCompletions> =
        FlashState::new(PageFlash { read: None, written: None }, 10);
    fs.set_client(FlashCompletions::default());
    assert_eq!(fs.get_page(3), ReturnCode::SUCCESS);
    assert_eq!(fs.flash_driver.read, Some(13));
    assert_eq!(fs.page_completed(4, &[1, 2, 3]), ReturnCode::EBUSY);
    fs.read_complete(&[9, 9]);
    assert!(fs.buffer_free);
    assert_eq!(fs.page_completed(4, &[1, 2, 3]), ReturnCode::SUCCESS);
    assert_eq!(fs.flash_driver.written, Some((14, vec![1, 2, 3])));
    fs.write_complete();
    let client = fs.client.as_ref().unwrap();
    assert_eq!(client.reads, vec![vec![9u8, 9]]);
    assert_eq!(client.writes, 1);
}
