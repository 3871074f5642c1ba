use lib::net::deluge::deluge::{DelugePacket, DelugePacketType};
use lib::net::icmp::{ICMPHeader, ICMPHeaderOptions, ICMPType};
use lib::net::ip6::{Address, Header, NextHeaderType};
use lib::net::sixlowpan::{get_frag_hdr, is_fragment, set_frag_hdr};
use lib::net::stream::SResult;
use lib::net::udp::udp::UDPHeader;
use lib::net::util::{is_zero, matches_prefix, slice_to_u16, u16_to_slice, verify_prefix_len};

#[test]
fn ip6_header_encodes_in_wire_format() {
    let mut h = Header::default();
    h.traffic_class = 0xab;
    h.flow_label = 0x12345;
    h.payload_len = 0x0102;
    h.next_header = NextHeaderType::UDP;
    h.hop_limit = 64;
    h.src_addr = Address([1; 16]);
    h.dst_addr = Address([2; 16]);
    let mut buf = [0u8; 40];
    assert!(matches!(h.encode(&mut buf), SResult::Done(40, ())));
    assert_eq!(&buf[0..8], &[0x6a, 0xb1, 0x23, 0x45, 0x01, 0x02, 17, 64]);
    assert_eq!(&buf[8..24], &[1u8; 16]);
    assert_eq!(&buf[24..40], &[2u8; 16]);
}

#[test]
fn ip6_header_decode_inverts_encode() {
    let mut h = Header::default();
    h.traffic_class = 0x5c;
    h.flow_label = 0xfedcb;
    h.payload_len = 1000;
    h.next_header = NextHeaderType::ICMPv6;
    h.hop_limit = 3;
    h.src_addr = Address([0x20; 16]);
    h.dst_addr = Address([0xfe; 16]);
    let mut buf = [0u8; 40];
    h.encode(&mut buf);
    match Header::decode(&buf) {
        SResult::Done(40, d) => {
            assert_eq!(d.traffic_class, 0x5c);
            assert_eq!(d.flow_label, 0xfedcb);
            assert_eq!(d.payload_len, 1000);
            assert_eq!(d.next_header, NextHeaderType::ICMPv6);
            assert_eq!(d.hop_limit, 3);
            assert_eq!(d.src_addr.0, [0x20; 16]);
            assert_eq!(d.dst_addr.0, [0xfe; 16]);
        }
        _ => panic!("decoding failed"),
    }
}

#[test]
fn ip6_header_encode_reports_shortage() {
    let h = Header::default();
    let mut buf = [0u8; 10];
    assert!(matches!(h.encode(&mut buf), SResult::Needed(24)));
}

#[test]
fn ip6_header_decode_rejects_wrong_version() {
    let mut buf = [0u8; 40];
    buf[0] = 0x40;
    assert!(matches!(Header::decode(&buf), SResult::Error));
}

#[test]
fn ip6_header_default_fields() {
    let h = Header::default();
    assert_eq!(h.hop_limit, 255);
    assert_eq!(h.next_header, NextHeaderType::NoNext);
    assert_eq!(h.payload_len, 0);
    assert!(h.src_addr.is_unspecified());
}

#[test]
fn dscp_and_ecn_share_the_traffic_class() {
    let mut h = Header::default();
    h.set_dscp(0b101010);
    h.set_ecn(0b01);
    assert_eq!(h.traffic_class, 0b1010_1001);
    assert_eq!(h.get_dscp(), 0b101010);
    assert_eq!(h.get_ecn(), 0b01);
}

#[test]
fn next_header_numbers() {
    assert_eq!(NextHeaderType::from_nh(17), Some(NextHeaderType::UDP));
    assert_eq!(NextHeaderType::from_nh(58), Some(NextHeaderType::ICMPv6));
    assert_eq!(NextHeaderType::from_nh(99), None);
    assert_eq!(NextHeaderType::Mobility.to_u8(), 135);
}

#[test]
fn address_prefix_and_link_local() {
    let mut a = Address([0xaa; 16]);
    a.set_unicast_link_local();
    assert!(a.is_unicast_link_local());
    assert_eq!(&a.0[0..8], &[0xfe, 0x80, 0, 0, 0, 0, 0, 0]);
    assert_eq!(&a.0[8..16], &[0xaa; 8]);
    let mut b = Address([0; 16]);
    assert!(b.set_prefix(&[0xc0, 0xc1, 0xc2], 20));
    assert_eq!(&b.0[0..3], &[0xc0, 0xc1, 0xc0]);
    assert!(!b.set_prefix(&[0xc0], 9));
    assert!(Address([0xff; 16]).is_multicast());
    assert!(!Address([0xfe; 16]).is_multicast());
}

#[test]
fn udp_header_roundtrip() {
    let mut h = UDPHeader::new();
    h.set_src_port(0x1234);
    h.set_dst_port(0x5678);
    h.set_len(20);
    h.set_cksum(0xbeef);
    let mut buf = [0u8; 10];
    assert!(matches!(h.encode(&mut buf, 2), SResult::Done(10, 10)));
    assert_eq!(&buf[2..10], &[0x12, 0x34, 0x56, 0x78, 0x00, 0x14, 0xbe, 0xef]);
    match UDPHeader::decode(&buf[2..]) {
        SResult::Done(8, d) => {
            assert_eq!(d.get_src_port(), 0x1234);
            assert_eq!(d.get_dst_port(), 0x5678);
            assert_eq!(d.get_len(), 20);
            assert_eq!(d.get_cksum(), 0xbeef);
        }
        _ => panic!("decoding failed"),
    }
    assert!(matches!(UDPHeader::decode(&buf[..7]), SResult::Needed(8)));
}

#[test]
fn udp_header_defaults() {
    let h = UDPHeader::new();
    assert_eq!(h.get_len(), 8);
    assert_eq!(h.get_hdr_size(), 8);
    assert_eq!(h.get_offset(), 8);
}

#[test]
fn icmp_echo_reply_roundtrip() {
    let mut h = ICMPHeader::new(ICMPType::Type0);
    h.set_code(0);
    h.set_cksum(0x1111);
    h.set_options(ICMPHeaderOptions::Type0 { id: 7, seqno: 9 });
    assert_eq!(h.get_type_as_int(), 0);
    let mut buf = [0u8; 8];
    assert!(matches!(h.encode(&mut buf, 0), SResult::Done(8, 8)));
    assert_eq!(buf, [0, 0, 0x11, 0x11, 0, 7, 0, 9]);
    match ICMPHeader::decode(&buf) {
        SResult::Done(8, d) => {
            assert!(matches!(d.get_type(), ICMPType::Type0));
            assert_eq!(d.get_cksum(), 0x1111);
            assert!(matches!(d.get_options(), ICMPHeaderOptions::Type0 { id: 7, seqno: 9 }));
        }
        _ => panic!("decoding failed"),
    }
}

#[test]
fn icmp_destination_unreachable_type() {
    let mut h = ICMPHeader::new(ICMPType::Type0);
    h.set_type(ICMPType::Type3);
    assert_eq!(h.get_type_as_int(), 3);
    assert!(matches!(h.get_options(), ICMPHeaderOptions::Type3 { unused: 0, next_mtu: 0 }));
}

#[test]
fn icmp_decode_rejects_unknown_type() {
    let buf = [128u8, 0, 0, 0, 0, 0, 0, 0];
    assert!(matches!(ICMPHeader::decode(&buf), SResult::Error));
    assert!(matches!(ICMPHeader::decode(&buf[..0]), SResult::Needed(1)));
}

#[test]
fn deluge_packet_roundtrip() {
    let payload = [9u8, 8, 7];
    let mut p = DelugePacket::new(&payload);
    p.object_id = 0x0102;
    p.payload_type = DelugePacketType::DataPacket { version: 3, page_num: 4, packet_num: 5 };
    let mut buf = [0u8; 24];
    let len = match p.encode(&mut buf) {
        SResult::Done(n, _) => n,
        _ => panic!("encoding failed"),
    };
    assert_eq!(len, 13);
    assert_eq!(&buf[..13], &[0xd0, 0x01, 0x02, 0x04, 0, 3, 0, 4, 0, 5, 9, 8, 7]);
    match DelugePacket::decode(&buf) {
        SResult::Done(10, d) => {
            assert_eq!(d.object_id, 0x0102);
            assert!(matches!(
                d.payload_type,
                DelugePacketType::DataPacket { version: 3, page_num: 4, packet_num: 5 }
            ));
            assert_eq!(&d.buffer[..3], &[9, 8, 7]);
        }
        _ => panic!("decoding failed"),
    }
}

#[test]
fn deluge_decode_errors() {
    let short = [0xd0u8; 5];
    assert!(matches!(DelugePacket::decode(&short), SResult::Needed(21)));
    let wrong = [0xaau8; 24];
    assert!(matches!(DelugePacket::decode(&wrong), SResult::Error));
}

#[test]
fn deluge_payload_types() {
    let buf = [0u8, 0x02, 0x00, 0x07, 0x00, 0x20];
    assert!(matches!(
        DelugePacket::decode_payload_type(1, &buf),
        SResult::Done(6, DelugePacketType::MaintainObjectProfile { version: 7, age_vector_size: 0x20 })
    ));
    let bad = [0u8, 0x09, 0, 0, 0, 0, 0, 0];
    assert!(matches!(DelugePacket::decode_payload_type(1, &bad), SResult::Error));
}

#[test]
fn fragment_headers_roundtrip() {
    let mut first = [0u8; 4];
    set_frag_hdr(1280, 0x0abc, 0, &mut first, true);
    assert_eq!(first, [0xc5, 0x00, 0x0a, 0xbc]);
    assert_eq!(get_frag_hdr(&[first[0], first[1], first[2], first[3], 0]), (true, 1280, 0x0abc, 0));
    assert!(is_fragment(&first));

    let mut next = [0u8; 5];
    set_frag_hdr(1280, 0x0abc, 96, &mut next, false);
    assert_eq!(next, [0xe5, 0x00, 0x0a, 0xbc, 12]);
    assert_eq!(get_frag_hdr(&next), (false, 1280, 0x0abc, 96));
    assert!(is_fragment(&next));
    assert!(!is_fragment(&[0x60]));
}

#[test]
fn util_byte_helpers() {
    let mut buf = [0u8; 4];
    u16_to_slice(0xa1b2, &mut buf, 1);
    assert_eq!(buf, [0, 0xa1, 0xb2, 0]);
    assert_eq!(slice_to_u16(&buf, 1), 0xa1b2);
    assert!(is_zero(&[0, 0, 1, 0], 0, 2));
    assert!(!is_zero(&[0, 0, 1, 0], 0, 3));
}

#[test]
fn util_prefixes() {
    let a = [0xfe, 0x80, 0xff];
    let b = [0xfe, 0x80, 0xf0];
    assert!(matches_prefix(&a, &b, 16));
    assert!(matches_prefix(&a, &b, 20));
    assert!(!matches_prefix(&a, &b, 21));
    assert!(!matches_prefix(&a, &b, 40));
    assert!(verify_prefix_len(&[0xff, 0x80], 9));
    assert!(!verify_prefix_len(&[0xff, 0x80], 8));
}
