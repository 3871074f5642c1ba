use lib::hil::radio::{Radio, MAX_BUF_SIZE, PSDU_OFFSET};
use lib::mac::{
    data_frame_info, encode_ccm_nonce, incoming_frame, lookup_addr_long, lookup_key, prepare_ccm_auth,
    prepare_ccm_encrypt, FrameInfo, IncomingFrame, Mac, MacDevice, RxClient, RxState, TxClient, TxState,
    CRYPT_BUF_SIZE,
};
use lib::net::ieee802154::{
    FrameType, FrameVersion, Header, HeaderCodec, KeyId, MacAddress, Security, SecurityLevel,
};
use lib::net::stream::SResult;
use lib::returncode::ReturnCode;

const KEY: [u8; 16] = [
    0xC0, 0xC1, 0xC2, 0xC3, 0xC4, 0xC5, 0xC6, 0xC7, 0xC8, 0xC9, 0xCA, 0xCB, 0xCC, 0xCD, 0xCE, 0xCF,
];

fn plain_info(data_offset: usize, data_len: usize) -> FrameInfo {
    FrameInfo {
        frame_type: FrameType::Data,
        mac_payload_offset: data_offset,
        data_offset,
        data_len,
        mic_len: 0,
        security_params: None,
    }
}

#[test]
fn frame_lengths_and_capacity() {
    let mut info = plain_info(9, 5);
    info.mic_len = 4;
    assert_eq!(info.unsecured_frame_length(), 14);
    assert_eq!(info.secured_frame_length(), 18);
    let buf = [0u8; 30];
    assert_eq!(info.remaining_data_capacity(&buf), 30 - 2 - 2 - 18);
}

#[test]
fn append_payload_places_data_after_the_header() {
    let mut info = plain_info(3, 0);
    let mut buf = [0u8; 12];
    assert_eq!(info.append_payload(&mut buf, &[1, 2, 3]), ReturnCode::SUCCESS);
    assert_eq!(info.data_len, 3);
    assert_eq!(&buf[5..8], &[1, 2, 3]);
    assert_eq!(info.append_payload(&mut buf, &[4]), ReturnCode::SUCCESS);
    assert_eq!(buf[8], 4);
    assert_eq!(info.remaining_data_capacity(&buf), 1);
    assert_eq!(info.append_payload(&mut buf, &[5, 6]), ReturnCode::ENOMEM);
    assert_eq!(info.data_len, 4);
    assert_eq!(buf, [0, 0, 0, 0, 0, 1, 2, 3, 4, 0, 0, 0]);
}

#[test]
fn ccm_ranges_depend_on_encryption() {
    let info = FrameInfo {
        frame_type: FrameType::Data,
        mac_payload_offset: 11,
        data_offset: 11,
        data_len: 20,
        mic_len: 8,
        security_params: None,
    };
    assert_eq!(info.get_ccm_encrypt_ranges(&SecurityLevel::Mic64), (PSDU_OFFSET + 31, 0));
    assert_eq!(info.get_ccm_encrypt_ranges(&SecurityLevel::EncMic64), (PSDU_OFFSET + 11, 20));
}

#[test]
fn security_levels() {
    assert_eq!(SecurityLevel::NoSecurity.mic_len(), 0);
    assert_eq!(SecurityLevel::EncMic32.mic_len(), 4);
    assert_eq!(SecurityLevel::Mic128.mic_len(), 16);
    assert!(SecurityLevel::EncMic64.encryption_needed());
    assert!(!SecurityLevel::Mic64.encryption_needed());
    assert_eq!(SecurityLevel::EncMic128.to_u8(), 7);
    assert_eq!(SecurityLevel::Mic32.to_u8(), 1);
}

#[test]
fn ccm_nonce_layout() {
    let mut nonce = [0u8; 13];
    let addr = [1, 2, 3, 4, 5, 6, 7, 8];
    assert!(matches!(
        encode_ccm_nonce(&mut nonce, &addr, 0x0a0b0c0d, SecurityLevel::EncMic32),
        SResult::Done(13, ())
    ));
    assert_eq!(nonce, [1, 2, 3, 4, 5, 6, 7, 8, 0x0a, 0x0b, 0x0c, 0x0d, 5]);
    let mut short = [0u8; 12];
    assert!(matches!(
        encode_ccm_nonce(&mut short, &addr, 1, SecurityLevel::Mic32),
        SResult::Needed(_)
    ));
}

#[test]
fn ccm_auth_input_layout() {
    let nonce = [0x11u8; 13];
    let a = [0xaau8; 3];
    let m = [0xbbu8; 17];
    let mut cbuf = [0x77u8; 80];
    let mut iv = [0x55u8; 16];
    let len = prepare_ccm_auth(&mut cbuf, &mut iv, &nonce, 8, &a, &m);
    // First block, then L(a) | a padded, then m padded to whole blocks.
    assert_eq!(len, 16 + 16 + 32);
    assert_eq!(iv, [0u8; 16]);
    assert_eq!(cbuf[0], 0x40 | (3 << 3) | 1);
    assert_eq!(&cbuf[1..14], &nonce);
    assert_eq!(&cbuf[14..16], &[0, 17]);
    assert_eq!(&cbuf[16..18], &[0, 3]);
    assert_eq!(&cbuf[18..21], &a);
    assert_eq!(&cbuf[21..32], &[0u8; 11]);
    assert_eq!(&cbuf[32..49], &m);
    assert_eq!(&cbuf[49..64], &[0u8; 15]);
    assert_eq!(&cbuf[64..80], &[0x77u8; 16]);
}

#[test]
fn ccm_auth_input_without_a_data() {
    let nonce = [0x22u8; 13];
    let mut cbuf = [0x77u8; 48];
    let mut iv = [0x55u8; 20];
    let len = prepare_ccm_auth(&mut cbuf, &mut iv, &nonce, 0, &[], &[1, 2]);
    assert_eq!(len, 32);
    assert_eq!(cbuf[0], 1);
    assert_eq!(&cbuf[14..18], &[0, 2, 1, 2]);
    assert_eq!(&cbuf[18..32], &[0u8; 14]);
    assert_eq!(iv, [0u8; 20]);
}

#[test]
fn ccm_encrypt_input_layout() {
    let nonce = [0x33u8; 13];
    let m = [9u8; 20];
    let mut cbuf = [0x77u8; 64];
    let mut iv = [0x55u8; 16];
    let len = prepare_ccm_encrypt(&mut cbuf, &mut iv, &nonce, &m);
    assert_eq!(len, 48);
    assert_eq!(&cbuf[0..16], &[0u8; 16]);
    assert_eq!(&cbuf[16..36], &m);
    assert_eq!(&cbuf[36..48], &[0u8; 12]);
    assert_eq!(&cbuf[48..64], &[0x77u8; 16]);
    assert_eq!(iv[0], 1);
    assert_eq!(&iv[1..14], &nonce);
    assert_eq!(&iv[14..16], &[0, 0]);
}

#[test]
fn keys_and_addresses() {
    assert_eq!(lookup_key(SecurityLevel::NoSecurity, KeyId::Implicit), None);
    assert_eq!(lookup_key(SecurityLevel::EncMic32, KeyId::Index(1)), Some(KEY));
    assert_eq!(lookup_addr_long(None), Some([0xac, 0xde, 0x48, 0, 0, 0, 0, 1]));
}

fn header(security: Option<Security>) -> Header {
    Header {
        frame_type: FrameType::Data,
        frame_pending: false,
        ack_requested: true,
        version: FrameVersion::V2015,
        seq: Some(1),
        dst_pan: Some(0xabcd),
        dst_addr: Some(MacAddress::Short(0x1234)),
        src_pan: Some(0xabcd),
        src_addr: Some(MacAddress::Short(0x5678)),
        security,
    }
}

fn security(level: SecurityLevel, frame_counter: Option<u32>) -> Security {
    Security { level, asn_in_nonce: false, frame_counter, key_id: KeyId::Implicit }
}

#[test]
fn incoming_plain_frame_goes_to_client() {
    match incoming_frame(Some((9, header(None), 9)), 30) {
        IncomingFrame::Plain { data_offset, data_len, .. } => {
            assert_eq!(data_offset, 9);
            assert_eq!(data_len, 21);
        }
        _ => panic!("expected a plain frame"),
    }
}

#[test]
fn incoming_secured_frame_is_unsecured() {
    let h = header(Some(security(SecurityLevel::EncMic32, Some(0x01020304))));
    match incoming_frame(Some((14, h, 14)), 40) {
        IncomingFrame::Secured(info) => {
            assert_eq!(info.data_offset, 14);
            assert_eq!(info.data_len, 22);
            assert_eq!(info.mic_len, 4);
            let (level, key, nonce) = info.security_params.unwrap();
            assert_eq!(level, SecurityLevel::EncMic32);
            assert_eq!(key, KEY);
            assert_eq!(nonce, [0xac, 0xde, 0x48, 0, 0, 0, 0, 1, 1, 2, 3, 4, 5]);
        }
        _ => panic!("expected a secured frame"),
    }
}

#[test]
fn incoming_frames_that_are_dropped() {
    assert!(matches!(incoming_frame(None, 30), IncomingFrame::Drop));
    let exhausted = header(Some(security(SecurityLevel::Mic32, Some(0xffff_ffff))));
    assert!(matches!(incoming_frame(Some((14, exhausted, 14)), 40), IncomingFrame::Drop));
    let no_counter = header(Some(security(SecurityLevel::Mic32, None)));
    assert!(matches!(incoming_frame(Some((14, no_counter, 14)), 40), IncomingFrame::Drop));
    let mut legacy = header(Some(security(SecurityLevel::Mic32, Some(1))));
    legacy.version = FrameVersion::V2003;
    assert!(matches!(incoming_frame(Some((14, legacy, 14)), 40), IncomingFrame::Drop));
    let keyless = header(Some(security(SecurityLevel::NoSecurity, Some(1))));
    assert!(matches!(incoming_frame(Some((14, keyless, 14)), 40), IncomingFrame::Drop));
    let too_short = header(Some(security(SecurityLevel::Mic128, Some(1))));
    assert!(matches!(incoming_frame(Some((14, too_short, 14)), 20), IncomingFrame::Drop));
}

#[test]
fn data_frame_info_from_encoding() {
    assert!(data_frame_info(None, 0, None).is_err());
    let info = data_frame_info(Some((11, 9)), 0, None).unwrap();
    assert_eq!(info.data_offset, 11);
    assert_eq!(info.mac_payload_offset, 9);
    assert_eq!(info.data_len, 0);
    assert!(info.security_params.is_none());
}

struct FakeRadio {
    transmitted: Vec<(Vec<u8>, usize)>,
    receive_buffers: Vec<Vec<u8>>,
    commit_result: ReturnCode,
}

impl Radio for FakeRadio {
    fn address_long(&self) -> [u8; 8] {
        [1, 2, 3, 4, 5, 6, 7, 8]
    }
    fn address(&self) -> u16 {
        0x5678
    }
    fn pan(&self) -> u16 {
        0xabcd
    }
    fn channel(&self) -> u8 {
        26
    }
    fn tx_power(&self) -> i8 {
        0
    }
    fn powered(&self) -> bool {
        true
    }
    fn valid_channel(&self, _chan: u8) -> bool {
        true
    }
    fn valid_tx_power(&self, _power: i8) -> bool {
        true
    }
    fn commit_result(&self) -> ReturnCode {
        self.commit_result
    }
    fn last_transmit(&self) -> Option<(Vec<u8>, usize)> {
        self.transmitted.last().cloned()
    }
    fn transmit_answer(&self, _buf: Vec<u8>, _frame_len: usize) -> (ReturnCode, Option<Vec<u8>>) {
        (ReturnCode::SUCCESS, None)
    }
    fn receive_buffer(&self) -> Option<Vec<u8>> {
        self.receive_buffers.last().cloned()
    }
    fn get_address(&self) -> u16 {
        0x5678
    }
    fn get_address_long(&self) -> [u8; 8] {
        [1, 2, 3, 4, 5, 6, 7, 8]
    }
    fn get_pan(&self) -> u16 {
        0xabcd
    }
    fn get_channel(&self) -> u8 {
        26
    }
    fn get_tx_power(&self) -> i8 {
        0
    }
    fn set_address(&mut self, _addr: u16) {}
    fn set_address_long(&mut self, _addr: [u8; 8]) {}
    fn set_pan(&mut self, _id: u16) {}
    fn set_channel(&mut self, _chan: u8) -> ReturnCode {
        ReturnCode::SUCCESS
    }
    fn set_tx_power(&mut self, _power: i8) -> ReturnCode {
        ReturnCode::SUCCESS
    }
    fn config_commit(&mut self) -> ReturnCode {
        self.commit_result
    }
    fn is_on(&self) -> bool {
        true
    }
    fn transmit(&mut self, buf: Vec<u8>, frame_len: usize) -> (ReturnCode, Option<Vec<u8>>) {
        self.transmitted.push((buf, frame_len));
        (ReturnCode::SUCCESS, None)
    }
    fn set_receive_buffer(&mut self, buf: Vec<u8>) {
        self.receive_buffers.push(buf);
    }
}

/// A header codec that writes a fixed nine-byte header and decodes every
/// frame as the header it is given.
struct FakeCodec {
    decoded: Option<(usize, Header, usize)>,
}

impl HeaderCodec for FakeCodec {
    fn encoded(&self, header: Header, buf_len: usize, offset: usize, _has_payload: bool) -> Option<(usize, usize)> {
        let len = if header.security.is_some() { 14 } else { 9 };
        if buf_len < offset + len { None } else { Some((len, len)) }
    }
    fn wrote(&self, header: Header, offset: usize, _has_payload: bool, before: &[u8], after: &[u8]) -> bool {
        let len = if header.security.is_some() { 14 } else { 9 };
        before.len() == after.len()
            && (0..before.len()).all(|i| {
                if before.len() >= offset + len && offset <= i && i < offset + len {
                    after[i] == 0xa0 + (i - offset) as u8
                } else {
                    after[i] == before[i]
                }
            })
    }
    fn decoded(&self, _buf: &[u8]) -> Option<(usize, Header, usize)> {
        self.decoded
    }
    fn decode(&self, _buf: &[u8]) -> Option<(usize, Header, usize)> {
        self.decoded
    }
    fn encode(&self, header: &Header, buf: &mut [u8], offset: usize, _has_payload: bool) -> Option<(usize, usize)> {
        let len = if header.security.is_some() { 14 } else { 9 };
        if buf.len() < offset + len {
            return None;
        }
        for i in 0..len {
            buf[offset + i] = 0xa0 + i as u8;
        }
        Some((len, len))
    }
}

struct NoTx;

impl TxClient for NoTx {
    fn send_done(&mut self, _spi_buf: Vec<u8>, _acked: bool, _result: ReturnCode) {}
}

struct RecordingRx {
    frames: Vec<(Vec<u8>, usize, usize)>,
}

impl RxClient for RecordingRx {
    fn received(
        &self,
        after: &Self,
        buf: &[u8],
        _header: Header,
        data_offset: usize,
        data_len: usize,
        _result: ReturnCode,
    ) -> bool {
        after.frames.len() == self.frames.len() + 1
            && after.frames.last() == Some(&(buf.to_vec(), data_offset, data_len))
    }
    fn receive(&mut self, buf: &[u8], _header: Header, data_offset: usize, data_len: usize, _result: ReturnCode) {
        self.frames.push((buf.to_vec(), data_offset, data_len));
    }
}

fn device(decoded: Option<(usize, Header, usize)>) -> MacDevice<FakeRadio, FakeCodec, NoTx, RecordingRx> {
    let radio = FakeRadio { transmitted: Vec::new(), receive_buffers: Vec::new(), commit_result: ReturnCode::SUCCESS };
    let mut dev = MacDevice::new(radio, FakeCodec { decoded }, vec![0u8; CRYPT_BUF_SIZE], vec![0u8; 16]);
    dev.set_receive_client(RecordingRx { frames: Vec::new() });
    dev
}

#[test]
fn unsecured_frame_goes_straight_to_the_radio() {
    let mut dev = device(None);
    let mut buf = vec![0u8; MAX_BUF_SIZE];
    let mut info = dev
        .prepare_data_frame(&mut buf, 0xabcd, MacAddress::Short(0x1234), 0xabcd, MacAddress::Short(0x5678), None)
        .unwrap();
    assert_eq!(info.data_offset, 9);
    assert_eq!(info.mic_len, 0);
    assert_eq!(info.append_payload(&mut buf, &[1, 2, 3, 4]), ReturnCode::SUCCESS);
    let (rc, back) = dev.transmit(buf, info);
    assert_eq!(rc, ReturnCode::SUCCESS);
    assert!(back.is_none());
    assert_eq!(dev.tx_state, TxState::Idle);
    assert!(dev.tx_info.is_none());
    let (sent, len) = &dev.radio.transmitted[0];
    assert_eq!(*len, 13);
    assert_eq!(&sent[PSDU_OFFSET..PSDU_OFFSET + 9], &[0xa0, 0xa1, 0xa2, 0xa3, 0xa4, 0xa5, 0xa6, 0xa7, 0xa8]);
    assert_eq!(&sent[PSDU_OFFSET + 9..PSDU_OFFSET + 13], &[1, 2, 3, 4]);
}

#[test]
fn keyless_security_level_cannot_frame() {
    let dev = device(None);
    let mut buf = vec![0u8; MAX_BUF_SIZE];
    let r = dev.prepare_data_frame(
        &mut buf,
        1,
        MacAddress::Short(1),
        1,
        MacAddress::Short(2),
        Some((SecurityLevel::NoSecurity, KeyId::Implicit)),
    );
    assert!(r.is_err());
}

#[test]
fn busy_device_returns_the_buffer() {
    let mut dev = device(None);
    dev.config_in_progress = true;
    let mut buf = vec![0u8; MAX_BUF_SIZE];
    let info = dev
        .prepare_data_frame(&mut buf, 1, MacAddress::Short(1), 1, MacAddress::Short(2), None)
        .unwrap();
    // The configuration in progress holds the frame back.
    let (rc, back) = dev.transmit(buf, info);
    assert_eq!(rc, ReturnCode::SUCCESS);
    assert!(back.is_none());
    assert_eq!(dev.tx_state, TxState::ReadyToTransmit);
    let (rc2, back2) = dev.transmit(vec![7u8; 5], info);
    assert_eq!(rc2, ReturnCode::EBUSY);
    assert_eq!(back2, Some(vec![7u8; 5]));
    // The end of the configuration lets it go.
    dev.config_done(ReturnCode::SUCCESS);
    assert_eq!(dev.tx_state, TxState::Idle);
    assert_eq!(dev.radio.transmitted.len(), 1);
}

#[test]
fn secured_frame_gets_its_mic_through_the_procedure() {
    let mut dev = device(None);
    let mut buf = vec![0u8; MAX_BUF_SIZE];
    let mut info = dev
        .prepare_data_frame(
            &mut buf,
            0xabcd,
            MacAddress::Short(0x1234),
            0xabcd,
            MacAddress::Short(0x5678),
            Some((SecurityLevel::Mic32, KeyId::Implicit)),
        )
        .unwrap();
    assert_eq!(info.mic_len, 4);
    let (_, key, nonce) = info.security_params.unwrap();
    assert_eq!(key, KEY);
    assert_eq!(nonce, [1, 2, 3, 4, 5, 6, 7, 8, 0, 0, 0, 0, 1]);
    assert_eq!(info.append_payload(&mut buf, &[9, 9, 9]), ReturnCode::SUCCESS);
    let frame_before = buf.clone();

    let (rc, _) = dev.transmit(buf, info);
    assert_eq!(rc, ReturnCode::SUCCESS);
    assert_eq!(dev.tx_state, TxState::AuthDone);
    assert!(dev.crypt_busy);

    // The authentication input: the whole frame is a data.
    let mut expected = vec![0u8; CRYPT_BUF_SIZE];
    let mut iv = vec![0u8; 16];
    let len = prepare_ccm_auth(&mut expected, &mut iv, &nonce, 4, &frame_before[PSDU_OFFSET..PSDU_OFFSET + 17], &[]);
    assert_eq!(dev.crypt_buf_len, len);
    assert_eq!(&dev.crypt_buf[..len], &expected[..len]);
    let tag = expected[len - 16..len - 12].to_vec();

    // Two configuration rounds drive the procedure to the radio.
    assert_eq!(dev.config_commit(), ReturnCode::SUCCESS);
    dev.config_done(ReturnCode::SUCCESS);
    assert_eq!(dev.tx_state, TxState::EncDone);
    assert_eq!(dev.config_commit(), ReturnCode::SUCCESS);
    dev.config_done(ReturnCode::SUCCESS);
    assert_eq!(dev.tx_state, TxState::Idle);
    assert!(!dev.crypt_busy);

    let (sent, frame_len) = &dev.radio.transmitted[0];
    assert_eq!(*frame_len, 14 + 3 + 4);
    assert_eq!(&sent[..PSDU_OFFSET + 17], &frame_before[..PSDU_OFFSET + 17]);
    assert_eq!(&sent[PSDU_OFFSET + 17..PSDU_OFFSET + 21], &tag[..]);
}

#[test]
fn config_commit_is_exclusive() {
    let mut dev = device(None);
    assert_eq!(dev.config_commit(), ReturnCode::SUCCESS);
    assert!(dev.config_in_progress);
    assert_eq!(dev.config_commit(), ReturnCode::EBUSY);
    dev.config_done(ReturnCode::SUCCESS);
    assert!(!dev.config_in_progress);
    dev.radio.commit_result = ReturnCode::FAIL;
    assert_eq!(dev.config_commit(), ReturnCode::FAIL);
    assert!(!dev.config_in_progress);
}

#[test]
fn send_done_advances_the_sequence_number() {
    let mut dev = device(None);
    dev.send_done(vec![0u8; 4], true, ReturnCode::SUCCESS);
    dev.send_done(vec![0u8; 4], true, ReturnCode::SUCCESS);
    assert_eq!(dev.data_sequence, 2);
    assert!(dev.tx_info.is_none());
}

#[test]
fn received_plain_frame_reaches_the_client() {
    let mut dev = device(Some((9, header(None), 9)));
    let mut buf = vec![0u8; MAX_BUF_SIZE];
    buf[PSDU_OFFSET + 9] = 0x42;
    dev.receive(buf, 20, true, ReturnCode::SUCCESS);
    assert_eq!(dev.rx_state, RxState::Idle);
    assert!(dev.rx_buf.is_none());
    assert_eq!(dev.radio.receive_buffers.len(), 1);
    let client = dev.rx_client.as_ref().unwrap();
    assert_eq!(client.frames.len(), 1);
    assert_eq!(client.frames[0].1, 9);
    assert_eq!(client.frames[0].2, 11);
    assert_eq!(client.frames[0].0[PSDU_OFFSET + 9], 0x42);
}

#[test]
fn frames_with_bad_crc_are_dropped() {
    let mut dev = device(Some((9, header(None), 9)));
    dev.receive(vec![0u8; MAX_BUF_SIZE], 20, false, ReturnCode::SUCCESS);
    assert_eq!(dev.radio.receive_buffers.len(), 1);
    assert!(dev.rx_client.as_ref().unwrap().frames.is_empty());
}

#[test]
fn received_secured_frame_waits_for_decryption() {
    let h = header(Some(security(SecurityLevel::EncMic32, Some(5))));
    let mut dev = device(Some((14, h, 14)));
    dev.receive(vec![0u8; MAX_BUF_SIZE], 30, true, ReturnCode::SUCCESS);
    assert_eq!(dev.rx_state, RxState::DecDone);
    assert!(dev.crypt_busy);
    assert_eq!(dev.rx_c_off, PSDU_OFFSET + 14);
    assert_eq!(dev.rx_c_len, 12);
    assert!(dev.rx_client.as_ref().unwrap().frames.is_empty());
}

/// A secured frame brought to the MIC check, whose received tag is set to
/// the recomputed one, or to its complement when `tamper` is set.
fn frame_at_mic_check(tamper: bool) -> MacDevice<FakeRadio, FakeCodec, NoTx, RecordingRx> {
    let h = header(Some(security(SecurityLevel::EncMic32, Some(5))));
    let mut dev = device(Some((14, h, 14)));
    dev.receive(vec![0u8; MAX_BUF_SIZE], 30, true, ReturnCode::SUCCESS);
    assert_eq!(dev.rx_state, RxState::DecDone);
    dev.config_in_progress = true;
    dev.config_done(ReturnCode::SUCCESS);
    assert_eq!(dev.rx_state, RxState::AuthDone);
    let t_off = dev.rx_c_off + dev.rx_c_len;
    let ct = dev.crypt_buf_len - 16;
    let tag: Vec<u8> = dev.crypt_buf[ct..ct + 4].to_vec();
    let buf = dev.rx_buf.as_mut().unwrap();
    for i in 0..4 {
        buf[t_off + i] = if tamper { tag[i] ^ 0xff } else { tag[i] };
    }
    dev.config_in_progress = true;
    dev
}

#[test]
fn secured_frame_with_a_bad_mic_is_dropped() {
    let mut dev = frame_at_mic_check(true);
    dev.config_done(ReturnCode::SUCCESS);
    assert_eq!(dev.rx_state, RxState::Idle);
    assert!(dev.rx_buf.is_none());
    assert!(!dev.crypt_busy);
    assert!(dev.rx_client.as_ref().unwrap().frames.is_empty());
    assert_eq!(dev.radio.receive_buffers.len(), 1);
    assert_eq!(dev.radio.receive_buffer().map(|b| b.len()), Some(MAX_BUF_SIZE));
}

#[test]
fn secured_frame_with_a_good_mic_reaches_the_client() {
    let mut dev = frame_at_mic_check(false);
    dev.config_done(ReturnCode::SUCCESS);
    assert_eq!(dev.rx_state, RxState::Idle);
    assert!(dev.rx_buf.is_none());
    let client = dev.rx_client.as_ref().unwrap();
    assert_eq!(client.frames.len(), 1);
    assert_eq!(client.frames[0].1, 14);
    assert_eq!(client.frames[0].2, 12);
    assert_eq!(dev.radio.receive_buffers.len(), 1);
}

#[test]
fn transmitted_frame_is_recorded_with_its_secured_length() {
    let mut dev = device(None);
    let mut buf = vec![0u8; MAX_BUF_SIZE];
    let mut info = dev
        .prepare_data_frame(&mut buf, 1, MacAddress::Short(1), 1, MacAddress::Short(2), None)
        .unwrap();
    assert_eq!(info.append_payload(&mut buf, &[7, 8]), ReturnCode::SUCCESS);
    let (rc, _) = dev.transmit(buf, info);
    assert_eq!(rc, ReturnCode::SUCCESS);
    let (_, len) = dev.radio.last_transmit().unwrap();
    assert_eq!(len, info.secured_frame_length());
    assert_eq!(len, 11);
}
