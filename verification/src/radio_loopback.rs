//! A radio that logs every frame it transmits and passes everything on to
//! the radio it wraps.

use vstd::prelude::*;
use vstd::slice::{slice_subrange, slice_to_vec};
use crate::returncode::ReturnCode;
use crate::hil::radio::AddressedRadio;

verus! {

/// A logging wrapper around a radio.
pub struct RadioLoopback<R: AddressedRadio> {
    pub radio: R,
}

/// The payload bytes in rows of eight, the last row holding the rest.
pub open spec fn hex_rows(payload: Seq<u8>) -> Seq<Seq<u8>> {
    Seq::new(
        ((payload.len() + 7) / 8) as nat,
        |i: int|
            payload.subrange(8 * i, if 8 * i + 8 <= payload.len() { 8 * i + 8 } else { payload.len() as int }),
    )
}

/// Splits the first `payload_len` bytes of `payload` into the rows in which
/// a transmitted frame is logged.
pub fn payload_rows(payload: &[u8], payload_len: usize) -> (rows: Vec<Vec<u8>>)
    requires
        payload_len <= payload@.len(),
    ensures
        rows@.len() == hex_rows(payload@.subrange(0, payload_len as int)).len(),
        forall|i: int|
            0 <= i < rows@.len() ==> #[trigger] rows@[i]@ == hex_rows(payload@.subrange(0, payload_len as int))[i],
{
    let ghost p = payload@.subrange(0, payload_len as int);
    let payload_full: usize = payload_len / 8;
    let payload_rem: usize = payload_len % 8;
    let mut rows: Vec<Vec<u8>> = Vec::new();
    let mut i: usize = 0;
    while i < payload_full
        invariant
            i <= payload_full,
            payload_full == payload_len / 8,
            payload_len <= payload@.len(),
            p == payload@.subrange(0, payload_len as int),
            rows@.len() == i,
            forall|k: int| 0 <= k < i ==> #[trigger] rows@[k]@ == p.subrange(8 * k, 8 * k + 8),
        decreases payload_full - i,
    {
        let chunk_offset = i * 8;
        let row = slice_to_vec(slice_subrange(payload, chunk_offset, chunk_offset + 8));
        proof {
            assert(row@ =~= p.subrange(8 * i, 8 * i + 8));
        }
        rows.push(row);
        i = i + 1;
    }
    if payload_rem != 0 {
        let chunk_offset = payload_full * 8;
        let row = slice_to_vec(slice_subrange(payload, chunk_offset, payload_len));
        proof {
            assert(row@ =~= p.subrange(8 * payload_full, payload_len as int));
        }
        rows.push(row);
    }
    proof {
        assert forall|k: int| 0 <= k < rows@.len() implies #[trigger] rows@[k]@ == hex_rows(p)[k] by {
            if k < payload_full {
                assert(8 * k + 8 <= p.len());
            }
        }
    }
    rows
}

impl<R: AddressedRadio> RadioLoopback<R> {
    pub fn new(radio: R) -> (r: Self)
        ensures
            r.radio == radio,
    {
        RadioLoopback { radio: radio }
    }

    /// The rows in which a frame of `len` bytes (header included) to be sent
    /// with `payload` is logged: its payload bytes, eight to a row.
    pub fn transmit_log(&self, payload: &[u8], len: u8, source_long: bool) -> (rows: Vec<Vec<u8>>)
        requires
            self.radio.header_len(source_long, false) <= len,
            len - self.radio.header_len(source_long, false) <= payload@.len(),
        ensures
            rows@.len() == hex_rows(
                payload@.subrange(0, len - self.radio.header_len(source_long, false)),
            ).len(),
            forall|i: int|
                0 <= i < rows@.len() ==> #[trigger] rows@[i]@ == hex_rows(
                    payload@.subrange(0, len - self.radio.header_len(source_long, false)),
                )[i],
    {
        let payload_len = (len - self.radio.header_size(source_long, false)) as usize;
        payload_rows(payload, payload_len)
    }
}

/// Every query, configuration call and transmission goes unchanged to the
/// wrapped radio.
impl<R: AddressedRadio> AddressedRadio for RadioLoopback<R> {
    open spec fn initialize_result(&self, buf: Vec<u8>, reg_write: Vec<u8>, reg_read: Vec<u8>) -> ReturnCode {
        self.radio.initialize_result(buf, reg_write, reg_read)
    }

    open spec fn reset_result(&self) -> ReturnCode {
        self.radio.reset_result()
    }

    open spec fn start_result(&self) -> ReturnCode {
        self.radio.start_result()
    }

    open spec fn stop_result(&self) -> ReturnCode {
        self.radio.stop_result()
    }

    open spec fn powered(&self) -> bool {
        self.radio.powered()
    }

    open spec fn is_busy(&self) -> bool {
        self.radio.is_busy()
    }

    open spec fn address(&self) -> u16 {
        self.radio.address()
    }

    open spec fn address_long(&self) -> [u8; 8] {
        self.radio.address_long()
    }

    open spec fn pan(&self) -> u16 {
        self.radio.pan()
    }

    open spec fn tx_power(&self) -> i8 {
        self.radio.tx_power()
    }

    open spec fn channel(&self) -> u8 {
        self.radio.channel()
    }

    open spec fn set_tx_power_result(&self, power: i8) -> ReturnCode {
        self.radio.set_tx_power_result(power)
    }

    open spec fn set_channel_result(&self, chan: u8) -> ReturnCode {
        self.radio.set_channel_result(chan)
    }

    open spec fn commit_result(&self) -> ReturnCode {
        self.radio.commit_result()
    }

    open spec fn header_len(&self, long_src: bool, long_dest: bool) -> u8 {
        self.radio.header_len(long_src, long_dest)
    }

    open spec fn payload_start(&self, long_src: bool, long_dest: bool) -> u8 {
        self.radio.payload_start(long_src, long_dest)
    }

    open spec fn packet_header_len(&self, packet: &[u8]) -> u8 {
        self.radio.packet_header_len(packet)
    }

    open spec fn packet_src(&self, packet: &[u8]) -> u16 {
        self.radio.packet_src(packet)
    }

    open spec fn packet_dest(&self, packet: &[u8]) -> u16 {
        self.radio.packet_dest(packet)
    }

    open spec fn packet_src_is_long(&self, packet: &[u8]) -> bool {
        self.radio.packet_src_is_long(packet)
    }

    open spec fn packet_dest_is_long(&self, packet: &[u8]) -> bool {
        self.radio.packet_dest_is_long(packet)
    }

    open spec fn packet_src_long(&self, packet: &[u8]) -> [u8; 8] {
        self.radio.packet_src_long(packet)
    }

    open spec fn packet_dest_long(&self, packet: &[u8]) -> [u8; 8] {
        self.radio.packet_dest_long(packet)
    }

    open spec fn packet_length(&self, packet: &[u8]) -> u8 {
        self.radio.packet_length(packet)
    }

    open spec fn packet_pan(&self, packet: &[u8]) -> u16 {
        self.radio.packet_pan(packet)
    }

    open spec fn receive_buffer(&self) -> Option<Vec<u8>> {
        self.radio.receive_buffer()
    }

    open spec fn transmit_result(&self, dest: u16, payload: Vec<u8>, len: u8, source_long: bool) -> ReturnCode {
        self.radio.transmit_result(dest, payload, len, source_long)
    }

    open spec fn transmit_long_result(&self, dest: [u8; 8], payload: Vec<u8>, len: u8, source_long: bool) -> ReturnCode {
        self.radio.transmit_long_result(dest, payload, len, source_long)
    }

    fn initialize(&mut self, buf: Vec<u8>, reg_write: Vec<u8>, reg_read: Vec<u8>) -> ReturnCode {
        self.radio.initialize(buf, reg_write, reg_read)
    }

    fn reset(&mut self) -> ReturnCode {
        self.radio.reset()
    }

    fn start(&mut self) -> ReturnCode {
        self.radio.start()
    }

    fn stop(&mut self) -> ReturnCode {
        self.radio.stop()
    }

    fn is_on(&self) -> bool {
        self.radio.is_on()
    }

    fn busy(&self) -> bool {
        self.radio.busy()
    }

    fn config_set_address(&mut self, addr: u16) {
        self.radio.config_set_address(addr)
    }

    fn config_set_address_long(&mut self, addr: [u8; 8]) {
        self.radio.config_set_address_long(addr)
    }

    fn config_set_pan(&mut self, id: u16) {
        self.radio.config_set_pan(id)
    }

    fn config_set_tx_power(&mut self, power: i8) -> ReturnCode {
        self.radio.config_set_tx_power(power)
    }

    fn config_set_channel(&mut self, chan: u8) -> ReturnCode {
        self.radio.config_set_channel(chan)
    }

    fn config_address(&self) -> u16 {
        self.radio.config_address()
    }

    fn config_address_long(&self) -> [u8; 8] {
        self.radio.config_address_long()
    }

    fn config_pan(&self) -> u16 {
        self.radio.config_pan()
    }

    fn config_tx_power(&self) -> i8 {
        self.radio.config_tx_power()
    }

    fn config_channel(&self) -> u8 {
        self.radio.config_channel()
    }

    fn config_commit(&mut self) -> ReturnCode {
        self.radio.config_commit()
    }

    fn payload_offset(&self, long_src: bool, long_dest: bool) -> u8 {
        self.radio.payload_offset(long_src, long_dest)
    }

    fn header_size(&self, long_src: bool, long_dest: bool) -> u8 {
        self.radio.header_size(long_src, long_dest)
    }

    fn packet_header_size(&self, packet: &[u8]) -> u8 {
        self.radio.packet_header_size(packet)
    }

    fn packet_get_src(&self, packet: &[u8]) -> u16 {
        self.radio.packet_get_src(packet)
    }

    fn packet_get_dest(&self, packet: &[u8]) -> u16 {
        self.radio.packet_get_dest(packet)
    }

    fn packet_has_src_long(&self, packet: &[u8]) -> bool {
        self.radio.packet_has_src_long(packet)
    }

    fn packet_has_dest_long(&self, packet: &[u8]) -> bool {
        self.radio.packet_has_dest_long(packet)
    }

    fn packet_get_src_long(&self, packet: &[u8]) -> [u8; 8] {
        self.radio.packet_get_src_long(packet)
    }

    fn packet_get_dest_long(&self, packet: &[u8]) -> [u8; 8] {
        self.radio.packet_get_dest_long(packet)
    }

    fn packet_get_length(&self, packet: &[u8]) -> u8 {
        self.radio.packet_get_length(packet)
    }

    fn packet_get_pan(&self, packet: &[u8]) -> u16 {
        self.radio.packet_get_pan(packet)
    }

    fn set_receive_buffer(&mut self, buffer: Vec<u8>) {
        self.radio.set_receive_buffer(buffer)
    }

    fn transmit(&mut self, dest: u16, payload: Vec<u8>, len: u8, source_long: bool) -> ReturnCode {
        self.radio.transmit(dest, payload, len, source_long)
    }

    fn transmit_long(&mut self, dest: [u8; 8], payload: Vec<u8>, len: u8, source_long: bool) -> ReturnCode {
        self.radio.transmit_long(dest, payload, len, source_long)
    }
}

} // verus!
