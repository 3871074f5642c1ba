//! The 802.15.4 radio interface: buffer layout constants and the operations
//! a MAC layer drives.

use vstd::prelude::*;
use crate::returncode::ReturnCode;

verus! {

/// The smallest MAC header.
pub const MIN_MHR_SIZE: usize = 9;
/// The size of the MAC footer (the frame check sequence).
pub const MFR_SIZE: usize = 2;
/// The largest frame the PHY carries.
pub const MAX_MTU: usize = 127;
/// The smallest frame.
pub const MIN_FRAME_SIZE: usize = MIN_MHR_SIZE + MFR_SIZE;
/// The largest frame.
pub const MAX_FRAME_SIZE: usize = MAX_MTU;
/// Where the PSDU starts in a radio buffer.
pub const PSDU_OFFSET: usize = 2;
/// The size of the link quality indicator that follows a received frame.
pub const LQI_SIZE: usize = 1;
/// The size of a radio buffer.
pub const MAX_BUF_SIZE: usize = PSDU_OFFSET + MAX_MTU + LQI_SIZE;

/// A radio transceiver: its configuration, and frame transmission and
/// reception.
pub trait Radio {
    /// The extended address the radio is configured with.
    spec fn address_long(&self) -> [u8; 8];

    /// The short address the radio is configured with.
    spec fn address(&self) -> u16;

    /// The PAN identifier the radio is configured with.
    spec fn pan(&self) -> u16;

    /// The channel the radio is configured with.
    spec fn channel(&self) -> u8;

    /// The transmit power the radio is configured with.
    spec fn tx_power(&self) -> i8;

    /// Whether the radio is powered on.
    spec fn powered(&self) -> bool;

    /// Whether the radio supports channel `chan`.
    spec fn valid_channel(&self, chan: u8) -> bool;

    /// Whether the radio supports transmit power `power`.
    spec fn valid_tx_power(&self, power: i8) -> bool;

    /// What committing the configuration now returns.
    spec fn commit_result(&self) -> ReturnCode;

    /// The frame last handed over for transmission: its buffer and length.
    spec fn last_transmit(&self) -> Option<(Vec<u8>, usize)>;

    /// What handing over the frame of `frame_len` bytes in `buf` now returns.
    spec fn transmit_answer(&self, buf: Vec<u8>, frame_len: usize) -> (ReturnCode, Option<Vec<u8>>);

    /// The buffer the next frame is received into.
    spec fn receive_buffer(&self) -> Option<Vec<u8>>;

    fn get_address(&self) -> (r: u16)
        ensures
            r == self.address(),
    ;

    fn get_address_long(&self) -> (r: [u8; 8])
        ensures
            r == self.address_long(),
    ;

    fn get_pan(&self) -> (r: u16)
        ensures
            r == self.pan(),
    ;

    fn get_channel(&self) -> (r: u8)
        ensures
            r == self.channel(),
    ;

    fn get_tx_power(&self) -> (r: i8)
        ensures
            r == self.tx_power(),
    ;

    fn set_address(&mut self, addr: u16)
        ensures
            final(self).address() == addr,
    ;

    fn set_address_long(&mut self, addr: [u8; 8])
        ensures
            final(self).address_long() == addr,
    ;

    fn set_pan(&mut self, id: u16)
        ensures
            final(self).pan() == id,
    ;

    /// Sets the channel if the radio supports it; else refuses it.
    fn set_channel(&mut self, chan: u8) -> (r: ReturnCode)
        ensures
            (r == ReturnCode::SUCCESS) == old(self).valid_channel(chan),
            r == ReturnCode::SUCCESS ==> final(self).channel() == chan,
            r != ReturnCode::SUCCESS ==> final(self).channel() == old(self).channel(),
    ;

    /// Sets the transmit power if the radio supports it; else refuses it.
    fn set_tx_power(&mut self, power: i8) -> (r: ReturnCode)
        ensures
            (r == ReturnCode::SUCCESS) == old(self).valid_tx_power(power),
            r == ReturnCode::SUCCESS ==> final(self).tx_power() == power,
            r != ReturnCode::SUCCESS ==> final(self).tx_power() == old(self).tx_power(),
    ;

    /// Applies the configuration; completion is reported later.
    fn config_commit(&mut self) -> (r: ReturnCode)
        ensures
            r == old(self).commit_result(),
    ;

    fn is_on(&self) -> (r: bool)
        ensures
            r == self.powered(),
    ;

    /// Transmits the `frame_len` bytes of the frame in `buf`; the buffer
    /// comes back at once on failure, else with the completion.
    fn transmit(&mut self, buf: Vec<u8>, frame_len: usize) -> (r: (ReturnCode, Option<Vec<u8>>))
        ensures
            r == old(self).transmit_answer(buf, frame_len),
            final(self).last_transmit() == Some((buf, frame_len)),
    ;

    /// Hands the radio a buffer to receive the next frame into.
    fn set_receive_buffer(&mut self, buf: Vec<u8>)
        ensures
            final(self).receive_buffer() == Some(buf),
    ;
}

/// A radio that builds the MAC header itself from a destination address:
/// its power and configuration, the fields of the frames it receives, and
/// transmission.
pub trait AddressedRadio {
    /// What initializing the radio with these buffers now returns.
    spec fn initialize_result(&self, buf: Vec<u8>, reg_write: Vec<u8>, reg_read: Vec<u8>) -> ReturnCode;

    /// What resetting the radio now returns.
    spec fn reset_result(&self) -> ReturnCode;

    /// What starting the radio now returns.
    spec fn start_result(&self) -> ReturnCode;

    /// What stopping the radio now returns.
    spec fn stop_result(&self) -> ReturnCode;

    /// Whether the radio is on.
    spec fn powered(&self) -> bool;

    /// Whether the radio is busy.
    spec fn is_busy(&self) -> bool;

    /// The short address the radio is configured with.
    spec fn address(&self) -> u16;

    /// The extended address the radio is configured with.
    spec fn address_long(&self) -> [u8; 8];

    /// The PAN identifier the radio is configured with.
    spec fn pan(&self) -> u16;

    /// The transmit power the radio is configured with.
    spec fn tx_power(&self) -> i8;

    /// The channel the radio is configured with.
    spec fn channel(&self) -> u8;

    /// What setting the transmit power to `power` now returns.
    spec fn set_tx_power_result(&self, power: i8) -> ReturnCode;

    /// What setting the channel to `chan` now returns.
    spec fn set_channel_result(&self, chan: u8) -> ReturnCode;

    /// What committing the configuration now returns.
    spec fn commit_result(&self) -> ReturnCode;

    /// The size of the header the radio writes.
    spec fn header_len(&self, long_src: bool, long_dest: bool) -> u8;

    /// Where the payload starts in a transmit buffer.
    spec fn payload_start(&self, long_src: bool, long_dest: bool) -> u8;

    /// The size of the header of the received frame `packet`.
    spec fn packet_header_len(&self, packet: &[u8]) -> u8;

    /// The short source address of the received frame `packet`.
    spec fn packet_src(&self, packet: &[u8]) -> u16;

    /// The short destination address of the received frame `packet`.
    spec fn packet_dest(&self, packet: &[u8]) -> u16;

    /// Whether the received frame `packet` has an extended source address.
    spec fn packet_src_is_long(&self, packet: &[u8]) -> bool;

    /// Whether the received frame `packet` has an extended destination
    /// address.
    spec fn packet_dest_is_long(&self, packet: &[u8]) -> bool;

    /// The extended source address of the received frame `packet`.
    spec fn packet_src_long(&self, packet: &[u8]) -> [u8; 8];

    /// The extended destination address of the received frame `packet`.
    spec fn packet_dest_long(&self, packet: &[u8]) -> [u8; 8];

    /// The length of the received frame `packet`.
    spec fn packet_length(&self, packet: &[u8]) -> u8;

    /// The PAN identifier of the received frame `packet`.
    spec fn packet_pan(&self, packet: &[u8]) -> u16;

    /// The buffer the next frame is received into.
    spec fn receive_buffer(&self) -> Option<Vec<u8>>;

    /// What transmitting `payload` as a frame of `len` bytes to `dest` now
    /// returns.
    spec fn transmit_result(&self, dest: u16, payload: Vec<u8>, len: u8, source_long: bool) -> ReturnCode;

    /// What transmitting `payload` as a frame of `len` bytes to the extended
    /// address `dest` now returns.
    spec fn transmit_long_result(&self, dest: [u8; 8], payload: Vec<u8>, len: u8, source_long: bool) -> ReturnCode;

    fn initialize(&mut self, buf: Vec<u8>, reg_write: Vec<u8>, reg_read: Vec<u8>) -> (r: ReturnCode)
        ensures
            r == old(self).initialize_result(buf, reg_write, reg_read),
    ;

    fn reset(&mut self) -> (r: ReturnCode)
        ensures
            r == old(self).reset_result(),
    ;

    fn start(&mut self) -> (r: ReturnCode)
        ensures
            r == old(self).start_result(),
    ;

    fn stop(&mut self) -> (r: ReturnCode)
        ensures
            r == old(self).stop_result(),
    ;

    fn is_on(&self) -> (r: bool)
        ensures
            r == self.powered(),
    ;

    fn busy(&self) -> (r: bool)
        ensures
            r == self.is_busy(),
    ;

    fn config_set_address(&mut self, addr: u16)
        ensures
            final(self).address() == addr,
    ;

    fn config_set_address_long(&mut self, addr: [u8; 8])
        ensures
            final(self).address_long() == addr,
    ;

    fn config_set_pan(&mut self, id: u16)
        ensures
            final(self).pan() == id,
    ;

    fn config_set_tx_power(&mut self, power: i8) -> (r: ReturnCode)
        ensures
            r == old(self).set_tx_power_result(power),
    ;

    fn config_set_channel(&mut self, chan: u8) -> (r: ReturnCode)
        ensures
            r == old(self).set_channel_result(chan),
    ;

    fn config_address(&self) -> (r: u16)
        ensures
            r == self.address(),
    ;

    fn config_address_long(&self) -> (r: [u8; 8])
        ensures
            r == self.address_long(),
    ;

    fn config_pan(&self) -> (r: u16)
        ensures
            r == self.pan(),
    ;

    fn config_tx_power(&self) -> (r: i8)
        ensures
            r == self.tx_power(),
    ;

    fn config_channel(&self) -> (r: u8)
        ensures
            r == self.channel(),
    ;

    fn config_commit(&mut self) -> (r: ReturnCode)
        ensures
            r == old(self).commit_result(),
    ;

    /// Where the payload starts in a transmit buffer.
    fn payload_offset(&self, long_src: bool, long_dest: bool) -> (r: u8)
        ensures
            r == self.payload_start(long_src, long_dest),
    ;

    /// The size of the header the radio writes.
    fn header_size(&self, long_src: bool, long_dest: bool) -> (r: u8)
        ensures
            r == self.header_len(long_src, long_dest),
    ;

    fn packet_header_size(&self, packet: &[u8]) -> (r: u8)
        ensures
            r == self.packet_header_len(packet),
    ;

    fn packet_get_src(&self, packet: &[u8]) -> (r: u16)
        ensures
            r == self.packet_src(packet),
    ;

    fn packet_get_dest(&self, packet: &[u8]) -> (r: u16)
        ensures
            r == self.packet_dest(packet),
    ;

    fn packet_has_src_long(&self, packet: &[u8]) -> (r: bool)
        ensures
            r == self.packet_src_is_long(packet),
    ;

    fn packet_has_dest_long(&self, packet: &[u8]) -> (r: bool)
        ensures
            r == self.packet_dest_is_long(packet),
    ;

    fn packet_get_src_long(&self, packet: &[u8]) -> (r: [u8; 8])
        ensures
            r == self.packet_src_long(packet),
    ;

    fn packet_get_dest_long(&self, packet: &[u8]) -> (r: [u8; 8])
        ensures
            r == self.packet_dest_long(packet),
    ;

    fn packet_get_length(&self, packet: &[u8]) -> (r: u8)
        ensures
            r == self.packet_length(packet),
    ;

    fn packet_get_pan(&self, packet: &[u8]) -> (r: u16)
        ensures
            r == self.packet_pan(packet),
    ;

    /// Hands the radio a buffer to receive the next frame into.
    fn set_receive_buffer(&mut self, buffer: Vec<u8>)
        ensures
            final(self).receive_buffer() == Some(buffer),
    ;

    /// Transmits a frame of `len` bytes (header and payload) to `dest`.
    fn transmit(&mut self, dest: u16, payload: Vec<u8>, len: u8, source_long: bool) -> (r: ReturnCode)
        ensures
            r == old(self).transmit_result(dest, payload, len, source_long),
    ;

    /// Transmits a frame of `len` bytes (header and payload) to the
    /// extended address `dest`.
    fn transmit_long(&mut self, dest: [u8; 8], payload: Vec<u8>, len: u8, source_long: bool) -> (r: ReturnCode)
        ensures
            r == old(self).transmit_long_result(dest, payload, len, source_long),
    ;
}

} // verus!
