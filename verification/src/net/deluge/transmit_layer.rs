//! The transmission layer under Deluge: broadcasts packets and delivers
//! received ones.

use vstd::prelude::*;
use crate::returncode::ReturnCode;
use crate::mac::{Mac, FrameInfo, frame_fits};
use crate::net::ieee802154::{MacAddress, PanID};
use crate::hil::radio::PSDU_OFFSET;
use crate::net::stream::splice;
use vstd::slice::slice_subrange;

verus! {

/// Broadcasts Deluge packets.
pub trait DelugeTransmit {
    /// The packets handed to the layer so far, oldest first.
    spec fn sent(&self) -> Seq<Seq<u8>>;

    /// Broadcasts the packet in `buffer`.
    fn transmit_packet(&mut self, buffer: &[u8]) -> (r: ReturnCode)
        ensures
            final(self).sent() == old(self).sent().push(buffer@),
    ;
}

/// Receives the completion of a transmission.
pub trait DelugeTxClient {
    fn transmit_done(&mut self, result: ReturnCode);
}

/// Receives Deluge packets.
pub trait DelugeRxClient {
    fn receive(&mut self, buffer: &[u8]);
}

/// The short link-layer address Deluge packets are broadcast to.
pub const DST_SHORT_ADDR: u16 = 0xffff;

/// The PAN Deluge packets are sent to.
pub const DST_PAN_ADDR: PanID = 0xABCD;

/// The frame `info` in a buffer of `buf_len` bytes once `packet` is
/// appended to it, when it fits.
pub open spec fn with_packet(info: FrameInfo, buf_len: int, packet: Seq<u8>) -> FrameInfo {
    if packet.len() <= info.capacity(buf_len) {
        FrameInfo { data_len: (info.data_len + packet.len()) as usize, ..info }
    } else {
        info
    }
}

/// Broadcasts Deluge packets in data frames through a MAC device, and hands
/// received frames' payloads to the receive client.
pub struct DelugeTransmitLayer<M: Mac, T: DelugeTxClient, R: DelugeRxClient> {
    pub src_addr: MacAddress,
    pub src_pan: PanID,
    pub tx_buffer: Option<Vec<u8>>,
    pub tx_client: Option<T>,
    pub rx_client: Option<R>,
    pub radio: M,
}

impl<M: Mac, T: DelugeTxClient, R: DelugeRxClient> DelugeTransmitLayer<M, T, R> {
    pub fn new(src_addr: MacAddress, src_pan: PanID, tx_buffer: Vec<u8>, radio: M) -> (r: Self)
        ensures
            r.src_addr == src_addr,
            r.src_pan == src_pan,
            r.tx_buffer == Some(tx_buffer),
            r.tx_client is None,
            r.rx_client is None,
            r.radio == radio,
    {
        DelugeTransmitLayer {
            src_addr: src_addr,
            src_pan: src_pan,
            tx_buffer: Some(tx_buffer),
            tx_client: None,
            rx_client: None,
            radio: radio,
        }
    }

    pub fn set_tx_client(&mut self, tx_client: T)
        ensures
            *final(self) == (DelugeTransmitLayer { tx_client: Some(tx_client), ..*old(self) }),
    {
        self.tx_client = Some(tx_client);
    }

    pub fn set_rx_client(&mut self, rx_client: R)
        ensures
            *final(self) == (DelugeTransmitLayer { rx_client: Some(rx_client), ..*old(self) }),
    {
        self.rx_client = Some(rx_client);
    }

    /// Puts `packet` into the data frame the MAC prepared in `buf` with the
    /// outcome `prepared`; a packet too large for the frame is left out.
    /// Gives the frame, or hands `buf` back when the MAC failed, the frame
    /// leaves no room at all, or it would not fit the PHY.
    pub fn fill_packet_frame(prepared: Result<FrameInfo, ()>, buf: Vec<u8>, packet: &[u8]) -> (r: Result<
        (Vec<u8>, FrameInfo),
        Vec<u8>,
    >)
        ensures
            match prepared {
                Err(_) => r == Err::<(Vec<u8>, FrameInfo), Vec<u8>>(buf),
                Ok(info) => {
                    let len = buf@.len() as int;
                    let filled = with_packet(info, len, packet@);
                    if info.capacity(len) < 0 || !frame_fits(filled, len) {
                        r == Err::<(Vec<u8>, FrameInfo), Vec<u8>>(buf)
                    } else {
                        &&& r matches Ok((b, i))
                        &&& i == filled
                        &&& b@.len() == len
                        &&& b@ == (if packet@.len() <= info.capacity(len) {
                            splice(buf@, PSDU_OFFSET + info.unsecured_len(), packet@)
                        } else {
                            buf@
                        })
                    }
                },
            },
    {
        let mut info = match prepared {
            Err(_) => {
                return Err(buf);
            },
            Ok(info) => info,
        };
        let mut buf = buf;
        if !info.has_capacity(buf.len(), 0) {
            return Err(buf);
        }
        let fits_whole = info.has_capacity(buf.len(), packet.len());
        let filled = if fits_whole {
            FrameInfo { data_len: info.data_len + packet.len(), ..info }
        } else {
            info
        };
        if !filled.fits(buf.len()) {
            return Err(buf);
        }
        let _ = info.append_payload(buf.as_mut_slice(), packet);
        Ok((buf, info))
    }

    /// Broadcasts `buffer` in a data frame from this node's address: the MAC
    /// prepares the frame in the layer's buffer, `fill_packet_frame` fills
    /// it, and the MAC transmits it. `FAIL` when the frame could not be
    /// made, the MAC's answer when it hands the buffer back, and `SUCCESS`
    /// when it took the frame.
    pub fn transmit_packet(&mut self, buffer: &[u8]) -> (r: ReturnCode)
        requires
            old(self).radio.ready(),
            old(self).tx_buffer is Some,
        ensures
            final(self).radio.ready(),
            final(self).src_addr == old(self).src_addr,
            final(self).src_pan == old(self).src_pan,
            final(self).tx_client == old(self).tx_client,
            final(self).rx_client == old(self).rx_client,
            r == ReturnCode::FAIL ==> final(self).tx_buffer is Some,
            final(self).tx_buffer is None ==> r == ReturnCode::SUCCESS,
    {
        let mut buf = match self.tx_buffer.take() {
            Some(b) => b,
            None => {
                return ReturnCode::FAIL;
            },
        };
        let prepared = self.radio.prepare_data_frame(
            buf.as_mut_slice(),
            DST_PAN_ADDR,
            MacAddress::Short(DST_SHORT_ADDR),
            self.src_pan,
            self.src_addr,
            None,
        );
        match Self::fill_packet_frame(prepared, buf, buffer) {
            Err(frame) => {
                self.tx_buffer = Some(frame);
                ReturnCode::FAIL
            },
            Ok((frame, info)) => {
                let (result, back) = self.radio.transmit(frame, info);
                match back {
                    Some(b) => {
                        self.tx_buffer = Some(b);
                        result
                    },
                    None => ReturnCode::SUCCESS,
                }
            },
        }
    }

    /// The MAC finished sending a frame: the buffer is the layer's again,
    /// and the transmit client learns the result.
    pub fn send_done(&mut self, tx_buf: Vec<u8>, acked: bool, result: ReturnCode)
        ensures
            final(self).tx_buffer == Some(tx_buf),
            final(self).radio == old(self).radio,
            final(self).tx_client is Some == old(self).tx_client is Some,
            final(self).rx_client == old(self).rx_client,
    {
        self.tx_buffer = Some(tx_buf);
        match &mut self.tx_client {
            Some(tx_client) => tx_client.transmit_done(result),
            None => {},
        }
    }

    /// A frame arrived: the receive client gets its data payload, the
    /// `data_len` bytes at `data_offset`.
    pub fn receive(&mut self, buf: &[u8], data_offset: usize, data_len: usize)
        requires
            data_offset + data_len <= buf@.len(),
            data_offset + data_len <= usize::MAX,
        ensures
            final(self).tx_buffer == old(self).tx_buffer,
            final(self).radio == old(self).radio,
            final(self).tx_client == old(self).tx_client,
            final(self).rx_client is Some == old(self).rx_client is Some,
    {
        let data = slice_subrange(buf, data_offset, data_offset + data_len);
        match &mut self.rx_client {
            Some(rx_client) => rx_client.receive(data),
            None => {},
        }
    }
}

} // verus!
