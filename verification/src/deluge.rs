//! The first draft of the Deluge protocol: the advertisement packets and
//! the interface of the program images it keeps up to date.

use vstd::prelude::*;

verus! {

/// The advertisement packets of the draft protocol.
#[derive(Copy, Clone, Debug)]
pub enum DelugePacketType {
    MaintainSummary { version: u16, page_num: u16 },
    MaintainObjectProfile { version: u16, age_vector_size: u16 },
}

/// A received packet: its object, type and fields, and where its payload
/// starts in `buffer`.
#[derive(Clone, Debug)]
pub struct DelugePacket {
    pub object_id: u16,
    pub payload_type: DelugePacketType,
    pub offset: usize,
    pub buffer: Option<Vec<u8>>,
}

impl DelugePacket {
    /// An empty summary packet for object 0.
    pub fn new() -> (r: DelugePacket)
        ensures
            r.object_id == 0,
            r.payload_type == (DelugePacketType::MaintainSummary { version: 0, page_num: 0 }),
            r.offset == 0,
            r.buffer is None,
    {
        DelugePacket {
            object_id: 0,
            payload_type: DelugePacketType::MaintainSummary { version: 0, page_num: 0 },
            offset: 0,
            buffer: None,
        }
    }
}

/// Learns that a page of its program image was updated.
pub trait DelugeProgramClient {
    fn updated_page(&self);
}

} // verus!
