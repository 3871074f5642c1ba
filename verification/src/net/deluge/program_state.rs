//! The program state of Deluge: the version of the program image, the page
//! being received packet by packet, and the page served to others.

use vstd::prelude::*;
use crate::returncode::ReturnCode;
use crate::net::stream::splice;
use crate::net::deluge::flash_layer::DelugeFlashState;

verus! {

/// Receives packets read for transmission and the completion of writes.
pub trait DelugeProgramStateClient {
    /// Whether `after` is this client once it was handed packet
    /// `packet_num` of page `page_num`, whose payload is `buffer`.
    spec fn packet_read(&self, after: &Self, page_num: usize, packet_num: usize, buffer: &[u8]) -> bool;

    /// Whether `after` is this client once it learned that a packet was
    /// stored, completing its page or not.
    spec fn packet_written(&self, after: &Self, page_completed: bool) -> bool;

    fn read_complete(&mut self, page_num: usize, packet_num: usize, buffer: &[u8])
        ensures
            old(self).packet_read(final(self), page_num, packet_num, buffer),
    ;

    fn write_complete(&mut self, page_completed: bool)
        ensures
            old(self).packet_written(final(self), page_completed),
    ;
}

/// The operations of a program state.
pub trait DelugeProgramState {
    /// The newer versions heard of, in the order they were heard.
    spec fn versions_heard(&self) -> Seq<usize>;

    fn updated_application(&mut self, new_version: usize, page_count: usize)
        ensures
            final(self).versions_heard() == old(self).versions_heard(),
    ;

    /// Learns that a newer version of the program image exists.
    fn received_new_version(&mut self, version: usize)
        ensures
            final(self).versions_heard() == old(self).versions_heard().push(version),
    ;

    fn receive_packet(&mut self, version: usize, page_num: usize, packet_num: usize, payload: &[u8]) -> (r: bool)
        ensures
            final(self).versions_heard() == old(self).versions_heard(),
    ;

    /// The version of the program image.
    spec fn version(&self) -> usize;

    /// The page being received.
    spec fn page(&self) -> usize;

    /// The page to request next.
    spec fn next_page(&self) -> usize;

    /// The packet to request next.
    spec fn next_packet(&self) -> usize;

    fn current_version_number(&self) -> (r: usize)
        ensures
            r == self.version(),
    ;

    fn current_page_number(&self) -> (r: usize)
        ensures
            r == self.page(),
    ;

    fn next_page_number(&self) -> (r: usize)
        ensures
            r == self.next_page(),
    ;

    fn current_packet_number(&self) -> usize;

    fn next_packet_number(&self) -> (r: usize)
        ensures
            r == self.next_packet(),
    ;

    fn get_requested_packet(&mut self, page_num: usize, packet_num: usize) -> (r: bool)
        ensures
            final(self).versions_heard() == old(self).versions_heard(),
    ;
}

/// The size of a page of the program image.
pub const PAGE_SIZE: usize = 512;

/// The size of the payload of a data packet.
pub const PACKET_SIZE: usize = 64;

/// Why a program state operation failed.
#[allow(non_camel_case_types)]
#[derive(Copy, Clone, Debug)]
pub enum ProgramStateReturnType {
    ERROR,
    OUTDATED,
    INVALID_PACKET,
    BUSY,
}

/// The offset in a page of packet `packet_num` (counted from 1).
pub open spec fn packet_offset(packet_num: usize) -> int {
    (packet_num - 1) * PACKET_SIZE
}

/// Whether `after` is `client` once it was handed packet `packet_num` of
/// page `page_num` with payload `bytes`; a state without a client hands it
/// to nobody.
pub open spec fn packet_handed<C: DelugeProgramStateClient>(
    client: Option<C>,
    after: Option<C>,
    page_num: usize,
    packet_num: usize,
    bytes: Seq<u8>,
) -> bool {
    match client {
        Some(c) => after is Some && exists|s: &[u8]|
            s@ == bytes && #[trigger] c.packet_read(&after->0, page_num, packet_num, s),
        None => after is None,
    }
}

/// Whether `after` is `client` once it learned that a packet was stored,
/// completing its page or not.
pub open spec fn write_reported<C: DelugeProgramStateClient>(
    client: Option<C>,
    after: Option<C>,
    page_completed: bool,
) -> bool {
    match client {
        Some(c) => after is Some && c.packet_written(&after->0, page_completed),
        None => after is None,
    }
}

/// The program state. Packet numbers count from 1; a largest received
/// packet of 0 means no packet of the page was received yet.
pub struct ProgramState<F: DelugeFlashState, C: DelugeProgramStateClient> {
    /// Program identifier, the same on all nodes.
    pub unique_id: usize,
    pub version: usize,
    /// The page and packet of the outstanding flash read.
    pub requested_packet_num: usize,
    pub requested_page_num: usize,
    /// The page held in `tx_page`, if any.
    pub tx_page_num: Option<usize>,
    pub tx_page: [u8; 512],
    /// The largest packet received of the page being received.
    pub rx_largest_packet: usize,
    /// The page being received; the pages before it are complete.
    pub rx_page_num: usize,
    pub rx_page: [u8; 512],
    pub total_page_count: usize,
    pub flash_driver: F,
    pub client: Option<C>,
}

impl<F: DelugeFlashState, C: DelugeProgramStateClient> ProgramState<F, C> {
    /// A program state at version 1, receiving the first page.
    pub fn new(flash_driver: F, unique_id: usize, tx_page: [u8; 512], rx_page: [u8; 512]) -> (r: ProgramState<F, C>)
        ensures
            r.unique_id == unique_id,
            r.version == 1,
            r.requested_packet_num == 0,
            r.requested_page_num == 0,
            r.tx_page_num is None,
            r.tx_page == tx_page,
            r.rx_largest_packet == 0,
            r.rx_page_num == 0,
            r.rx_page == rx_page,
            r.total_page_count == 0,
            r.flash_driver == flash_driver,
            r.client is None,
    {
        ProgramState {
            unique_id: unique_id,
            version: 1,
            requested_packet_num: 0,
            requested_page_num: 0,
            tx_page_num: None,
            tx_page: tx_page,
            rx_largest_packet: 0,
            rx_page_num: 0,
            rx_page: rx_page,
            total_page_count: 0,
            flash_driver: flash_driver,
            client: None,
        }
    }

    /// The page being received is complete: it is written to flash and
    /// reception moves to the next page; if the write cannot start,
    /// reception stays on the page.
    pub fn page_completed(&mut self) -> (r: ReturnCode)
        requires
            old(self).rx_page_num < usize::MAX,
        ensures
            (r == ReturnCode::SUCCESS) == old(self).flash_driver.accepts_write(old(self).rx_page_num),
            r == ReturnCode::SUCCESS ==> final(self).rx_page_num == old(self).rx_page_num + 1
                && final(self).rx_largest_packet == 0,
            r != ReturnCode::SUCCESS ==> final(self).rx_page_num == old(self).rx_page_num
                && final(self).rx_largest_packet == old(self).rx_largest_packet,
            final(self).version == old(self).version,
            final(self).rx_page == old(self).rx_page,
            final(self).tx_page_num == old(self).tx_page_num,
            final(self).tx_page == old(self).tx_page,
            final(self).requested_page_num == old(self).requested_page_num,
            final(self).requested_packet_num == old(self).requested_packet_num,
            final(self).client == old(self).client,
    {
        let old_page_num = self.rx_page_num;
        let old_packet_num = self.rx_largest_packet;
        self.rx_page_num = old_page_num + 1;
        self.rx_largest_packet = 0;
        let ret_code = self.flash_driver.page_completed(old_page_num, &self.rx_page);
        if ret_code != ReturnCode::SUCCESS {
            self.rx_page_num = old_page_num;
            self.rx_largest_packet = old_packet_num;
        }
        ret_code
    }

    /// A page read from flash arrived: it becomes the page served, and the
    /// requested packet of it is handed to the client.
    pub fn read_complete(&mut self, buffer: &[u8])
        requires
            buffer@.len() >= PAGE_SIZE,
            old(self).requested_packet_num >= 1,
            packet_offset(old(self).requested_packet_num) + PACKET_SIZE <= PAGE_SIZE,
        ensures
            final(self).tx_page_num == Some(old(self).requested_page_num),
            final(self).tx_page@ == buffer@.subrange(0, PAGE_SIZE as int),
            final(self).rx_page_num == old(self).rx_page_num,
            final(self).rx_largest_packet == old(self).rx_largest_packet,
            final(self).version == old(self).version,
            packet_handed(
                old(self).client,
                final(self).client,
                old(self).requested_page_num,
                old(self).requested_packet_num,
                buffer@.subrange(
                    packet_offset(old(self).requested_packet_num),
                    packet_offset(old(self).requested_packet_num) + PACKET_SIZE,
                ),
            ),
    {
        let packet_num = self.requested_packet_num;
        let page_num = self.requested_page_num;
        self.tx_page_num = Some(page_num);
        let mut i: usize = 0;
        while i < PAGE_SIZE
            invariant
                i <= PAGE_SIZE,
                buffer@.len() >= PAGE_SIZE,
                forall|j: int| 0 <= j < i ==> self.tx_page@[j] == buffer@[j],
                self.tx_page_num == Some(page_num),
                self.rx_page_num == old(self).rx_page_num,
                self.rx_largest_packet == old(self).rx_largest_packet,
                self.version == old(self).version,
                self.requested_packet_num == packet_num,
                self.requested_page_num == page_num,
                self.client == old(self).client,
            decreases PAGE_SIZE - i,
        {
            self.tx_page[i] = buffer[i];
            i = i + 1;
        }
        assert(self.tx_page@ =~= buffer@.subrange(0, PAGE_SIZE as int));
        let offset = (packet_num - 1) * PACKET_SIZE;
        let packet = slice_of(&self.tx_page, offset, PACKET_SIZE);
        let bytes = packet.as_slice();
        let ghost before = self.client;
        match &mut self.client {
            Some(client) => {
                client.read_complete(page_num, packet_num, bytes);
            },
            None => {},
        }
        proof {
            assert(bytes@ =~= buffer@.subrange(
                packet_offset(packet_num),
                packet_offset(packet_num) + PACKET_SIZE,
            ));
            if before is Some {
                assert((before->0).packet_read(&self.client->0, page_num, packet_num, bytes));
            }
        }
    }

    /// A page write finished: the client learns that its page is complete.
    pub fn write_complete(&mut self)
        ensures
            *final(self) == (ProgramState { client: final(self).client, ..*old(self) }),
            write_reported(old(self).client, final(self).client, true),
    {
        match &mut self.client {
            Some(client) => client.write_complete(true),
            None => {},
        }
    }

    /// The application was updated locally to `new_version` with
    /// `page_count` pages: all of them count as received, and the served
    /// page is invalidated.
    pub fn updated_application(&mut self, new_version: usize, page_count: usize)
        requires
            page_count >= 1,
        ensures
            *final(self) == (ProgramState {
                version: new_version,
                rx_page_num: (page_count - 1) as usize,
                rx_largest_packet: PAGE_SIZE / PACKET_SIZE,
                tx_page_num: None,
                total_page_count: page_count,
                ..*old(self)
            }),
    {
        self.version = new_version;
        // rx_page_num counts from 0
        self.rx_page_num = page_count - 1;
        // rx_largest_packet counts from 1
        self.rx_largest_packet = PAGE_SIZE / PACKET_SIZE;
        self.tx_page_num = None;
        self.total_page_count = page_count;
    }

    /// A newer version was heard of: reception restarts from the first page
    /// of it and the served page is invalidated.
    pub fn received_new_version(&mut self, version: usize)
        ensures
            version > old(self).version ==> *final(self) == (ProgramState {
                version: version,
                tx_page_num: None,
                rx_largest_packet: 0,
                rx_page_num: 0,
                ..*old(self)
            }),
            version <= old(self).version ==> *final(self) == *old(self),
    {
        if version > self.version {
            self.version = version;
            self.tx_page_num = None;
            self.rx_largest_packet = 0;
            self.rx_page_num = 0;
        }
    }

    /// Receives data packet `packet_num` of page `page_num` of `version`.
    /// Packets are accepted only in order, on the page being received; the
    /// last packet of a page completes it. Returns whether the packet was
    /// accepted (and, for the last one, the page write started).
    pub fn receive_packet(&mut self, version: usize, page_num: usize, packet_num: usize, payload: &[u8]) -> (r: bool)
        requires
            payload@.len() >= PACKET_SIZE ==> packet_num >= 1 && (packet_num - 1) * PACKET_SIZE
                + PACKET_SIZE <= usize::MAX,
            old(self).rx_largest_packet < usize::MAX,
            old(self).rx_page_num < usize::MAX,
        ensures
            ({
                let v0_version = if version > old(self).version {
                    version
                } else {
                    old(self).version
                };
                let v0_page = if version > old(self).version {
                    0
                } else {
                    old(self).rx_page_num
                };
                let v0_largest = if version > old(self).version {
                    0
                } else {
                    old(self).rx_largest_packet
                };
                let accepted = payload@.len() >= PACKET_SIZE && packet_offset(packet_num)
                    + PACKET_SIZE <= PAGE_SIZE && v0_page == page_num && v0_largest + 1
                    == packet_num;
                &&& final(self).version == v0_version
                &&& !accepted ==> !r && final(self).rx_page_num == v0_page
                    && final(self).rx_largest_packet == v0_largest && final(self).rx_page
                    == old(self).rx_page
                &&& accepted ==> final(self).rx_page@ == splice(
                    old(self).rx_page@,
                    packet_offset(packet_num),
                    payload@.subrange(0, PACKET_SIZE as int),
                )
                &&& accepted && packet_num * PACKET_SIZE != PAGE_SIZE ==> r
                    && final(self).rx_page_num == v0_page && final(self).rx_largest_packet
                    == packet_num
                &&& accepted && packet_num * PACKET_SIZE == PAGE_SIZE ==> (r
                    ==> final(self).rx_page_num == v0_page + 1 && final(self).rx_largest_packet
                    == 0) && (!r ==> final(self).rx_page_num == v0_page
                    && final(self).rx_largest_packet == packet_num)
                &&& accepted && packet_num * PACKET_SIZE != PAGE_SIZE ==> write_reported(
                    old(self).client,
                    final(self).client,
                    false,
                )
                &&& !(accepted && packet_num * PACKET_SIZE != PAGE_SIZE) ==> final(self).client
                    == old(self).client
            }),
    {
        if version > self.version {
            self.received_new_version(version);
        }
        if payload.len() < PACKET_SIZE {
            // Payload not large enough
            return false;
        }
        let offset = (packet_num - 1) * PACKET_SIZE;
        if offset + PACKET_SIZE > PAGE_SIZE {
            // Packet out of bounds
            return false;
        }
        if self.rx_page_num != page_num {
            // Wrong page number
            return false;
        }
        if self.rx_largest_packet + 1 != packet_num {
            // Out of order reception
            return false;
        }
        self.rx_largest_packet = packet_num;
        let ghost before = self.rx_page@;
        let mut i: usize = 0;
        while i < PACKET_SIZE
            invariant
                i <= PACKET_SIZE,
                offset + PACKET_SIZE <= PAGE_SIZE,
                payload@.len() >= PACKET_SIZE,
                forall|j: int| 0 <= j < offset ==> self.rx_page@[j] == before[j],
                forall|j: int| offset + PACKET_SIZE <= j < PAGE_SIZE ==> self.rx_page@[j] == before[j],
                forall|j: int| offset <= j < offset + i ==> self.rx_page@[j] == payload@[j - offset],
                self.rx_largest_packet == packet_num,
                self.rx_page_num == page_num,
                self.version == old(self).version || self.version == version,
                self.version == (if version > old(self).version {
                    version
                } else {
                    old(self).version
                }),
                self.client == old(self).client,
            decreases PACKET_SIZE - i,
        {
            self.rx_page[offset + i] = payload[i];
            i = i + 1;
        }
        assert(self.rx_page@ =~= splice(before, offset as int, payload@.subrange(0, PACKET_SIZE as int)));
        if packet_num * PACKET_SIZE == PAGE_SIZE {
            // The last packet of the page: write it to flash
            if self.page_completed() == ReturnCode::SUCCESS {
                return true;
            } else {
                return false;
            }
        }
        match &mut self.client {
            Some(client) => client.write_complete(false),
            None => {},
        }
        true
    }

    /// The page being received.
    pub fn next_page_number(&self) -> (r: usize)
        ensures
            r == self.rx_page_num,
    {
        self.rx_page_num
    }

    /// The page being received.
    pub fn current_page_number(&self) -> (r: usize)
        ensures
            r == self.rx_page_num,
    {
        self.rx_page_num
    }

    pub fn current_version_number(&self) -> (r: usize)
        ensures
            r == self.version,
    {
        self.version
    }

    /// The packet expected next.
    pub fn next_packet_number(&self) -> (r: usize)
        requires
            self.rx_largest_packet < usize::MAX,
        ensures
            r == self.rx_largest_packet + 1,
    {
        self.rx_largest_packet + 1
    }

    /// The largest packet received of the page being received.
    pub fn current_packet_number(&self) -> (r: usize)
        ensures
            r == self.rx_largest_packet,
    {
        self.rx_largest_packet
    }

    /// Serves packet `packet_num` of page `page_num`, which must already be
    /// complete: directly from the served page when it holds that page, else
    /// by reading the page from flash first. Returns whether the packet was
    /// or will be served.
    pub fn get_requested_packet(&mut self, page_num: usize, packet_num: usize) -> (r: bool)
        requires
            page_num <= old(self).rx_page_num ==> packet_num >= 1 && (packet_num - 1) * PACKET_SIZE
                + PACKET_SIZE <= usize::MAX,
        ensures
            page_num > old(self).rx_page_num ==> !r && *final(self) == *old(self),
            page_num <= old(self).rx_page_num && packet_offset(packet_num) + PACKET_SIZE > PAGE_SIZE
                ==> !r && *final(self) == *old(self),
            page_num <= old(self).rx_page_num && packet_offset(packet_num) + PACKET_SIZE <= PAGE_SIZE
                && old(self).tx_page_num == Some(page_num) ==> r && final(self).requested_page_num
                == old(self).requested_page_num && final(self).requested_packet_num == old(
                self,
            ).requested_packet_num,
            page_num <= old(self).rx_page_num && packet_offset(packet_num) + PACKET_SIZE <= PAGE_SIZE
                && old(self).tx_page_num != Some(page_num) ==> final(self).requested_page_num
                == page_num && final(self).requested_packet_num == packet_num,
            final(self).rx_page_num == old(self).rx_page_num,
            final(self).rx_largest_packet == old(self).rx_largest_packet,
            final(self).tx_page_num == old(self).tx_page_num,
            final(self).version == old(self).version,
            page_num <= old(self).rx_page_num && packet_offset(packet_num) + PACKET_SIZE <= PAGE_SIZE
                && old(self).tx_page_num == Some(page_num) ==> packet_handed(
                old(self).client,
                final(self).client,
                page_num,
                packet_num,
                old(self).tx_page@.subrange(packet_offset(packet_num), packet_offset(packet_num) + PACKET_SIZE),
            ),
            page_num <= old(self).rx_page_num && packet_offset(packet_num) + PACKET_SIZE <= PAGE_SIZE
                && old(self).tx_page_num != Some(page_num) ==> r == old(self).flash_driver.accepts_read(page_num)
                && final(self).client == old(self).client,
    {
        // Only pages already received can be served
        if page_num > self.rx_page_num {
            return false;
        }
        let offset = (packet_num - 1) * PACKET_SIZE;
        if offset + PACKET_SIZE > PAGE_SIZE {
            return false;
        }
        let have_page = match self.tx_page_num {
            Some(tx_page_num) => tx_page_num == page_num,
            None => false,
        };
        if !have_page {
            self.requested_packet_num = packet_num;
            self.requested_page_num = page_num;
            if self.flash_driver.get_page(page_num) == ReturnCode::SUCCESS {
                self.requested_packet_num = packet_num;
                self.requested_page_num = page_num;
            } else {
                // The flash driver could not start the read
                return false;
            }
            return true;
        }
        // The page is in the buffer
        let packet = slice_of(&self.tx_page, offset, PACKET_SIZE);
        let bytes = packet.as_slice();
        let ghost before = self.client;
        match &mut self.client {
            Some(client) => {
                client.read_complete(page_num, packet_num, bytes);
            },
            None => {},
        }
        proof {
            if before is Some {
                assert((before->0).packet_read(&self.client->0, page_num, packet_num, bytes));
            }
        }
        true
    }

    pub fn set_client(&mut self, client: C)
        ensures
            *final(self) == (ProgramState { client: Some(client), ..*old(self) }),
    {
        self.client = Some(client);
    }
}

/// Copies `page[offset..offset + n]`.
fn slice_of(page: &[u8; 512], offset: usize, n: usize) -> (r: Vec<u8>)
    requires
        offset + n <= 512,
    ensures
        r@ == page@.subrange(offset as int, offset + n),
{
    let mut v: Vec<u8> = Vec::new();
    let mut i: usize = 0;
    while i < n
        invariant
            i <= n,
            offset + n <= 512,
            v@ == page@.subrange(offset as int, offset + i),
        decreases n - i,
    {
        v.push(page[offset + i]);
        i = i + 1;
        assert(v@ =~= page@.subrange(offset as int, offset + i));
    }
    v
}

} // verus!
