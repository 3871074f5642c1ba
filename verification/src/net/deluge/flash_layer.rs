//! The flash layer under the Deluge program state: reads and writes whole
//! pages.

use vstd::prelude::*;
use crate::returncode::ReturnCode;
use crate::hil::flash::Flash;

verus! {

/// Receives the completion of flash reads and writes.
pub trait DelugeFlashClient {
    fn read_complete(&mut self, buffer: &[u8]);

    fn write_complete(&mut self);
}

/// Reads and writes pages of the program image.
pub trait DelugeFlashState {
    /// Whether a read of page `page_num` can start now.
    spec fn accepts_read(&self, page_num: usize) -> bool;

    /// Starts reading page `page_num`; its contents arrive in a later
    /// `read_complete`. `SUCCESS` when the read started.
    fn get_page(&mut self, page_num: usize) -> (r: ReturnCode)
        ensures
            (r == ReturnCode::SUCCESS) == old(self).accepts_read(page_num),
    ;

    /// Whether a write of page `page_num` can start now.
    spec fn accepts_write(&self, page_num: usize) -> bool;

    /// Starts writing `completed_page` as page `page_num`; `SUCCESS` when
    /// the write started.
    fn page_completed(&mut self, page_num: usize, completed_page: &[u8]) -> (r: ReturnCode)
        ensures
            (r == ReturnCode::SUCCESS) == old(self).accepts_write(page_num),
    ;
}

/// The flash layer's state: the driver, the client told of completions,
/// whether its page buffer is free, and the flash page at which the image
/// starts.
pub struct FlashState<F: Flash, C: DelugeFlashClient> {
    pub flash_driver: F,
    pub client: Option<C>,
    /// Whether the page buffer is available for a new operation.
    pub buffer_free: bool,
    pub num_pages_offset: usize,
}

impl<F: Flash, C: DelugeFlashClient> FlashState<F, C> {
    /// A flash layer over `flash_driver` whose image starts at page
    /// `num_pages_offset`, with its page buffer available and no client.
    pub fn new(flash_driver: F, num_pages_offset: usize) -> (r: FlashState<F, C>)
        ensures
            r.flash_driver == flash_driver,
            r.client is None,
            r.buffer_free,
            r.num_pages_offset == num_pages_offset,
    {
        FlashState { flash_driver: flash_driver, client: None, buffer_free: true, num_pages_offset: num_pages_offset }
    }

    /// Sets the client told of completed reads and writes.
    pub fn set_client(&mut self, client: C)
        ensures
            *final(self) == (FlashState { client: Some(client), ..*old(self) }),
    {
        self.client = Some(client);
    }

    /// Starts reading page `page_num` of the image, unless the page buffer is
    /// in use.
    pub fn get_page(&mut self, page_num: usize) -> (r: ReturnCode)
        requires
            old(self).num_pages_offset + page_num <= usize::MAX,
        ensures
            !old(self).buffer_free ==> r == ReturnCode::EBUSY && *final(self) == *old(self),
            old(self).buffer_free ==> r == ReturnCode::SUCCESS && !final(self).buffer_free
                && final(self).num_pages_offset == old(self).num_pages_offset
                && final(self).flash_driver.last_read() == Some((old(self).num_pages_offset + page_num) as usize),
    {
        if !self.buffer_free {
            return ReturnCode::EBUSY;
        }
        self.buffer_free = false;
        self.flash_driver.read_page(self.num_pages_offset + page_num);
        ReturnCode::SUCCESS
    }

    /// Starts writing `completed_page` as page `page_num` of the image,
    /// unless the page buffer is in use.
    pub fn page_completed(&mut self, page_num: usize, completed_page: &[u8]) -> (r: ReturnCode)
        requires
            old(self).num_pages_offset + page_num <= usize::MAX,
        ensures
            !old(self).buffer_free ==> r == ReturnCode::EBUSY && *final(self) == *old(self),
            old(self).buffer_free ==> {
                &&& r == ReturnCode::SUCCESS
                &&& !final(self).buffer_free
                &&& final(self).num_pages_offset == old(self).num_pages_offset
                &&& final(self).flash_driver.last_write() matches Some((p, d))
                &&& p == old(self).num_pages_offset + page_num
                &&& d@ == completed_page@
            },
    {
        if !self.buffer_free {
            return ReturnCode::EBUSY;
        }
        self.buffer_free = false;
        self.flash_driver.write_page(self.num_pages_offset + page_num, completed_page);
        ReturnCode::SUCCESS
    }

    /// A read finished with the page in `buffer`: the client gets it, and
    /// the page buffer is available again.
    pub fn read_complete(&mut self, buffer: &[u8])
        ensures
            final(self).buffer_free,
            final(self).num_pages_offset == old(self).num_pages_offset,
            final(self).flash_driver == old(self).flash_driver,
            final(self).client is Some == old(self).client is Some,
    {
        match &mut self.client {
            Some(client) => client.read_complete(buffer),
            None => {},
        }
        self.buffer_free = true;
    }

    /// A write finished: the client is told, and the page buffer is
    /// available again.
    pub fn write_complete(&mut self)
        ensures
            final(self).buffer_free,
            final(self).num_pages_offset == old(self).num_pages_offset,
            final(self).flash_driver == old(self).flash_driver,
            final(self).client is Some == old(self).client is Some,
    {
        match &mut self.client {
            Some(client) => client.write_complete(),
            None => {},
        }
        self.buffer_free = true;
    }
}

} // verus!
