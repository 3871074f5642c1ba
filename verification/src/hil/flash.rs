//! Page-based flash storage.

use vstd::prelude::*;

verus! {

/// A flash device read and written a page at a time; completions arrive
/// asynchronously.
pub trait Flash {
    /// The page last asked to be read.
    spec fn last_read(&self) -> Option<usize>;

    /// The page last asked to be written, with the data for it.
    spec fn last_write(&self) -> Option<(usize, Vec<u8>)>;

    /// Starts reading page `page_number`.
    fn read_page(&mut self, page_number: usize)
        ensures
            final(self).last_read() == Some(page_number),
    ;

    /// Starts writing `data` to page `page_number`.
    fn write_page(&mut self, page_number: usize, data: &[u8])
        ensures
            final(self).last_write() matches Some((p, d)) && p == page_number && d@ == data@,
    ;
}

} // verus!
