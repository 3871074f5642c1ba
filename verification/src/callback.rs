//! Identifiers of the applications that callbacks are delivered to.

use vstd::prelude::*;

verus! {

/// Identifies an application by its index in the process table.
#[derive(Copy, Clone, Debug, PartialEq, Eq, Structural)]
pub struct AppId {
    idx: usize,
}

impl AppId {
    /// The identifier of the application at `idx`.
    pub fn new(idx: usize) -> (r: AppId)
        ensures
            r.index() == idx,
    {
        AppId { idx }
    }

    /// The index this identifier names.
    pub closed spec fn index(&self) -> usize {
        self.idx
    }

    /// The index of the application in the process table.
    pub fn idx(&self) -> (r: usize)
        ensures
            r == self.index(),
    {
        self.idx
    }
}

} // verus!
