//! A context store holding a single compression context.

use vstd::prelude::*;
use vstd::slice::slice_to_vec;
use crate::net::ip6::Address;
use crate::net::lowpan::{Context, ContextModel, ContextStore, opt_ctx};
use crate::net::util::{matches_prefix, prefix_matches};

verus! {

/// A context store whose only context is context 0.
pub struct DummyStore {
    pub context0: Context,
}

/// A copy of `ctx`.
fn copy_context(ctx: &Context) -> (r: Context)
    ensures
        r@ == ctx@,
{
    Context {
        prefix: slice_to_vec(ctx.prefix.as_slice()),
        prefix_len: ctx.prefix_len,
        id: ctx.id,
        compress: ctx.compress,
    }
}

impl DummyStore {
    pub fn new(context0: Context) -> (r: DummyStore)
        ensures
            r.context0 == context0,
    {
        DummyStore { context0: context0 }
    }
}

impl ContextStore for DummyStore {
    /// Context 0 when the address lies in its prefix.
    open spec fn context_for_addr(&self, addr: Seq<u8>) -> Option<ContextModel> {
        if prefix_matches(addr, self.context0.prefix@, self.context0.prefix_len) {
            Some(self.context0@)
        } else {
            None
        }
    }

    /// Context 0 for identifier 0.
    open spec fn context_for_id(&self, id: u8) -> Option<ContextModel> {
        if id == 0 {
            Some(self.context0@)
        } else {
            None
        }
    }

    /// Context 0 for its own prefix length and a prefix that matches it.
    open spec fn context_for_prefix(&self, prefix: Seq<u8>, prefix_len: u8) -> Option<ContextModel> {
        if prefix_len == self.context0.prefix_len && prefix_matches(prefix, self.context0.prefix@, prefix_len) {
            Some(self.context0@)
        } else {
            None
        }
    }

    fn get_context_from_addr(&self, ip_addr: Address) -> (r: Option<Context>) {
        if matches_prefix(&ip_addr.0, self.context0.prefix.as_slice(), self.context0.prefix_len) {
            Some(copy_context(&self.context0))
        } else {
            None
        }
    }

    fn get_context_from_id(&self, ctx_id: u8) -> (r: Option<Context>) {
        if ctx_id == 0 {
            Some(copy_context(&self.context0))
        } else {
            None
        }
    }

    fn get_context_from_prefix(&self, prefix: &[u8], prefix_len: u8) -> (r: Option<Context>) {
        if prefix_len == self.context0.prefix_len && matches_prefix(
            prefix,
            self.context0.prefix.as_slice(),
            prefix_len,
        ) {
            Some(copy_context(&self.context0))
        } else {
            None
        }
    }
}

} // verus!
