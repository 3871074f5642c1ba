//! Callbacks of the IP layer.

use vstd::prelude::*;
use crate::returncode::ReturnCode;

verus! {

/// Receives IP packets and the completion of transmissions.
pub trait IPClient {
    fn receive(&self, buf: &[u8], len: u16, result: ReturnCode);

    fn send_done(&self, buf: &'static mut [u8], acked: bool, result: ReturnCode);
}

} // verus!
