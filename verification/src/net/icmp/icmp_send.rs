//! Callbacks of the ICMP sending layer.

use vstd::prelude::*;
use crate::returncode::ReturnCode;

verus! {

/// Receives the completion of an ICMP transmission.
pub trait ICMPSendClient {
    fn send_done(&self, result: ReturnCode);
}

} // verus!
