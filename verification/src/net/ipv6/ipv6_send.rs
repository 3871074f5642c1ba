//! The IPv6 sending layer: the interface the transport layers send through,
//! and its callbacks.

use vstd::prelude::*;
use crate::returncode::ReturnCode;
use crate::net::ip6::Address;
use crate::net::ip::TransportHeader;
use crate::net::ieee802154::MacAddress;

verus! {

/// Receives the completion of an IPv6 transmission.
pub trait IP6Client {
    fn send_done(&self, result: ReturnCode);
}

/// Sends IPv6 packets on behalf of the transport layers.
pub trait IP6Sender {
    /// The source address packets are sent from.
    spec fn src_addr(&self) -> Address;

    /// The link-layer address packets are sent to.
    spec fn gateway(&self) -> MacAddress;

    /// Whether `after` is this sender once it was asked to send `payload`
    /// behind `transport_header` to `dst`, and answered `r`.
    spec fn sent(
        &self,
        after: &Self,
        dst: Address,
        transport_header: TransportHeader,
        payload: &[u8],
        r: ReturnCode,
    ) -> bool;

    fn set_addr(&mut self, src_addr: Address)
        ensures
            final(self).src_addr() == src_addr,
    ;

    fn set_gateway(&mut self, gateway: MacAddress)
        ensures
            final(self).gateway() == gateway,
    ;

    /// Sends `payload` behind `transport_header` to `dst`; errors are
    /// reported through the client.
    fn send_to(&mut self, dst: Address, transport_header: TransportHeader, payload: &[u8]) -> (r: ReturnCode)
        ensures
            old(self).sent(final(self), dst, transport_header, payload, r),
    ;
}

} // verus!
