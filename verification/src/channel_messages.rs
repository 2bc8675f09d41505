//! Values passed between the node and its peer connections.

use vstd::prelude::*;
use bitcoin::BlockHash;
use bitcoin::p2p::address::AddrV2;
use bitcoin::p2p::ServiceFlags;
use crate::outside::{service_flags, service_flags_from_bits};

verus! {

/// What a `getheaders` request asks for: the headers after the first of
/// `locators` that the peer knows, up to `stop_hash` if it is given.
#[derive(Debug, Clone)]
pub struct GetHeaderConfig {
    pub locators: Vec<BlockHash>,
    pub stop_hash: Option<BlockHash>,
}

/// A peer address with its port and the services the peer offers.
#[derive(Debug, Clone)]
pub struct CombinedAddr {
    pub addr: AddrV2,
    pub port: u16,
    pub services: ServiceFlags,
}

impl CombinedAddr {
    /// An address whose peer is not known to offer any service.
    pub fn new(addr: AddrV2, port: u16) -> (c: Self)
        ensures
            c.addr == addr,
            c.port == port,
            c.services == service_flags(0),
    {
        CombinedAddr { addr, port, services: service_flags_from_bits(0) }
    }

    /// Records the services the peer offers.
    pub fn services(&mut self, services: ServiceFlags)
        ensures
            final(self).services == services,
            final(self).addr == old(self).addr,
            final(self).port == old(self).port,
    {
        self.services = services
    }
}

} // verus!
