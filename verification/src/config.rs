//! The settings a node is built with.

use vstd::prelude::*;
use std::path::PathBuf;
use std::time::Duration;
use bitcoin::BlockHash;
use bitcoin::p2p::address::AddrV2;
use bitcoin::p2p::ServiceFlags;
use crate::outside::{duration_from_secs, duration_of_secs};

verus! {

/// The port DNS seeds are queried on.
pub const DNS_RESOLVER_PORT: u16 = 53;

/// Seconds a peer has to answer, unless configured otherwise.
pub const DEFAULT_RESPONSE_TIMEOUT_SECS: u64 = 5;

/// Seconds a connection is kept at most, unless configured otherwise: two hours.
pub const DEFAULT_MAX_CONNECTION_SECS: u64 = 7200;

/// An IP address, by its bits in network byte order (the most significant
/// byte first, as `Ipv4Addr::to_bits` gives them).
#[derive(Debug, Clone, Copy, PartialEq, Eq, Structural)]
pub enum IpAddress {
    V4(u32),
    V6(u128),
}

/// `1.1.1.1`.
pub const CLOUDFLARE_DNS: u32 = 0x0101_0101;

/// A peer that the node prefers to connect to.
#[derive(Debug)]
pub struct TrustedPeer {
    pub address: AddrV2,
    pub port: Option<u16>,
    pub known_services: ServiceFlags,
}

/// How many peers the peer database should keep track of.
#[derive(Debug, Clone, Copy, PartialEq, Eq, Structural)]
pub enum PeerStoreSizeConfig {
    /// No limit.
    Unbounded,
    /// At most this many.
    Limit(u32),
}

/// A block known to be in the best chain, by height and hash.
#[derive(Debug, Clone, Copy)]
pub struct HeaderCheckpoint {
    pub height: u32,
    pub hash: BlockHash,
}

/// How much the node logs.
#[derive(Debug, Clone, Copy, PartialEq, Eq, Structural)]
pub enum LogLevel {
    Debug,
    Info,
    Warning,
}

/// How the node reaches its peers.
#[derive(Debug, Clone, Copy, PartialEq, Eq, Structural)]
pub enum ConnectionType {
    /// Directly over TCP.
    ClearNet,
    /// Through a SOCKS5 proxy, such as Tor, at this address and port.
    Socks5Proxy(IpAddress, u16),
}

/// Whether the node downloads compact block filters on its own.
#[derive(Debug, Clone, Copy, PartialEq, Eq, Structural)]
pub enum FilterSyncPolicy {
    /// Wait for an explicit command from the client.
    Halt,
    /// Download them as soon as the headers are synced.
    Continue,
}

/// Where DNS seeds are resolved.
#[derive(Debug, Clone, Copy, PartialEq, Eq, Structural)]
pub struct DnsResolver {
    pub ip: IpAddress,
    pub port: u16,
}

/// Everything a node is configured with.
#[derive(Debug)]
pub struct NodeConfig {
    pub white_list: Vec<TrustedPeer>,
    pub data_path: Option<PathBuf>,
    pub required_peers: u8,
    pub target_peer_size: PeerStoreSizeConfig,
    pub header_checkpoint: Option<HeaderCheckpoint>,
    pub prune_point: Option<HeaderCheckpoint>,
    pub log_level: LogLevel,
    pub connection_type: ConnectionType,
    pub response_timeout: Duration,
    pub max_connection_time: Duration,
    pub dns_resolver: DnsResolver,
    pub filter_sync_policy: FilterSyncPolicy,
    pub cf_headers_path: Option<PathBuf>,
}

impl NodeConfig {
    /// The settings a node has unless configured otherwise: no preferred
    /// peers, the working directory, a single connection, no limit on the
    /// peer store, the most recent checkpoint, a five second response
    /// timeout, connections of at most two hours, `1.1.1.1:53` for DNS,
    /// and filters downloaded without waiting.
    pub open spec fn is_default(&self) -> bool {
        &&& self.white_list@.len() == 0
        &&& self.data_path is None
        &&& self.required_peers == 1
        &&& self.target_peer_size == PeerStoreSizeConfig::Unbounded
        &&& self.header_checkpoint is None
        &&& self.prune_point is None
        &&& self.log_level == LogLevel::Info
        &&& self.connection_type == ConnectionType::ClearNet
        &&& self.response_timeout == duration_of_secs(DEFAULT_RESPONSE_TIMEOUT_SECS)
        &&& self.max_connection_time == duration_of_secs(DEFAULT_MAX_CONNECTION_SECS)
        &&& self.dns_resolver == (DnsResolver {
            ip: IpAddress::V4(CLOUDFLARE_DNS),
            port: DNS_RESOLVER_PORT,
        })
        &&& self.filter_sync_policy == FilterSyncPolicy::Continue
        &&& self.cf_headers_path is None
    }
}

impl Default for NodeConfig {
    fn default() -> (c: Self)
        ensures
            c.is_default(),
    {
        NodeConfig {
            white_list: Vec::new(),
            data_path: None,
            required_peers: 1,
            target_peer_size: PeerStoreSizeConfig::Unbounded,
            header_checkpoint: None,
            prune_point: None,
            log_level: LogLevel::Info,
            connection_type: ConnectionType::ClearNet,
            response_timeout: duration_from_secs(DEFAULT_RESPONSE_TIMEOUT_SECS),
            max_connection_time: duration_from_secs(DEFAULT_MAX_CONNECTION_SECS),
            dns_resolver: DnsResolver { ip: IpAddress::V4(CLOUDFLARE_DNS), port: DNS_RESOLVER_PORT },
            filter_sync_policy: FilterSyncPolicy::Continue,
            cf_headers_path: None,
        }
    }
}

} // verus!
