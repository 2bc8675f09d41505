//! Building the configuration of a node in an additive way.

use vstd::prelude::*;
use std::path::PathBuf;
use std::time::Duration;
use bitcoin::Network;
use crate::config::{
    ConnectionType, DnsResolver, FilterSyncPolicy, HeaderCheckpoint, IpAddress, LogLevel,
    NodeConfig, PeerStoreSizeConfig, TrustedPeer, DNS_RESOLVER_PORT,
};

verus! {

/// The fewest peer connections a node maintains.
pub const MIN_PEERS: u8 = 1;

/// The most peer connections a node maintains.
pub const MAX_PEERS: u8 = 15;

/// `n` clamped to the range `lo ..= hi`.
pub open spec fn clamped(n: int, lo: int, hi: int) -> int {
    if n < lo {
        lo
    } else if n > hi {
        hi
    } else {
        n
    }
}

/// Build the configuration of a node in an additive way.
pub struct NodeBuilder {
    pub config: NodeConfig,
    pub network: Network,
}

impl NodeBuilder {
    /// Create a new [`NodeBuilder`], with the default configuration.
    pub fn new(network: Network) -> (b: Self)
        ensures
            b.config.is_default(),
            b.network == network,
    {
        NodeBuilder { config: NodeConfig::default(), network }
    }

    /// Add preferred peers to try to connect to.
    pub fn add_peers(self, whitelist: Vec<TrustedPeer>) -> (b: Self)
        ensures
            b.config.white_list@ == self.config.white_list@ + whitelist@,
            b.network == self.network,
            b.config == (NodeConfig { white_list: b.config.white_list, ..self.config }),
    {
        let mut b = self;
        let mut added = whitelist;
        b.config.white_list.append(&mut added);
        b
    }

    /// Add a preferred peer to try to connect to.
    pub fn add_peer(self, trusted_peer: TrustedPeer) -> (b: Self)
        ensures
            b.config.white_list@ == self.config.white_list@.push(trusted_peer),
            b.network == self.network,
            b.config == (NodeConfig { white_list: b.config.white_list, ..self.config }),
    {
        let mut b = self;
        b.config.white_list.push(trusted_peer);
        b
    }

    /// Add a path to the directory where data should be stored. If none is
    /// provided, the current working directory will be used.
    pub fn data_dir(self, path: PathBuf) -> (b: Self)
        ensures
            b.network == self.network,
            b.config == (NodeConfig { data_path: Some(path), ..self.config }),
    {
        let mut b = self;
        b.config.data_path = Some(path);
        b
    }

    /// Add the minimum number of peer connections that should be maintained
    /// by the node. If none is provided, a single connection will be
    /// maintained. The number of connections will be clamped to a range of
    /// 1 to 15.
    pub fn required_peers(self, num_peers: u8) -> (b: Self)
        ensures
            b.config.required_peers == clamped(
                num_peers as int,
                MIN_PEERS as int,
                MAX_PEERS as int,
            ),
            b.network == self.network,
            b.config == (NodeConfig { required_peers: b.config.required_peers, ..self.config }),
    {
        let mut b = self;
        b.config.required_peers = if num_peers < MIN_PEERS {
            MIN_PEERS
        } else if num_peers > MAX_PEERS {
            MAX_PEERS
        } else {
            num_peers
        };
        b
    }

    /// Set the desired number of peers for the database to keep track of.
    /// If none is provided, no limit to the size of the store will be
    /// introduced.
    pub fn peer_db_size(self, target: PeerStoreSizeConfig) -> (b: Self)
        ensures
            b.network == self.network,
            b.config == (NodeConfig { target_peer_size: target, ..self.config }),
    {
        let mut b = self;
        b.config.target_peer_size = target;
        b
    }

    /// Add a checkpoint for the node to look for relevant blocks strictly
    /// after the given height. If none is provided, the most recent
    /// checkpoint will be used.
    pub fn anchor_checkpoint(self, checkpoint: HeaderCheckpoint) -> (b: Self)
        ensures
            b.network == self.network,
            b.config == (NodeConfig { header_checkpoint: Some(checkpoint), ..self.config }),
    {
        let mut b = self;
        b.config.header_checkpoint = Some(checkpoint);
        b
    }

    /// Add a checkpoint below which block data may be pruned.
    pub fn prune_point(self, checkpoint: HeaderCheckpoint) -> (b: Self)
        ensures
            b.network == self.network,
            b.config == (NodeConfig { prune_point: Some(checkpoint), ..self.config }),
    {
        let mut b = self;
        b.config.prune_point = Some(checkpoint);
        b
    }

    /// Set the [`LogLevel`].
    pub fn log_level(self, log_level: LogLevel) -> (b: Self)
        ensures
            b.network == self.network,
            b.config == (NodeConfig { log_level, ..self.config }),
    {
        let mut b = self;
        b.config.log_level = log_level;
        b
    }

    /// Set the desired communication channel. Either directly over TCP or
    /// over the Tor network.
    pub fn connection_type(self, connection_type: ConnectionType) -> (b: Self)
        ensures
            b.network == self.network,
            b.config == (NodeConfig { connection_type, ..self.config }),
    {
        let mut b = self;
        b.config.connection_type = connection_type;
        b
    }

    /// Set the time a peer has to respond to a message from the local node.
    /// If none is provided, a timeout of 5 seconds will be used.
    pub fn response_timeout(self, response_timeout: Duration) -> (b: Self)
        ensures
            b.network == self.network,
            b.config == (NodeConfig { response_timeout, ..self.config }),
    {
        let mut b = self;
        b.config.response_timeout = response_timeout;
        b
    }

    /// The maximum connection time that will be maintained with a remote
    /// peer, regardless of the quality of the peer. If none is provided, a
    /// maximum connection time of two hours will be used.
    pub fn maximum_connection_time(self, max_connection_time: Duration) -> (b: Self)
        ensures
            b.network == self.network,
            b.config == (NodeConfig { max_connection_time, ..self.config }),
    {
        let mut b = self;
        b.config.max_connection_time = max_connection_time;
        b
    }

    /// Configure the DNS resolver to use when querying DNS seeds, on port
    /// 53. Default is `1.1.1.1:53`.
    pub fn dns_resolver(self, resolver: IpAddress) -> (b: Self)
        ensures
            b.network == self.network,
            b.config == (NodeConfig {
                dns_resolver: DnsResolver { ip: resolver, port: DNS_RESOLVER_PORT },
                ..self.config
            }),
    {
        let mut b = self;
        b.config.dns_resolver = DnsResolver { ip: resolver, port: DNS_RESOLVER_PORT };
        b
    }

    /// Stop the node from downloading and checking compact block filters
    /// until an explicit command by the client is made.
    pub fn halt_filter_download(self) -> (b: Self)
        ensures
            b.network == self.network,
            b.config == (NodeConfig { filter_sync_policy: FilterSyncPolicy::Halt, ..self.config }),
    {
        let mut b = self;
        b.config.filter_sync_policy = FilterSyncPolicy::Halt;
        b
    }

    /// Hands over the configuration that a node is built with, leaving the
    /// default configuration in its place.
    pub fn take_config(&mut self) -> (c: NodeConfig)
        ensures
            c == old(self).config,
            final(self).config.is_default(),
            final(self).network == old(self).network,
    {
        let mut c = NodeConfig::default();
        std::mem::swap(&mut c, &mut self.config);
        c
    }
}

/// However many connections are asked for, the node maintains between 1
/// and 15, and a number in that range is kept as asked.
pub proof fn lemma_required_peers_in_range(num_peers: u8)
    ensures
        MIN_PEERS <= clamped(num_peers as int, MIN_PEERS as int, MAX_PEERS as int) <= MAX_PEERS,
        MIN_PEERS <= num_peers <= MAX_PEERS ==> clamped(
            num_peers as int,
            MIN_PEERS as int,
            MAX_PEERS as int,
        ) == num_peers,
{
}

} // verus!
