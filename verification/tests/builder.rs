use std::time::Duration;

use bitcoin::p2p::address::AddrV2;
use bitcoin::p2p::ServiceFlags;
use bitcoin::{BlockHash, Network};

use yuki::builder::NodeBuilder;
use yuki::config::{
    ConnectionType, DnsResolver, FilterSyncPolicy, HeaderCheckpoint, IpAddress, LogLevel,
    PeerStoreSizeConfig, TrustedPeer,
};

fn peer(last: u8) -> TrustedPeer {
    TrustedPeer {
        address: AddrV2::I2p([last; 32]),
        port: None,
        known_services: ServiceFlags::NONE,
    }
}

#[test]
fn defaults_follow_the_docs() {
    let builder = NodeBuilder::new(Network::Regtest);
    let config = &builder.config;
    assert_eq!(builder.network, Network::Regtest);
    assert!(config.white_list.is_empty());
    assert!(config.data_path.is_none());
    assert_eq!(config.required_peers, 1);
    assert_eq!(config.target_peer_size, PeerStoreSizeConfig::Unbounded);
    assert!(config.header_checkpoint.is_none());
    assert!(config.prune_point.is_none());
    assert_eq!(config.connection_type, ConnectionType::ClearNet);
    assert_eq!(config.response_timeout, Duration::from_secs(5));
    assert_eq!(config.max_connection_time, Duration::from_secs(2 * 60 * 60));
    assert_eq!(
        config.dns_resolver,
        DnsResolver { ip: IpAddress::V4(u32::from_be_bytes([1, 1, 1, 1])), port: 53 }
    );
    assert_eq!(config.filter_sync_policy, FilterSyncPolicy::Continue);
}

#[test]
fn minimal_configuration_with_one_peer() {
    let builder = NodeBuilder::new(Network::Regtest).add_peers(vec![peer(0)]);
    assert_eq!(builder.config.white_list.len(), 1);
    let builder = builder.add_peer(peer(1)).add_peers(vec![peer(2), peer(3)]);
    let lasts: Vec<AddrV2> = builder.config.white_list.iter().map(|p| p.address.clone()).collect();
    assert_eq!(
        lasts,
        vec![
            AddrV2::I2p([0; 32]),
            AddrV2::I2p([1; 32]),
            AddrV2::I2p([2; 32]),
            AddrV2::I2p([3; 32]),
        ]
    );
}

#[test]
fn required_peers_is_clamped() {
    let b = NodeBuilder::new(Network::Signet).required_peers(0);
    assert_eq!(b.config.required_peers, 1);
    let b = b.required_peers(2);
    assert_eq!(b.config.required_peers, 2);
    let b = b.required_peers(15);
    assert_eq!(b.config.required_peers, 15);
    let b = b.required_peers(200);
    assert_eq!(b.config.required_peers, 15);
}

#[test]
fn setters_set_their_field() {
    let checkpoint = HeaderCheckpoint { height: 170_000, hash: <BlockHash as bitcoin::hashes::Hash>::from_byte_array([7; 32]) };
    let b = NodeBuilder::new(Network::Signet)
        .anchor_checkpoint(checkpoint)
        .prune_point(HeaderCheckpoint { height: 5, hash: <BlockHash as bitcoin::hashes::Hash>::all_zeros() })
        .peer_db_size(PeerStoreSizeConfig::Limit(256))
        .log_level(LogLevel::Warning)
        .connection_type(ConnectionType::Socks5Proxy(IpAddress::V4(0x7f00_0001), 9050))
        .response_timeout(Duration::from_secs(30))
        .maximum_connection_time(Duration::from_secs(60))
        .dns_resolver(IpAddress::V4(0x0808_0808))
        .data_dir(std::path::PathBuf::from("/tmp/node"))
        .halt_filter_download();
    let c = &b.config;
    assert_eq!(c.header_checkpoint.unwrap().height, 170_000);
    assert_eq!(c.header_checkpoint.unwrap().hash, <BlockHash as bitcoin::hashes::Hash>::from_byte_array([7; 32]));
    assert_eq!(c.prune_point.unwrap().height, 5);
    assert_eq!(c.target_peer_size, PeerStoreSizeConfig::Limit(256));
    assert_eq!(c.log_level, LogLevel::Warning);
    assert_eq!(c.connection_type, ConnectionType::Socks5Proxy(IpAddress::V4(0x7f00_0001), 9050));
    assert_eq!(c.response_timeout, Duration::from_secs(30));
    assert_eq!(c.max_connection_time, Duration::from_secs(60));
    assert_eq!(c.dns_resolver, DnsResolver { ip: IpAddress::V4(0x0808_0808), port: 53 });
    assert_eq!(c.data_path, Some(std::path::PathBuf::from("/tmp/node")));
    assert_eq!(c.filter_sync_policy, FilterSyncPolicy::Halt);
    assert_eq!(c.required_peers, 1);
}

#[test]
fn take_config_leaves_the_default() {
    let mut b = NodeBuilder::new(Network::Testnet).required_peers(7).halt_filter_download();
    let taken = b.take_config();
    assert_eq!(taken.required_peers, 7);
    assert_eq!(taken.filter_sync_policy, FilterSyncPolicy::Halt);
    assert_eq!(b.config.required_peers, 1);
    assert_eq!(b.config.filter_sync_policy, FilterSyncPolicy::Continue);
    assert_eq!(b.network, Network::Testnet);
}
