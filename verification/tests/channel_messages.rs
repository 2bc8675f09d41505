use bitcoin::p2p::address::AddrV2;
use bitcoin::p2p::ServiceFlags;
use bitcoin::BlockHash;

use yuki::channel_messages::{CombinedAddr, GetHeaderConfig};

#[test]
fn combined_addr_starts_without_services() {
    let addr = AddrV2::I2p([1; 32]);
    let mut c = CombinedAddr::new(addr.clone(), 8333);
    assert_eq!(c.addr, addr);
    assert_eq!(c.port, 8333);
    assert_eq!(c.services, ServiceFlags::NONE);
    c.services(ServiceFlags::NETWORK | ServiceFlags::COMPACT_FILTERS);
    assert_eq!(c.services, ServiceFlags::NETWORK | ServiceFlags::COMPACT_FILTERS);
    assert_eq!(c.port, 8333);
    assert_eq!(c.addr, addr);
}

#[test]
fn header_config_carries_locators() {
    let config = GetHeaderConfig {
        locators: vec![<BlockHash as bitcoin::hashes::Hash>::all_zeros()],
        stop_hash: None,
    };
    let copy = config.clone();
    assert_eq!(copy.locators, vec![<BlockHash as bitcoin::hashes::Hash>::all_zeros()]);
    assert!(copy.stop_hash.is_none());
}
