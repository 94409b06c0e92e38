use std::time::Duration;

use kora::node::{
    default_listen_addr, ConsensusProvider, NetworkConfig, NodeBuilder, PeerInitializer, RevmExecutor,
    SimTransportError, remap_socket_port, PORT_BASE_MAX, PORT_BASE_MIN,
};

#[test]
fn test_defaults() {
    assert_eq!(PeerInitializer::DEFAULT_MAILBOX_SIZE, 1024);
    assert_eq!(Duration::from_millis(PeerInitializer::DEFAULT_INITIAL_DELAY), Duration::from_millis(200));
    assert_eq!(Duration::from_millis(PeerInitializer::DEFAULT_TIMEOUT), Duration::from_millis(200));
    assert_eq!(Duration::from_millis(PeerInitializer::DEFAULT_FETCH_RETRY_TIMEOUT), Duration::from_millis(100));
    assert!(!PeerInitializer::PRIORITY_REQUESTS);
    assert!(!PeerInitializer::PRIORITY_RESPONSES);
}

#[test]
fn test_channel_registration_display() {
    let err = SimTransportError::ChannelRegistration("already exists".to_string());
    assert_eq!(err.message(), "channel registration failed: already exists");
}

#[test]
fn test_error_debug() {
    let err = SimTransportError::ChannelRegistration("test".to_string());
    let debug = format!("{:?}", err);
    assert!(debug.contains("ChannelRegistration"));
    assert!(debug.contains("test"));
}

#[test]
fn test_new_creates_unit_builder() {
    let builder = NodeBuilder::new();
    assert!(format!("{builder:?}").contains("NodeBuilder"));
}

#[test]
fn test_default_is_same_as_new() {
    let default_builder = NodeBuilder::default();
    let new_builder = NodeBuilder::new();
    assert_eq!(format!("{default_builder:?}"), format!("{new_builder:?}"));
}

#[derive(Debug, PartialEq)]
struct FixedConsensus(u32);

impl ConsensusProvider for FixedConsensus {}

#[test]
fn builder_carries_consensus_provider() {
    let builder = NodeBuilder::new().with_consensus(FixedConsensus(7));
    assert_eq!(builder.consensus_provider(), &FixedConsensus(7));
    assert_eq!(builder.into_consensus_provider(), FixedConsensus(7));
}

#[test]
fn revm_executor_new() {
    let executor = RevmExecutor::new(1);
    assert_eq!(executor.chain_id(), 1);
}

#[test]
fn revm_executor_default() {
    let executor = RevmExecutor::default();
    assert_eq!(executor.chain_id(), 0);
}

#[test]
fn network_config_defaults() {
    let config = NetworkConfig::default();
    assert_eq!(config.listen_addr, "0.0.0.0:30303");
    assert_eq!(config.dialable_addr, None);
    assert!(config.bootstrap_peers.is_empty());
    assert_eq!(default_listen_addr(), "0.0.0.0:30303");
}

#[test]
fn simulated_ports_move_privileged_ports_only() {
    assert_eq!(remap_socket_port(80, PORT_BASE_MIN), 40080);
    assert_eq!(remap_socket_port(1023, PORT_BASE_MAX), 65534);
    assert_eq!(remap_socket_port(1024, PORT_BASE_MIN), 1024);
    assert_eq!(remap_socket_port(30303, PORT_BASE_MAX), 30303);
}
