use kora::dkg::ceremony::{phase_after, phase_before, step_verdict, CeremonyStep, StepOutcome, StepVerdict};
use kora::dkg::state::DkgPhase;
use commonware_codec::Encode;
use commonware_cryptography::{ed25519, Signer};

use kora::dkg::ceremony::DkgCeremony;
use kora::dkg::config::DkgConfig;
use kora::dkg::error::DkgError;
use kora::dkg::network::DkgPeers;
use kora::dkg::transport::transport_bootstrappers;
use kora::net::IngressAddr;

fn seed_of(key: &ed25519::PrivateKey) -> [u8; 32] {
    let mut out = [0u8; 32];
    out.copy_from_slice(&key.encode());
    out
}

fn public_of(seed: u64) -> [u8; 32] {
    let mut out = [0u8; 32];
    out.copy_from_slice(ed25519::PrivateKey::from_seed(seed).public_key().as_ref());
    out
}

fn config_with(identity: u64, index: usize, participants: Vec<[u8; 32]>, threshold: u32) -> DkgConfig {
    DkgConfig {
        identity_key: seed_of(&ed25519::PrivateKey::from_seed(identity)),
        validator_index: index,
        participants,
        threshold,
        chain_id: 1337,
        data_dir: "/tmp/dkg-test".to_string(),
        listen_addr: "127.0.0.1:8000".to_string(),
        bootstrap_peers: vec![],
        timeout_ms: 60_000,
    }
}

fn test_config() -> DkgConfig {
    config_with(42, 0, vec![public_of(42), public_of(43), public_of(44), public_of(45)], 3)
}

#[test]
fn test_n_returns_participant_count() {
    assert_eq!(test_config().n(), 4);
}

#[test]
fn test_n_with_single_participant() {
    assert_eq!(config_with(42, 0, vec![public_of(42)], 1).n(), 1);
}

#[test]
fn test_n_with_many_participants() {
    let participants: Vec<_> = (0..100).map(public_of).collect();
    assert_eq!(config_with(42, 0, participants, 67).n(), 100);
}

#[test]
fn test_t_returns_threshold() {
    assert_eq!(test_config().t(), 3);
}

#[test]
fn test_t_with_threshold_one() {
    assert_eq!(config_with(42, 0, vec![public_of(42)], 1).t(), 1);
}

#[test]
fn test_t_with_large_threshold() {
    let participants: Vec<_> = (0..100).map(public_of).collect();
    assert_eq!(config_with(42, 0, participants, 67).t(), 67);
}

#[test]
fn test_my_public_key_derived_from_identity() {
    let config = test_config();
    let expected = public_of(42);
    assert_eq!(config.my_public_key(), expected);
}

#[test]
fn test_my_public_key_consistent() {
    let config = test_config();
    assert_eq!(config.my_public_key(), config.my_public_key());
}

#[test]
fn test_my_public_key_different_identities() {
    let participants = vec![public_of(42), public_of(43)];
    let config1 = config_with(42, 0, participants.clone(), 2);
    let config2 = config_with(43, 1, participants, 2);
    assert_ne!(config1.my_public_key(), config2.my_public_key());
}

#[test]
fn test_dkg_config_debug_implementation() {
    let debug_str = format!("{:?}", test_config());
    assert!(!debug_str.is_empty());
    assert!(debug_str.contains("DkgConfig"));
}

#[test]
fn test_dkg_config_clone() {
    let config = test_config();
    let cloned = config.clone();
    assert_eq!(config.n(), cloned.n());
    assert_eq!(config.t(), cloned.t());
    assert_eq!(config.my_public_key(), cloned.my_public_key());
    assert_eq!(config.chain_id, cloned.chain_id);
    assert_eq!(config.validator_index, cloned.validator_index);
}

#[test]
fn test_dkg_config_participants_matches_public_keys() {
    let config = test_config();
    assert_eq!(config.participants.len(), 4);
    assert_eq!(config.participants.len(), config.n());
}

#[test]
fn test_dkg_config_threshold_boundary() {
    let participants: Vec<_> = (0..4).map(public_of).collect();
    let config = config_with(42, 0, participants, 4);
    assert_eq!(config.t(), config.n() as u32);
}

#[test]
fn ceremony_leader_is_the_first_validator() {
    assert!(DkgCeremony::new(test_config()).is_leader());
    let follower = DkgCeremony::new_with_force_restart(config_with(43, 3, vec![], 1), true);
    assert!(!follower.is_leader());
    assert!(follower.force_restart);
    assert!(!DkgCeremony::new(test_config()).force_restart);
}

#[test]
fn ceremony_startup_waits() {
    assert!(DkgCeremony::new(test_config()).startup_waits().is_empty());
    let mut config = config_with(43, 1, vec![], 1);
    assert_eq!(DkgCeremony::new(config.clone()).startup_waits(), vec![2]);
    config.bootstrap_peers.push((public_of(42), "node0:30303".to_string()));
    assert_eq!(DkgCeremony::new(config.clone()).startup_waits(), vec![2, 3]);
    config.validator_index = 0;
    assert_eq!(DkgCeremony::new(config).startup_waits(), vec![3]);
}

#[test]
fn transport_bootstrappers_read_each_address() {
    let mut config = test_config();
    config.bootstrap_peers = vec![
        (public_of(43), "10.0.0.1:30303".to_string()),
        (public_of(44), "node2.example.com:30304".to_string()),
    ];
    let peers = transport_bootstrappers(&config, &vec![true, false]).unwrap();
    assert_eq!(peers.len(), 2);
    assert_eq!(peers[0].0, public_of(43));
    assert!(matches!(&peers[0].1, IngressAddr::Socket(s) if s == "10.0.0.1:30303"));
    assert_eq!(peers[1].0, public_of(44));
    assert!(matches!(&peers[1].1, IngressAddr::Dns { host, port: 30304 } if host == "node2.example.com"));
}

#[test]
fn transport_bootstrappers_stop_at_the_first_bad_address() {
    let mut config = test_config();
    config.bootstrap_peers = vec![
        (public_of(43), "node1:1".to_string()),
        (public_of(44), "bad host:1".to_string()),
        (public_of(45), "nocolon".to_string()),
    ];
    match transport_bootstrappers(&config, &vec![false, false, false]) {
        Err(DkgError::Network(m)) => assert_eq!(m, "Invalid hostname: bad host"),
        other => panic!("unexpected {other:?}"),
    }
}

#[test]
fn peers_know_the_bootstrap_addresses() {
    let mut config = test_config();
    config.bootstrap_peers = vec![
        (public_of(43), "node1:30303".to_string()),
        (public_of(44), "node2:30303".to_string()),
        (public_of(43), "node1b:30303".to_string()),
    ];
    let peers = DkgPeers::new(&config);
    assert_eq!(peers.address_of(&public_of(43)).unwrap(), "node1b:30303");
    assert_eq!(peers.address_of(&public_of(44)).unwrap(), "node2:30303");
    match peers.address_of(&public_of(45)) {
        Err(DkgError::Network(m)) => assert_eq!(m, format!("Unknown peer: {}", hex::encode(public_of(45)))),
        other => panic!("unexpected {other:?}"),
    }
}

#[test]
fn peers_broadcast_to_everyone_else() {
    let peers = DkgPeers::new(&test_config());
    assert_eq!(peers.broadcast_targets(), vec![public_of(43), public_of(44), public_of(45)]);
    assert_eq!(peers.max_degree(), 3);
    let frame = peers.frame(&vec![9, 8]);
    assert_eq!(&frame[..32], &public_of(42));
    assert_eq!(&frame[32..], &[2, 0, 0, 0, 9, 8]);
}

#[test]
fn ceremony_steps_decide_what_follows() {

    assert_eq!(phase_before(CeremonyStep::CollectMessages), Some(DkgPhase::CollectingMessages));
    assert_eq!(phase_before(CeremonyStep::StartDealer), None);
    assert_eq!(phase_after(CeremonyStep::StartDealer), Some(DkgPhase::DealerStarted));
    assert_eq!(phase_after(CeremonyStep::FinalizeDealer), Some(DkgPhase::DealerFinalized));
    assert_eq!(phase_after(CeremonyStep::Finalize), None);

    assert!(matches!(step_verdict(CeremonyStep::CollectLogs, StepOutcome::Succeeded), StepVerdict::Continue));
    assert!(matches!(step_verdict(CeremonyStep::Finalize, StepOutcome::Succeeded), StepVerdict::Complete));
    assert!(matches!(
        step_verdict(CeremonyStep::CollectMessages, StepOutcome::TimedOut { progress: 1, needed: 3 }),
        StepVerdict::Stop { error: DkgError::Timeout, record_failure: false }
    ));
    match step_verdict(CeremonyStep::AwaitReady, StepOutcome::TimedOut { progress: 2, needed: 4 }) {
        StepVerdict::Stop { error: DkgError::CeremonyFailed(m), record_failure: false } => {
            assert_eq!(m, "Phase 2.5 timeout: only 2/4 participants ready")
        }
        other => panic!("unexpected {other:?}"),
    }
    match step_verdict(CeremonyStep::CollectLogs, StepOutcome::TimedOut { progress: 1, needed: 3 }) {
        StepVerdict::Stop { error: DkgError::CeremonyFailed(m), record_failure: false } => {
            assert_eq!(m, "Phase 4 timeout: only collected 1/3 dealer logs")
        }
        other => panic!("unexpected {other:?}"),
    }
    assert!(matches!(
        step_verdict(CeremonyStep::Finalize, StepOutcome::Failed(DkgError::Crypto("bad".to_string()))),
        StepVerdict::Stop { error: DkgError::Crypto(_), record_failure: true }
    ));
    assert!(matches!(
        step_verdict(CeremonyStep::StartDealer, StepOutcome::Failed(DkgError::Crypto("bad".to_string()))),
        StepVerdict::Stop { error: DkgError::Crypto(_), record_failure: false }
    ));
}
