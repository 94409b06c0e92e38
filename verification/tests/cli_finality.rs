use commonware_cryptography::Signer;
use k256::ecdsa::SigningKey;

use kora::cli::{format_bootstrappers, is_listed, parse_public_keys, validator_index, Cli, Command, KeyParseError, RunMode};
use kora::evm::Evm;
use kora::finality::{agree, AgreementError, FinalizationTracker};
use kora::rpc::api::NetApiImpl;
use kora::stubs::{zero_digest, ActivityKind, LogLevel, StubAutomaton, StubReporter};
use kora::txpool::config::PoolConfig;
use kora::txpool::validator::TransactionValidator;

fn ed_key(seed: u64) -> [u8; 32] {
    let key = commonware_cryptography::ed25519::PrivateKey::from_seed(seed).public_key();
    let mut out = [0u8; 32];
    out.copy_from_slice(key.as_ref());
    out
}

fn cli(command: Option<Command>) -> Cli {
    Cli { command, config: None, verbose: false, chain_id: None, data_dir: None }
}

#[test]
fn commands_select_the_run_mode() {
    assert_eq!(cli(None).run(), RunMode::Legacy);
    assert_eq!(cli(Some(Command::Dkg { peers: "p.json".into(), force_restart: false })).run(), RunMode::Dkg);
    assert_eq!(cli(Some(Command::Validator { peers: None })).run(), RunMode::Validator);
    assert_eq!(cli(Some(Command::Secondary { peers: "p.json".into() })).run(), RunMode::Secondary);
}

#[test]
fn overrides_replace_configured_values() {
    let mut c = cli(None);
    assert_eq!(c.apply_overrides(1, "/data".into()), (1, "/data".to_string()));
    c.chain_id = Some(1337);
    c.data_dir = Some("/tmp/kora".into());
    assert_eq!(c.apply_overrides(1, "/data".into()), (1337, "/tmp/kora".to_string()));
}

#[test]
fn our_index_among_participants() {
    let keys = vec![ed_key(1), ed_key(2), ed_key(3)];
    assert_eq!(validator_index(&keys, &ed_key(2)), Some(1));
    assert_eq!(validator_index(&keys, &ed_key(9)), None);
    assert!(is_listed(&keys, &ed_key(3)));
    assert!(!is_listed(&keys, &ed_key(4)));
}

#[test]
fn bootstrappers_are_formatted_with_hex_keys() {
    let k = ed_key(5);
    let out = format_bootstrappers(&vec![(k, "10.0.0.1:30303".to_string())]);
    assert_eq!(out, vec![format!("{}@10.0.0.1:30303", hex::encode(k))]);
}

#[test]
fn public_keys_are_read_from_hex() {
    let keys = vec![hex::encode(ed_key(1)), hex::encode(ed_key(2))];
    assert_eq!(parse_public_keys(&keys).unwrap(), vec![ed_key(1), ed_key(2)]);
    assert!(matches!(parse_public_keys(&vec!["zz".to_string()]), Err(KeyParseError::Hex(_))));
    assert!(matches!(parse_public_keys(&vec!["abcd".to_string()]), Err(KeyParseError::Key)));
}

#[test]
fn heads_agree_when_all_nodes_reach_the_target() {
    let mut t = FinalizationTracker::new(3, 2);
    let a = [1u8; 32];
    let b = [2u8; 32];
    for node in 0..3u64 {
        t.observe(node, b);
    }
    assert!(!t.all_reached());
    assert_eq!(t.timeout_error(), AgreementError::FinalizationTimeout { expected: 2, actual: 1 });
    for node in 0..3u64 {
        t.observe(node, a);
    }
    t.observe(7, b);
    t.observe(0, b);
    assert!(t.all_reached());
    assert_eq!(t.counts(), vec![2, 2, 2]);
    assert_eq!(t.verdict(), Ok(a));
}

#[test]
fn a_different_head_is_reported() {
    let mut t = FinalizationTracker::new(2, 1);
    t.observe(0, [1u8; 32]);
    assert_eq!(t.verdict(), Err(AgreementError::MissingFinalization { head: [1u8; 32], node: 1 }));
    t.observe(1, [9u8; 32]);
    assert_eq!(t.verdict(), Err(AgreementError::DifferentHead { head: [1u8; 32], node: 1 }));
    assert_eq!(FinalizationTracker::new(0, 1).verdict(), Err(AgreementError::NoFinalization));
}

#[test]
fn readings_must_agree() {
    assert_eq!(agree(None, [3u8; 32]), Ok([3u8; 32]));
    assert_eq!(agree(Some([3u8; 32]), [3u8; 32]), Ok([3u8; 32]));
    assert_eq!(agree(Some([3u8; 32]), [4u8; 32]), Err(([3u8; 32], [4u8; 32])));
}

#[test]
fn evm_address_matches_k256() {
    let mut secret = [0u8; 32];
    secret[31] = 1;
    let key = SigningKey::from_slice(&secret).unwrap();
    let encoded = key.verifying_key().to_encoded_point(false);
    let hash = alloy_primitives::keccak256(&encoded.as_bytes()[1..]);
    let mut expected = [0u8; 20];
    expected.copy_from_slice(&hash[12..]);
    assert_eq!(Evm::address_from_key(&secret), Some(expected));
    assert_eq!(Evm::address_from_key(&[0u8; 32]), None);
}

#[test]
fn signed_transfers_validate() {
    let mut secret = [0u8; 32];
    secret[31] = 3;
    let sender = Evm::address_from_key(&secret).unwrap();
    let raw = Evm::sign_eip1559_transfer(&secret, 1337, &[0xbb; 20], &[0u8; 32], 4, 21000).unwrap();
    // The transfer is an RLP string wrapping the typed encoding.
    let typed = alloy_rlp::Header::decode_bytes(&mut raw.as_slice(), false).unwrap().to_vec();
    let validator = TransactionValidator::new(1337, PoolConfig::default());
    let validated = validator.validate(&typed).unwrap();
    assert_eq!(validated.sender, sender);
    assert_eq!(validated.nonce, 4);
    assert_eq!(validated.encoded, raw);
}

#[test]
fn net_api_reports_version_and_peers() {
    let api = NetApiImpl::new(1337);
    assert_eq!(api.version(), "1337");
    assert!(api.listening());
    assert_eq!(api.peer_count(), 0);
    api.set_peer_count(5);
    assert_eq!(api.peer_count(), 5);
    api.peer_count_handle().store(7, std::sync::atomic::Ordering::Relaxed);
    assert_eq!(api.peer_count(), 7);
}

#[test]
fn zero_digest_is_all_zeros() {
    let digest = zero_digest();
    assert!(digest.iter().all(|&b| b == 0));
}

#[test]
fn stub_automaton_proposes_zero_and_accepts() {
    let mut automaton = StubAutomaton;
    assert_eq!(automaton.genesis(0), zero_digest());
    assert_eq!(automaton.propose(), zero_digest());
    assert!(automaton.verify(&[5u8; 32]));
}

#[test]
fn stub_reporter_default() {
    let reporter: StubReporter<u8> = StubReporter::default();
    assert!(format!("{:?}", reporter).contains("StubReporter"));
}

#[test]
fn stub_reporter_levels() {
    let mut reporter: StubReporter<u8> = StubReporter::default();
    assert_eq!(reporter.report(ActivityKind::Finalization), (LogLevel::Info, "finalization"));
    assert_eq!(reporter.report(ActivityKind::Notarize), (LogLevel::Trace, "notarize vote"));
    assert_eq!(reporter.report(ActivityKind::ConflictingFinalize), (LogLevel::Warn, "conflicting finalize detected"));
}

#[test]
fn dkg_config_finds_this_node_among_the_participants() {
    let key = commonware_cryptography::ed25519::PrivateKey::from_seed(9);
    let mut seed = [0u8; 32];
    seed.copy_from_slice(&commonware_codec::Encode::encode(&key));
    let mut me = [0u8; 32];
    me.copy_from_slice(commonware_cryptography::Signer::public_key(&key).as_ref());
    let other = [7u8; 32];
    let config = kora::cli::dkg_config(
        seed,
        vec![other, me, me],
        2,
        vec![(other, "node0:30303".to_string())],
        1337,
        "/data".to_string(),
        "0.0.0.0:30303".to_string(),
    )
    .unwrap();
    assert_eq!(config.validator_index, 1);
    assert_eq!(config.my_public_key(), me);
    assert_eq!(config.n(), 3);
    assert_eq!(config.t(), 2);
    assert_eq!(config.timeout_ms, 300_000);
    assert_eq!(config.bootstrap_peers.len(), 1);
    assert_eq!(config.listen_addr, "0.0.0.0:30303");
    let refused = kora::cli::dkg_config(seed, vec![other], 1, vec![], 1, String::new(), String::new());
    assert_eq!(refused.unwrap_err(), "Our public key not found in participants list");
}

#[test]
fn secondary_admission_requires_a_listed_identity() {
    let key = commonware_cryptography::ed25519::PrivateKey::from_seed(11);
    let mut seed = [0u8; 32];
    seed.copy_from_slice(&commonware_codec::Encode::encode(&key));
    let mut me = [0u8; 32];
    me.copy_from_slice(key.public_key().as_ref());
    assert!(kora::cli::secondary_admission(seed, &vec![[1u8; 32], me]).is_ok());
    assert_eq!(
        kora::cli::secondary_admission(seed, &vec![[1u8; 32]]).unwrap_err(),
        "secondary identity is not listed in peers.json secondary_participants"
    );
}

#[test]
fn a_target_of_zero_is_never_reached() {
    let mut t = FinalizationTracker::new(2, 0);
    for _ in 0..3 {
        t.observe(0, [1u8; 32]);
        t.observe(1, [1u8; 32]);
    }
    assert!(!t.all_reached());
    assert_eq!(t.counts(), vec![3, 3]);
    assert_eq!(t.timeout_error(), AgreementError::FinalizationTimeout { expected: 0, actual: 3 });
}
