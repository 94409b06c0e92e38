use commonware_cryptography::Signer;

use kora::dkg::error::DkgError;
use kora::dkg::state::{CeremonySession, SerializedSession};
use kora::idents::{BlockId, IdentError, Idents, TxId};
use kora::net::{
    parse_bootstrap_peer, parse_host_port, parse_port, AddressError, IngressAddr,
    TransportError, TransportParsing,
};
use kora::rpc::api::{fee_history_window, network_version, FeeWindow, Web3ApiImpl};
use kora::rpc::config::{CorsConfig, RateLimitConfig};
use kora::rpc::error::{RpcError, EXECUTION_ERROR, INTERNAL_ERROR, INVALID_PARAMS, METHOD_NOT_SUPPORTED, RESOURCE_NOT_FOUND};
use kora::rpc::types::{BlockNumberOrTag, BlockTag, CallRequest};
use kora::text::decimal_string;

fn key_hex() -> String {
    let key = commonware_cryptography::ed25519::PrivateKey::from_seed(7).public_key();
    hex::encode(key.as_ref())
}

#[test]
fn ports_read_like_the_standard_library() {
    for s in ["0", "80", "+443", "65535", "007", "", "+", "-1", "65536", "8a", " 80", "99999999999999999999"] {
        assert_eq!(parse_port(s), s.parse::<u16>().ok(), "port {s:?}");
    }
}

#[test]
fn hostnames_follow_the_rules() {
    let host_ok = |h: &str| parse_host_port(&format!("{h}:1")).is_ok();
    assert!(host_ok("node.example.com"));
    assert!(host_ok("a-b.c"));
    assert!(!host_ok(""));
    assert!(!host_ok("-a.com"));
    assert!(!host_ok("a-.com"));
    assert!(!host_ok("a..com"));
    assert!(!host_ok("a_b.com"));
    assert!(!host_ok(&"a".repeat(64)));
    assert!(host_ok(&"a".repeat(63)));
    assert!(matches!(parse_host_port("a_b.com:1"), Err(AddressError::InvalidHostname(h)) if h == "a_b.com"));
}

#[test]
fn host_port_splits_at_the_last_colon() {
    let (host, port) = parse_host_port("node.example.com:8080").unwrap();
    assert_eq!(host, "node.example.com");
    assert_eq!(port, 8080);
    assert!(matches!(parse_host_port("nocolon"), Err(AddressError::MissingPort)));
    assert!(matches!(parse_host_port("a:b:c"), Err(AddressError::InvalidPort(p)) if p == "c"));
    assert!(matches!(parse_host_port("a:b:1"), Err(AddressError::InvalidHostname(h)) if h == "a:b"));
}

#[test]
fn transport_parse_ingress() {
    assert!(matches!(
        TransportParsing::parse_ingress("127.0.0.1:30303", true),
        Ok(IngressAddr::Socket(s)) if s == "127.0.0.1:30303"
    ));
    assert!(matches!(
        TransportParsing::parse_ingress("localhost:30303", false),
        Ok(IngressAddr::Dns { host, port: 30303 }) if host == "localhost"
    ));
    assert!(matches!(TransportParsing::parse_ingress("x", false), Err(TransportError::InvalidDialableAddr(s)) if s == "x"));
}

#[test]
fn bootstrappers_are_read_in_order() {
    let pk = key_hex();
    let peers = vec![format!("{pk}@127.0.0.1:30303"), format!("0x{pk}@node.example.com:30304")];
    let parsed = TransportParsing::parse_bootstrappers(&peers, &vec![true, false]).unwrap();
    assert_eq!(parsed.len(), 2);
    assert_eq!(hex::encode(parsed[0].0), pk);
    assert!(matches!(&parsed[0].1, IngressAddr::Socket(s) if s == "127.0.0.1:30303"));
    assert_eq!(parsed[1].0, parsed[0].0);
    assert!(matches!(&parsed[1].1, IngressAddr::Dns { host, port: 30304 } if host == "node.example.com"));
    assert!(TransportParsing::parse_bootstrappers(&Vec::new(), &Vec::new()).unwrap().is_empty());
}

#[test]
fn bootstrappers_report_the_first_bad_peer() {
    let pk = key_hex();
    let good = format!("{pk}@node:1");
    let run = |peers: Vec<String>| {
        let flags = vec![false; peers.len()];
        TransportParsing::parse_bootstrappers(&peers, &flags)
    };
    assert!(matches!(run(vec![good.clone(), "nokey".into(), "zz@h:1".into()]), Err(TransportError::InvalidBootstrapPeer(s)) if s == "nokey"));
    assert!(matches!(run(vec!["0xzz@h:1".into()]), Err(TransportError::InvalidPublicKeyHex(s)) if s == "zz"));
    assert!(matches!(run(vec![good.clone(), "abcd@h:1".into()]), Err(TransportError::InvalidPublicKeyLength(2))));
    assert!(matches!(run(vec![format!("{pk}@bad_host:1")]), Err(TransportError::InvalidHostname(h)) if h == "bad_host"));
    assert!(matches!(run(vec![format!("{pk}@h:99999")]), Err(TransportError::InvalidPort(p)) if p == "99999"));
    assert!(matches!(run(vec![format!("{pk}@nocolon")]), Err(TransportError::InvalidDialableAddr(a)) if a == "nocolon"));
}

#[test]
fn bootstrap_peers_are_read() {
    let pk = key_hex();
    let (key, addr) = parse_bootstrap_peer(&format!("{pk}@192.168.1.1:30303")).unwrap();
    assert_eq!(hex::encode(key), pk);
    assert_eq!(addr, "192.168.1.1:30303");
    let (key2, addr2) = TransportParsing::parse_bootstrap_peer(&format!("0x{pk}@node.example.com:1")).unwrap();
    assert_eq!(key2, key);
    assert_eq!(addr2, "node.example.com:1");
    assert!(matches!(TransportParsing::parse_bootstrap_peer("nokey"), Err(TransportError::InvalidBootstrapPeer(_))));
    assert!(matches!(TransportParsing::parse_bootstrap_peer("zz@h:1"), Err(TransportError::InvalidPublicKeyHex(_))));
    assert!(matches!(TransportParsing::parse_bootstrap_peer("abcd@h:1"), Err(TransportError::InvalidPublicKeyLength(2))));
}

#[test]
fn hex_roundtrip_and_errors() {
    let session = CeremonySession { ceremony_id: [0xab; 32], chain_id: 7, round: 2 };
    let stored = SerializedSession::from_session(&session);
    assert_eq!(stored.ceremony_id, "ab".repeat(32));
    assert_eq!(stored.to_session().unwrap(), session);
    let upper = SerializedSession { ceremony_id: "AB".repeat(32), chain_id: 7, round: 2 };
    assert_eq!(upper.to_session().unwrap(), session);
    let odd = SerializedSession { ceremony_id: "abc".to_string(), chain_id: 7, round: 2 };
    assert!(matches!(odd.to_session(), Err(DkgError::Serialization(_))));
    let not_hex = SerializedSession { ceremony_id: "zz".repeat(32), chain_id: 7, round: 2 };
    assert!(matches!(not_hex.to_session(), Err(DkgError::Serialization(_))));
}

#[test]
fn decimal_rendering() {
    assert_eq!(decimal_string(0), "0");
    assert_eq!(decimal_string(10), "10");
    assert_eq!(decimal_string(u128::MAX), u128::MAX.to_string());
}

#[test]
fn idents_roundtrip() {
    let id = TxId([7u8; 32]);
    let block = BlockId([9u8; 32]);
    let mut buf = vec![1, 2];
    Idents::write_b256(&id.0, &mut buf);
    Idents::write_b256(&block.0, &mut buf);
    assert_eq!(buf.len(), 2 + 2 * Idents::SIZE);
    let mut pos = 2usize;
    assert_eq!(Idents::read_b256(&buf, &mut pos), Ok(id.0));
    assert_eq!(Idents::read_b256(&buf, &mut pos), Ok(block.0));
    assert_eq!(pos, buf.len());
    assert_eq!(Idents::read_b256(&buf, &mut pos), Err(IdentError::EndOfBuffer));
    assert_eq!(pos, buf.len());
}

#[test]
fn cors_presets() {
    let d = CorsConfig::default();
    assert_eq!(d.allowed_origins, vec!["http://localhost:3000"]);
    assert_eq!(d.allowed_methods, vec!["GET", "POST", "OPTIONS"]);
    assert_eq!(d.allowed_headers, vec!["Content-Type"]);
    assert_eq!(d.max_age, 3600);
    let n = CorsConfig::none();
    assert!(n.allowed_origins.is_empty() && n.allowed_methods.is_empty() && n.allowed_headers.is_empty());
    assert_eq!(n.max_age, 0);
    let p = CorsConfig::permissive();
    assert_eq!(p.allowed_origins, vec!["*"]);
    assert_eq!(p.allowed_methods, vec!["GET", "POST", "PUT", "DELETE", "OPTIONS"]);
    assert_eq!(p.allowed_headers, vec!["*"]);
    assert_eq!(p.max_age, 86400);
}

#[test]
fn rate_limits() {
    let d = RateLimitConfig::default();
    assert_eq!((d.requests_per_second, d.burst_size), (100, 200));
    let off = RateLimitConfig::disabled();
    assert_eq!((off.requests_per_second, off.burst_size), (u64::MAX, u64::MAX));
}

#[test]
fn rpc_error_codes_and_messages() {
    assert_eq!(RpcError::BlockNotFound.code(), RESOURCE_NOT_FOUND);
    assert_eq!(RpcError::BlockNotFound.message(), "block not found");
    assert_eq!(RpcError::AccountNotFound("0x1".into()).message(), "account not found: 0x1");
    assert_eq!(RpcError::InvalidTransaction("bad".into()).code(), INVALID_PARAMS);
    assert_eq!(RpcError::ExecutionFailed("revert".into()).code(), EXECUTION_ERROR);
    assert_eq!(RpcError::StateError("db".into()).to_error_object(), (INTERNAL_ERROR, "state error: db".to_string()));
    assert_eq!(RpcError::NotImplemented.code(), METHOD_NOT_SUPPORTED);
    assert_eq!(RpcError::NotImplemented.message(), "method not implemented");
}

#[test]
fn block_references() {
    assert!(BlockNumberOrTag::Tag(BlockTag::Pending).is_pending());
    assert!(!BlockNumberOrTag::Latest.is_pending());
    assert!(BlockNumberOrTag::Latest.is_latest());
    assert!(BlockNumberOrTag::Tag(BlockTag::Latest).is_latest());
    assert!(!BlockNumberOrTag::Number(5).is_latest());
    assert_eq!(BlockNumberOrTag::default(), BlockNumberOrTag::Latest);
}

#[test]
fn call_request_prefers_input() {
    let mut req = CallRequest::default();
    assert!(req.input_data().is_empty());
    req.data = Some(vec![2]);
    assert_eq!(req.input_data(), vec![2]);
    req.input = Some(vec![1]);
    assert_eq!(req.input_data(), vec![1]);
}

#[test]
fn fee_history_windows() {
    assert_eq!(fee_history_window(10, BlockNumberOrTag::Latest, 100), FeeWindow { oldest_block: 91, count: 10 });
    assert_eq!(fee_history_window(10, BlockNumberOrTag::Number(3), 100), FeeWindow { oldest_block: 0, count: 4 });
    assert_eq!(fee_history_window(5000, BlockNumberOrTag::Number(5000), 2000), FeeWindow { oldest_block: 977, count: 1024 });
    assert_eq!(fee_history_window(0, BlockNumberOrTag::Latest, 7), FeeWindow { oldest_block: 8, count: 0 });
}

#[test]
fn net_version() {
    assert_eq!(network_version(1337), "1337");
}

#[test]
fn web3_client_version() {
    let api = Web3ApiImpl::new();
    let version = api.client_version();
    assert!(version.starts_with("kora/"));
}

#[test]
fn web3_sha3() {
    let api = Web3ApiImpl::new();
    let hash = api.sha3(b"hello");
    assert_eq!(hash, alloy_primitives::keccak256(b"hello").0);
}
