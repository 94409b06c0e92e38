use commonware_cryptography::Signer;
use kora::dkg::ceremony::{
    ceremony_plan, ceremony_timestamp, logs_timeout_error, phase2_complete, ready_timeout_error,
    resume_point, should_request_logs, startup_action, CeremonyStep, ExponentialBackoff, StartupAction,
    CEREMONY_TIME_INTERVAL_NANOS, MAX_BACKOFF_MS,
};
use kora::dkg::error::DkgError;
use kora::dkg::network::{decode_frame, encode_frame, frame_payload_len, max_degree, MAX_FRAME_PAYLOAD};
use kora::dkg::state::DkgPhase;
use kora::dkg::transport::parse_ingress;
use kora::net::IngressAddr;

#[test]
fn backoff_doubles_up_to_the_maximum() {
    let mut b = ExponentialBackoff::new();
    let delays: Vec<u64> = (0..9).map(|_| b.next_delay()).collect();
    assert_eq!(delays, vec![100, 200, 400, 800, 1600, 3200, 5000, 5000, 5000]);
    assert!(delays.iter().all(|d| *d <= MAX_BACKOFF_MS));
}

#[test]
fn ceremony_timestamp_rounds_down_to_five_minutes() {
    assert_eq!(ceremony_timestamp(0), 0);
    assert_eq!(ceremony_timestamp(CEREMONY_TIME_INTERVAL_NANOS - 1), 0);
    assert_eq!(ceremony_timestamp(CEREMONY_TIME_INTERVAL_NANOS), CEREMONY_TIME_INTERVAL_NANOS);
    assert_eq!(ceremony_timestamp(1_700_000_123_456_789_000), 1_700_000_100_000_000_000);
}


#[test]
fn startup_actions() {
    assert_eq!(startup_action(true, true, true), StartupAction::LoadOutput);
    assert_eq!(startup_action(false, true, true), StartupAction::ClearStateAndRun);
    assert_eq!(startup_action(false, true, false), StartupAction::Run);
    assert_eq!(startup_action(false, false, true), StartupAction::Run);
}

#[test]
fn plans_follow_the_restored_phase() {
    assert_eq!(ceremony_plan(None), vec![CeremonyStep::StartDealer, CeremonyStep::CollectMessages, CeremonyStep::AwaitReady, CeremonyStep::FinalizeDealer, CeremonyStep::CollectLogs, CeremonyStep::Finalize]);
    assert_eq!(
        ceremony_plan(Some(DkgPhase::AwaitingStart)),
        vec![CeremonyStep::StartDealer, CeremonyStep::CollectMessages, CeremonyStep::AwaitReady, CeremonyStep::FinalizeDealer, CeremonyStep::CollectLogs, CeremonyStep::Finalize]
    );
    assert_eq!(
        ceremony_plan(Some(DkgPhase::CollectingMessages)),
        vec![CeremonyStep::CollectMessages, CeremonyStep::AwaitReady, CeremonyStep::FinalizeDealer, CeremonyStep::CollectLogs, CeremonyStep::Finalize]
    );
    assert_eq!(ceremony_plan(Some(DkgPhase::CollectingLogs)), vec![CeremonyStep::CollectMessages, CeremonyStep::CollectLogs, CeremonyStep::Finalize]);
    assert_eq!(resume_point(Some(DkgPhase::DealerFinalized)), (true, true));
    assert_eq!(resume_point(Some(DkgPhase::DealerStarted)), (true, false));
    assert_eq!(resume_point(Some(DkgPhase::Failed)), (false, false));
}

#[test]
fn phase_progress_decisions() {
    assert!(phase2_complete(3, 3, 3));
    assert!(!phase2_complete(3, 2, 3));
    assert!(should_request_logs(false, 1, 3, 5000, true));
    assert!(!should_request_logs(true, 1, 3, 5000, true));
    assert!(!should_request_logs(false, 3, 3, 5000, true));
    assert!(!should_request_logs(false, 1, 3, 4999, true));
    assert!(!should_request_logs(false, 1, 3, 5000, false));
}

#[test]
fn timeout_errors_name_the_counts() {
    match ready_timeout_error(2, 4) {
        DkgError::CeremonyFailed(m) => assert_eq!(m, "Phase 2.5 timeout: only 2/4 participants ready"),
        other => panic!("unexpected {other:?}"),
    }
    match logs_timeout_error(1, 3) {
        DkgError::CeremonyFailed(m) => assert_eq!(m, "Phase 4 timeout: only collected 1/3 dealer logs"),
        other => panic!("unexpected {other:?}"),
    }
}

fn valid_key() -> [u8; 32] {
    let key = commonware_cryptography::ed25519::PrivateKey::from_seed(42).public_key();
    let mut out = [0u8; 32];
    out.copy_from_slice(key.as_ref());
    out
}

#[test]
fn frames_roundtrip() {
    let pk = valid_key();
    let payload = vec![9u8, 8, 7, 6, 5];
    let frame = encode_frame(&pk, &payload);
    assert_eq!(frame.len(), 41);
    assert_eq!(&frame[32..36], &[5, 0, 0, 0]);
    let (env, used) = decode_frame(&frame).unwrap();
    assert_eq!(env.from, pk);
    assert_eq!(env.payload, payload);
    assert_eq!(used, 41);
    assert!(decode_frame(&frame[..40].to_vec()).is_none());
}

#[test]
fn frame_lengths_above_one_mebibyte_are_refused() {
    assert_eq!(frame_payload_len(&[0, 0, 16, 0]), Some(MAX_FRAME_PAYLOAD));
    assert_eq!(frame_payload_len(&[1, 0, 16, 0]), None);
    assert_eq!(frame_payload_len(&[0x34, 0x12, 0, 0]), Some(0x1234));
}

#[test]
fn max_degree_is_the_quorum() {
    assert_eq!(max_degree(1), 1);
    assert_eq!(max_degree(4), 3);
    assert_eq!(max_degree(7), 5);
    assert_eq!(max_degree(10), 7);
}

#[test]
fn test_parse_ingress_socket() {
    let result = parse_ingress("127.0.0.1:8080", true).unwrap();
    assert!(matches!(result, IngressAddr::Socket(_)));
}

#[test]
fn test_parse_ingress_dns() {
    let result = parse_ingress("node.example.com:8080", false).unwrap();
    assert!(matches!(result, IngressAddr::Dns { .. }));
}

#[test]
fn test_parse_ingress_invalid() {
    assert!(parse_ingress("invalid", false).is_err());
}

#[test]
fn parse_ingress_errors_name_the_part() {
    match parse_ingress("invalid", false) {
        Err(DkgError::Network(m)) => assert_eq!(m, "Invalid address format: invalid"),
        other => panic!("unexpected {other:?}"),
    }
    match parse_ingress("host:99999", false) {
        Err(DkgError::Network(m)) => assert_eq!(m, "Invalid port: 99999"),
        other => panic!("unexpected {other:?}"),
    }
    match parse_ingress("bad_host:80", false) {
        Err(DkgError::Network(m)) => assert_eq!(m, "Invalid hostname: bad_host"),
        other => panic!("unexpected {other:?}"),
    }
    match parse_ingress("node-1.local:+443", false) {
        Ok(IngressAddr::Dns { host, port }) => {
            assert_eq!(host, "node-1.local");
            assert_eq!(port, 443);
        }
        other => panic!("unexpected {other:?}"),
    }
}
