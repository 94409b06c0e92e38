use kora::dkg::error::DkgError;
use kora::dkg::output::{DkgOutput, OutputRecord, ShareRecord};
use kora::dkg::state::{CeremonySession, DkgPhase, PersistedDkgState, SerializedSession};

fn session() -> CeremonySession {
    let mut id = [0u8; 32];
    for (i, b) in id.iter_mut().enumerate() {
        *b = i as u8 * 7;
    }
    CeremonySession { ceremony_id: id, chain_id: 1337, round: 2 }
}

#[test]
fn phase_names() {
    assert_eq!(DkgPhase::AwaitingStart.name(), "AwaitingStart");
    assert_eq!(DkgPhase::DealerStarted.name(), "DealerStarted");
    assert_eq!(DkgPhase::CollectingMessages.name(), "CollectingMessages");
    assert_eq!(DkgPhase::DealerFinalized.name(), "DealerFinalized");
    assert_eq!(DkgPhase::CollectingLogs.name(), "CollectingLogs");
    assert_eq!(DkgPhase::Completed.name(), "Completed");
    assert_eq!(DkgPhase::Failed.name(), "Failed");
}

#[test]
fn new_state_starts_awaiting_and_keeps_session() {
    let s = session();
    let state = PersistedDkgState::new(&s, 99);
    assert_eq!(state.phase, DkgPhase::AwaitingStart);
    assert!(!state.dealer_started);
    assert!(!state.dealer_finalized);
    assert_eq!(state.our_signed_log, None);
    assert!(state.received_logs.is_empty());
    assert_eq!(state.timestamp, 99);
    assert_eq!(state.session.ceremony_id, hex::encode(s.ceremony_id));
    assert_eq!(state.session().unwrap(), s);
}

#[test]
fn set_session_roundtrip() {
    let mut state = PersistedDkgState::new(&session(), 1);
    let other = CeremonySession { ceremony_id: [0xab; 32], chain_id: 5, round: 9 };
    state.set_session(&other);
    assert_eq!(state.session().unwrap(), other);
}

#[test]
fn session_with_bad_id_is_a_serialization_error() {
    let record = SerializedSession { ceremony_id: "zz".to_string(), chain_id: 1, round: 0 };
    assert!(matches!(record.to_session(), Err(DkgError::Serialization(_))));
    let short = SerializedSession { ceremony_id: "abcd".to_string(), chain_id: 1, round: 0 };
    match short.to_session() {
        Err(DkgError::Serialization(m)) => assert_eq!(m, "Invalid ceremony_id length"),
        other => panic!("unexpected {other:?}"),
    }
}

#[test]
fn signed_log_roundtrip() {
    let mut state = PersistedDkgState::new(&session(), 1);
    assert_eq!(state.get_our_signed_log(), None);
    state.set_our_signed_log(vec![1, 2, 0xfe]);
    assert_eq!(state.our_signed_log.as_deref(), Some("0102fe"));
    assert_eq!(state.get_our_signed_log(), Some(vec![1, 2, 0xfe]));
    state.our_signed_log = Some("nothex".to_string());
    assert_eq!(state.get_our_signed_log(), None);
}

#[test]
fn received_logs_replace_per_sender_and_skip_bad_hex() {
    let mut state = PersistedDkgState::new(&session(), 1);
    state.add_received_log("aa".to_string(), vec![1]);
    state.add_received_log("bb".to_string(), vec![2, 3]);
    state.add_received_log("aa".to_string(), vec![4]);
    assert_eq!(state.received_logs.len(), 2);
    state.received_logs.push(("cc".to_string(), "xyz".to_string()));
    let logs = state.get_received_logs();
    assert_eq!(logs, vec![("aa".to_string(), vec![4]), ("bb".to_string(), vec![2, 3])]);
}

fn create_test_output() -> DkgOutput {
    DkgOutput {
        group_public_key: vec![0x01, 0x02, 0x03, 0x04],
        public_polynomial: vec![0x05, 0x06, 0x07, 0x08],
        threshold: 2,
        participants: 3,
        share_index: 1,
        share_secret: vec![0x09, 0x0a, 0x0b, 0x0c],
        participant_keys: vec![vec![0x0d, 0x0e], vec![0x0f, 0x10], vec![0x11, 0x12]],
    }
}

#[test]
fn test_dkg_output_save_and_load_roundtrip() {
    let output = create_test_output();
    let record = output.output_record();
    let share = output.share_record();
    assert_eq!(record.group_public_key, "01020304");
    assert_eq!(record.participant_keys, vec!["0d0e", "0f10", "1112"]);
    assert_eq!(share.secret, "090a0b0c");
    let loaded = DkgOutput::from_records(&record, &share).expect("load output");
    assert_eq!(loaded.group_public_key, output.group_public_key);
    assert_eq!(loaded.public_polynomial, output.public_polynomial);
    assert_eq!(loaded.threshold, output.threshold);
    assert_eq!(loaded.participants, output.participants);
    assert_eq!(loaded.share_index, output.share_index);
    assert_eq!(loaded.share_secret, output.share_secret);
    assert_eq!(loaded.participant_keys, output.participant_keys);
}

fn record(group: &str) -> OutputRecord {
    OutputRecord {
        group_public_key: group.to_string(),
        public_polynomial: "05060708".to_string(),
        threshold: 2,
        participants: 3,
        participant_keys: vec![],
    }
}

#[test]
fn test_dkg_output_load_invalid_hex_in_group_key() {
    let share = ShareRecord { index: 1, secret: "090a0b0c".to_string() };
    let result = DkgOutput::from_records(&record("not_hex!"), &share);
    assert!(matches!(result, Err(DkgError::Serialization(_))));
}

#[test]
fn test_dkg_output_load_invalid_hex_in_share_secret() {
    let share = ShareRecord { index: 1, secret: "invalid!".to_string() };
    let result = DkgOutput::from_records(&record("01020304"), &share);
    assert!(matches!(result, Err(DkgError::Serialization(_))));
}

#[test]
fn test_dkg_output_with_empty_participant_keys() {
    let mut output = create_test_output();
    output.participant_keys = vec![];
    let loaded = DkgOutput::from_records(&output.output_record(), &output.share_record()).expect("load output");
    assert!(loaded.participant_keys.is_empty());
}

#[test]
fn test_dkg_output_clone() {
    let output = create_test_output();
    let cloned = output.clone();
    assert_eq!(output.group_public_key, cloned.group_public_key);
    assert_eq!(output.threshold, cloned.threshold);
}

#[test]
fn test_dkg_output_debug() {
    let output = create_test_output();
    let debug = format!("{:?}", output);
    assert!(debug.contains("DkgOutput"));
    assert!(debug.contains("threshold"));
}

#[test]
fn output_with_bad_participant_key_is_refused() {
    let mut r = record("01020304");
    r.participant_keys = vec!["0a".to_string(), "0".to_string()];
    let share = ShareRecord { index: 1, secret: "00".to_string() };
    assert!(matches!(DkgOutput::from_records(&r, &share), Err(DkgError::Serialization(_))));
}
