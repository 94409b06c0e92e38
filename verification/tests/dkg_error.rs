use kora::dkg::error::DkgError;

#[test]
fn test_ceremony_failed_display() {
    let err = DkgError::CeremonyFailed("test failure".to_string());
    assert_eq!(err.message(), "DKG ceremony failed: test failure");
}

#[test]
fn test_invalid_participant_count_display() {
    let err = DkgError::InvalidParticipantCount { expected: 5, actual: 3 };
    assert_eq!(err.message(), "Invalid participant count: expected 5, got 3");
}

#[test]
fn test_invalid_threshold_display() {
    let err = DkgError::InvalidThreshold { threshold: 10, participants: 5 };
    assert_eq!(err.message(), "Threshold 10 is invalid for 5 participants");
}

#[test]
fn test_network_display() {
    let err = DkgError::Network("connection refused".to_string());
    assert_eq!(err.message(), "Network error: connection refused");
}

#[test]
fn test_crypto_display() {
    let err = DkgError::Crypto("invalid signature".to_string());
    assert_eq!(err.message(), "Cryptographic error: invalid signature");
}

#[test]
fn test_serialization_display() {
    let err = DkgError::Serialization("invalid json".to_string());
    assert_eq!(err.message(), "Serialization error: invalid json");
}

#[test]
fn test_io_error_from() {
    let io_err = std::io::Error::new(std::io::ErrorKind::NotFound, "file not found");
    let err = DkgError::Io(io_err.to_string());
    assert!(err.message().contains("IO error"));
}

#[test]
fn test_timeout_display() {
    let err = DkgError::Timeout;
    assert_eq!(err.message(), "Timeout waiting for DKG completion");
}

#[test]
fn test_missing_share_display() {
    let err = DkgError::MissingShare;
    assert_eq!(err.message(), "Missing share for participant");
}

#[test]
fn test_invalid_dealer_log_display() {
    let err = DkgError::InvalidDealerLog { dealer: "node1".to_string() };
    assert_eq!(err.message(), "Invalid dealer log from node1");
}

#[test]
fn test_unknown_sender_display() {
    let err = DkgError::UnknownSender { sender: "unknown_node".to_string() };
    assert_eq!(err.message(), "Unknown sender: unknown_node");
}

#[test]
fn test_sender_mismatch_display() {
    let err = DkgError::SenderMismatch { expected: "node1".to_string(), actual: "node2".to_string() };
    assert_eq!(err.message(), "Sender mismatch: expected node1, got node2");
}

#[test]
fn test_unauthorized_sender_display() {
    let err = DkgError::UnauthorizedSender;
    assert_eq!(err.message(), "Unauthorized sender: only leader can send AllLogs");
}

#[test]
fn test_duplicate_dealer_display() {
    let err = DkgError::DuplicateDealer { dealer: "dealer1".to_string() };
    assert_eq!(err.message(), "Duplicate message from dealer: dealer1");
}

#[test]
fn test_too_many_dealers_display() {
    let err = DkgError::TooManyDealers { count: 15, max: 10 };
    assert_eq!(err.message(), "Too many dealers: 15 exceeds maximum 10");
}

#[test]
fn test_session_mismatch_display() {
    let err = DkgError::SessionMismatch { expected: "session1".to_string(), received: "session2".to_string() };
    assert_eq!(err.message(), "Session mismatch: expected session1, received session2");
}

#[test]
fn test_invalid_message_display() {
    let err = DkgError::InvalidMessage("malformed data".to_string());
    assert_eq!(err.message(), "Invalid message: malformed data");
}

#[test]
fn test_error_is_send_sync() {
    fn assert_send_sync<T: Send + Sync>() {}
    assert_send_sync::<DkgError>();
}

#[test]
fn test_error_debug_impl() {
    let err = DkgError::Timeout;
    let debug_str = format!("{:?}", err);
    assert!(debug_str.contains("Timeout"));
}

#[test]
fn dkg_error_zero_and_large_counts_render_in_decimal() {
    let err = DkgError::TooManyDealers { count: 0, max: usize::MAX };
    assert_eq!(err.message(), format!("Too many dealers: 0 exceeds maximum {}", usize::MAX));
}
