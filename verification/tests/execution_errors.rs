use alloy_primitives::B256;

use kora::consensus::ConsensusError;
use kora::executor::ExecutionError;

#[test]
fn error_test_state_error_display() {
    let err = ExecutionError::State("lock poisoned".to_string());
    assert_eq!(err.message(), "state error: lock poisoned");
}

#[test]
fn test_tx_decode_display() {
    let err = ExecutionError::TxDecode("invalid RLP".to_string());
    assert_eq!(err.message(), "failed to decode transaction: invalid RLP");
}

#[test]
fn test_tx_execution_display() {
    let err = ExecutionError::TxExecution("out of gas".to_string());
    assert_eq!(err.message(), "transaction execution failed: out of gas");
}

#[test]
fn test_invalid_tx_display() {
    let err = ExecutionError::InvalidTx("nonce too low".to_string());
    assert_eq!(err.message(), "invalid transaction: nonce too low");
}

#[test]
fn test_block_validation_display() {
    let err = ExecutionError::BlockValidation("invalid state root".to_string());
    assert_eq!(err.message(), "block validation failed: invalid state root");
}

#[test]
fn test_code_not_found_display() {
    let hash = B256::ZERO;
    let err = ExecutionError::CodeNotFound(hash.0);
    assert_eq!(err.message(), format!("code not found: {hash}"));
}

#[test]
fn code_not_found_shows_the_hash_in_lowercase_hex() {
    let hash = B256::repeat_byte(0xAB);
    let err = ExecutionError::CodeNotFound(hash.0);
    assert_eq!(err.message(), format!("code not found: 0x{}", "ab".repeat(32)));
    assert_eq!(err.message(), format!("code not found: {hash}"));
}

#[test]
fn error_test_error_debug_impl() {
    let err = ExecutionError::TxDecode("test".to_string());
    assert!(format!("{:?}", err).contains("TxDecode"));
}

#[test]
fn error_test_error_is_send_sync() {
    fn assert_send_sync<T: Send + Sync>() {}
    assert_send_sync::<ExecutionError>();
    assert_send_sync::<ConsensusError>();
}

#[test]
fn test_parent_not_found_display() {
    let err = ConsensusError::ParentNotFound([0u8; 32]);
    assert!(err.message().contains("parent not found"));
    assert_eq!(err.message(), format!("parent not found: 0x{}", "00".repeat(32)));
}

#[test]
fn test_snapshot_not_found_display() {
    let err = ConsensusError::SnapshotNotFound([0u8; 32]);
    assert!(err.message().contains("snapshot not found"));
}

#[test]
fn test_execution_display() {
    let err = ConsensusError::Execution("out of gas".to_string());
    assert_eq!(err.message(), "execution failed: out of gas");
}

#[test]
fn test_state_db_error_display() {
    let err = ConsensusError::StateDb("account not found".to_string());
    assert!(err.message().contains("state db error"));
    assert_eq!(err.message(), "state db error: account not found");
}

#[test]
fn test_validation_display() {
    let err = ConsensusError::Validation("invalid signature".to_string());
    assert_eq!(err.message(), "validation failed: invalid signature");
}

#[test]
fn test_state_root_mismatch_display() {
    let expected = B256::ZERO;
    let actual = B256::repeat_byte(0xff);
    let err = ConsensusError::StateRootMismatch { expected: expected.0, actual: actual.0 };
    assert!(err.message().contains("state root mismatch"));
    assert!(err.message().contains("expected"));
    assert!(err.message().contains("got"));
    assert_eq!(err.message(), format!("state root mismatch: expected {expected}, got {actual}"));
}

#[test]
fn error_test_error_debug() {
    let err = ConsensusError::Execution("test".to_string());
    let debug = format!("{:?}", err);
    assert!(debug.contains("Execution"));
}

#[test]
fn execution_failures_become_consensus_errors() {
    let err = ConsensusError::from_execution(&ExecutionError::TxExecution("out of gas".to_string()));
    assert_eq!(err, ConsensusError::Execution("transaction execution failed: out of gas".to_string()));
    assert_eq!(err.message(), "execution failed: transaction execution failed: out of gas");
}
