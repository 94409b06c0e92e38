//! JSON-RPC errors following Ethereum error code conventions.

use vstd::prelude::*;

verus! {

/// Invalid JSON was received.
pub const PARSE_ERROR: i32 = -32700;

/// The JSON sent is not a valid Request object.
pub const INVALID_REQUEST: i32 = -32600;

/// The method does not exist / is not available.
pub const METHOD_NOT_FOUND: i32 = -32601;

/// Invalid method parameter(s).
pub const INVALID_PARAMS: i32 = -32602;

/// Internal JSON-RPC error.
pub const INTERNAL_ERROR: i32 = -32603;

/// Server error (reserved range: -32000 to -32099).
pub const SERVER_ERROR: i32 = -32000;

/// Resource not found.
pub const RESOURCE_NOT_FOUND: i32 = -32001;

/// Resource unavailable.
pub const RESOURCE_UNAVAILABLE: i32 = -32002;

/// Transaction rejected.
pub const TRANSACTION_REJECTED: i32 = -32003;

/// Method not supported.
pub const METHOD_NOT_SUPPORTED: i32 = -32004;

/// Request limit exceeded.
pub const LIMIT_EXCEEDED: i32 = -32005;

/// Execution error (revert, out of gas, etc.).
pub const EXECUTION_ERROR: i32 = -32015;

/// RPC-specific errors that can occur during request handling.
#[derive(Debug, Clone)]
pub enum RpcError {
    /// Block not found.
    BlockNotFound,
    /// Transaction not found.
    TransactionNotFound,
    /// Account not found.
    AccountNotFound(String),
    /// Invalid block number.
    InvalidBlockNumber(String),
    /// Invalid transaction.
    InvalidTransaction(String),
    /// Execution failed.
    ExecutionFailed(String),
    /// State database error.
    StateError(String),
    /// Internal error.
    Internal(String),
    /// Method not implemented.
    NotImplemented,
}

/// The JSON-RPC error code an error is answered with.
pub open spec fn rpc_error_code(e: RpcError) -> i32 {
    match e {
        RpcError::BlockNotFound | RpcError::TransactionNotFound | RpcError::AccountNotFound(_) => RESOURCE_NOT_FOUND,
        RpcError::InvalidBlockNumber(_) | RpcError::InvalidTransaction(_) => INVALID_PARAMS,
        RpcError::ExecutionFailed(_) => EXECUTION_ERROR,
        RpcError::StateError(_) | RpcError::Internal(_) => INTERNAL_ERROR,
        RpcError::NotImplemented => METHOD_NOT_SUPPORTED,
    }
}

/// The message of an error.
pub open spec fn rpc_error_text(e: RpcError) -> Seq<char> {
    match e {
        RpcError::BlockNotFound => "block not found"@,
        RpcError::TransactionNotFound => "transaction not found"@,
        RpcError::AccountNotFound(m) => "account not found: "@ + m@,
        RpcError::InvalidBlockNumber(m) => "invalid block number: "@ + m@,
        RpcError::InvalidTransaction(m) => "invalid transaction: "@ + m@,
        RpcError::ExecutionFailed(m) => "execution failed: "@ + m@,
        RpcError::StateError(m) => "state error: "@ + m@,
        RpcError::Internal(m) => "internal error: "@ + m@,
        RpcError::NotImplemented => "method not implemented"@,
    }
}

fn prefixed(prefix: &str, rest: &String) -> (s: String)
    ensures
        s@ == prefix@ + rest@,
{
    let mut s = String::from_str(prefix);
    s.append(rest.as_str());
    s
}

impl RpcError {
    /// The JSON-RPC error code this error is answered with.
    pub fn code(&self) -> (c: i32)
        ensures
            c == rpc_error_code(*self),
    {
        match self {
            RpcError::BlockNotFound | RpcError::TransactionNotFound | RpcError::AccountNotFound(_) => RESOURCE_NOT_FOUND,
            RpcError::InvalidBlockNumber(_) | RpcError::InvalidTransaction(_) => INVALID_PARAMS,
            RpcError::ExecutionFailed(_) => EXECUTION_ERROR,
            RpcError::StateError(_) | RpcError::Internal(_) => INTERNAL_ERROR,
            RpcError::NotImplemented => METHOD_NOT_SUPPORTED,
        }
    }

    /// The human-readable message of this error.
    pub fn message(&self) -> (s: String)
        ensures
            s@ == rpc_error_text(*self),
    {
        match self {
            RpcError::BlockNotFound => String::from_str("block not found"),
            RpcError::TransactionNotFound => String::from_str("transaction not found"),
            RpcError::AccountNotFound(m) => prefixed("account not found: ", m),
            RpcError::InvalidBlockNumber(m) => prefixed("invalid block number: ", m),
            RpcError::InvalidTransaction(m) => prefixed("invalid transaction: ", m),
            RpcError::ExecutionFailed(m) => prefixed("execution failed: ", m),
            RpcError::StateError(m) => prefixed("state error: ", m),
            RpcError::Internal(m) => prefixed("internal error: ", m),
            RpcError::NotImplemented => String::from_str("method not implemented"),
        }
    }

    /// The (code, message) pair a JSON-RPC error object carries.
    pub fn to_error_object(&self) -> (r: (i32, String))
        ensures
            r.0 == rpc_error_code(*self),
            r.1@ == rpc_error_text(*self),
    {
        (self.code(), self.message())
    }
}

} // verus!
