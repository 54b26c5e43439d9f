//! The error model of the editor protocol.
//!
//! Errors answered to the editor carry one of the protocol's error codes, a
//! message, and an optional payload. The numeric value of each code is fixed
//! by the protocol.

use vstd::prelude::*;

verus! {

/// The protocol's error codes.
#[derive(Clone, Copy, Debug, PartialEq, Eq, Hash, Structural)]
pub enum ErrorCode {
    /// Invalid JSON was received by the server.
    ParseError,
    /// The JSON sent is not a valid request object.
    InvalidRequest,
    /// The method does not exist or is not available.
    MethodNotFound,
    /// Invalid method parameters.
    InvalidParams,
    /// Internal error.
    InternalError,
    /// A notification or request arrived before initialization.
    ServerNotInitialized,
    UnknownErrorCode,
    /// A syntactically correct request failed.
    RequestFailed,
    /// The server cancelled the request.
    ServerCancelled,
    /// The document was modified outside normal conditions.
    ContentModified,
    /// The client cancelled the request.
    RequestCancelled,
}

/// The numeric value the protocol assigns to each error code.
pub open spec fn error_code_value(c: ErrorCode) -> int {
    match c {
        ErrorCode::ParseError => -32700,
        ErrorCode::InvalidRequest => -32600,
        ErrorCode::MethodNotFound => -32601,
        ErrorCode::InvalidParams => -32602,
        ErrorCode::InternalError => -32603,
        ErrorCode::ServerNotInitialized => -32002,
        ErrorCode::UnknownErrorCode => -32001,
        ErrorCode::RequestFailed => -32803,
        ErrorCode::ServerCancelled => -32802,
        ErrorCode::ContentModified => -32801,
        ErrorCode::RequestCancelled => -32800,
    }
}

impl ErrorCode {
    /// The numeric value sent on the wire.
    pub fn code(&self) -> (r: i32)
        ensures
            r == error_code_value(*self),
    {
        match self {
            ErrorCode::ParseError => -32700,
            ErrorCode::InvalidRequest => -32600,
            ErrorCode::MethodNotFound => -32601,
            ErrorCode::InvalidParams => -32602,
            ErrorCode::InternalError => -32603,
            ErrorCode::ServerNotInitialized => -32002,
            ErrorCode::UnknownErrorCode => -32001,
            ErrorCode::RequestFailed => -32803,
            ErrorCode::ServerCancelled => -32802,
            ErrorCode::ContentModified => -32801,
            ErrorCode::RequestCancelled => -32800,
        }
    }
}

/// An error answered to the editor: a code, a human-readable message, and an
/// optional JSON payload (kept as text here; the transport serializes it).
#[derive(Clone, Debug)]
pub struct Error {
    pub code: ErrorCode,
    pub message: String,
    pub data: Option<String>,
}

impl Error {
    /// An error with the given code and message and no payload.
    pub fn new(code: ErrorCode, message: String) -> (e: Error)
        ensures
            e.code == code,
            e.message == message,
            e.data is None,
    {
        Error { code, message, data: None }
    }

    /// An invalid-params error.
    pub fn invalid_params(message: String) -> (e: Error)
        ensures
            e.code == ErrorCode::InvalidParams,
            e.message == message,
            e.data is None,
    {
        Error::new(ErrorCode::InvalidParams, message)
    }

    /// An invalid-request error.
    pub fn invalid_request(message: String) -> (e: Error)
        ensures
            e.code == ErrorCode::InvalidRequest,
            e.message == message,
            e.data is None,
    {
        Error::new(ErrorCode::InvalidRequest, message)
    }

    /// A method-not-found error.
    pub fn method_not_found(message: String) -> (e: Error)
        ensures
            e.code == ErrorCode::MethodNotFound,
            e.message == message,
            e.data is None,
    {
        Error::new(ErrorCode::MethodNotFound, message)
    }

    /// An internal error.
    pub fn internal_error(message: String) -> (e: Error)
        ensures
            e.code == ErrorCode::InternalError,
            e.message == message,
            e.data is None,
    {
        Error::new(ErrorCode::InternalError, message)
    }
}

/// Splits a result into its two possible values, exactly one of them
/// present.
pub fn split<T, E>(result: Result<T, E>) -> (r: (Option<T>, Option<E>))
    ensures
        result matches Ok(t) ==> r == (Some(t), None::<E>),
        result matches Err(e) ==> r == (None::<T>, Some(e)),
{
    match result {
        Ok(o) => (Some(o), None),
        Err(e) => (None, Some(e)),
    }
}

} // verus!
