//! Backend messages, decoded to the fields the core reads.

use vstd::prelude::*;

verus! {

/// The `(pid, secret)` pair the server assigns during startup. It identifies
/// the backend for query cancellation and keys per-session operations.
#[derive(Clone, Copy, Debug, PartialEq, Eq, Structural)]
pub struct BackendKeyData {
    pub pid: i32,
    pub secret: i32,
}

/// A decoded `ErrorResponse` from the server.
#[derive(Clone, Debug, PartialEq)]
pub struct ErrorResponse {
    /// SQLSTATE code, five characters.
    pub code: String,
    /// Human-readable message.
    pub message: String,
}

/// A backend-to-frontend message, decoded to what the core inspects. The
/// byte-level codec lives with the transport; the core consumes these values
/// and never looks at raw frames.
#[derive(Clone, Debug, PartialEq)]
pub enum BackendMessage {
    /// Code `R`: authentication progress; `ok` means `AuthenticationOk`.
    Authentication { ok: bool },
    /// Code `E`: the server reported an error.
    ErrorResponse { error: ErrorResponse },
    /// Code `S`: a run-time parameter the server announces.
    ParameterStatus { name: String, value: String },
    /// Code `K`: the cancellation key for this session.
    BackendKeyData { key: BackendKeyData },
    /// Code `Z`: the server is ready; `status` is the transaction status byte.
    ReadyForQuery { status: u8 },
    /// Any other message; `code` is its wire code byte.
    Other { code: u8 },
}

impl BackendMessage {
    /// The wire code byte of this message.
    pub open spec fn code_spec(&self) -> u8 {
        match self {
            BackendMessage::Authentication { .. } => 82,  // 'R'
            BackendMessage::ErrorResponse { .. } => 69,  // 'E'
            BackendMessage::ParameterStatus { .. } => 83,  // 'S'
            BackendMessage::BackendKeyData { .. } => 75,  // 'K'
            BackendMessage::ReadyForQuery { .. } => 90,  // 'Z'
            BackendMessage::Other { code } => *code,
        }
    }

    /// The wire code byte of this message.
    pub fn code(&self) -> (c: u8)
        ensures
            c == self.code_spec(),
    {
        match self {
            BackendMessage::Authentication { .. } => 82,
            BackendMessage::ErrorResponse { .. } => 69,
            BackendMessage::ParameterStatus { .. } => 83,
            BackendMessage::BackendKeyData { .. } => 75,
            BackendMessage::ReadyForQuery { .. } => 90,
            BackendMessage::Other { code } => *code,
        }
    }
}

} // verus!
