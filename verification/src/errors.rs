//! Errors the core surfaces.

use vstd::prelude::*;
use crate::messages::ErrorResponse;

verus! {

/// Every failure the pooling and routing core can report.
#[derive(Clone, Debug, PartialEq)]
pub enum Error {
    /// A string crossing the plugin boundary held an interior NUL byte.
    NullBytes,
    /// A route named a shard index outside the cluster.
    NoShard(usize),
    /// The shard has no primary pool.
    NoPrimary,
    /// The shard has neither replicas nor a primary.
    NoDatabases,
    /// A checkout did not obtain a session within the configured timeout.
    Timeout,
    /// The pool was shut down; no checkouts are served.
    Shutdown,
    /// The server rejected the startup or authentication exchange.
    ConnectionError(ErrorResponse),
    /// A message with this code byte arrived where the protocol forbids it.
    UnexpectedMessage(u8),
    /// A `ReadyForQuery` carried this status byte, which is not `I`, `T` or `E`.
    UnexpectedTransactionStatus(u8),
    /// Work was issued on a session that is mid-exchange.
    NotInSync,
    /// Startup completed without the server sending `BackendKeyData`.
    NoBackendKeyData,
    /// Cancellation was attempted on every pool of a shard and all failed.
    CancelFailed,
    /// The router was consulted without a parseable statement.
    NoQueryInBuffer,
}

} // verus!
