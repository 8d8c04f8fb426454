//! Transaction state of one backend session.

use vstd::prelude::*;

verus! {

/// Transaction state of a backend session, driven by the status byte of each
/// `ReadyForQuery` message the server sends and by transport failures.
#[derive(Clone, Copy, Debug, PartialEq, Eq, Structural)]
pub enum State {
    /// Outside any transaction; the session is clean and reusable.
    Idle,
    /// Inside an open transaction.
    IdleInTransaction,
    /// Inside a transaction that has failed.
    TransactionError,
    /// A statement is in flight; the session is mid-exchange.
    Active,
    /// The transport failed or the protocol was violated; terminal, the
    /// session must be discarded.
    Error,
}

impl State {
    /// The state a `ReadyForQuery` status byte denotes, if it is one of the
    /// three the protocol allows (`I`, `T`, `E`).
    pub open spec fn of_status(status: u8) -> Option<State> {
        if status == 73 {
            Some(State::Idle)
        } else if status == 84 {
            Some(State::IdleInTransaction)
        } else if status == 69 {
            Some(State::TransactionError)
        } else {
            None
        }
    }

    /// The session is synchronized: it can accept a new statement.
    pub open spec fn in_sync_spec(self) -> bool {
        self == State::Idle || self == State::IdleInTransaction || self == State::TransactionError
    }

    /// The session is inside a transaction (open or failed).
    pub open spec fn in_transaction_spec(self) -> bool {
        self == State::IdleInTransaction || self == State::TransactionError
    }
}

} // verus!
