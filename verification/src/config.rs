//! Cluster-wide policies.

use vstd::prelude::*;
use crate::state::State;

verus! {

/// When a checked-out session is returned to its pool.
#[derive(Clone, Copy, Debug, PartialEq, Eq, Structural)]
pub enum PoolerMode {
    /// Returned only when the client disconnects.
    Session,
    /// Returned at each transaction boundary.
    Transaction,
    /// Returned after each statement completes.
    Statement,
}

/// How a replica set spreads checkouts over its pools.
#[derive(Clone, Copy, Debug, PartialEq, Eq, Structural)]
pub enum LoadBalancingStrategy {
    /// Advance a shared cursor over the pools.
    RoundRobin,
    /// Pick uniformly, from entropy the caller supplies.
    Random,
    /// Pick the pool with the fewest sessions in use; ties go to the lower
    /// index.
    LeastConnections,
}

/// Role of one pool inside a shard.
#[derive(Clone, Copy, Debug, PartialEq, Eq, Structural)]
pub enum Role {
    /// The shard's writable primary.
    Primary,
    /// A read replica.
    Replica,
}

/// Whether a session in state `s` may be queued for the next checkout under
/// mode `mode`. A clean session always may. A session inside a transaction
/// (open or failed) may be handed off only in session mode, where the same
/// client takes it back; at a transaction or statement boundary it must
/// instead be rolled back and discarded. A failed or mid-exchange session
/// never goes back.
pub open spec fn requeue_ok(mode: PoolerMode, s: State) -> bool {
    s == State::Idle || (s.in_transaction_spec() && mode == PoolerMode::Session)
}

/// Whether a session coming back in state `s` still holds a transaction the
/// caller must roll back before the pool discards it.
pub open spec fn rollback_needed(mode: PoolerMode, s: State) -> bool {
    s.in_transaction_spec() && !requeue_ok(mode, s)
}

/// Exec mirror of [`requeue_ok`].
pub fn requeue_ok_exec(mode: PoolerMode, s: State) -> (r: bool)
    ensures
        r == requeue_ok(mode, s),
{
    match s {
        State::Idle => true,
        State::IdleInTransaction => matches!(mode, PoolerMode::Session),
        State::TransactionError => matches!(mode, PoolerMode::Session),
        _ => false,
    }
}

/// Exec mirror of [`rollback_needed`].
pub fn rollback_needed_exec(mode: PoolerMode, s: State) -> (r: bool)
    ensures
        r == rollback_needed(mode, s),
{
    match s {
        State::IdleInTransaction => !matches!(mode, PoolerMode::Session),
        State::TransactionError => !matches!(mode, PoolerMode::Session),
        _ => false,
    }
}

} // verus!
