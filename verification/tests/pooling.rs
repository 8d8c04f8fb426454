//! Pool discipline: capacity, exclusivity, discard on error, checkout and
//! return under each pooler mode.

use pgdog::config::{requeue_ok_exec, rollback_needed_exec, PoolerMode, Role};
use pgdog::errors::Error;
use pgdog::messages::{BackendKeyData, BackendMessage};
use pgdog::pool::{Address, Checkin, Checkout, Pool, PoolConfig, PoolRef, PoolSettings};
use pgdog::server::{Server, Startup};
use pgdog::state::State;

fn settings(max_size: usize, min_size: usize) -> PoolSettings {
    PoolSettings {
        max_size,
        min_size,
        idle_timeout: 60_000,
        checkout_timeout: 50,
        healthcheck_interval: 30_000,
    }
}

fn config(port: u16, max_size: usize) -> PoolConfig {
    PoolConfig {
        address: Address {
            host: "db.local".to_string(),
            port,
        },
        config: settings(max_size, 0),
    }
}

fn connect_server(pid: i32, secret: i32) -> Server {
    let mut st = Startup::new();
    st.step(BackendMessage::Authentication { ok: true }).unwrap();
    st.step(BackendMessage::BackendKeyData {
        key: BackendKeyData { pid, secret },
    })
    .unwrap();
    st.step(BackendMessage::ReadyForQuery { status: b'I' }).unwrap();
    st.finish(0)
}

fn at() -> PoolRef {
    PoolRef {
        shard: 0,
        role: Role::Primary,
        index: 0,
    }
}

fn key(pid: i32) -> BackendKeyData {
    BackendKeyData { pid, secret: 0 }
}

#[test]
fn empty_pool_reserves_a_connection() {
    let mut pool = Pool::new(&config(5432, 2));
    match pool.get(&key(1), at()).unwrap() {
        Checkout::Connect(t) => {
            assert_eq!(t.addr.port, 5432);
            assert_eq!(t.owner, key(1));
        }
        _ => panic!("expected a reservation"),
    }
    assert_eq!(pool.len(), 1);
    assert_eq!(pool.in_use(), 1);
}

#[test]
fn checkout_takes_the_idle_session_first() {
    let mut pool = Pool::new(&config(5432, 2));
    assert!(pool.add_idle(connect_server(7, 1)));
    assert_eq!(pool.idle_len(), 1);
    let g = match pool.get(&key(9), at()).unwrap() {
        Checkout::Session(g) => g,
        _ => panic!("expected the idle session"),
    };
    assert_eq!(g.server.id(), &BackendKeyData { pid: 7, secret: 1 });
    assert_eq!(g.owner, key(9));
    assert_eq!(g.addr.port, 5432);
    assert_eq!(pool.idle_len(), 0);
    assert_eq!(pool.in_use(), 1);
}

#[test]
fn exclusivity_checked_out_session_leaves_the_pool() {
    let mut pool = Pool::new(&config(5432, 4));
    assert!(pool.add_idle(connect_server(1, 0)));
    assert!(pool.add_idle(connect_server(2, 0)));
    let g = match pool.get(&key(5), at()).unwrap() {
        Checkout::Session(g) => g,
        _ => panic!("expected a session"),
    };
    // No idle session shares the key of the one handed out: no second guard
    // can ever be built over it.
    assert!(!pool.has_id(g.server.id()));
    assert!(pool.has_id(&BackendKeyData { pid: 2, secret: 0 }));
}

#[test]
fn capacity_is_never_exceeded() {
    // max_size 1, held by caller A: caller B is told to wait and no second
    // session comes into being.
    let mut pool = Pool::new(&config(5432, 1));
    assert!(matches!(
        pool.get(&key(1), at()).unwrap(),
        Checkout::Connect(_)
    ));
    assert_eq!(pool.len(), 1);
    match pool.get(&key(2), at()).unwrap() {
        Checkout::Wait(w) => assert_eq!(w, at()),
        _ => panic!("expected to wait at capacity"),
    }
    assert_eq!(pool.len(), 1);
    assert_eq!(pool.in_use() + pool.idle_len(), 1);
}

#[test]
fn failed_idle_sessions_are_discarded_on_checkout() {
    let mut pool = Pool::new(&config(5432, 4));
    let mut broken = connect_server(1, 0);
    broken.read_failed();
    assert!(pool.add_idle(broken));
    assert!(pool.add_idle(connect_server(2, 0)));
    assert_eq!(pool.len(), 2);
    let g = match pool.get(&key(9), at()).unwrap() {
        Checkout::Session(g) => g,
        _ => panic!("expected the live session"),
    };
    // The broken session was skipped and destroyed; the live one came out.
    assert_eq!(g.server.id(), &BackendKeyData { pid: 2, secret: 0 });
    assert_eq!(pool.len(), 1);
    assert_eq!(pool.idle_len(), 0);
}

#[test]
fn discard_on_error_never_requeues() {
    let mut pool = Pool::new(&config(5432, 2));
    let g = match pool.get(&key(1), at()).unwrap() {
        Checkout::Connect(t) => t.into_guard(connect_server(3, 0)),
        _ => panic!("expected a reservation"),
    };
    let mut server = g.server;
    server.read_failed();
    let verdict = pool.checkin(server, PoolerMode::Transaction);
    assert!(matches!(verdict, Checkin::Discarded(None)));
    assert_eq!(pool.idle_len(), 0);
    assert_eq!(pool.len(), 0);
}

#[test]
fn clean_return_goes_back_to_the_idle_queue() {
    let mut pool = Pool::new(&config(5432, 2));
    let g = match pool.get(&key(1), at()).unwrap() {
        Checkout::Connect(t) => t.into_guard(connect_server(3, 0)),
        _ => panic!("expected a reservation"),
    };
    let verdict = pool.checkin(g.server, PoolerMode::Transaction);
    assert!(matches!(verdict, Checkin::Requeued));
    assert_eq!(pool.idle_len(), 1);
    assert_eq!(pool.len(), 1);
    assert_eq!(pool.in_use(), 0);
}

#[test]
fn transactional_return_is_discarded_outside_session_mode() {
    let mut pool = Pool::new(&config(5432, 2));
    let mut server = match pool.get(&key(1), at()).unwrap() {
        Checkout::Connect(t) => t.into_guard(connect_server(3, 0)).server,
        _ => panic!("expected a reservation"),
    };
    server
        .observe(&BackendMessage::ReadyForQuery { status: b'T' })
        .unwrap();
    let verdict = pool.checkin(server, PoolerMode::Statement);
    assert!(matches!(verdict, Checkin::Discarded(None)));
    assert_eq!(pool.idle_len(), 0);
    assert_eq!(pool.len(), 0);
}

#[test]
fn transactional_return_is_kept_in_session_mode() {
    let mut pool = Pool::new(&config(5432, 2));
    let mut server = match pool.get(&key(1), at()).unwrap() {
        Checkout::Connect(t) => t.into_guard(connect_server(3, 0)).server,
        _ => panic!("expected a reservation"),
    };
    server
        .observe(&BackendMessage::ReadyForQuery { status: b'T' })
        .unwrap();
    let verdict = pool.checkin(server, PoolerMode::Session);
    assert!(matches!(verdict, Checkin::Requeued));
    assert_eq!(pool.idle_len(), 1);
    assert_eq!(pool.len(), 1);
}

#[test]
fn mid_exchange_return_is_discarded() {
    let mut pool = Pool::new(&config(5432, 2));
    let mut server = match pool.get(&key(1), at()).unwrap() {
        Checkout::Connect(t) => t.into_guard(connect_server(3, 0)).server,
        _ => panic!("expected a reservation"),
    };
    server.begin_statement().unwrap();
    let verdict = pool.checkin(server, PoolerMode::Session);
    assert!(matches!(verdict, Checkin::Discarded(None)));
    assert_eq!(pool.idle_len(), 0);
    assert_eq!(pool.len(), 0);
}

#[test]
fn abandoned_reservation_frees_the_slot() {
    let mut pool = Pool::new(&config(5432, 1));
    assert!(matches!(
        pool.get(&key(1), at()).unwrap(),
        Checkout::Connect(_)
    ));
    assert_eq!(pool.len(), 1);
    assert_eq!(pool.abandon(), None);
    assert_eq!(pool.len(), 0);
    assert!(matches!(
        pool.get(&key(2), at()).unwrap(),
        Checkout::Connect(_)
    ));
}

#[test]
fn shutdown_drains_and_refuses() {
    let mut pool = Pool::new(&config(5432, 4));
    assert!(pool.add_idle(connect_server(1, 0)));
    assert!(pool.add_idle(connect_server(2, 0)));
    let cancelled = pool.shutdown();
    assert!(cancelled.is_empty());
    assert!(pool.is_shut_down());
    assert_eq!(pool.idle_len(), 0);
    assert_eq!(pool.len(), 0);
    let err = pool.get(&key(1), at()).unwrap_err();
    assert_eq!(err, Error::Shutdown);
}

#[test]
fn launch_reports_how_many_to_warm() {
    let mut pool = Pool::new(&PoolConfig {
        address: Address {
            host: "db.local".to_string(),
            port: 5432,
        },
        config: settings(8, 3),
    });
    assert_eq!(pool.launch(), 3);
    assert!(pool.add_idle(connect_server(1, 0)));
    assert_eq!(pool.launch(), 2);
    // Shutdown destroys the idle session; a relaunch starts warming afresh.
    let _ = pool.shutdown();
    assert_eq!(pool.launch(), 3);
    assert!(!pool.is_shut_down());
}

#[test]
fn rollback_is_owed_only_for_forbidden_transactional_returns() {
    assert!(rollback_needed_exec(
        PoolerMode::Statement,
        State::IdleInTransaction
    ));
    assert!(rollback_needed_exec(
        PoolerMode::Transaction,
        State::TransactionError
    ));
    assert!(!rollback_needed_exec(
        PoolerMode::Session,
        State::IdleInTransaction
    ));
    assert!(!rollback_needed_exec(PoolerMode::Statement, State::Idle));
    assert!(!rollback_needed_exec(PoolerMode::Statement, State::Error));
    assert!(requeue_ok_exec(PoolerMode::Statement, State::Idle));
    assert!(!requeue_ok_exec(PoolerMode::Statement, State::Active));
}

#[test]
fn cancel_touches_no_pooled_session() {
    // Cancellation only needs (addr, key): the pool hands both out and its
    // state is untouched — no pooled session is consumed.
    let mut pool = Pool::new(&config(5432, 4));
    assert!(pool.add_idle(connect_server(1, 0)));
    let before = (pool.len(), pool.idle_len());
    let ticket = pool.cancel(&BackendKeyData {
        pid: 77,
        secret: 88,
    });
    assert_eq!(ticket.addr.port, 5432);
    assert_eq!(ticket.addr.host, "db.local");
    assert_eq!(
        ticket.key,
        BackendKeyData {
            pid: 77,
            secret: 88
        }
    );
    assert_eq!((pool.len(), pool.idle_len()), before);
}

#[test]
fn duplicate_is_fresh_with_the_same_config() {
    let mut pool = Pool::new(&config(9999, 4));
    assert!(pool.add_idle(connect_server(1, 0)));
    let twin = pool.duplicate();
    assert_eq!(twin.addr().port, 9999);
    assert_eq!(twin.len(), 0);
    assert_eq!(twin.idle_len(), 0);
    assert!(!twin.is_shut_down());
}

#[test]
fn duplicate_key_return_is_discarded() {
    let mut pool = Pool::new(&config(5432, 4));
    assert!(pool.add_idle(connect_server(1, 0)));
    assert!(pool.add_idle(connect_server(2, 0)));
    // Take (1, 0) out so a slot is in use.
    let _ = pool.get(&key(9), at()).unwrap();
    // A return whose key already sits idle cannot be a genuine guard: it is
    // discarded, not queued beside its twin.
    let twin_keyed = connect_server(2, 0);
    assert!(pool.has_id(twin_keyed.id()));
    let verdict = pool.checkin(twin_keyed, PoolerMode::Transaction);
    assert!(matches!(verdict, Checkin::Discarded(None)));
    assert_eq!(pool.idle_len(), 1);
    assert_eq!(pool.len(), 1);
}

#[test]
fn waiters_are_served_first_come_first_served() {
    let mut pool = Pool::new(&config(5432, 1));
    // A holds the only slot; B then C line up.
    let ticket = match pool.get(&key(1), at()).unwrap() {
        Checkout::Connect(t) => t,
        _ => panic!("expected a reservation"),
    };
    assert!(matches!(pool.get(&key(2), at()).unwrap(), Checkout::Wait(_)));
    assert!(matches!(pool.get(&key(3), at()).unwrap(), Checkout::Wait(_)));
    // A returns a clean session: it goes straight to B, not to the queue.
    let guard = ticket.into_guard(connect_server(9, 9));
    match pool.checkin(guard.server, PoolerMode::Transaction) {
        Checkin::Handed(w, server) => {
            assert_eq!(w, key(2));
            // B returns it in turn: C is next in line.
            match pool.checkin(server, PoolerMode::Transaction) {
                Checkin::Handed(w2, _) => assert_eq!(w2, key(3)),
                other => panic!("expected a handoff to C, got {:?}", other),
            }
        }
        other => panic!("expected a handoff to B, got {:?}", other),
    }
    assert_eq!(pool.idle_len(), 0);
    assert_eq!(pool.len(), 1);
}

#[test]
fn discarded_return_wakes_the_first_waiter() {
    let mut pool = Pool::new(&config(5432, 1));
    let ticket = match pool.get(&key(1), at()).unwrap() {
        Checkout::Connect(t) => t,
        _ => panic!("expected a reservation"),
    };
    assert!(matches!(pool.get(&key(2), at()).unwrap(), Checkout::Wait(_)));
    let mut server = ticket.into_guard(connect_server(9, 9)).server;
    server.read_failed();
    // The broken session is destroyed, and B is woken: the freed slot is its.
    match pool.checkin(server, PoolerMode::Transaction) {
        Checkin::Discarded(Some(w)) => assert_eq!(w, key(2)),
        other => panic!("expected a wake-up for B, got {:?}", other),
    }
    assert_eq!(pool.len(), 0);
    assert!(matches!(pool.get(&key(2), at()).unwrap(), Checkout::Connect(_)));
}

#[test]
fn timed_out_waiter_is_withdrawn() {
    let mut pool = Pool::new(&config(5432, 1));
    let _ = pool.get(&key(1), at()).unwrap();
    assert!(matches!(pool.get(&key(2), at()).unwrap(), Checkout::Wait(_)));
    // The checkout timeout (50 ms) decides when the wait must give up.
    let settings = config(5432, 1).config;
    assert!(!settings.checkout_expired(100, 149));
    assert!(settings.checkout_expired(100, 150));
    assert!(pool.cancel_waiter(&key(2)));
    assert!(!pool.cancel_waiter(&key(2)));
}

#[test]
fn shutdown_cancels_outstanding_waiters() {
    let mut pool = Pool::new(&config(5432, 1));
    let _ = pool.get(&key(1), at()).unwrap();
    assert!(matches!(pool.get(&key(2), at()).unwrap(), Checkout::Wait(_)));
    assert!(matches!(pool.get(&key(3), at()).unwrap(), Checkout::Wait(_)));
    let cancelled = pool.shutdown();
    assert_eq!(cancelled, vec![key(2), key(3)]);
}

#[test]
fn sweep_evicts_failed_and_stale_idle_sessions() {
    // idle_timeout 1000 ms: a session created at 0 has outlived it by t=2000,
    // one created at 1500 has not; a failed one goes regardless.
    let mut pool = Pool::new(&PoolConfig {
        address: Address {
            host: "db.local".to_string(),
            port: 5432,
        },
        config: PoolSettings {
            max_size: 8,
            min_size: 0,
            idle_timeout: 1000,
            checkout_timeout: 50,
            healthcheck_interval: 100,
        },
    });
    let mut broken = connect_at(1, 1500);
    broken.read_failed();
    assert!(pool.add_idle(connect_at(2, 0)));
    assert!(pool.add_idle(broken));
    assert!(pool.add_idle(connect_at(3, 1500)));
    assert_eq!(pool.sweep_idle(2000), 2);
    assert_eq!(pool.idle_len(), 1);
    assert_eq!(pool.len(), 1);
    match pool.get(&key(9), at()).unwrap() {
        Checkout::Session(g) => assert_eq!(g.server.id().pid, 3),
        _ => panic!("expected the fresh session"),
    }
}

fn connect_at(pid: i32, created_at: u64) -> Server {
    let mut st = Startup::new();
    st.step(BackendMessage::Authentication { ok: true }).unwrap();
    st.step(BackendMessage::BackendKeyData {
        key: BackendKeyData { pid, secret: 0 },
    })
    .unwrap();
    st.step(BackendMessage::ReadyForQuery { status: b'I' }).unwrap();
    st.finish(created_at)
}
