//! Backend session lifecycle: startup handshake, transaction-state tracking,
//! and the statement round trips.

use pgdog::errors::Error;
use pgdog::messages::{BackendKeyData, BackendMessage, ErrorResponse};
use pgdog::server::{Server, Startup};
use pgdog::state::State;

fn connect_server(pid: i32, secret: i32) -> Server {
    let mut st = Startup::new();
    st.step(BackendMessage::Authentication { ok: true }).unwrap();
    st.step(BackendMessage::ParameterStatus {
        name: "server_version".to_string(),
        value: "16.0".to_string(),
    })
    .unwrap();
    st.step(BackendMessage::BackendKeyData {
        key: BackendKeyData { pid, secret },
    })
    .unwrap();
    st.step(BackendMessage::ReadyForQuery { status: b'I' }).unwrap();
    assert!(st.complete());
    st.finish(0)
}

/// Drive one statement: send it, then feed the server's replies until the
/// session settles, as the transport loop would.
fn execute(server: &mut Server, replies: &[BackendMessage]) -> Result<usize, Error> {
    server.begin_statement()?;
    let mut consumed = 0;
    for m in replies {
        server.observe(m)?;
        consumed += 1;
        if server.settled() {
            break;
        }
    }
    Ok(consumed)
}

#[test]
fn startup_collects_params_and_key() {
    let server = connect_server(42, 9000);
    assert!(server.done());
    assert!(server.in_sync());
    assert!(!server.in_transaction());
    assert!(!server.error());
    assert_eq!(server.id(), &BackendKeyData { pid: 42, secret: 9000 });
    assert_eq!(server.params().len(), 1);
    assert_eq!(server.params()[0].0, "server_version");
    assert_eq!(server.params()[0].1, "16.0");
}

#[test]
fn startup_rejected_by_server() {
    let mut st = Startup::new();
    let err = st
        .step(BackendMessage::ErrorResponse {
            error: ErrorResponse {
                code: "28P01".to_string(),
                message: "password authentication failed".to_string(),
            },
        })
        .unwrap_err();
    assert!(matches!(err, Error::ConnectionError(ref e) if e.code == "28P01"));
}

#[test]
fn startup_unexpected_message_during_auth() {
    let mut st = Startup::new();
    let err = st
        .step(BackendMessage::ReadyForQuery { status: b'I' })
        .unwrap_err();
    assert_eq!(err, Error::UnexpectedMessage(b'Z'));
}

#[test]
fn startup_without_key_data_fails() {
    let mut st = Startup::new();
    st.step(BackendMessage::Authentication { ok: true }).unwrap();
    let err = st
        .step(BackendMessage::ReadyForQuery { status: b'I' })
        .unwrap_err();
    assert_eq!(err, Error::NoBackendKeyData);
}

#[test]
fn observed_states_follow_status_bytes() {
    let mut server = connect_server(1, 1);
    // The states the session passes through match the Z status bytes, in order.
    let inputs: [(u8, State); 4] = [
        (b'T', State::IdleInTransaction),
        (b'E', State::TransactionError),
        (b'I', State::Idle),
        (b'T', State::IdleInTransaction),
    ];
    for (status, expected) in inputs {
        server
            .observe(&BackendMessage::ReadyForQuery { status })
            .unwrap();
        assert_eq!(
            (server.in_transaction(), server.done()),
            (
                expected != State::Idle,
                expected == State::Idle
            )
        );
    }
}

#[test]
fn non_ready_messages_leave_state_alone() {
    let mut server = connect_server(1, 1);
    server
        .observe(&BackendMessage::Other { code: b'D' })
        .unwrap();
    assert!(server.done());
}

#[test]
fn invalid_status_byte_poisons_session() {
    let mut server = connect_server(1, 1);
    let err = server
        .observe(&BackendMessage::ReadyForQuery { status: b'X' })
        .unwrap_err();
    assert_eq!(err, Error::UnexpectedTransactionStatus(b'X'));
    assert!(server.error());
}

#[test]
fn io_failure_poisons_session() {
    let mut server = connect_server(1, 1);
    server.read_failed();
    assert!(server.error());
    assert!(!server.in_sync());
}

#[test]
fn select_round_trip_leaves_idle() {
    let mut server = connect_server(1, 1);
    let consumed = execute(
        &mut server,
        &[
            BackendMessage::Other { code: b'T' },
            BackendMessage::Other { code: b'D' },
            BackendMessage::Other { code: b'C' },
            BackendMessage::ReadyForQuery { status: b'I' },
        ],
    )
    .unwrap();
    assert_eq!(consumed, 4);
    assert!(server.done());
}

#[test]
fn begin_rollback_round_trip_leaves_idle() {
    let mut server = connect_server(1, 1);
    execute(
        &mut server,
        &[
            BackendMessage::Other { code: b'C' },
            BackendMessage::ReadyForQuery { status: b'T' },
        ],
    )
    .unwrap();
    assert!(server.in_transaction());
    execute(
        &mut server,
        &[
            BackendMessage::Other { code: b'C' },
            BackendMessage::ReadyForQuery { status: b'I' },
        ],
    )
    .unwrap();
    assert!(server.done());
}

#[test]
fn failed_transaction_then_rollback_restores_idle() {
    let mut server = connect_server(1, 1);
    // BEGIN; then a failing statement.
    execute(
        &mut server,
        &[BackendMessage::ReadyForQuery { status: b'T' }],
    )
    .unwrap();
    execute(
        &mut server,
        &[
            BackendMessage::ErrorResponse {
                error: ErrorResponse {
                    code: "42703".to_string(),
                    message: "column does not exist".to_string(),
                },
            },
            BackendMessage::ReadyForQuery { status: b'E' },
        ],
    )
    .unwrap();
    assert!(server.in_transaction());
    // rollback: the session is in a transaction, so issue ROLLBACK and settle.
    assert!(server.in_transaction());
    execute(
        &mut server,
        &[
            BackendMessage::Other { code: b'C' },
            BackendMessage::ReadyForQuery { status: b'I' },
        ],
    )
    .unwrap();
    server.rollback_settle();
    assert!(server.done());
}

#[test]
fn rollback_settle_poisons_unsynchronized_session() {
    let mut server = connect_server(1, 1);
    server.begin_statement().unwrap();
    // Mid-exchange and never settled: beyond recovery.
    server.rollback_settle();
    assert!(server.error());
}

#[test]
fn statement_on_busy_session_is_not_in_sync() {
    let mut server = connect_server(1, 1);
    server.begin_statement().unwrap();
    let err = server.begin_statement().unwrap_err();
    assert_eq!(err, Error::NotInSync);
}

#[test]
fn send_and_flush_outcomes() {
    let mut server = connect_server(1, 1);
    server.sent(true);
    assert!(!server.in_sync());
    server
        .observe(&BackendMessage::ReadyForQuery { status: b'I' })
        .unwrap();
    server.flushed(true);
    assert!(server.done());
    server.flushed(false);
    assert!(server.error());
    let mut other = connect_server(2, 2);
    other.sent(false);
    assert!(other.error());
}

#[test]
fn age_is_measured_from_creation() {
    let mut st = Startup::new();
    st.step(BackendMessage::Authentication { ok: true }).unwrap();
    st.step(BackendMessage::BackendKeyData {
        key: BackendKeyData { pid: 7, secret: 8 },
    })
    .unwrap();
    st.step(BackendMessage::ReadyForQuery { status: b'I' }).unwrap();
    let server = st.finish(100);
    assert_eq!(server.age(250), 150);
    assert_eq!(server.age(100), 0);
    assert_eq!(server.age(50), 0);
}

#[test]
fn execute_consumes_replies_until_ready() {
    let mut server = connect_server(1, 1);
    let replies = vec![
        BackendMessage::Other { code: b'T' },
        BackendMessage::Other { code: b'D' },
        BackendMessage::ReadyForQuery { status: b'I' },
        BackendMessage::Other { code: b'N' },
    ];
    // The statement settles at the ReadyForQuery; the trailing message
    // belongs to whatever comes next and is not consumed.
    assert_eq!(server.execute(&replies).unwrap(), 3);
    assert!(server.done());
}

#[test]
fn execute_refused_when_not_in_sync() {
    let mut server = connect_server(1, 1);
    server.begin_statement().unwrap();
    assert_eq!(
        server.execute(&vec![]).unwrap_err(),
        Error::NotInSync
    );
}

#[test]
fn execute_poisoned_by_invalid_status() {
    let mut server = connect_server(1, 1);
    let replies = vec![BackendMessage::ReadyForQuery { status: b'Q' }];
    assert_eq!(
        server.execute(&replies).unwrap_err(),
        Error::UnexpectedTransactionStatus(b'Q')
    );
    assert!(server.error());
}

#[test]
fn execute_in_transaction_consumes_everything() {
    let mut server = connect_server(1, 1);
    // BEGIN answers with ReadyForQuery 'T': not settled, every reply is
    // consumed and the session stays inside the transaction.
    let replies = vec![
        BackendMessage::Other { code: b'C' },
        BackendMessage::ReadyForQuery { status: b'T' },
    ];
    assert_eq!(server.execute(&replies).unwrap(), 2);
    assert!(server.in_transaction());
}

#[test]
fn message_codes() {
    assert_eq!(BackendMessage::Authentication { ok: true }.code(), b'R');
    assert_eq!(
        BackendMessage::ReadyForQuery { status: b'I' }.code(),
        b'Z'
    );
    assert_eq!(BackendMessage::Other { code: b'D' }.code(), b'D');
}
