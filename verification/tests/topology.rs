//! Cluster, shard and replica-set behaviour: shard indexing, fallback, load
//! balancing, cancellation broadcast, and the plugin projection.

use pgdog::cluster::{Cluster, DatabaseConfig};
use pgdog::config::{LoadBalancingStrategy, PoolerMode, Role};
use pgdog::errors::Error;
use pgdog::messages::{BackendKeyData, BackendMessage, ErrorResponse};
use pgdog::pool::{Address, Checkin, Checkout, PoolConfig, PoolSettings};
use pgdog::replicas::Replicas;
use pgdog::server::{Server, Startup};
use pgdog::shard::Shard;

fn config(host: &str, port: u16) -> PoolConfig {
    PoolConfig {
        address: Address {
            host: host.to_string(),
            port,
        },
        config: PoolSettings {
            max_size: 10,
            min_size: 0,
            idle_timeout: 60_000,
            checkout_timeout: 50,
            healthcheck_interval: 30_000,
        },
    }
}

fn connect_server(pid: i32, secret: i32) -> Server {
    let mut st = Startup::new();
    st.step(BackendMessage::Authentication { ok: true }).unwrap();
    st.step(BackendMessage::BackendKeyData {
        key: BackendKeyData { pid, secret },
    })
    .unwrap();
    st.step(BackendMessage::ReadyForQuery { status: b'I' }).unwrap();
    st.finish(0)
}

fn key(pid: i32) -> BackendKeyData {
    BackendKeyData { pid, secret: 0 }
}

fn one_shard_cluster() -> Cluster {
    let shards = vec![(Some(config("primary.db", 5001)), Vec::new())];
    Cluster::new(
        "app",
        &shards,
        LoadBalancingStrategy::RoundRobin,
        "hunter2",
        PoolerMode::Transaction,
    )
}

#[test]
fn shard_index_out_of_range_is_refused() {
    let mut cluster = one_shard_cluster();
    let err = cluster.primary(3, &key(1)).unwrap_err();
    assert_eq!(err, Error::NoShard(3));
    let err = cluster.replica(7, &key(1), 0).unwrap_err();
    assert_eq!(err, Error::NoShard(7));
}

#[test]
fn single_shard_write_round_trip() {
    // One shard, primary only; the route said {shard: 0, write}. The checkout
    // reserves a connection, the statement runs, and the session comes back
    // idle.
    let mut cluster = one_shard_cluster();
    let ticket = match cluster.primary(0, &key(1)).unwrap() {
        Checkout::Connect(t) => t,
        _ => panic!("expected a reservation"),
    };
    assert_eq!(ticket.addr.host, "primary.db");
    let mut guard = ticket.into_guard(connect_server(10, 20));
    guard.server.begin_statement().unwrap();
    guard
        .server
        .observe(&BackendMessage::Other { code: b'C' })
        .unwrap();
    guard
        .server
        .observe(&BackendMessage::ReadyForQuery { status: b'I' })
        .unwrap();
    assert!(guard.server.done());
    assert!(matches!(cluster.checkin(guard), Some(Checkin::Requeued)));
    // The session is idle in its pool again.
    let again = match cluster.primary(0, &key(2)).unwrap() {
        Checkout::Session(g) => g,
        _ => panic!("expected the returned session"),
    };
    assert_eq!(again.server.id(), &BackendKeyData { pid: 10, secret: 20 });
}

#[test]
fn replica_falls_back_to_primary() {
    // Empty replica set and a primary: the replica checkout is backed by the
    // primary pool.
    let mut cluster = one_shard_cluster();
    match cluster.replica(0, &key(1), 0).unwrap() {
        Checkout::Connect(t) => {
            assert_eq!(t.addr.host, "primary.db");
            assert_eq!(t.at.role, Role::Primary);
        }
        _ => panic!("expected a reservation from the primary"),
    }
}

#[test]
fn replica_without_any_pool_is_refused() {
    let shards = vec![(None, Vec::new())];
    let mut cluster = Cluster::new(
        "app",
        &shards,
        LoadBalancingStrategy::RoundRobin,
        "",
        PoolerMode::Transaction,
    );
    assert_eq!(cluster.replica(0, &key(1), 0).unwrap_err(), Error::NoDatabases);
    assert_eq!(cluster.primary(0, &key(1)).unwrap_err(), Error::NoPrimary);
}

#[test]
fn round_robin_rotates_over_replicas() {
    let shards = vec![(
        None,
        vec![config("r0.db", 5001), config("r1.db", 5002)],
    )];
    let mut cluster = Cluster::new(
        "app",
        &shards,
        LoadBalancingStrategy::RoundRobin,
        "",
        PoolerMode::Transaction,
    );
    let mut ports = Vec::new();
    for pid in [1, 2, 3] {
        match cluster.replica(0, &key(pid), 0).unwrap() {
            Checkout::Connect(t) => ports.push(t.addr.port),
            _ => panic!("expected a reservation"),
        }
    }
    assert_eq!(ports, vec![5001, 5002, 5001]);
}

#[test]
fn random_pick_uses_the_supplied_entropy() {
    let configs = vec![config("r0.db", 5001), config("r1.db", 5002)];
    let mut replicas = Replicas::new(&configs, LoadBalancingStrategy::Random);
    match replicas.get(&key(1), 0, 3).unwrap() {
        Checkout::Connect(t) => assert_eq!(t.addr.port, 5002),
        _ => panic!("expected a reservation"),
    }
    match replicas.get(&key(2), 0, 4).unwrap() {
        Checkout::Connect(t) => assert_eq!(t.addr.port, 5001),
        _ => panic!("expected a reservation"),
    }
}

#[test]
fn least_connections_prefers_the_lighter_pool() {
    let configs = vec![config("r0.db", 5001), config("r1.db", 5002)];
    let mut replicas = Replicas::new(&configs, LoadBalancingStrategy::LeastConnections);
    // Tie: the lower index wins, and the reservation loads it.
    match replicas.get(&key(1), 0, 0).unwrap() {
        Checkout::Connect(t) => assert_eq!(t.addr.port, 5001),
        _ => panic!("expected a reservation"),
    }
    // Now the second pool is the lighter one.
    match replicas.get(&key(2), 0, 0).unwrap() {
        Checkout::Connect(t) => assert_eq!(t.addr.port, 5002),
        _ => panic!("expected a reservation"),
    }
}

#[test]
fn cancel_broadcasts_to_every_pool() {
    let shards = vec![
        (Some(config("p0.db", 5001)), vec![config("r0.db", 5002)]),
        (None, vec![config("r1.db", 5003)]),
    ];
    let cluster = Cluster::new(
        "app",
        &shards,
        LoadBalancingStrategy::RoundRobin,
        "",
        PoolerMode::Transaction,
    );
    let id = BackendKeyData {
        pid: 42,
        secret: 77,
    };
    let tickets = cluster.cancel(&id);
    // Shard order, primary before replicas.
    let hosts: Vec<String> = tickets.iter().map(|t| t.addr.host.clone()).collect();
    assert_eq!(hosts, vec!["p0.db", "r0.db", "r1.db"]);
    assert!(tickets.iter().all(|t| t.key == id));
}

#[test]
fn cancel_verdict_partial_success_is_success() {
    assert!(Shard::cancel_verdict(&vec![false, true, false]).is_ok());
    assert!(Shard::cancel_verdict(&Vec::new()).is_ok());
    assert_eq!(
        Shard::cancel_verdict(&vec![false, false]).unwrap_err(),
        Error::CancelFailed
    );
}

#[test]
fn cancelled_query_settles_back_to_idle() {
    // A long-running statement is cancelled: the server answers with an
    // ErrorResponse (query_canceled) and a ReadyForQuery, after which the
    // session is idle again.
    let mut server = connect_server(42, 77);
    server.begin_statement().unwrap();
    server
        .observe(&BackendMessage::ErrorResponse {
            error: ErrorResponse {
                code: "57014".to_string(),
                message: "canceling statement due to user request".to_string(),
            },
        })
        .unwrap();
    server
        .observe(&BackendMessage::ReadyForQuery { status: b'I' })
        .unwrap();
    assert!(server.done());
}

#[test]
fn plugin_projection_lists_every_pool_in_order() {
    let shards = vec![
        (Some(config("p0.db", 5001)), vec![config("r0.db", 5002)]),
        (None, vec![config("r1.db", 5003)]),
    ];
    let cluster = Cluster::new(
        "app",
        &shards,
        LoadBalancingStrategy::RoundRobin,
        "",
        PoolerMode::Transaction,
    );
    let cfg = cluster.plugin_config().unwrap();
    assert_eq!(cfg.name, "app");
    assert_eq!(cfg.num_shards, 2);
    let expected = vec![
        DatabaseConfig {
            host: "p0.db".to_string(),
            port: 5001,
            role: Role::Primary,
            shard_index: 0,
        },
        DatabaseConfig {
            host: "r0.db".to_string(),
            port: 5002,
            role: Role::Replica,
            shard_index: 0,
        },
        DatabaseConfig {
            host: "r1.db".to_string(),
            port: 5003,
            role: Role::Replica,
            shard_index: 1,
        },
    ];
    assert_eq!(cfg.databases, expected);
}

#[test]
fn plugin_projection_skips_hosts_with_nul_bytes() {
    let shards = vec![(
        Some(config("bad\0host", 5001)),
        vec![config("good.db", 5002)],
    )];
    let cluster = Cluster::new(
        "app",
        &shards,
        LoadBalancingStrategy::RoundRobin,
        "",
        PoolerMode::Transaction,
    );
    let cfg = cluster.plugin_config().unwrap();
    assert_eq!(cfg.databases.len(), 1);
    assert_eq!(cfg.databases[0].host, "good.db");
    assert_eq!(cfg.databases[0].role, Role::Replica);
}

#[test]
fn plugin_projection_refuses_a_name_with_nul_bytes() {
    let shards = vec![(Some(config("p0.db", 5001)), Vec::new())];
    let cluster = Cluster::new(
        "bad\0name",
        &shards,
        LoadBalancingStrategy::RoundRobin,
        "",
        PoolerMode::Transaction,
    );
    assert_eq!(cluster.plugin_config().unwrap_err(), Error::NullBytes);
}

#[test]
fn cluster_publishes_its_settings() {
    let cluster = one_shard_cluster();
    assert_eq!(cluster.name().as_str(), "app");
    assert_eq!(cluster.password().as_str(), "hunter2");
    assert_eq!(cluster.pooler_mode(), PoolerMode::Transaction);
    assert_eq!(cluster.shards().len(), 1);
}

#[test]
fn duplicate_builds_an_equivalent_cluster_with_fresh_pools() {
    let mut cluster = one_shard_cluster();
    // Load the original so the copy's freshness is visible.
    let _ = cluster.primary(0, &key(1)).unwrap();
    let twin = cluster.duplicate();
    assert_eq!(twin.name().as_str(), "app");
    assert_eq!(twin.shards().len(), 1);
    let mut twin = twin;
    match twin.primary(0, &key(2)).unwrap() {
        Checkout::Connect(t) => assert_eq!(t.addr.host, "primary.db"),
        _ => panic!("a fresh pool has nothing idle"),
    }
}

#[test]
fn shard_launch_and_shutdown() {
    let mut shard = Shard::new(
        &Some(config("p0.db", 5001)),
        &vec![config("r0.db", 5002)],
        LoadBalancingStrategy::RoundRobin,
    );
    let cancelled = shard.shutdown();
    assert!(cancelled.is_empty());
    assert_eq!(
        shard.primary(0, &key(1)).unwrap_err(),
        Error::Shutdown
    );
    shard.launch();
    assert!(matches!(
        shard.primary(0, &key(1)).unwrap(),
        Checkout::Connect(_)
    ));
    let configs = shard.pools();
    assert_eq!(configs.len(), 2);
    assert_eq!(configs[0].address.host, "p0.db");
    assert_eq!(configs[1].address.host, "r0.db");
}

#[test]
fn abandoned_cluster_reservation_frees_the_slot() {
    let shards = vec![(Some(config("p0.db", 5001)), Vec::new())];
    let mut cluster = Cluster::new(
        "app",
        &shards,
        LoadBalancingStrategy::RoundRobin,
        "",
        PoolerMode::Transaction,
    );
    let ticket = match cluster.primary(0, &key(1)).unwrap() {
        Checkout::Connect(t) => t,
        _ => panic!("expected a reservation"),
    };
    assert!(matches!(cluster.abandon(&ticket.at), Some(None)));
    // The slot is free again: a new checkout reserves rather than waits.
    let shards_ref = cluster.shards();
    assert_eq!(shards_ref.len(), 1);
    assert!(matches!(
        cluster.primary(0, &key(2)).unwrap(),
        Checkout::Connect(_)
    ));
}

#[test]
fn warmed_session_is_served_from_the_cluster() {
    let mut cluster = one_shard_cluster();
    let ticket = match cluster.primary(0, &key(1)).unwrap() {
        Checkout::Connect(t) => t,
        _ => panic!("expected a reservation"),
    };
    assert!(matches!(cluster.abandon(&ticket.at), Some(None)));
    assert!(cluster.add_idle(&ticket.at, connect_server(5, 6)));
    match cluster.primary(0, &key(2)).unwrap() {
        Checkout::Session(g) => {
            assert_eq!(g.server.id(), &BackendKeyData { pid: 5, secret: 6 })
        }
        _ => panic!("expected the warmed session"),
    }
}

#[test]
fn duplicate_keeps_addresses_strategy_and_mode() {
    let shards = vec![
        (Some(config("p0.db", 5001)), vec![config("r0.db", 5002)]),
        (None, vec![config("r1.db", 5003)]),
    ];
    let cluster = Cluster::new(
        "app",
        &shards,
        LoadBalancingStrategy::LeastConnections,
        "pw",
        PoolerMode::Session,
    );
    let twin = cluster.duplicate();
    assert_eq!(twin.name().as_str(), "app");
    assert_eq!(twin.password().as_str(), "pw");
    assert_eq!(twin.pooler_mode(), PoolerMode::Session);
    // Shard by shard, the same topology and addresses, with fresh pools.
    let cfg = twin.plugin_config().unwrap();
    let original_cfg = cluster.plugin_config().unwrap();
    assert_eq!(cfg.databases, original_cfg.databases);
    let mut twin = twin;
    assert!(matches!(
        twin.replica(0, &key(1), 0).unwrap(),
        Checkout::Connect(_)
    ));
}

#[test]
fn cluster_withdraws_a_timed_out_waiter() {
    let mut cluster = one_shard_cluster();
    // Fill the only pool to capacity so the next checkout waits.
    let mut tickets = Vec::new();
    for pid in 0..10 {
        match cluster.primary(0, &key(pid)).unwrap() {
            Checkout::Connect(t) => tickets.push(t),
            _ => panic!("expected reservations"),
        }
    }
    let waiter = key(99);
    assert!(matches!(
        cluster.primary(0, &waiter).unwrap(),
        Checkout::Wait(_)
    ));
    let at = tickets[0].at;
    assert!(cluster.cancel_waiter(&at, &waiter));
    assert!(!cluster.cancel_waiter(&at, &waiter));
}

#[test]
fn cluster_sweep_evicts_stale_idle_sessions() {
    let mut cluster = one_shard_cluster();
    let ticket = match cluster.primary(0, &key(1)).unwrap() {
        Checkout::Connect(t) => t,
        _ => panic!("expected a reservation"),
    };
    let at = ticket.at;
    let guard = ticket.into_guard(connect_server(5, 6));
    assert!(matches!(cluster.checkin(guard), Some(Checkin::Requeued)));
    // The configured idle timeout is 60 s: the session survives an early
    // sweep and is evicted once it has outlived the timeout.
    cluster.sweep_idle(1_000);
    assert!(matches!(
        cluster.primary(0, &key(2)).unwrap(),
        Checkout::Session(_)
    ));
    let guard = match cluster.primary(0, &key(3)) {
        Err(_) => panic!("pool went away"),
        Ok(Checkout::Session(g)) => panic!("nothing should be idle: {:?}", g.owner),
        Ok(Checkout::Connect(t)) => t.into_guard(connect_server(7, 8)),
        Ok(Checkout::Wait(_)) => panic!("capacity is not exhausted"),
    };
    assert!(matches!(cluster.checkin(guard), Some(Checkin::Requeued)));
    cluster.sweep_idle(120_000);
    // Everything idle was stale and went away: a fresh checkout must dial.
    let _ = at;
    assert!(matches!(
        cluster.primary(0, &key(4)).unwrap(),
        Checkout::Connect(_)
    ));
}
