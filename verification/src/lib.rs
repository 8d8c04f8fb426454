//! Connection-pooling and routing core for a PostgreSQL proxy.
//!
//! The crate models the substrate that sits between clients speaking the
//! PostgreSQL wire protocol and a sharded primary/replica cluster of servers:
//! the backend session lifecycle (startup handshake, authentication,
//! transaction-state tracking, cancellation), the bounded pool that lends
//! sessions out under a checkout discipline, the shard and cluster topology
//! with load balancing, and the router that maps statements to a shard and
//! role through a chain of plugins.
//!
//! All transport work (TCP, TLS, dynamic library loading) lives outside this
//! crate; the library consumes decoded messages and emits decisions, so every
//! rule here is stated in a contract and verified.

pub mod cluster;
pub mod config;
pub mod errors;
pub mod messages;
pub mod plugin;
pub mod pool;
pub mod replicas;
pub mod router;
pub mod shard;
pub mod table;
pub mod server;
pub mod state;
