//! Aether, a distributed key-value store: the logic of its services, of the
//! lock, barrier, election and queue registries, of leases, of access control,
//! of cluster membership and discovery, of the gateway and of the benchmark.

pub mod bytes;
pub mod text;
pub mod json;
pub mod sorted;
pub mod clock;
pub mod random;
pub mod error;
pub mod status;
pub mod config;
pub mod names;
pub mod registry;
pub mod lock;
pub mod barrier;
pub mod election;
pub mod queue;
pub mod lease;
pub mod raft;
pub mod proto;
pub mod auth;
pub mod cluster;
pub mod api;
pub mod node;
pub mod gateway;
pub mod bench;
