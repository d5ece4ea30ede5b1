//! The services that clients call.

pub mod auth;
pub mod barrier;
pub mod cluster;
pub mod election;
pub mod guard;
pub mod health;
pub mod kv;
pub mod txn;
pub mod lock;
pub mod maintenance;
pub mod metrics;
pub mod queue;
pub mod session;
pub mod shard;
pub mod watch;
