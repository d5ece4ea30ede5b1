//! The cluster: its alarms and how its members find each other.

pub mod alarm;
pub mod discovery;

pub use self::alarm::{AlarmManager, AlarmType};
pub use self::discovery::{
    build_provider, DiscoveryConfig, DiscoveryError, DnsSrvDiscovery, PeerInfo, Provider,
    TokenDiscovery,
};
