//! The configuration of a node.

use vstd::prelude::*;
use vstd::string::*;

use crate::cluster::discovery::DiscoveryConfig;
use crate::text::{join2, join3, text};

verus! {

#[derive(Debug, Clone)]
pub struct AetherConfig {
    pub node_id: u64,
    pub addr: String,
    /// The path of the data directory.
    pub data_dir: String,
    pub cluster: ClusterConfig,
    pub auth: AuthConfig,
    pub log: LogConfig,
    pub lease: LeaseConfig,
    pub metrics: MetricsConfig,
    pub shard: ShardConfig,
}

#[derive(Debug, Clone)]
pub struct ClusterConfig {
    pub peers: Vec<PeerConfig>,
    pub heartbeat_interval_ms: u64,
    pub election_timeout_ms: u64,
    /// Number of committed log entries that triggers a snapshot.
    pub snapshot_trigger_log_entries: u64,
    /// Discovery configuration for dynamic cluster bootstrap.
    pub discovery: DiscoveryConfig,
}

#[derive(Debug, Clone)]
pub struct PeerConfig {
    pub node_id: u64,
    pub addr: String,
}

#[derive(Debug, Clone)]
pub struct AuthConfig {
    pub enabled: bool,
    pub token_expiry_hours: u64,
    /// The key that signs tokens. All nodes of a cluster must share it; an empty
    /// one stands for a key that the node makes for itself.
    pub signing_key: String,
}

#[derive(Debug, Clone)]
pub struct LogConfig {
    pub level: String,
    pub json: bool,
    /// Directory for log files. Empty string disables file logging.
    pub log_dir: String,
    /// Log file name prefix. Files are rotated daily.
    pub log_file_prefix: String,
}

#[derive(Debug, Clone)]
pub struct LeaseConfig {
    pub max_ttl: i64,
    pub max_leases: usize,
}

#[derive(Debug, Clone)]
pub struct MetricsConfig {
    /// Listen address for the admin HTTP server (metrics + health).
    pub listen_addr: String,
}

#[derive(Debug, Clone)]
pub struct ShardConfig {
    /// Maximum region size in bytes before auto-split triggers.
    pub max_region_size_bytes: u64,
    /// Maximum number of regions.
    pub max_regions: usize,
    /// Enable automatic region splitting when size threshold is exceeded.
    pub auto_split: bool,
}

impl ClusterConfig {
    /// The defaults of every field.
    pub open spec fn is_default(self) -> bool {
        &&& self.peers@ == Seq::<PeerConfig>::empty()
        &&& self.heartbeat_interval_ms == 1000
        &&& self.election_timeout_ms == 10000
        &&& self.snapshot_trigger_log_entries == 10000
        &&& self.discovery.is_default()
    }
}

impl AuthConfig {
    /// The defaults of every field.
    pub open spec fn is_default(self) -> bool {
        &&& !self.enabled
        &&& self.token_expiry_hours == 24
        &&& self.signing_key@ == Seq::<char>::empty()
    }
}

impl LogConfig {
    /// The defaults of every field.
    pub open spec fn is_default(self) -> bool {
        &&& self.level@ == "info"@
        &&& !self.json
        &&& self.log_dir@ == Seq::<char>::empty()
        &&& self.log_file_prefix@ == "aether"@
    }
}

impl LeaseConfig {
    /// The defaults of every field.
    pub open spec fn is_default(self) -> bool {
        &&& self.max_ttl == 86400
        &&& self.max_leases == 10000
    }
}

impl MetricsConfig {
    /// The defaults of every field.
    pub open spec fn is_default(self) -> bool {
        self.listen_addr@ == "127.0.0.1:9090"@
    }
}

impl ShardConfig {
    /// The defaults of every field.
    pub open spec fn is_default(self) -> bool {
        &&& self.max_region_size_bytes == 64 * 1024 * 1024
        &&& self.max_regions == 1024
        &&& !self.auto_split
    }
}

impl Default for ClusterConfig {
    fn default() -> (r: Self)
        ensures
            r.is_default(),
    {
        ClusterConfig {
            peers: Vec::new(),
            heartbeat_interval_ms: 1000,
            election_timeout_ms: 10000,
            snapshot_trigger_log_entries: 10000,
            discovery: DiscoveryConfig::default(),
        }
    }
}

impl Default for AuthConfig {
    fn default() -> (r: Self)
        ensures
            r.is_default(),
    {
        AuthConfig { enabled: false, token_expiry_hours: 24, signing_key: String::new() }
    }
}

impl Default for LogConfig {
    fn default() -> (r: Self)
        ensures
            r.is_default(),
    {
        LogConfig {
            level: text("info"),
            json: false,
            log_dir: String::new(),
            log_file_prefix: text("aether"),
        }
    }
}

impl Default for LeaseConfig {
    fn default() -> (r: Self)
        ensures
            r.is_default(),
    {
        LeaseConfig { max_ttl: 86400, max_leases: 10000 }
    }
}

impl Default for MetricsConfig {
    fn default() -> (r: Self)
        ensures
            r.is_default(),
    {
        MetricsConfig { listen_addr: text("127.0.0.1:9090") }
    }
}

impl Default for ShardConfig {
    fn default() -> (r: Self)
        ensures
            r.is_default(),
    {
        ShardConfig {
            max_region_size_bytes: 64 * 1024 * 1024,
            max_regions: 1024,
            auto_split: false,
        }
    }
}

impl Default for AetherConfig {
    fn default() -> (r: Self)
        ensures
            r.is_default(),
    {
        AetherConfig {
            node_id: 1,
            addr: text("127.0.0.1:2379"),
            data_dir: text("/tmp/aether"),
            cluster: ClusterConfig::default(),
            auth: AuthConfig::default(),
            log: LogConfig::default(),
            lease: LeaseConfig::default(),
            metrics: MetricsConfig::default(),
            shard: ShardConfig::default(),
        }
    }
}

/// Settings that are given when the node is started.
#[derive(Debug, Clone)]
pub struct Overrides {
    pub node_id: Option<u64>,
    pub addr: Option<String>,
    pub data_dir: Option<String>,
}

impl AetherConfig {
    /// The defaults of every field.
    pub open spec fn is_default(self) -> bool {
        &&& self.node_id == 1
        &&& self.addr@ == "127.0.0.1:2379"@
        &&& self.data_dir@ == "/tmp/aether"@
        &&& self.cluster.is_default()
        &&& self.auth.is_default()
        &&& self.log.is_default()
        &&& self.lease.is_default()
        &&& self.metrics.is_default()
        &&& self.shard.is_default()
    }

    /// The configuration with the settings that are given in place of its own.
    pub open spec fn overridden(self, o: Overrides) -> AetherConfig {
        AetherConfig {
            node_id: match o.node_id {
                Some(node_id) => node_id,
                None => self.node_id,
            },
            addr: match o.addr {
                Some(addr) => addr,
                None => self.addr,
            },
            data_dir: match o.data_dir {
                Some(data_dir) => data_dir,
                None => self.data_dir,
            },
            ..self
        }
    }

    /// Puts the settings that are given in place of those of the configuration.
    pub fn override_with(&mut self, o: Overrides)
        ensures
            *final(self) == old(self).overridden(o),
    {
        if let Some(node_id) = o.node_id {
            self.node_id = node_id;
        }
        if let Some(addr) = o.addr {
            self.addr = addr;
        }
        if let Some(data_dir) = o.data_dir {
            self.data_dir = data_dir;
        }
    }

    /// What is said of a listen address that cannot be read, for the given reason.
    pub fn listen_addr_fault(&self, reason: &str) -> (r: String)
        ensures
            r@ == "invalid metrics.listen_addr '"@ + self.metrics.listen_addr@ + "': "@ + reason@,
    {
        let head = join3(
            "invalid metrics.listen_addr '",
            self.metrics.listen_addr.as_str(),
            "': ",
        );
        join2(head.as_str(), reason)
    }
}

/// What is overridden is taken over, and everything else stays.
pub proof fn overrides_override(config: AetherConfig, o: Overrides)
    ensures
        ({
            let next = config.overridden(o);
            &&& o.node_id matches Some(node_id) ==> next.node_id == node_id
            &&& o.node_id is None ==> next.node_id == config.node_id
            &&& o.addr matches Some(addr) ==> next.addr == addr
            &&& o.addr is None ==> next.addr == config.addr
            &&& o.data_dir matches Some(data_dir) ==> next.data_dir == data_dir
            &&& o.data_dir is None ==> next.data_dir == config.data_dir
            &&& next.cluster == config.cluster
            &&& next.auth == config.auth
            &&& next.log == config.log
            &&& next.lease == config.lease
            &&& next.metrics == config.metrics
            &&& next.shard == config.shard
        }),
{
}

/// What a node does if nothing else is said.
pub proof fn usual_configuration(config: AetherConfig)
    requires
        config.is_default(),
    ensures
        config.node_id == 1,
        config.addr@ == "127.0.0.1:2379"@,
        config.data_dir@ == "/tmp/aether"@,
        config.cluster.peers@.len() == 0,
        config.cluster.heartbeat_interval_ms == 1000,
        config.cluster.election_timeout_ms == 10000,
        config.cluster.snapshot_trigger_log_entries == 10000,
        config.cluster.discovery.method@ == "static"@,
        !config.auth.enabled,
        config.auth.token_expiry_hours == 24,
        config.auth.signing_key@.len() == 0,
        config.log.level@ == "info"@,
        !config.log.json,
        config.log.log_dir@.len() == 0,
        config.log.log_file_prefix@ == "aether"@,
        config.lease.max_ttl == 86400,
        config.lease.max_leases == 10000,
        config.metrics.listen_addr@ == "127.0.0.1:9090"@,
        config.shard.max_region_size_bytes == 67108864,
        config.shard.max_regions == 1024,
        !config.shard.auto_split,
{
}

} // verus!
