//! Configuration of the node: power modes, transports, mesh modes, storage
//! backends and their presets, and configuration errors.

use vstd::prelude::*;
use crate::text::{append_str, append_decimal, decimal};
use crate::time::{duration_as_nanos, from_millis, from_secs};
use std::time::Duration;

verus! {

/// The power consumption profile for the node.
#[derive(Debug, Clone, Copy, PartialEq, Eq, Structural)]
pub enum PowerMode {
    /// Full performance with no power-saving measures.
    Full,
    /// A balance between performance and power consumption (the default).
    Balanced,
    /// Prioritizes low power usage by reducing activity.
    Low,
    /// Critical mode for minimal activity when battery is very low.
    Critical,
}

impl Default for PowerMode {
    fn default() -> (m: Self)
        ensures
            m == PowerMode::Balanced,
    {
        PowerMode::Balanced
    }
}

/// The network transport to be used by the node.
#[derive(Debug, Clone)]
pub enum TransportConfig {
    /// An in-memory transport for testing purposes only.
    Memory,
    /// A UDP/QUIC-based transport for high-performance networking.
    Quic {
        /// The IP address to bind to.
        bind_addr: String,
        /// The UDP port to listen on.
        port: u16,
    },
    /// A CoAP-based transport, optimized for IoT devices.
    Coap {
        /// The IP address to bind to.
        bind_addr: String,
        /// The UDP port to listen on (default: 5683).
        port: u16,
    },
    /// Mesh networking between devices.
    Mesh {
        /// The mesh networking technology to use.
        mode: MeshMode,
    },
}

impl Default for TransportConfig {
    /// Defaults to CoAP on all interfaces, port 5683.
    fn default() -> (t: Self)
        ensures
            t matches TransportConfig::Coap { bind_addr, port } && bind_addr@ == "0.0.0.0"@ && port == 5683,
    {
        TransportConfig::Coap { bind_addr: "0.0.0.0".to_owned(), port: 5683 }
    }
}

/// The type of mesh networking to use for device-to-device communication.
#[derive(Debug, Clone, Copy, PartialEq, Eq, Structural)]
pub enum MeshMode {
    /// WiFi Direct for peer-to-peer WiFi communication.
    WiFiDirect,
    /// Bluetooth Low Energy for short-range, low-power networking.
    BluetoothLE,
    /// LoRa for long-range, low-power, low-bandwidth communication.
    LoRa,
    /// Automatically select the best available mesh mode.
    Auto,
}

/// The type of storage backend to use for the node's database.
#[derive(Debug, Clone, Copy, PartialEq, Eq, Structural)]
pub enum StorageBackendType {
    /// SQLite: a lightweight single-file database (the default).
    Sqlite,
    /// RocksDB: a high-performance embedded key-value store.
    Rocksdb,
    /// In-memory storage for tests.
    Memory,
}

impl Default for StorageBackendType {
    fn default() -> (b: Self)
        ensures
            b == StorageBackendType::Sqlite,
    {
        StorageBackendType::Sqlite
    }
}

impl StorageBackendType {
    /// The lower-case name of the backend.
    pub open spec fn spec_name(self) -> Seq<char> {
        match self {
            StorageBackendType::Sqlite => "sqlite"@,
            StorageBackendType::Rocksdb => "rocksdb"@,
            StorageBackendType::Memory => "memory"@,
        }
    }

    /// The lower-case name of the backend (what its `Display` form writes).
    pub fn to_string(&self) -> (s: String)
        ensures
            s@ == self.spec_name(),
    {
        match self {
            StorageBackendType::Sqlite => "sqlite".to_owned(),
            StorageBackendType::Rocksdb => "rocksdb".to_owned(),
            StorageBackendType::Memory => "memory".to_owned(),
        }
    }
}

/// Configuration for the storage system.
#[derive(Debug, Clone)]
pub struct StorageConfig {
    /// The backend to use.
    pub backend: StorageBackendType,
    /// The path to the database file or directory.
    pub db_path: String,
    /// The maximum allowed size of the database in bytes.
    pub max_size: usize,
    /// If `true`, old data is pruned to stay within `max_size`.
    pub aggressive_pruning: bool,
    /// The number of recent entries always kept when pruning.
    pub keep_recent: usize,
}

impl Default for StorageConfig {
    fn default() -> (c: Self)
        ensures
            c.backend == StorageBackendType::Sqlite,
            c.db_path@ == "./aingle_data.db"@,
            c.max_size == 5242880,
            c.aggressive_pruning,
            c.keep_recent == 1000,
    {
        StorageConfig {
            backend: StorageBackendType::Sqlite,
            db_path: "./aingle_data.db".to_owned(),
            max_size: 5242880,
            aggressive_pruning: true,
            keep_recent: 1000,
        }
    }
}

impl StorageConfig {
    /// A SQLite storage configuration at `path`, otherwise as the default.
    pub fn sqlite(path: &str) -> (c: Self)
        ensures
            c.backend == StorageBackendType::Sqlite,
            c.db_path@ == path@,
            c.max_size == 5242880,
            c.aggressive_pruning,
            c.keep_recent == 1000,
    {
        StorageConfig {
            backend: StorageBackendType::Sqlite,
            db_path: path.to_owned(),
            max_size: 5242880,
            aggressive_pruning: true,
            keep_recent: 1000,
        }
    }

    /// A RocksDB storage configuration at `path`, for production loads
    /// (100MB, no aggressive pruning, 100 000 recent entries kept).
    pub fn rocksdb(path: &str) -> (c: Self)
        ensures
            c.backend == StorageBackendType::Rocksdb,
            c.db_path@ == path@,
            c.max_size == 104857600,
            !c.aggressive_pruning,
            c.keep_recent == 100000,
    {
        StorageConfig {
            backend: StorageBackendType::Rocksdb,
            db_path: path.to_owned(),
            max_size: 104857600,
            aggressive_pruning: false,
            keep_recent: 100000,
        }
    }

    /// An in-memory storage configuration for tests.
    pub fn memory() -> (c: Self)
        ensures
            c.backend == StorageBackendType::Memory,
            c.db_path@ == ":memory:"@,
            c.max_size == 10485760,
            !c.aggressive_pruning,
            c.keep_recent == 10000,
    {
        StorageConfig {
            backend: StorageBackendType::Memory,
            db_path: ":memory:".to_owned(),
            max_size: 10485760,
            aggressive_pruning: false,
            keep_recent: 10000,
        }
    }
}

/// Errors that can occur during configuration validation.
#[derive(Debug)]
pub enum ConfigError {
    /// The memory limit is below the minimum of 64KB.
    MemoryTooLow(usize),
    /// The storage limit is below the minimum of 256KB.
    StorageTooLow(usize),
    /// The configuration contains an invalid setting.
    Invalid(String),
}

impl ConfigError {
    /// The message of the error.
    pub open spec fn spec_message(&self) -> Seq<char> {
        match self {
            ConfigError::MemoryTooLow(size) => "Memory limit too low: "@ + decimal(*size as nat)
                + " bytes (minimum 64KB)"@,
            ConfigError::StorageTooLow(size) => "Storage limit too low: "@ + decimal(*size as nat)
                + " bytes (minimum 256KB)"@,
            ConfigError::Invalid(msg) => "Invalid configuration: "@ + msg@,
        }
    }

    /// The message of the error (what its `Display` form would write).
    pub fn to_string(&self) -> (s: String)
        ensures
            s@ == self.spec_message(),
    {
        let mut s = String::new();
        match self {
            ConfigError::MemoryTooLow(size) => {
                append_str(&mut s, "Memory limit too low: ");
                append_decimal(&mut s, *size as u64);
                append_str(&mut s, " bytes (minimum 64KB)");
            },
            ConfigError::StorageTooLow(size) => {
                append_str(&mut s, "Storage limit too low: ");
                append_decimal(&mut s, *size as u64);
                append_str(&mut s, " bytes (minimum 256KB)");
            },
            ConfigError::Invalid(msg) => {
                append_str(&mut s, "Invalid configuration: ");
                append_str(&mut s, msg.as_str());
            },
        }
        proof {
            assert(s@ =~= self.spec_message());
        }
        s
    }
}


/// The smallest memory limit a configuration may set, in bytes (64KB).
pub const MIN_MEMORY_LIMIT: usize = 65536;

/// The smallest storage limit a configuration may set, in bytes (256KB).
pub const MIN_STORAGE_SIZE: usize = 262144;

/// Validates the limits of a configuration: the memory limit must be at
/// least 64KB, then the storage limit at least 256KB.
pub fn validate_limits(memory_limit: usize, storage_max_size: usize) -> (r: Result<(), ConfigError>)
    ensures
        memory_limit < MIN_MEMORY_LIMIT ==> (r matches Err(ConfigError::MemoryTooLow(n)) && n == memory_limit),
        memory_limit >= MIN_MEMORY_LIMIT && storage_max_size < MIN_STORAGE_SIZE ==> (r matches Err(
            ConfigError::StorageTooLow(n),
        ) && n == storage_max_size),
        memory_limit >= MIN_MEMORY_LIMIT && storage_max_size >= MIN_STORAGE_SIZE ==> r is Ok,
{
    if memory_limit < MIN_MEMORY_LIMIT {
        return Err(ConfigError::MemoryTooLow(memory_limit));
    }
    if storage_max_size < MIN_STORAGE_SIZE {
        return Err(ConfigError::StorageTooLow(storage_max_size));
    }
    Ok(())
}


/// The timing and fan-out of the gossip protocol (the integer part of the
/// gossip settings; the bandwidth target is a floating-point number kept by
/// the program).
#[derive(Debug, Clone)]
pub struct GossipTiming {
    /// Delay between gossip rounds.
    pub loop_delay: Duration,
    /// Delay after a successful round.
    pub success_delay: Duration,
    /// Delay after a failed round.
    pub error_delay: Duration,
    /// Maximum number of peers to gossip with per round.
    pub max_peers: usize,
}

impl GossipTiming {
    /// The timing as (loop, success, error) delays in nanoseconds and the
    /// peer count.
    pub open spec fn timing(self) -> (int, int, int, usize) {
        (
            duration_as_nanos(self.loop_delay) as int,
            duration_as_nanos(self.success_delay) as int,
            duration_as_nanos(self.error_delay) as int,
            self.max_peers,
        )
    }

    /// The standard timing: a round every second, 60 s after a success,
    /// 300 s after a failure, 8 peers.
    pub fn standard() -> (t: Self)
        ensures
            t.timing() == (1_000_000_000int, 60_000_000_000int, 300_000_000_000int, 8usize),
    {
        GossipTiming { loop_delay: from_millis(1000), success_delay: from_secs(60), error_delay: from_secs(300), max_peers: 8 }
    }

    /// Fast gossip for IoT networks: every 100 ms, 5 s after a success, 30 s
    /// after a failure, 4 peers.
    pub fn iot_mode() -> (t: Self)
        ensures
            t.timing() == (100_000_000int, 5_000_000_000int, 30_000_000_000int, 4usize),
    {
        GossipTiming { loop_delay: from_millis(100), success_delay: from_secs(5), error_delay: from_secs(30), max_peers: 4 }
    }

    /// Slow gossip for battery-powered devices: every 5 s, 300 s after a
    /// success, 600 s after a failure, 2 peers.
    pub fn low_power() -> (t: Self)
        ensures
            t.timing() == (5_000_000_000int, 300_000_000_000int, 600_000_000_000int, 2usize),
    {
        GossipTiming { loop_delay: from_millis(5000), success_delay: from_secs(300), error_delay: from_secs(600), max_peers: 2 }
    }

    /// Quick gossip for tests: every 10 ms, 50 ms after a success, 100 ms
    /// after a failure, 5 peers.
    pub fn test_mode() -> (t: Self)
        ensures
            t.timing() == (10_000_000int, 50_000_000int, 100_000_000int, 5usize),
    {
        GossipTiming { loop_delay: from_millis(10), success_delay: from_millis(50), error_delay: from_millis(100), max_peers: 5 }
    }
}

/// The settings of a node besides its gossip settings.
#[derive(Debug, Clone)]
pub struct NodeSettings {
    /// Node identifier (generated when absent).
    pub node_id: Option<String>,
    /// How often new entries are published.
    pub publish_interval: Duration,
    /// Power mode.
    pub power_mode: PowerMode,
    /// Network transport.
    pub transport: TransportConfig,
    /// Storage settings.
    pub storage: StorageConfig,
    /// Memory limit in bytes.
    pub memory_limit: usize,
    /// Whether metrics are collected.
    pub enable_metrics: bool,
    /// Whether mDNS discovery runs.
    pub enable_mdns: bool,
    /// Log level.
    pub log_level: String,
}

/// Whether `t` is CoAP on all interfaces at port 5683.
pub open spec fn is_default_coap(t: TransportConfig) -> bool {
    t matches TransportConfig::Coap { bind_addr, port } && bind_addr@ == "0.0.0.0"@ && port == 5683
}

impl NodeSettings {
    /// The scalar settings: node id, publish interval in nanoseconds, power
    /// mode, memory limit, metrics, mDNS and log level.
    pub open spec fn scalars(self) -> (Option<Seq<char>>, int, PowerMode, usize, bool, bool, Seq<char>) {
        (
            match self.node_id {
                Some(n) => Some(n@),
                None => None,
            },
            duration_as_nanos(self.publish_interval) as int,
            self.power_mode,
            self.memory_limit,
            self.enable_metrics,
            self.enable_mdns,
            self.log_level@,
        )
    }

    /// The standard settings: publish every 5 s, balanced power, CoAP,
    /// default storage, 512KB of memory, mDNS on, log level `info`.
    pub fn standard() -> (c: Self)
        ensures
            c.scalars() == (None::<Seq<char>>, 5_000_000_000int, PowerMode::Balanced, 524288usize, false, true, "info"@),
            is_default_coap(c.transport),
            c.storage.backend == StorageBackendType::Sqlite && c.storage.db_path@ == "./aingle_data.db"@
                && c.storage.max_size == 5242880 && c.storage.aggressive_pruning && c.storage.keep_recent == 1000,
    {
        NodeSettings {
            node_id: None,
            publish_interval: from_secs(5),
            power_mode: PowerMode::Balanced,
            transport: TransportConfig::default(),
            storage: StorageConfig::default(),
            memory_limit: 524288,
            enable_metrics: false,
            enable_mdns: true,
            log_level: "info".to_owned(),
        }
    }

    /// Immediate publishing and a small footprint, for IoT devices.
    pub fn iot_mode() -> (c: Self)
        ensures
            c.scalars() == (None::<Seq<char>>, 0int, PowerMode::Full, 262144usize, false, true, "warn"@),
            is_default_coap(c.transport),
            c.storage.backend == StorageBackendType::Sqlite && c.storage.db_path@ == "./aingle_iot.db"@
                && c.storage.max_size == 1048576 && c.storage.aggressive_pruning && c.storage.keep_recent == 100,
    {
        NodeSettings {
            node_id: None,
            publish_interval: from_secs(0),
            power_mode: PowerMode::Full,
            transport: TransportConfig::Coap { bind_addr: "0.0.0.0".to_owned(), port: 5683 },
            storage: StorageConfig {
                backend: StorageBackendType::Sqlite,
                db_path: "./aingle_iot.db".to_owned(),
                max_size: 1048576,
                aggressive_pruning: true,
                keep_recent: 100,
            },
            memory_limit: 262144,
            enable_metrics: false,
            enable_mdns: true,
            log_level: "warn".to_owned(),
        }
    }

    /// Battery-saving settings.
    pub fn low_power() -> (c: Self)
        ensures
            c.scalars() == (None::<Seq<char>>, 30_000_000_000int, PowerMode::Low, 131072usize, false, false, "error"@),
            is_default_coap(c.transport),
            c.storage.backend == StorageBackendType::Sqlite && c.storage.db_path@ == "./aingle_lowpower.db"@
                && c.storage.max_size == 524288 && c.storage.aggressive_pruning && c.storage.keep_recent == 50,
    {
        NodeSettings {
            node_id: None,
            publish_interval: from_secs(30),
            power_mode: PowerMode::Low,
            transport: TransportConfig::Coap { bind_addr: "0.0.0.0".to_owned(), port: 5683 },
            storage: StorageConfig {
                backend: StorageBackendType::Sqlite,
                db_path: "./aingle_lowpower.db".to_owned(),
                max_size: 524288,
                aggressive_pruning: true,
                keep_recent: 50,
            },
            memory_limit: 131072,
            enable_metrics: false,
            enable_mdns: false,
            log_level: "error".to_owned(),
        }
    }

    /// Server settings with RocksDB storage at `db_path`.
    pub fn production(db_path: &str) -> (c: Self)
        ensures
            c.scalars() == (None::<Seq<char>>, 100_000_000int, PowerMode::Full, 536870912usize, true, true, "info"@),
            c.transport matches TransportConfig::Quic { bind_addr, port } && bind_addr@ == "0.0.0.0"@ && port == 8443,
            c.storage.backend == StorageBackendType::Rocksdb && c.storage.db_path@ == db_path@
                && c.storage.max_size == 104857600 && !c.storage.aggressive_pruning && c.storage.keep_recent == 100000,
    {
        NodeSettings {
            node_id: None,
            publish_interval: from_millis(100),
            power_mode: PowerMode::Full,
            transport: TransportConfig::Quic { bind_addr: "0.0.0.0".to_owned(), port: 8443 },
            storage: StorageConfig::rocksdb(db_path),
            memory_limit: 536870912,
            enable_metrics: true,
            enable_mdns: true,
            log_level: "info".to_owned(),
        }
    }

    /// Fast, in-memory settings for tests.
    pub fn test_mode() -> (c: Self)
        ensures
            c.scalars() == (None::<Seq<char>>, 10_000_000int, PowerMode::Full, 65536usize, false, false, "debug"@),
            c.transport is Memory,
            c.storage.backend == StorageBackendType::Memory && c.storage.db_path@ == ":memory:"@
                && c.storage.max_size == 10485760 && !c.storage.aggressive_pruning && c.storage.keep_recent == 10000,
    {
        NodeSettings {
            node_id: None,
            publish_interval: from_millis(10),
            power_mode: PowerMode::Full,
            transport: TransportConfig::Memory,
            storage: StorageConfig::memory(),
            memory_limit: 65536,
            enable_metrics: false,
            enable_mdns: false,
            log_level: "debug".to_owned(),
        }
    }

    /// Sets the publish interval to `ms` milliseconds.
    pub fn set_publish_interval_ms(&mut self, ms: u64)
        ensures
            duration_as_nanos(final(self).publish_interval) == ms as int * 1_000_000,
            final(self).memory_limit == old(self).memory_limit,
            final(self).storage == old(self).storage,
    {
        self.publish_interval = from_millis(ms);
    }

    /// Sets the memory limit to `kb` kilobytes, saturating at the largest
    /// size.
    pub fn set_memory_limit_kb(&mut self, kb: usize)
        ensures
            final(self).memory_limit == (if kb * 1024 <= usize::MAX { (kb * 1024) as usize } else { usize::MAX }),
            final(self).publish_interval == old(self).publish_interval,
            final(self).storage == old(self).storage,
    {
        self.memory_limit = match kb.checked_mul(1024) {
            Some(b) => b,
            None => usize::MAX,
        };
    }

    /// Checks the memory and storage limits (see `validate_limits`).
    pub fn validate(&self) -> (r: Result<(), ConfigError>)
        ensures
            self.memory_limit < MIN_MEMORY_LIMIT ==> (r matches Err(ConfigError::MemoryTooLow(n)) && n == self.memory_limit),
            self.memory_limit >= MIN_MEMORY_LIMIT && self.storage.max_size < MIN_STORAGE_SIZE ==> (r matches Err(
                ConfigError::StorageTooLow(n),
            ) && n == self.storage.max_size),
            self.memory_limit >= MIN_MEMORY_LIMIT && self.storage.max_size >= MIN_STORAGE_SIZE ==> r is Ok,
    {
        validate_limits(self.memory_limit, self.storage.max_size)
    }
}

} // verus!
