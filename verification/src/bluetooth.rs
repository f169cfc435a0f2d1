//! Bluetooth LE transport settings, peer records and counters.

use crate::time::{duration_as_nanos, elapsed, from_secs, nanos_of, now};
use std::time::Duration;
use std::time::Instant;
use vstd::prelude::*;

pub mod manager;
pub use manager::BleManager;

verus! {

/// Service UUID of the node's BLE service (Nordic UART compatible).
pub const AINGLE_SERVICE_UUID: &'static str = "6e400001-b5a3-f393-e0a9-e50e24dcca9e";

/// UUID of the characteristic on which a node sends.
pub const TX_CHAR_UUID: &'static str = "6e400002-b5a3-f393-e0a9-e50e24dcca9e";

/// UUID of the characteristic on which a node receives.
pub const RX_CHAR_UUID: &'static str = "6e400003-b5a3-f393-e0a9-e50e24dcca9e";

/// Configuration of the Bluetooth LE transport.
#[derive(Debug, Clone)]
pub struct BleConfig {
    /// Device name to advertise.
    pub device_name: String,
    /// Forward messages from other nodes.
    pub mesh_relay: bool,
    /// Transmission power in dBm (-40 to +4).
    pub tx_power: i8,
    /// Scan interval in milliseconds.
    pub scan_interval_ms: u32,
    /// Scan window in milliseconds (at most the scan interval).
    pub scan_window_ms: u32,
    /// Advertising interval in milliseconds.
    pub advertising_interval_ms: u32,
    /// Connection timeout.
    pub connection_timeout: Duration,
    /// Maximum number of simultaneous connections.
    pub max_connections: usize,
    /// Passive scanning (no scan responses).
    pub passive_scan: bool,
}

impl BleConfig {
    /// The settings of a configuration, all but the device name, with the
    /// timeout in nanoseconds.
    pub open spec fn settings(self) -> (bool, i8, u32, u32, u32, int, usize, bool) {
        (
            self.mesh_relay,
            self.tx_power,
            self.scan_interval_ms,
            self.scan_window_ms,
            self.advertising_interval_ms,
            duration_as_nanos(self.connection_timeout) as int,
            self.max_connections,
            self.passive_scan,
        )
    }

    /// Settings for a device that saves power: no relaying, low transmit
    /// power, slow scanning and passive scans.
    pub fn low_power() -> (c: Self)
        ensures
            c.device_name@ == "AIngle-LP"@,
            c.settings() == (false, -12i8, 1000u32, 100u32, 500u32, 30_000_000_000int, 2usize, true),
    {
        BleConfig {
            device_name: "AIngle-LP".to_owned(),
            mesh_relay: false,
            tx_power: -12,
            scan_interval_ms: 1000,
            scan_window_ms: 100,
            advertising_interval_ms: 500,
            connection_timeout: from_secs(30),
            max_connections: 2,
            passive_scan: true,
        }
    }

    /// Settings for a mesh relay node: maximum power, fast scanning, many
    /// connections.
    pub fn mesh_relay() -> (c: Self)
        ensures
            c.device_name@ == "AIngle-Relay"@,
            c.settings() == (true, 4i8, 50u32, 30u32, 50u32, 5_000_000_000int, 8usize, false),
    {
        BleConfig {
            device_name: "AIngle-Relay".to_owned(),
            mesh_relay: true,
            tx_power: 4,
            scan_interval_ms: 50,
            scan_window_ms: 30,
            advertising_interval_ms: 50,
            connection_timeout: from_secs(5),
            max_connections: 8,
            passive_scan: false,
        }
    }
}

impl Default for BleConfig {
    fn default() -> (c: Self)
        ensures
            c.device_name@ == "AIngle-Node"@,
            c.settings() == (true, 0i8, 100u32, 50u32, 100u32, 10_000_000_000int, 4usize, false),
    {
        BleConfig {
            device_name: "AIngle-Node".to_owned(),
            mesh_relay: true,
            tx_power: 0,
            scan_interval_ms: 100,
            scan_window_ms: 50,
            advertising_interval_ms: 100,
            connection_timeout: from_secs(10),
            max_connections: 4,
            passive_scan: false,
        }
    }
}

/// State of the BLE transport.
#[derive(Debug, Clone, Copy, PartialEq, Eq, Structural)]
pub enum BleState {
    /// Not initialized.
    Uninitialized,
    /// Initialized but not connected.
    Idle,
    /// Scanning for devices.
    Scanning,
    /// Advertising presence.
    Advertising,
    /// Connected to one or more peers.
    Connected,
    /// Error state.
    Error,
}

/// A discovered BLE peer.
#[derive(Debug, Clone)]
pub struct BlePeer {
    /// Peer identifier (BLE address).
    pub address: String,
    /// Device name, where known.
    pub name: Option<String>,
    /// Signal strength in dBm.
    pub rssi: i16,
    /// When the peer was discovered.
    pub discovered_at: Instant,
    /// When the peer was last heard from.
    pub last_seen: Instant,
    /// Whether the peer offers the node's service.
    pub supports_aingle: bool,
    /// Whether the peer is connected.
    pub connected: bool,
}

impl BlePeer {
    /// A peer just discovered at `address` with signal strength `rssi`: no
    /// name yet, not connected, first and last seen at the same moment.
    pub fn new(address: &str, rssi: i16) -> (p: Self)
        ensures
            p.address@ == address@,
            p.name is None,
            p.rssi == rssi,
            p.discovered_at == p.last_seen,
            !p.supports_aingle,
            !p.connected,
    {
        let t = now();
        BlePeer {
            address: address.to_owned(),
            name: None,
            rssi,
            discovered_at: t,
            last_seen: t,
            supports_aingle: false,
            connected: false,
        }
    }

    /// Records a new signal reading; the peer counts as seen now.
    pub fn update_rssi(&mut self, rssi: i16)
        ensures
            final(self).rssi == rssi,
            final(self).address == old(self).address,
            final(self).name == old(self).name,
            final(self).discovered_at == old(self).discovered_at,
            final(self).supports_aingle == old(self).supports_aingle,
            final(self).connected == old(self).connected,
    {
        self.rssi = rssi;
        self.last_seen = now();
    }

    /// Whether a peer last seen `since_seen` ago is stale under `timeout`:
    /// only when strictly more time than the timeout has passed.
    pub fn is_stale_after(since_seen: &Duration, timeout: &Duration) -> (stale: bool)
        ensures
            stale == (duration_as_nanos(*since_seen) > duration_as_nanos(*timeout)),
    {
        nanos_of(since_seen) > nanos_of(timeout)
    }

    /// Whether the peer has not been heard from for longer than `timeout`,
    /// by the clock now.
    pub fn is_stale(&self, timeout: Duration) -> bool {
        let since_seen = elapsed(&self.last_seen);
        BlePeer::is_stale_after(&since_seen, &timeout)
    }
}

/// Counters of the BLE transport.
#[derive(Debug, Clone)]
pub struct BleStats {
    /// Messages sent.
    pub messages_sent: u64,
    /// Messages received.
    pub messages_received: u64,
    /// Bytes sent.
    pub bytes_sent: u64,
    /// Bytes received.
    pub bytes_received: u64,
    /// Messages relayed for other nodes.
    pub messages_relayed: u64,
    /// Connection attempts.
    pub connection_attempts: u64,
    /// Connections established.
    pub connections_established: u64,
    /// Scan cycles completed.
    pub scans_completed: u64,
    /// Average signal strength of connected peers.
    pub avg_rssi: i16,
}

impl BleStats {
    /// Whether every counter is zero.
    pub open spec fn is_zero(self) -> bool {
        &&& self.messages_sent == 0
        &&& self.messages_received == 0
        &&& self.bytes_sent == 0
        &&& self.bytes_received == 0
        &&& self.messages_relayed == 0
        &&& self.connection_attempts == 0
        &&& self.connections_established == 0
        &&& self.scans_completed == 0
        &&& self.avg_rssi == 0
    }
}

impl Default for BleStats {
    fn default() -> (s: Self)
        ensures
            s.is_zero(),
    {
        BleStats {
            messages_sent: 0,
            messages_received: 0,
            bytes_sent: 0,
            bytes_received: 0,
            messages_relayed: 0,
            connection_attempts: 0,
            connections_established: 0,
            scans_completed: 0,
            avg_rssi: 0,
        }
    }
}

} // verus!
