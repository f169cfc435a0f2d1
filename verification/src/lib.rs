//! A lightweight node library for resource-constrained IoT devices: semantic
//! graph indexing, gossip primitives (bloom filters, priority queues, backoff),
//! mesh relay deduplication, over-the-air update management, DTLS and
//! transport configuration, power profiles and sensor descriptions.

use vstd::prelude::*;

pub mod text;
pub mod time;
pub mod types;
pub mod crypto;
pub mod ota;
pub mod gossip;
pub mod config;
pub mod error;
pub mod graph;
pub mod network;
pub mod dtls;
pub mod power;
pub mod sensors;
pub mod bluetooth;
pub mod coap;
pub mod quic;
pub mod rest;
pub mod node;
pub mod smart;
pub mod encoding;
pub mod discovery;

verus! {

/// Target memory budget in bytes (512KB).
pub const MEMORY_BUDGET: usize = 524288;

/// Environment variable that overrides the publish interval, in milliseconds.
pub const ENV_PUBLISH_INTERVAL: &'static str = "AINGLE_PUBLISH_INTERVAL_MS";

/// Environment variable whose presence selects the IoT configuration.
pub const ENV_IOT_MODE: &'static str = "AINGLE_IOT_MODE";

/// Minimum supported Rust version.
pub const MSRV: &'static str = "1.70";

} // verus!
