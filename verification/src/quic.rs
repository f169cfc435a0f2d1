//! QUIC transport settings and the framing of messages on QUIC streams: a
//! 4-byte big-endian length, then the message.

use crate::time::{duration_as_nanos, from_secs};
use std::time::Duration;
use vstd::prelude::*;

verus! {

/// Settings of the QUIC transport.
#[derive(Debug, Clone)]
pub struct QuicConfig {
    /// Bind address.
    pub bind_addr: String,
    /// Port.
    pub port: u16,
    /// Keep-alive interval.
    pub keep_alive: Duration,
    /// Idle timeout.
    pub idle_timeout: Duration,
    /// Maximum concurrent streams per connection.
    pub max_concurrent_streams: u32,
    /// Maximum incoming connections.
    pub max_connections: usize,
}

impl QuicConfig {
    /// The settings of a configuration, with both durations in nanoseconds.
    pub open spec fn settings(self) -> (Seq<char>, u16, int, int, u32, usize) {
        (
            self.bind_addr@,
            self.port,
            duration_as_nanos(self.keep_alive) as int,
            duration_as_nanos(self.idle_timeout) as int,
            self.max_concurrent_streams,
            self.max_connections,
        )
    }

    /// Conservative settings for IoT devices.
    pub fn iot_mode() -> (c: Self)
        ensures
            c.settings() == ("0.0.0.0"@, 8443u16, 30_000_000_000int, 60_000_000_000int, 10u32, 100usize),
    {
        QuicConfig {
            bind_addr: "0.0.0.0".to_owned(),
            port: 8443,
            keep_alive: from_secs(30),
            idle_timeout: from_secs(60),
            max_concurrent_streams: 10,
            max_connections: 100,
        }
    }

    /// Settings for production servers.
    pub fn production() -> (c: Self)
        ensures
            c.settings() == ("0.0.0.0"@, 8443u16, 5_000_000_000int, 30_000_000_000int, 1000u32, 10_000usize),
    {
        QuicConfig {
            bind_addr: "0.0.0.0".to_owned(),
            port: 8443,
            keep_alive: from_secs(5),
            idle_timeout: from_secs(30),
            max_concurrent_streams: 1000,
            max_connections: 10000,
        }
    }
}

impl Default for QuicConfig {
    fn default() -> (c: Self)
        ensures
            c.settings() == ("0.0.0.0"@, 8443u16, 10_000_000_000int, 30_000_000_000int, 100u32, 1000usize),
    {
        QuicConfig {
            bind_addr: "0.0.0.0".to_owned(),
            port: 8443,
            keep_alive: from_secs(10),
            idle_timeout: from_secs(30),
            max_concurrent_streams: 100,
            max_connections: 1000,
        }
    }
}

/// The largest message accepted on a QUIC stream (1MB).
pub const QUIC_MAX_MESSAGE_SIZE: usize = 1048576;

/// The number a 4-byte big-endian prefix stands for.
pub open spec fn be_value(p: Seq<u8>) -> int {
    p[0] * 0x100_0000 + p[1] * 0x1_0000 + p[2] * 0x100 + p[3]
}

/// A framed message: the payload's length as 4 big-endian bytes, then the
/// payload.
pub fn frame_message(payload: &[u8]) -> (f: Vec<u8>)
    requires
        payload@.len() <= u32::MAX,
    ensures
        f@ == crate::node::be_u32(payload@.len() as u32) + payload@,
{
    let len = payload.len() as u32;
    let mut f: Vec<u8> = Vec::new();
    f.push((len / 0x100_0000) as u8);
    f.push(((len / 0x1_0000) % 0x100) as u8);
    f.push(((len / 0x100) % 0x100) as u8);
    f.push((len % 0x100) as u8);
    crate::types::push_slice(&mut f, payload);
    proof {
        assert(f@ =~= crate::node::be_u32(len) + payload@);
    }
    f
}

/// The length of the payload that a prefix announces, unless it exceeds
/// `QUIC_MAX_MESSAGE_SIZE`, in which case the message is refused.
pub fn framed_len(prefix: &[u8; 4]) -> (r: Option<usize>)
    ensures
        be_value(prefix@) <= QUIC_MAX_MESSAGE_SIZE ==> r == Some(be_value(prefix@) as usize),
        be_value(prefix@) > QUIC_MAX_MESSAGE_SIZE ==> r is None,
{
    let n: u64 = (prefix[0] as u64) * 0x100_0000 + (prefix[1] as u64) * 0x1_0000 + (prefix[2] as u64) * 0x100
        + (prefix[3] as u64);
    if n > QUIC_MAX_MESSAGE_SIZE as u64 {
        None
    } else {
        Some(n as usize)
    }
}

/// Reading back a frame's prefix gives the length it was written with.
pub proof fn lemma_frame_len_round_trip(len: u32)
    ensures
        be_value(crate::node::be_u32(len)) == len,
{
    let b = crate::node::be_u32(len);
    let x = len as int;
    assert(b[0] == x / 0x100_0000);
    assert(b[1] == (x / 0x1_0000) % 0x100);
    assert(b[2] == (x / 0x100) % 0x100);
    assert(b[3] == x % 0x100);
    assert(x / 0x100_0000 * 0x100_0000 + (x / 0x1_0000) % 0x100 * 0x1_0000 + (x / 0x100) % 0x100 * 0x100 + x % 0x100 == x)
        by (nonlinear_arith)
        requires
            0 <= x < 0x1_0000_0000,
    ;
}

} // verus!
