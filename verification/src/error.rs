//! Error types for the minimal node, by subsystem: configuration, crypto,
//! network, storage, gossip and sync, with error codes, recoverability and
//! the messages that describe them.

use vstd::prelude::*;
use crate::config::ConfigError;
use crate::text::{append_str, append_decimal, decimal};

verus! {

/// An error of the I/O system.
#[verifier::external_type_specification]
#[verifier::external_body]
pub struct ExIoError(std::io::Error);

/// The message of an I/O error (its `Display` form).
///
/// Nothing is stated of the text: it comes from the operating system.
#[verifier::external_body]
pub(crate) fn io_error_text(e: &std::io::Error) -> String {
    e.to_string()
}

/// The main error type for the minimal node.
#[derive(Debug)]
pub enum Error {
    /// An error related to the node's configuration.
    Config(ConfigError),
    /// An error from the cryptographic layer.
    Crypto(CryptoError),
    /// An error from the network transport or communication layer.
    Network(NetworkError),
    /// An error originating from the underlying storage backend.
    Storage(StorageError),
    /// An error from the gossip protocol.
    Gossip(GossipError),
    /// An error from the sync protocol.
    Sync(SyncError),
    /// An error that occurred during data serialization or deserialization.
    Serialization(String),
    /// An error from the underlying I/O system.
    Io(std::io::Error),
    /// An operation was attempted before the node was properly initialized.
    NotInitialized,
    /// The node's memory limit has been exceeded.
    MemoryExceeded { used: usize, limit: usize },
    /// A provided entry was invalid or malformed.
    InvalidEntry(String),
    /// A requested entry could not be found in storage.
    EntryNotFound(String),
    /// A data validation check failed.
    ValidationFailed(String),
    /// An operation timed out.
    Timeout(String),
    /// An unexpected internal error, which may indicate a bug.
    Internal(String),
}

/// Errors related to cryptographic operations.
#[derive(Debug, Clone)]
pub enum CryptoError {
    /// Invalid key format or length.
    InvalidKey { expected_len: usize, actual_len: usize },
    /// Signature verification failed.
    InvalidSignature,
    /// Key generation failed.
    KeyGenerationFailed(String),
    /// Encryption failed.
    EncryptionFailed(String),
    /// Decryption failed.
    DecryptionFailed(String),
    /// Hash computation failed.
    HashFailed(String),
    /// Random number generation failed.
    RngFailed(String),
}

/// Errors related to network operations.
#[derive(Debug, Clone)]
pub enum NetworkError {
    /// Connection to peer was refused.
    ConnectionRefused { addr: String },
    /// Connection timed out.
    ConnectionTimeout { addr: String, timeout_ms: u64 },
    /// Peer not found.
    PeerNotFound { peer_id: String },
    /// Peer disconnected unexpectedly.
    PeerDisconnected { peer_id: String },
    /// Message send failed.
    SendFailed { addr: String, reason: String },
    /// Message receive failed.
    ReceiveFailed { reason: String },
    /// Transport not available.
    TransportUnavailable { transport: String },
    /// Address parsing failed.
    InvalidAddress { addr: String },
    /// Maximum connections reached.
    MaxConnectionsReached { limit: usize },
    /// DNS resolution failed.
    DnsResolutionFailed { host: String },
    /// TLS/DTLS handshake failed.
    HandshakeFailed { addr: String, reason: String },
    /// Network is unreachable.
    NetworkUnreachable,
    /// Port is already in use.
    PortInUse { port: u16 },
    /// Generic network error.
    Other(String),
}

/// Errors related to storage operations.
#[derive(Debug, Clone)]
pub enum StorageError {
    /// Database connection failed.
    ConnectionFailed { path: String, reason: String },
    /// Query execution failed.
    QueryFailed { query: String, reason: String },
    /// Data corruption detected.
    CorruptedData { table: String, reason: String },
    /// Disk is full.
    DiskFull { path: String },
    /// Record not found.
    RecordNotFound { key: String },
    /// Duplicate key violation.
    DuplicateKey { key: String },
    /// Transaction failed.
    TransactionFailed { reason: String },
    /// Migration failed.
    MigrationFailed { version: u32, reason: String },
    /// Schema validation failed.
    SchemaInvalid { reason: String },
    /// Backend not supported.
    BackendNotSupported { backend: String },
    /// Generic storage error.
    Other(String),
}

/// Errors related to the gossip protocol.
#[derive(Debug, Clone)]
pub enum GossipError {
    /// Gossip rate limit exceeded.
    RateLimitExceeded { wait_ms: u64 },
    /// Bloom filter error.
    BloomFilterError { reason: String },
    /// Message queue full.
    QueueFull { capacity: usize },
    /// Invalid gossip message format.
    InvalidMessage { reason: String },
    /// Peer reputation too low.
    PeerBlacklisted { peer_id: String },
    /// Announcement already known.
    DuplicateAnnouncement { hash: String },
    /// Generic gossip error.
    Other(String),
}

/// Errors related to synchronization.
#[derive(Debug, Clone)]
pub enum SyncError {
    /// Peer is ahead of us.
    PeerAhead { peer_seq: u32, our_seq: u32 },
    /// Peer is behind us.
    PeerBehind { peer_seq: u32, our_seq: u32 },
    /// Sync conflict detected.
    Conflict { hash: String, reason: String },
    /// Missing records during sync.
    MissingRecords { count: usize },
    /// Sync was interrupted.
    Interrupted { reason: String },
    /// Invalid sync response.
    InvalidResponse { reason: String },
    /// Peer sync state corrupted.
    StateCorrupted { peer_id: String },
    /// Generic sync error.
    Other(String),
}

fn push2(s: &mut String, a: &str, b: &str)
    ensures
        final(s)@ == old(s)@ + a@ + b@,
{
    append_str(s, a);
    append_str(s, b);
}

fn text2(a: &str, b: &str) -> (s: String)
    ensures
        s@ == a@ + b@,
{
    let mut s = String::new();
    push2(&mut s, a, b);
    proof {
        assert(s@ =~= a@ + b@);
    }
    s
}

fn text4(a: &str, b: &str, c: &str, d: &str) -> (s: String)
    ensures
        s@ == a@ + b@ + c@ + d@,
{
    let mut s = String::new();
    push2(&mut s, a, b);
    push2(&mut s, c, d);
    proof {
        assert(s@ =~= a@ + b@ + c@ + d@);
    }
    s
}

fn text_num(a: &str, n: u64, b: &str) -> (s: String)
    ensures
        s@ == a@ + decimal(n as nat) + b@,
{
    let mut s = String::new();
    append_str(&mut s, a);
    append_decimal(&mut s, n);
    append_str(&mut s, b);
    proof {
        assert(s@ =~= a@ + decimal(n as nat) + b@);
    }
    s
}

fn text_str_num(a: &str, b: &str, c: &str, n: u64, d: &str) -> (s: String)
    ensures
        s@ == a@ + b@ + c@ + decimal(n as nat) + d@,
{
    let mut s = String::new();
    push2(&mut s, a, b);
    append_str(&mut s, c);
    append_decimal(&mut s, n);
    append_str(&mut s, d);
    proof {
        assert(s@ =~= a@ + b@ + c@ + decimal(n as nat) + d@);
    }
    s
}

fn text_num_num(a: &str, n: u64, b: &str, m: u64) -> (s: String)
    ensures
        s@ == a@ + decimal(n as nat) + b@ + decimal(m as nat),
{
    let mut s = String::new();
    append_str(&mut s, a);
    append_decimal(&mut s, n);
    append_str(&mut s, b);
    append_decimal(&mut s, m);
    proof {
        assert(s@ =~= a@ + decimal(n as nat) + b@ + decimal(m as nat));
    }
    s
}

fn text_num_str(a: &str, n: u64, b: &str, c: &str) -> (s: String)
    ensures
        s@ == a@ + decimal(n as nat) + b@ + c@,
{
    let mut s = String::new();
    append_str(&mut s, a);
    append_decimal(&mut s, n);
    push2(&mut s, b, c);
    proof {
        assert(s@ =~= a@ + decimal(n as nat) + b@ + c@);
    }
    s
}

impl CryptoError {
    /// The message of the error.
    pub open spec fn spec_message(&self) -> Seq<char> {
        match self {
            CryptoError::InvalidKey { expected_len, actual_len } => "Invalid key: expected "@ + decimal(
                *expected_len as nat,
            ) + " bytes, got "@ + decimal(*actual_len as nat),
            CryptoError::InvalidSignature => "Invalid signature"@,
            CryptoError::KeyGenerationFailed(s) => "Key generation failed: "@ + s@,
            CryptoError::EncryptionFailed(s) => "Encryption failed: "@ + s@,
            CryptoError::DecryptionFailed(s) => "Decryption failed: "@ + s@,
            CryptoError::HashFailed(s) => "Hash computation failed: "@ + s@,
            CryptoError::RngFailed(s) => "RNG failed: "@ + s@,
        }
    }

    /// The message of the error (what its `Display` form would write).
    pub fn to_string(&self) -> (s: String)
        ensures
            s@ == self.spec_message(),
    {
        proof {
            reveal_strlit("Invalid key: expected ");
            reveal_strlit(" bytes, got ");
            reveal_strlit("Invalid signature");
            reveal_strlit("");
        }
        match self {
            CryptoError::InvalidKey { expected_len, actual_len } => text_num_num(
                "Invalid key: expected ",
                *expected_len as u64,
                " bytes, got ",
                *actual_len as u64,
            ),
            CryptoError::InvalidSignature => text2("Invalid signature", ""),
            CryptoError::KeyGenerationFailed(s) => text2("Key generation failed: ", s.as_str()),
            CryptoError::EncryptionFailed(s) => text2("Encryption failed: ", s.as_str()),
            CryptoError::DecryptionFailed(s) => text2("Decryption failed: ", s.as_str()),
            CryptoError::HashFailed(s) => text2("Hash computation failed: ", s.as_str()),
            CryptoError::RngFailed(s) => text2("RNG failed: ", s.as_str()),
        }
    }
}

impl NetworkError {
    /// The message of the error.
    pub open spec fn spec_message(&self) -> Seq<char> {
        match self {
            NetworkError::ConnectionRefused { addr } => "Connection refused: "@ + addr@,
            NetworkError::ConnectionTimeout { addr, timeout_ms } => "Connection timeout to "@ + addr@
                + " after "@ + decimal(*timeout_ms as nat) + "ms"@,
            NetworkError::PeerNotFound { peer_id } => "Peer not found: "@ + peer_id@,
            NetworkError::PeerDisconnected { peer_id } => "Peer disconnected: "@ + peer_id@,
            NetworkError::SendFailed { addr, reason } => "Send to "@ + addr@ + " failed: "@ + reason@,
            NetworkError::ReceiveFailed { reason } => "Receive failed: "@ + reason@,
            NetworkError::TransportUnavailable { transport } => "Transport unavailable: "@ + transport@,
            NetworkError::InvalidAddress { addr } => "Invalid address: "@ + addr@,
            NetworkError::MaxConnectionsReached { limit } => "Max connections reached: "@ + decimal(
                *limit as nat,
            ),
            NetworkError::DnsResolutionFailed { host } => "DNS resolution failed: "@ + host@,
            NetworkError::HandshakeFailed { addr, reason } => "Handshake with "@ + addr@ + " failed: "@
                + reason@,
            NetworkError::NetworkUnreachable => "Network unreachable"@,
            NetworkError::PortInUse { port } => "Port "@ + decimal(*port as nat) + " already in use"@,
            NetworkError::Other(s) => s@,
        }
    }

    /// The message of the error (what its `Display` form would write).
    pub fn to_string(&self) -> (s: String)
        ensures
            s@ == self.spec_message(),
    {
        proof {
            reveal_strlit("");
            reveal_strlit("Network unreachable");
        }
        match self {
            NetworkError::ConnectionRefused { addr } => text2("Connection refused: ", addr.as_str()),
            NetworkError::ConnectionTimeout { addr, timeout_ms } => text_str_num(
                "Connection timeout to ",
                addr.as_str(),
                " after ",
                *timeout_ms,
                "ms",
            ),
            NetworkError::PeerNotFound { peer_id } => text2("Peer not found: ", peer_id.as_str()),
            NetworkError::PeerDisconnected { peer_id } => text2("Peer disconnected: ", peer_id.as_str()),
            NetworkError::SendFailed { addr, reason } => text4(
                "Send to ",
                addr.as_str(),
                " failed: ",
                reason.as_str(),
            ),
            NetworkError::ReceiveFailed { reason } => text2("Receive failed: ", reason.as_str()),
            NetworkError::TransportUnavailable { transport } => text2(
                "Transport unavailable: ",
                transport.as_str(),
            ),
            NetworkError::InvalidAddress { addr } => text2("Invalid address: ", addr.as_str()),
            NetworkError::MaxConnectionsReached { limit } => text_num(
                "Max connections reached: ",
                *limit as u64,
                "",
            ),
            NetworkError::DnsResolutionFailed { host } => text2("DNS resolution failed: ", host.as_str()),
            NetworkError::HandshakeFailed { addr, reason } => text4(
                "Handshake with ",
                addr.as_str(),
                " failed: ",
                reason.as_str(),
            ),
            NetworkError::NetworkUnreachable => text2("Network unreachable", ""),
            NetworkError::PortInUse { port } => text_num("Port ", *port as u64, " already in use"),
            NetworkError::Other(s) => text2("", s.as_str()),
        }
    }
}

impl StorageError {
    /// The message of the error.
    pub open spec fn spec_message(&self) -> Seq<char> {
        match self {
            StorageError::ConnectionFailed { path, reason } => "Database connection to '"@ + path@
                + "' failed: "@ + reason@,
            StorageError::QueryFailed { query, reason } => "Query '"@ + query@ + "' failed: "@ + reason@,
            StorageError::CorruptedData { table, reason } => "Corrupted data in '"@ + table@ + "': "@
                + reason@,
            StorageError::DiskFull { path } => "Disk full at: "@ + path@,
            StorageError::RecordNotFound { key } => "Record not found: "@ + key@,
            StorageError::DuplicateKey { key } => "Duplicate key: "@ + key@,
            StorageError::TransactionFailed { reason } => "Transaction failed: "@ + reason@,
            StorageError::MigrationFailed { version, reason } => "Migration to v"@ + decimal(
                *version as nat,
            ) + " failed: "@ + reason@,
            StorageError::SchemaInvalid { reason } => "Invalid schema: "@ + reason@,
            StorageError::BackendNotSupported { backend } => "Backend '"@ + backend@ + "' not supported"@,
            StorageError::Other(s) => s@,
        }
    }

    /// The message of the error (what its `Display` form would write).
    pub fn to_string(&self) -> (s: String)
        ensures
            s@ == self.spec_message(),
    {
        proof {
            reveal_strlit("");
        }
        match self {
            StorageError::ConnectionFailed { path, reason } => text4(
                "Database connection to '",
                path.as_str(),
                "' failed: ",
                reason.as_str(),
            ),
            StorageError::QueryFailed { query, reason } => text4(
                "Query '",
                query.as_str(),
                "' failed: ",
                reason.as_str(),
            ),
            StorageError::CorruptedData { table, reason } => text4(
                "Corrupted data in '",
                table.as_str(),
                "': ",
                reason.as_str(),
            ),
            StorageError::DiskFull { path } => text2("Disk full at: ", path.as_str()),
            StorageError::RecordNotFound { key } => text2("Record not found: ", key.as_str()),
            StorageError::DuplicateKey { key } => text2("Duplicate key: ", key.as_str()),
            StorageError::TransactionFailed { reason } => text2("Transaction failed: ", reason.as_str()),
            StorageError::MigrationFailed { version, reason } => text_num_str(
                "Migration to v",
                *version as u64,
                " failed: ",
                reason.as_str(),
            ),
            StorageError::SchemaInvalid { reason } => text2("Invalid schema: ", reason.as_str()),
            StorageError::BackendNotSupported { backend } => text4(
                "Backend '",
                backend.as_str(),
                "' not supported",
                "",
            ),
            StorageError::Other(s) => text2("", s.as_str()),
        }
    }
}

impl GossipError {
    /// The message of the error.
    pub open spec fn spec_message(&self) -> Seq<char> {
        match self {
            GossipError::RateLimitExceeded { wait_ms } => "Rate limit exceeded, wait "@ + decimal(
                *wait_ms as nat,
            ) + "ms"@,
            GossipError::BloomFilterError { reason } => "Bloom filter error: "@ + reason@,
            GossipError::QueueFull { capacity } => "Queue full (capacity: "@ + decimal(*capacity as nat)
                + ")"@,
            GossipError::InvalidMessage { reason } => "Invalid message: "@ + reason@,
            GossipError::PeerBlacklisted { peer_id } => "Peer blacklisted: "@ + peer_id@,
            GossipError::DuplicateAnnouncement { hash } => "Duplicate announcement: "@ + hash@,
            GossipError::Other(s) => s@,
        }
    }

    /// The message of the error (what its `Display` form would write).
    pub fn to_string(&self) -> (s: String)
        ensures
            s@ == self.spec_message(),
    {
        proof {
            reveal_strlit("");
        }
        match self {
            GossipError::RateLimitExceeded { wait_ms } => text_num("Rate limit exceeded, wait ", *wait_ms, "ms"),
            GossipError::BloomFilterError { reason } => text2("Bloom filter error: ", reason.as_str()),
            GossipError::QueueFull { capacity } => text_num("Queue full (capacity: ", *capacity as u64, ")"),
            GossipError::InvalidMessage { reason } => text2("Invalid message: ", reason.as_str()),
            GossipError::PeerBlacklisted { peer_id } => text2("Peer blacklisted: ", peer_id.as_str()),
            GossipError::DuplicateAnnouncement { hash } => text2("Duplicate announcement: ", hash.as_str()),
            GossipError::Other(s) => text2("", s.as_str()),
        }
    }
}

impl SyncError {
    /// The message of the error.
    pub open spec fn spec_message(&self) -> Seq<char> {
        match self {
            SyncError::PeerAhead { peer_seq, our_seq } => "Peer ahead: peer="@ + decimal(*peer_seq as nat)
                + ", ours="@ + decimal(*our_seq as nat),
            SyncError::PeerBehind { peer_seq, our_seq } => "Peer behind: peer="@ + decimal(*peer_seq as nat)
                + ", ours="@ + decimal(*our_seq as nat),
            SyncError::Conflict { hash, reason } => "Conflict on "@ + hash@ + ": "@ + reason@,
            SyncError::MissingRecords { count } => "Missing "@ + decimal(*count as nat) + " records"@,
            SyncError::Interrupted { reason } => "Sync interrupted: "@ + reason@,
            SyncError::InvalidResponse { reason } => "Invalid response: "@ + reason@,
            SyncError::StateCorrupted { peer_id } => "Sync state corrupted for peer: "@ + peer_id@,
            SyncError::Other(s) => s@,
        }
    }

    /// The message of the error (what its `Display` form would write).
    pub fn to_string(&self) -> (s: String)
        ensures
            s@ == self.spec_message(),
    {
        proof {
            reveal_strlit("");
        }
        match self {
            SyncError::PeerAhead { peer_seq, our_seq } => text_num_num(
                "Peer ahead: peer=",
                *peer_seq as u64,
                ", ours=",
                *our_seq as u64,
            ),
            SyncError::PeerBehind { peer_seq, our_seq } => text_num_num(
                "Peer behind: peer=",
                *peer_seq as u64,
                ", ours=",
                *our_seq as u64,
            ),
            SyncError::Conflict { hash, reason } => text4("Conflict on ", hash.as_str(), ": ", reason.as_str()),
            SyncError::MissingRecords { count } => text_num("Missing ", *count as u64, " records"),
            SyncError::Interrupted { reason } => text2("Sync interrupted: ", reason.as_str()),
            SyncError::InvalidResponse { reason } => text2("Invalid response: ", reason.as_str()),
            SyncError::StateCorrupted { peer_id } => text2("Sync state corrupted for peer: ", peer_id.as_str()),
            SyncError::Other(s) => text2("", s.as_str()),
        }
    }
}

impl Error {
    /// Create a network error from a string.
    pub fn network(s: &str) -> (e: Error)
        ensures
            e matches Error::Network(NetworkError::Other(m)) && m@ == s@,
    {
        Error::Network(NetworkError::Other(s.to_owned()))
    }

    /// Create a storage error from a string.
    pub fn storage(s: &str) -> (e: Error)
        ensures
            e matches Error::Storage(StorageError::Other(m)) && m@ == s@,
    {
        Error::Storage(StorageError::Other(s.to_owned()))
    }

    /// Create a crypto error from a string.
    pub fn crypto(s: &str) -> (e: Error)
        ensures
            e matches Error::Crypto(CryptoError::KeyGenerationFailed(m)) && m@ == s@,
    {
        Error::Crypto(CryptoError::KeyGenerationFailed(s.to_owned()))
    }

    /// Whether the error is likely recoverable (e.g., a temporary network issue).
    pub open spec fn spec_is_recoverable(&self) -> bool {
        match self {
            Error::Network(e) => match e {
                NetworkError::ConnectionTimeout { .. } => true,
                NetworkError::PeerDisconnected { .. } => true,
                NetworkError::SendFailed { .. } => true,
                NetworkError::ReceiveFailed { .. } => true,
                NetworkError::NetworkUnreachable => true,
                _ => false,
            },
            Error::Timeout(_) => true,
            Error::EntryNotFound(_) => true,
            Error::Gossip(GossipError::RateLimitExceeded { .. }) => true,
            Error::Sync(SyncError::Interrupted { .. }) => true,
            _ => false,
        }
    }

    /// Returns `true` if the error is likely recoverable (e.g., a temporary network issue).
    pub fn is_recoverable(&self) -> (b: bool)
        ensures
            b == self.spec_is_recoverable(),
    {
        match self {
            Error::Network(e) => match e {
                NetworkError::ConnectionTimeout { .. } => true,
                NetworkError::PeerDisconnected { .. } => true,
                NetworkError::SendFailed { .. } => true,
                NetworkError::ReceiveFailed { .. } => true,
                NetworkError::NetworkUnreachable => true,
                _ => false,
            },
            Error::Timeout(_) => true,
            Error::EntryNotFound(_) => true,
            Error::Gossip(GossipError::RateLimitExceeded { .. }) => true,
            Error::Sync(SyncError::Interrupted { .. }) => true,
            _ => false,
        }
    }

    /// Whether the error likely requires the node to be restarted.
    pub open spec fn spec_requires_restart(&self) -> bool {
        match self {
            Error::Config(_) => true,
            Error::MemoryExceeded { .. } => true,
            Error::NotInitialized => true,
            Error::Storage(StorageError::CorruptedData { .. }) => true,
            Error::Storage(StorageError::SchemaInvalid { .. }) => true,
            _ => false,
        }
    }

    /// Returns `true` if the error likely requires the node to be restarted.
    pub fn requires_restart(&self) -> (b: bool)
        ensures
            b == self.spec_requires_restart(),
    {
        match self {
            Error::Config(_) => true,
            Error::MemoryExceeded { .. } => true,
            Error::NotInitialized => true,
            Error::Storage(StorageError::CorruptedData { .. }) => true,
            Error::Storage(StorageError::SchemaInvalid { .. }) => true,
            _ => false,
        }
    }

    /// Returns `true` if this is a network-related error.
    pub fn is_network(&self) -> (b: bool)
        ensures
            b == (self is Network),
    {
        match self {
            Error::Network(_) => true,
            _ => false,
        }
    }

    /// Returns `true` if this is a storage-related error.
    pub fn is_storage(&self) -> (b: bool)
        ensures
            b == (self is Storage),
    {
        match self {
            Error::Storage(_) => true,
            _ => false,
        }
    }

    /// Returns `true` if this is a crypto-related error.
    pub fn is_crypto(&self) -> (b: bool)
        ensures
            b == (self is Crypto),
    {
        match self {
            Error::Crypto(_) => true,
            _ => false,
        }
    }

    /// The error code for logging and metrics.
    pub open spec fn spec_code(&self) -> Seq<char> {
        match self {
            Error::Config(_) => "E_CONFIG"@,
            Error::Crypto(_) => "E_CRYPTO"@,
            Error::Network(e) => match e {
                NetworkError::ConnectionRefused { .. } => "E_NET_REFUSED"@,
                NetworkError::ConnectionTimeout { .. } => "E_NET_TIMEOUT"@,
                NetworkError::PeerNotFound { .. } => "E_NET_PEER_NOT_FOUND"@,
                NetworkError::PeerDisconnected { .. } => "E_NET_PEER_DISCONNECTED"@,
                NetworkError::SendFailed { .. } => "E_NET_SEND_FAILED"@,
                NetworkError::ReceiveFailed { .. } => "E_NET_RECV_FAILED"@,
                NetworkError::TransportUnavailable { .. } => "E_NET_TRANSPORT"@,
                NetworkError::InvalidAddress { .. } => "E_NET_INVALID_ADDR"@,
                NetworkError::MaxConnectionsReached { .. } => "E_NET_MAX_CONN"@,
                NetworkError::DnsResolutionFailed { .. } => "E_NET_DNS"@,
                NetworkError::HandshakeFailed { .. } => "E_NET_HANDSHAKE"@,
                NetworkError::NetworkUnreachable => "E_NET_UNREACHABLE"@,
                NetworkError::PortInUse { .. } => "E_NET_PORT_IN_USE"@,
                NetworkError::Other(_) => "E_NET_OTHER"@,
            },
            Error::Storage(e) => match e {
                StorageError::ConnectionFailed { .. } => "E_STOR_CONN"@,
                StorageError::QueryFailed { .. } => "E_STOR_QUERY"@,
                StorageError::CorruptedData { .. } => "E_STOR_CORRUPT"@,
                StorageError::DiskFull { .. } => "E_STOR_DISK_FULL"@,
                StorageError::RecordNotFound { .. } => "E_STOR_NOT_FOUND"@,
                StorageError::DuplicateKey { .. } => "E_STOR_DUPLICATE"@,
                StorageError::TransactionFailed { .. } => "E_STOR_TX"@,
                StorageError::MigrationFailed { .. } => "E_STOR_MIGRATION"@,
                StorageError::SchemaInvalid { .. } => "E_STOR_SCHEMA"@,
                StorageError::BackendNotSupported { .. } => "E_STOR_BACKEND"@,
                StorageError::Other(_) => "E_STOR_OTHER"@,
            },
            Error::Gossip(_) => "E_GOSSIP"@,
            Error::Sync(_) => "E_SYNC"@,
            Error::Serialization(_) => "E_SERDE"@,
            Error::Io(_) => "E_IO"@,
            Error::NotInitialized => "E_NOT_INIT"@,
            Error::MemoryExceeded { .. } => "E_MEMORY"@,
            Error::InvalidEntry(_) => "E_INVALID_ENTRY"@,
            Error::EntryNotFound(_) => "E_NOT_FOUND"@,
            Error::ValidationFailed(_) => "E_VALIDATION"@,
            Error::Timeout(_) => "E_TIMEOUT"@,
            Error::Internal(_) => "E_INTERNAL"@,
        }
    }

    /// Returns an error code string for logging and metrics.
    pub fn code(&self) -> (c: &'static str)
        ensures
            c@ == self.spec_code(),
    {
        match self {
            Error::Config(_) => "E_CONFIG",
            Error::Crypto(_) => "E_CRYPTO",
            Error::Network(e) => match e {
                NetworkError::ConnectionRefused { .. } => "E_NET_REFUSED",
                NetworkError::ConnectionTimeout { .. } => "E_NET_TIMEOUT",
                NetworkError::PeerNotFound { .. } => "E_NET_PEER_NOT_FOUND",
                NetworkError::PeerDisconnected { .. } => "E_NET_PEER_DISCONNECTED",
                NetworkError::SendFailed { .. } => "E_NET_SEND_FAILED",
                NetworkError::ReceiveFailed { .. } => "E_NET_RECV_FAILED",
                NetworkError::TransportUnavailable { .. } => "E_NET_TRANSPORT",
                NetworkError::InvalidAddress { .. } => "E_NET_INVALID_ADDR",
                NetworkError::MaxConnectionsReached { .. } => "E_NET_MAX_CONN",
                NetworkError::DnsResolutionFailed { .. } => "E_NET_DNS",
                NetworkError::HandshakeFailed { .. } => "E_NET_HANDSHAKE",
                NetworkError::NetworkUnreachable => "E_NET_UNREACHABLE",
                NetworkError::PortInUse { .. } => "E_NET_PORT_IN_USE",
                NetworkError::Other(_) => "E_NET_OTHER",
            },
            Error::Storage(e) => match e {
                StorageError::ConnectionFailed { .. } => "E_STOR_CONN",
                StorageError::QueryFailed { .. } => "E_STOR_QUERY",
                StorageError::CorruptedData { .. } => "E_STOR_CORRUPT",
                StorageError::DiskFull { .. } => "E_STOR_DISK_FULL",
                StorageError::RecordNotFound { .. } => "E_STOR_NOT_FOUND",
                StorageError::DuplicateKey { .. } => "E_STOR_DUPLICATE",
                StorageError::TransactionFailed { .. } => "E_STOR_TX",
                StorageError::MigrationFailed { .. } => "E_STOR_MIGRATION",
                StorageError::SchemaInvalid { .. } => "E_STOR_SCHEMA",
                StorageError::BackendNotSupported { .. } => "E_STOR_BACKEND",
                StorageError::Other(_) => "E_STOR_OTHER",
            },
            Error::Gossip(_) => "E_GOSSIP",
            Error::Sync(_) => "E_SYNC",
            Error::Serialization(_) => "E_SERDE",
            Error::Io(_) => "E_IO",
            Error::NotInitialized => "E_NOT_INIT",
            Error::MemoryExceeded { .. } => "E_MEMORY",
            Error::InvalidEntry(_) => "E_INVALID_ENTRY",
            Error::EntryNotFound(_) => "E_NOT_FOUND",
            Error::ValidationFailed(_) => "E_VALIDATION",
            Error::Timeout(_) => "E_TIMEOUT",
            Error::Internal(_) => "E_INTERNAL",
        }
    }

    /// The message of the error; for an I/O error, only its prefix is known.
    pub open spec fn spec_message(&self) -> Seq<char> {
        match self {
            Error::Config(e) => "Configuration error: "@ + e.spec_message(),
            Error::Crypto(e) => "Crypto error: "@ + e.spec_message(),
            Error::Network(e) => "Network error: "@ + e.spec_message(),
            Error::Storage(e) => "Storage error: "@ + e.spec_message(),
            Error::Gossip(e) => "Gossip error: "@ + e.spec_message(),
            Error::Sync(e) => "Sync error: "@ + e.spec_message(),
            Error::Serialization(s) => "Serialization error: "@ + s@,
            Error::Io(_) => "IO error: "@,
            Error::NotInitialized => "Node not initialized"@,
            Error::MemoryExceeded { used, limit } => "Memory limit exceeded: "@ + decimal(*used as nat)
                + " > "@ + decimal(*limit as nat),
            Error::InvalidEntry(s) => "Invalid entry: "@ + s@,
            Error::EntryNotFound(s) => "Entry not found: "@ + s@,
            Error::ValidationFailed(s) => "Validation failed: "@ + s@,
            Error::Timeout(s) => "Timeout: "@ + s@,
            Error::Internal(s) => "Internal error: "@ + s@,
        }
    }

    /// The message of the error (what its `Display` form would write). For an
    /// I/O error the text after the prefix comes from the operating system.
    pub fn to_string(&self) -> (s: String)
        ensures
            !(self is Io) ==> s@ == self.spec_message(),
            self is Io ==> s@.subrange(0, 10) == self.spec_message(),
    {
        proof {
            reveal_strlit("Node not initialized");
            reveal_strlit("");
            reveal_strlit("IO error: ");
        }
        match self {
            Error::Config(e) => {
                let m = e.to_string();
                text2("Configuration error: ", m.as_str())
            },
            Error::Crypto(e) => {
                let m = e.to_string();
                text2("Crypto error: ", m.as_str())
            },
            Error::Network(e) => {
                let m = e.to_string();
                text2("Network error: ", m.as_str())
            },
            Error::Storage(e) => {
                let m = e.to_string();
                text2("Storage error: ", m.as_str())
            },
            Error::Gossip(e) => {
                let m = e.to_string();
                text2("Gossip error: ", m.as_str())
            },
            Error::Sync(e) => {
                let m = e.to_string();
                text2("Sync error: ", m.as_str())
            },
            Error::Serialization(s) => text2("Serialization error: ", s.as_str()),
            Error::Io(e) => {
                let m = io_error_text(e);
                let s = text2("IO error: ", m.as_str());
                proof {
                    assert(s@.subrange(0, 10) =~= "IO error: "@);
                }
                s
            },
            Error::NotInitialized => text2("Node not initialized", ""),
            Error::MemoryExceeded { used, limit } => text_num_num(
                "Memory limit exceeded: ",
                *used as u64,
                " > ",
                *limit as u64,
            ),
            Error::InvalidEntry(s) => text2("Invalid entry: ", s.as_str()),
            Error::EntryNotFound(s) => text2("Entry not found: ", s.as_str()),
            Error::ValidationFailed(s) => text2("Validation failed: ", s.as_str()),
            Error::Timeout(s) => text2("Timeout: ", s.as_str()),
            Error::Internal(s) => text2("Internal error: ", s.as_str()),
        }
    }
}

impl From<ConfigError> for Error {
    fn from(e: ConfigError) -> (r: Self) {
        Error::Config(e)
    }
}

impl vstd::std_specs::convert::FromSpecImpl<ConfigError> for Error {
    open spec fn obeys_from_spec() -> bool {
        true
    }

    open spec fn from_spec(e: ConfigError) -> Self {
        Error::Config(e)
    }
}

impl From<CryptoError> for Error {
    fn from(e: CryptoError) -> (r: Self) {
        Error::Crypto(e)
    }
}

impl vstd::std_specs::convert::FromSpecImpl<CryptoError> for Error {
    open spec fn obeys_from_spec() -> bool {
        true
    }

    open spec fn from_spec(e: CryptoError) -> Self {
        Error::Crypto(e)
    }
}

impl From<NetworkError> for Error {
    fn from(e: NetworkError) -> (r: Self) {
        Error::Network(e)
    }
}

impl vstd::std_specs::convert::FromSpecImpl<NetworkError> for Error {
    open spec fn obeys_from_spec() -> bool {
        true
    }

    open spec fn from_spec(e: NetworkError) -> Self {
        Error::Network(e)
    }
}

impl From<StorageError> for Error {
    fn from(e: StorageError) -> (r: Self) {
        Error::Storage(e)
    }
}

impl vstd::std_specs::convert::FromSpecImpl<StorageError> for Error {
    open spec fn obeys_from_spec() -> bool {
        true
    }

    open spec fn from_spec(e: StorageError) -> Self {
        Error::Storage(e)
    }
}

impl From<GossipError> for Error {
    fn from(e: GossipError) -> (r: Self) {
        Error::Gossip(e)
    }
}

impl vstd::std_specs::convert::FromSpecImpl<GossipError> for Error {
    open spec fn obeys_from_spec() -> bool {
        true
    }

    open spec fn from_spec(e: GossipError) -> Self {
        Error::Gossip(e)
    }
}

impl From<SyncError> for Error {
    fn from(e: SyncError) -> (r: Self) {
        Error::Sync(e)
    }
}

impl vstd::std_specs::convert::FromSpecImpl<SyncError> for Error {
    open spec fn obeys_from_spec() -> bool {
        true
    }

    open spec fn from_spec(e: SyncError) -> Self {
        Error::Sync(e)
    }
}

impl From<std::io::Error> for Error {
    fn from(e: std::io::Error) -> (r: Self) {
        Error::Io(e)
    }
}

impl vstd::std_specs::convert::FromSpecImpl<std::io::Error> for Error {
    open spec fn obeys_from_spec() -> bool {
        true
    }

    open spec fn from_spec(e: std::io::Error) -> Self {
        Error::Io(e)
    }
}

/// A restart is never needed for an error that is recoverable: the two
/// classes are disjoint.
pub proof fn lemma_recoverable_excludes_restart(e: Error)
    ensures
        e.spec_is_recoverable() ==> !e.spec_requires_restart(),
{
}

} // verus!
