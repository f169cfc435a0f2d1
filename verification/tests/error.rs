use aingle_minimal::error::{CryptoError, Error, GossipError, NetworkError, StorageError, SyncError};

#[test]
fn test_error_display() {
    let errors = vec![
        (Error::Crypto(CryptoError::InvalidSignature), "Crypto error: Invalid signature"),
        (
            Error::Network(NetworkError::ConnectionRefused { addr: "192.168.1.100:5683".to_string() }),
            "Network error: Connection refused: 192.168.1.100:5683",
        ),
        (
            Error::Storage(StorageError::DiskFull { path: "/var/db".to_string() }),
            "Storage error: Disk full at: /var/db",
        ),
        (Error::Serialization("invalid json".into()), "Serialization error: invalid json"),
        (Error::NotInitialized, "Node not initialized"),
        (Error::MemoryExceeded { used: 100, limit: 50 }, "Memory limit exceeded: 100 > 50"),
    ];

    for (error, expected) in errors {
        assert_eq!(error.to_string(), expected);
    }
}

#[test]
fn test_error_codes() {
    assert_eq!(
        Error::Network(NetworkError::ConnectionRefused { addr: "test".to_string() }).code(),
        "E_NET_REFUSED"
    );
    assert_eq!(Error::Storage(StorageError::DiskFull { path: "test".to_string() }).code(), "E_STOR_DISK_FULL");
    assert_eq!(Error::NotInitialized.code(), "E_NOT_INIT");
    assert_eq!(Error::Timeout("5s".into()).code(), "E_TIMEOUT");
}

#[test]
fn test_error_is_recoverable() {
    assert!(Error::Network(NetworkError::ConnectionTimeout { addr: "test".to_string(), timeout_ms: 5000 })
        .is_recoverable());
    assert!(Error::Timeout("5s".into()).is_recoverable());
    assert!(Error::EntryNotFound("hash".into()).is_recoverable());
    assert!(Error::Gossip(GossipError::RateLimitExceeded { wait_ms: 1000 }).is_recoverable());

    assert!(!Error::Crypto(CryptoError::InvalidSignature).is_recoverable());
    assert!(!Error::Storage(StorageError::CorruptedData {
        table: "entries".to_string(),
        reason: "checksum mismatch".to_string()
    })
    .is_recoverable());
    assert!(!Error::NotInitialized.is_recoverable());
}

#[test]
fn test_error_requires_restart() {
    assert!(Error::NotInitialized.requires_restart());
    assert!(Error::MemoryExceeded { used: 100, limit: 50 }.requires_restart());
    assert!(Error::Storage(StorageError::CorruptedData { table: "test".to_string(), reason: "bad".to_string() })
        .requires_restart());

    assert!(!Error::Network(NetworkError::Other("test".into())).requires_restart());
    assert!(!Error::Timeout("5s".into()).requires_restart());
}

#[test]
fn test_error_category_checks() {
    let net_err = Error::Network(NetworkError::ConnectionRefused { addr: "test".to_string() });
    assert!(net_err.is_network());
    assert!(!net_err.is_storage());
    assert!(!net_err.is_crypto());

    let stor_err = Error::Storage(StorageError::DiskFull { path: "test".to_string() });
    assert!(stor_err.is_storage());
    assert!(!stor_err.is_network());

    let crypto_err = Error::Crypto(CryptoError::InvalidSignature);
    assert!(crypto_err.is_crypto());
    assert!(!crypto_err.is_network());
}

#[test]
fn test_from_io_error() {
    let io_err = std::io::Error::new(std::io::ErrorKind::NotFound, "file not found");
    let error: Error = io_err.into();
    assert!(matches!(error, Error::Io(_)));
    assert_eq!(error.code(), "E_IO");
}

#[test]
fn test_from_specific_errors() {
    let net: Error = NetworkError::NetworkUnreachable.into();
    assert!(matches!(net, Error::Network(_)));

    let stor: Error = StorageError::DiskFull { path: "test".to_string() }.into();
    assert!(matches!(stor, Error::Storage(_)));

    let crypto: Error = CryptoError::InvalidSignature.into();
    assert!(matches!(crypto, Error::Crypto(_)));

    let gossip: Error = GossipError::QueueFull { capacity: 100 }.into();
    assert!(matches!(gossip, Error::Gossip(_)));

    let sync: Error = SyncError::MissingRecords { count: 5 }.into();
    assert!(matches!(sync, Error::Sync(_)));
}

#[test]
fn test_convenience_constructors() {
    let net = Error::network("connection failed");
    assert!(matches!(net, Error::Network(NetworkError::Other(_))));

    let stor = Error::storage("disk error");
    assert!(matches!(stor, Error::Storage(StorageError::Other(_))));
}

#[test]
fn test_crypto_error_display() {
    assert_eq!(
        CryptoError::InvalidKey { expected_len: 32, actual_len: 16 }.to_string(),
        "Invalid key: expected 32 bytes, got 16"
    );
    assert_eq!(CryptoError::InvalidSignature.to_string(), "Invalid signature");
}

#[test]
fn test_network_error_display() {
    assert_eq!(
        NetworkError::ConnectionTimeout { addr: "127.0.0.1:5683".to_string(), timeout_ms: 5000 }.to_string(),
        "Connection timeout to 127.0.0.1:5683 after 5000ms"
    );
    assert_eq!(NetworkError::PortInUse { port: 5683 }.to_string(), "Port 5683 already in use");
}

#[test]
fn test_storage_error_display() {
    assert_eq!(
        StorageError::MigrationFailed { version: 3, reason: "column missing".to_string() }.to_string(),
        "Migration to v3 failed: column missing"
    );
}

#[test]
fn test_gossip_error_display() {
    assert_eq!(GossipError::RateLimitExceeded { wait_ms: 500 }.to_string(), "Rate limit exceeded, wait 500ms");
}

#[test]
fn test_sync_error_display() {
    assert_eq!(SyncError::PeerAhead { peer_seq: 100, our_seq: 50 }.to_string(), "Peer ahead: peer=100, ours=50");
}
