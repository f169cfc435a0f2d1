use aingle_minimal::dtls::psk;
use aingle_minimal::dtls::{
    DtlsConfig, DtlsStats, SecurityMode, DEFAULT_SESSION_TIMEOUT_SECS, DTLS_VERSION_1_2, DTLS_VERSION_1_3,
    MAX_SESSION_CACHE,
};
use std::time::Duration;

#[test]
fn test_dtls_config_validation() {
    let mut config = DtlsConfig::psk(vec![1, 2, 3], "device123".to_string());
    assert!(config.validate().is_ok());

    config.psk.clear();
    assert!(config.validate().is_err());
}

#[test]
fn test_psk_generation() {
    let psk = psk::generate_psk(32);
    assert_eq!(psk.len(), 32);
}

#[test]
fn test_psk_derivation() {
    let passphrase = "my-secret-passphrase";
    let salt = b"unique-device-salt";
    let psk = psk::derive_psk_from_passphrase(passphrase, salt, 10000);
    assert_eq!(psk.len(), 32);

    let psk2 = psk::derive_psk_from_passphrase(passphrase, salt, 10000);
    assert_eq!(psk, psk2);
}

#[test]
fn test_psk_identity() {
    let identity = psk::create_identity("sensor-001", "acme-corp");
    assert_eq!(identity, "sensor-001@acme-corp");
}

#[test]
fn test_security_modes() {
    let no_sec = DtlsConfig::no_security();
    assert_eq!(no_sec.mode, SecurityMode::NoSec);

    let psk = DtlsConfig::psk(vec![1, 2, 3], "id".to_string());
    assert_eq!(psk.mode, SecurityMode::PreSharedKey);

    let cert = DtlsConfig::certificate(vec![1, 2, 3], vec![4, 5, 6]);
    assert_eq!(cert.mode, SecurityMode::Certificate);
}

#[test]
fn test_dtls_config_default() {
    let config = DtlsConfig::default();
    assert_eq!(config.mode, SecurityMode::NoSec);
    assert!(config.certificate.is_empty());
    assert!(config.private_key.is_empty());
    assert!(config.psk.is_empty());
    assert!(config.psk_identity.is_empty());
    assert!(config.verify_peer);
    assert!(config.ca_certs.is_empty());
    assert_eq!(config.session_timeout, Duration::from_secs(DEFAULT_SESSION_TIMEOUT_SECS));
    assert!(config.enable_resumption);
    assert_eq!(config.dtls_version, DTLS_VERSION_1_2);
}

#[test]
fn test_dtls_config_add_ca_cert() {
    let mut config = DtlsConfig::default();
    config.add_ca_cert(vec![1, 2, 3]);
    assert_eq!(config.ca_certs.len(), 1);
    config.add_ca_cert(vec![4, 5, 6]);
    assert_eq!(config.ca_certs.len(), 2);
}

#[test]
fn test_dtls_config_validate_psk_empty_identity() {
    let config = DtlsConfig {
        mode: SecurityMode::PreSharedKey,
        psk: vec![1, 2, 3],
        psk_identity: String::new(),
        ..Default::default()
    };
    assert!(config.validate().is_err());
}

#[test]
fn test_dtls_config_validate_cert_empty_cert() {
    let config = DtlsConfig {
        mode: SecurityMode::Certificate,
        certificate: Vec::new(),
        private_key: vec![1, 2, 3],
        ..Default::default()
    };
    assert!(config.validate().is_err());
}

#[test]
fn test_dtls_config_validate_cert_empty_key() {
    let config = DtlsConfig {
        mode: SecurityMode::Certificate,
        certificate: vec![1, 2, 3],
        private_key: Vec::new(),
        ..Default::default()
    };
    assert!(config.validate().is_err());
}

#[test]
fn test_dtls_config_validate_cert_no_ca_with_verify() {
    let config = DtlsConfig {
        mode: SecurityMode::Certificate,
        certificate: vec![1, 2, 3],
        private_key: vec![4, 5, 6],
        verify_peer: true,
        ca_certs: Vec::new(),
        ..Default::default()
    };
    assert!(config.validate().is_err());
}

#[test]
fn test_dtls_config_validate_cert_success() {
    let config = DtlsConfig {
        mode: SecurityMode::Certificate,
        certificate: vec![1, 2, 3],
        private_key: vec![4, 5, 6],
        verify_peer: true,
        ca_certs: vec![vec![7, 8, 9]],
        ..Default::default()
    };
    assert!(config.validate().is_ok());
}

#[test]
fn test_dtls_config_validate_cert_no_verify() {
    let config = DtlsConfig {
        mode: SecurityMode::Certificate,
        certificate: vec![1, 2, 3],
        private_key: vec![4, 5, 6],
        verify_peer: false,
        ca_certs: Vec::new(),
        ..Default::default()
    };
    assert!(config.validate().is_ok());
}

#[test]
fn test_dtls_stats() {
    let stats = DtlsStats::new();
    assert_eq!(stats.handshakes_completed, 0);
    assert_eq!(stats.handshakes_failed, 0);
    assert_eq!(stats.sessions_resumed, 0);
    assert_eq!(stats.active_sessions, 0);
    assert_eq!(stats.replay_attacks, 0);
    assert_eq!(stats.verification_failures, 0);
}

#[test]
fn test_dtls_stats_default() {
    let stats = DtlsStats::default();
    assert_eq!(stats.handshakes_completed, 0);
    let debug_str = format!("{:?}", stats);
    assert!(debug_str.contains("DtlsStats"));
    let cloned = stats.clone();
    assert_eq!(cloned.handshakes_completed, stats.handshakes_completed);
}

#[test]
fn test_dtls_constants() {
    assert_eq!(DTLS_VERSION_1_2, 0xFEFD);
    assert_eq!(DTLS_VERSION_1_3, 0xFEFC);
    assert_eq!(Duration::from_secs(DEFAULT_SESSION_TIMEOUT_SECS), Duration::from_secs(86400));
    assert_eq!(MAX_SESSION_CACHE, 100);
}

#[test]
fn test_security_mode_clone_debug() {
    let mode = SecurityMode::PreSharedKey;
    let cloned = mode.clone();
    assert_eq!(cloned, SecurityMode::PreSharedKey);
    let debug_str = format!("{:?}", mode);
    assert!(debug_str.contains("PreSharedKey"));
}

#[test]
fn test_dtls_config_clone_debug() {
    let config = DtlsConfig::psk(vec![1, 2, 3], "test".to_string());
    let cloned = config.clone();
    assert_eq!(cloned.psk, config.psk);
    let debug_str = format!("{:?}", config);
    assert!(debug_str.contains("DtlsConfig"));
}

#[test]
fn test_psk_different_lengths() {
    let psk16 = psk::generate_psk(16);
    assert_eq!(psk16.len(), 16);

    let psk64 = psk::generate_psk(64);
    assert_eq!(psk64.len(), 64);
}

#[test]
fn test_psk_derive_different_iterations() {
    let passphrase = "test-pass";
    let salt = b"test-salt";

    let psk1 = psk::derive_psk_from_passphrase(passphrase, salt, 1);
    let psk100 = psk::derive_psk_from_passphrase(passphrase, salt, 100);

    assert_ne!(psk1, psk100);
}

#[test]
fn test_psk_derive_different_salts() {
    let passphrase = "test-pass";

    let psk1 = psk::derive_psk_from_passphrase(passphrase, b"salt1", 10);
    let psk2 = psk::derive_psk_from_passphrase(passphrase, b"salt2", 10);

    assert_ne!(psk1, psk2);
}
