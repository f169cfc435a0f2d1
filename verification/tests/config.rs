use std::time::Duration;
use aingle_minimal::config::{
    GossipTiming, NodeSettings, ConfigError, MeshMode, PowerMode, StorageBackendType, StorageConfig, TransportConfig,
};

#[test]
fn test_power_mode_default() {
    let mode: PowerMode = Default::default();
    assert_eq!(mode, PowerMode::Balanced);
}

#[test]
fn test_power_mode_variants() {
    let modes = vec![PowerMode::Full, PowerMode::Balanced, PowerMode::Low, PowerMode::Critical];

    for mode in modes {
        let debug_str = format!("{:?}", mode);
        assert!(!debug_str.is_empty());
    }
}

#[test]
fn test_transport_config_default() {
    let config: TransportConfig = Default::default();
    if let TransportConfig::Coap { bind_addr, port } = config {
        assert_eq!(bind_addr, "0.0.0.0");
        assert_eq!(port, 5683);
    } else {
        panic!("Expected Coap transport");
    }
}

#[test]
fn test_storage_backend_type_default() {
    let backend: StorageBackendType = Default::default();
    assert_eq!(backend, StorageBackendType::Sqlite);
}

#[test]
fn test_storage_backend_type_display() {
    assert_eq!(StorageBackendType::Sqlite.to_string(), "sqlite");
    assert_eq!(StorageBackendType::Rocksdb.to_string(), "rocksdb");
    assert_eq!(StorageBackendType::Memory.to_string(), "memory");
}

#[test]
fn test_storage_config_default() {
    let config = StorageConfig::default();
    assert_eq!(config.backend, StorageBackendType::Sqlite);
    assert!(config.max_size > 0);
    assert!(config.aggressive_pruning);
}

#[test]
fn test_storage_config_sqlite() {
    let config = StorageConfig::sqlite("./test.db");
    assert_eq!(config.backend, StorageBackendType::Sqlite);
    assert_eq!(config.db_path, "./test.db");
}

#[test]
fn test_storage_config_rocksdb() {
    let config = StorageConfig::rocksdb("./rocksdb");
    assert_eq!(config.backend, StorageBackendType::Rocksdb);
    assert_eq!(config.db_path, "./rocksdb");
    assert!(!config.aggressive_pruning);
    assert!(config.max_size > StorageConfig::default().max_size);
}

#[test]
fn test_storage_config_memory() {
    let config = StorageConfig::memory();
    assert_eq!(config.backend, StorageBackendType::Memory);
    assert_eq!(config.db_path, ":memory:");
}

#[test]
fn test_mesh_mode_variants() {
    let modes = vec![MeshMode::WiFiDirect, MeshMode::BluetoothLE, MeshMode::LoRa];

    for mode in modes {
        let debug_str = format!("{:?}", mode);
        assert!(!debug_str.is_empty());
    }
}

#[test]
fn test_config_error_display() {
    let error = ConfigError::MemoryTooLow(100);
    let display = error.to_string();
    assert!(display.contains("100"));

    let error = ConfigError::StorageTooLow(256);
    let display = error.to_string();
    assert!(display.contains("256"));

    let error = ConfigError::Invalid("bad value".to_string());
    let display = error.to_string();
    assert!(display.contains("bad value"));
}

#[test]
fn test_storage_config_clone() {
    let config = StorageConfig::rocksdb("./test");
    let cloned = config.clone();
    assert_eq!(config.db_path, cloned.db_path);
    assert_eq!(config.backend, cloned.backend);
}

#[test]
fn node_settings_presets() {
    let s = NodeSettings::standard();
    assert_eq!(s.publish_interval, Duration::from_secs(5));
    assert_eq!(s.memory_limit, 512 * 1024);
    assert!(s.validate().is_ok());
    let iot = NodeSettings::iot_mode();
    assert_eq!(iot.publish_interval, Duration::ZERO);
    assert_eq!(iot.power_mode, PowerMode::Full);
    let t = NodeSettings::test_mode();
    assert_eq!(t.storage.backend, StorageBackendType::Memory);
    let mut p = NodeSettings::production("/tmp/db");
    assert_eq!(p.storage.db_path, "/tmp/db");
    p.set_memory_limit_kb(usize::MAX);
    assert_eq!(p.memory_limit, usize::MAX);
    p.set_memory_limit_kb(32);
    match p.validate() {
        Err(ConfigError::MemoryTooLow(n)) => assert_eq!(n, 32 * 1024),
        _ => panic!("expected MemoryTooLow"),
    }
    p.set_publish_interval_ms(250);
    assert_eq!(p.publish_interval, Duration::from_millis(250));
    assert_eq!(GossipTiming::iot_mode().loop_delay, Duration::from_millis(100));
    assert_eq!(GossipTiming::low_power().max_peers, 2);
    assert_eq!(GossipTiming::standard().error_delay, Duration::from_secs(300));
}
