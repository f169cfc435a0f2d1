use aingle_minimal::ota::hex;
use aingle_minimal::ota::utils;
use aingle_minimal::ota::{
    OtaConfig, OtaManager, Partition, UpdateChannel, UpdateInfo, UpdateProgress, UpdateState, UpdateStats,
};
use std::cmp::Ordering;
use std::time::Duration;

fn info(version: &str, min_version: Option<&str>) -> UpdateInfo {
    UpdateInfo {
        version: version.to_string(),
        url: "https://example.com/firmware.bin".to_string(),
        size: 1024,
        hash: "abcd1234".to_string(),
        release_notes: "New features".to_string(),
        critical: false,
        min_version: min_version.map(|m| m.to_string()),
        channel: UpdateChannel::Stable,
        released_at: 0,
    }
}

#[test]
fn test_update_info_compatibility() {
    let update = info("2.0.0", Some("1.5.0"));
    assert!(update.is_compatible("1.5.0"));
    assert!(update.is_compatible("1.9.0"));
    assert!(!update.is_compatible("1.4.0"));
}

#[test]
fn test_update_info_newer() {
    let update = info("2.0.0", None);
    assert!(update.is_newer("1.9.0"));
    assert!(!update.is_newer("2.0.0"));
    assert!(!update.is_newer("2.1.0"));
}

#[test]
fn test_ota_manager_creation() {
    let ota = OtaManager::new("1.0.0".to_string(), "device-123".to_string());
    assert_eq!(ota.current_version(), "1.0.0");
    assert_eq!(ota.device_id(), "device-123");
    assert!(!ota.is_updating());
}

#[test]
fn test_ota_config() {
    let mut ota = OtaManager::new("1.0.0".to_string(), "device-123".to_string());
    ota.set_update_server("https://updates.example.com".to_string());
    ota.set_channel(UpdateChannel::Beta);
    ota.set_auto_download(true);

    assert_eq!(ota.config().server_url, "https://updates.example.com");
    assert_eq!(ota.config().channel, UpdateChannel::Beta);
    assert!(ota.config().auto_download);
}

#[test]
fn test_partition() {
    assert_eq!(Partition::A.other(), Partition::B);
    assert_eq!(Partition::B.other(), Partition::A);
}

#[test]
fn test_version_validation() {
    assert!(utils::is_valid_version("1.0.0"));
    assert!(utils::is_valid_version("2.0.0-beta.1"));
    assert!(!utils::is_valid_version(""));
    assert!(!utils::is_valid_version("1.0.0 invalid"));
}

#[test]
fn test_hash_calculation() {
    let data = b"test firmware data";
    let hash = utils::calculate_hash(data);
    assert_eq!(hash.len(), 64);
}

#[test]
fn test_download_time_estimation() {
    let size = 1_000_000;
    let bandwidth = 1_000_000;
    let time = utils::estimate_download_time(size, bandwidth);
    assert_eq!(time, Duration::from_secs(8));
}

#[test]
fn test_hex_encoding() {
    let data = vec![0xab, 0xcd, 0xef, 0x12];
    let encoded = hex::encode(&data);
    assert_eq!(encoded, "abcdef12");

    let decoded = hex::decode(&encoded).unwrap();
    assert_eq!(decoded, data);
}

#[test]
fn test_update_info_clone_debug() {
    let update = UpdateInfo {
        version: "2.0.0".to_string(),
        url: "https://example.com".to_string(),
        size: 1024,
        hash: "abc123".to_string(),
        release_notes: "Notes".to_string(),
        critical: true,
        min_version: None,
        channel: UpdateChannel::Stable,
        released_at: 12345,
    };
    let cloned = update.clone();
    assert_eq!(cloned.version, "2.0.0");
    assert_eq!(cloned.critical, true);

    let debug = format!("{:?}", update);
    assert!(debug.contains("UpdateInfo"));
    assert!(debug.contains("2.0.0"));
}

#[test]
fn test_update_info_is_compatible_no_min_version() {
    let update = UpdateInfo {
        version: "2.0.0".to_string(),
        url: "".to_string(),
        size: 0,
        hash: "".to_string(),
        release_notes: "".to_string(),
        critical: false,
        min_version: None,
        channel: UpdateChannel::Stable,
        released_at: 0,
    };
    assert!(update.is_compatible("0.0.1"));
    assert!(update.is_compatible("9.9.9"));
}

#[test]
fn test_update_channel_all_variants() {
    let channels = [UpdateChannel::Stable, UpdateChannel::Beta, UpdateChannel::Alpha];
    for channel in channels {
        let cloned = channel;
        assert_eq!(channel, cloned);
        let debug = format!("{:?}", channel);
        assert!(!debug.is_empty());
    }
}

#[test]
fn test_update_state_all_variants() {
    let states = [
        UpdateState::Idle,
        UpdateState::Checking,
        UpdateState::Downloading,
        UpdateState::Verifying,
        UpdateState::Applying,
        UpdateState::Completed,
        UpdateState::Failed,
        UpdateState::RollingBack,
    ];
    for state in states {
        let cloned = state;
        assert_eq!(state, cloned);
        let debug = format!("{:?}", state);
        assert!(!debug.is_empty());
    }
}

#[test]
fn test_update_progress_debug_clone() {
    let progress = UpdateProgress::new(UpdateState::Applying);
    let cloned = progress.clone();
    assert_eq!(cloned.state, UpdateState::Applying);

    let debug = format!("{:?}", progress);
    assert!(debug.contains("UpdateProgress"));
}

#[test]
fn test_update_stats_default() {
    let stats = UpdateStats::default();
    assert_eq!(stats.updates_applied, 0);
    assert_eq!(stats.updates_failed, 0);
    assert_eq!(stats.bytes_downloaded, 0);
}

#[test]
fn test_ota_config_default() {
    let config = OtaConfig::default();
    assert!(config.server_url.is_empty());
    assert_eq!(config.channel, UpdateChannel::Stable);
    assert!(!config.auto_download);
    assert!(!config.auto_apply);
    assert_eq!(config.check_interval_secs, 86400);
    assert_eq!(config.bandwidth_limit, 0);
    assert!(config.verify_signatures);
}

#[test]
fn test_ota_config_clone_debug() {
    let config = OtaConfig::default();
    let cloned = config.clone();
    assert_eq!(cloned.channel, UpdateChannel::Stable);

    let debug = format!("{:?}", config);
    assert!(debug.contains("OtaConfig"));
}

#[test]
fn test_ota_manager_set_auto_apply() {
    let mut ota = OtaManager::new("1.0.0".to_string(), "device".to_string());
    assert!(!ota.config().auto_apply);
    ota.set_auto_apply(true);
    assert!(ota.config().auto_apply);
}

#[test]
fn test_ota_manager_set_config() {
    let mut ota = OtaManager::new("1.0.0".to_string(), "device".to_string());
    let config = OtaConfig {
        server_url: "https://new.com".to_string(),
        channel: UpdateChannel::Beta,
        auto_download: true,
        auto_apply: true,
        check_interval_secs: 1800,
        bandwidth_limit: 5000,
        verify_signatures: false,
    };
    ota.set_config(config);
    assert_eq!(ota.config().server_url, "https://new.com");
    assert_eq!(ota.config().channel, UpdateChannel::Beta);
}

#[test]
fn test_ota_manager_cancel_update() {
    let mut ota = OtaManager::new("1.0.0".to_string(), "device".to_string());
    ota.cancel_update();
    assert!(ota.pending_update().is_none());
    assert_eq!(ota.progress().state, UpdateState::Idle);
}

#[test]
fn test_ota_manager_is_updating() {
    let ota = OtaManager::new("1.0.0".to_string(), "device".to_string());
    assert!(!ota.is_updating());
}

#[test]
fn test_ota_manager_progress() {
    let ota = OtaManager::new("1.0.0".to_string(), "device".to_string());
    let progress = ota.progress();
    assert_eq!(progress.state, UpdateState::Idle);
}

#[test]
fn test_ota_manager_stats() {
    let ota = OtaManager::new("1.0.0".to_string(), "device".to_string());
    let stats = ota.stats();
    assert_eq!(stats.updates_applied, 0);
}

#[test]
fn test_partition_debug() {
    let partition = Partition::A;
    let debug = format!("{:?}", partition);
    assert!(debug.contains("A"));
}

#[test]
fn test_partition_clone_eq() {
    let p1 = Partition::A;
    let p2 = Partition::A;
    let p3 = Partition::B;
    assert_eq!(p1, p2);
    assert_ne!(p1, p3);
}

#[test]
fn test_hex_decode_invalid_length() {
    let result = hex::decode("abc");
    assert!(result.is_err());
}

#[test]
fn test_hex_decode_invalid_chars() {
    let result = hex::decode("ghij");
    assert!(result.is_err());
}

#[test]
fn test_hex_encode_empty() {
    let encoded = hex::encode(&[]);
    assert!(encoded.is_empty());
}

#[test]
fn test_version_compare() {
    assert_eq!(utils::compare_versions("1.0.0", "2.0.0"), Ordering::Less);
    assert_eq!(utils::compare_versions("2.0.0", "1.0.0"), Ordering::Greater);
    assert_eq!(utils::compare_versions("1.0.0", "1.0.0"), Ordering::Equal);
}

#[test]
fn test_download_time_zero_bandwidth() {
    let time = utils::estimate_download_time(1000, 0);
    assert_eq!(time, Duration::from_secs(0));
}

#[test]
fn update_stats_record_success_at_stamps_time() {
    let mut stats = UpdateStats::new();
    stats.record_success_at(1_700_000_000);
    assert_eq!(stats.updates_applied, 1);
    assert_eq!(stats.updates_failed, 0);
    assert_eq!(stats.last_update, 1_700_000_000);
    assert_eq!(stats.current_version_installed_at, 1_700_000_000);
    stats.record_failure();
    assert_eq!(stats.updates_failed, 1);
}
