use aingle_minimal::node::PeerRecord;
use aingle_minimal::power::{PowerProfile, ProfileTimes, SleepConfig};
use aingle_minimal::sensors::{SensorStats, SensorType};
use std::time::Duration;

#[test]
fn test_power_profiles() {
    assert_eq!(PowerProfile::HighPerformance.network_sync_interval(), Duration::from_secs(1));
    assert_eq!(PowerProfile::UltraLowPower.network_sync_interval(), Duration::from_secs(300));
    assert_eq!(PowerProfile::HighPerformance.cpu_frequency_percent(), 100);
    assert_eq!(PowerProfile::UltraLowPower.cpu_frequency_percent(), 25);
}

#[test]
fn test_sleep_config() {
    let config = SleepConfig::new(Duration::from_secs(30));
    assert!(config.wake_on_timer);
    assert!(config.wake_on_network);

    let deep = SleepConfig::deep_sleep(Duration::from_secs(60));
    assert!(deep.wake_on_timer);
    assert!(!deep.wake_on_network);
    assert!(!deep.wake_on_sensor);
}

#[test]
fn test_sensor_types() {
    assert_eq!(SensorType::Temperature.default_unit(), "°C");
    assert_eq!(SensorType::Humidity.default_unit(), "%");
    assert_eq!(SensorType::Temperature.name(), "Temperature");
}

#[test]
fn test_sensor_types_all_units() {
    assert_eq!(SensorType::Pressure.default_unit(), "hPa");
    assert_eq!(SensorType::Light.default_unit(), "lux");
    assert_eq!(SensorType::Motion.default_unit(), "bool");
    assert_eq!(SensorType::GPS.default_unit(), "deg");
    assert_eq!(SensorType::Accelerometer.default_unit(), "m/s²");
    assert_eq!(SensorType::Gyroscope.default_unit(), "rad/s");
    assert_eq!(SensorType::Magnetometer.default_unit(), "μT");
    assert_eq!(SensorType::Proximity.default_unit(), "cm");
    assert_eq!(SensorType::Sound.default_unit(), "dB");
    assert_eq!(SensorType::AirQuality.default_unit(), "PPM");
    assert_eq!(SensorType::Voltage.default_unit(), "V");
    assert_eq!(SensorType::Current.default_unit(), "A");
    assert_eq!(SensorType::Power.default_unit(), "W");
    assert_eq!(SensorType::Custom(42).default_unit(), "custom");
}

#[test]
fn test_sensor_types_all_names() {
    assert_eq!(SensorType::Humidity.name(), "Humidity");
    assert_eq!(SensorType::Pressure.name(), "Pressure");
    assert_eq!(SensorType::Light.name(), "Light");
    assert_eq!(SensorType::Motion.name(), "Motion");
    assert_eq!(SensorType::GPS.name(), "GPS");
    assert_eq!(SensorType::Accelerometer.name(), "Accelerometer");
    assert_eq!(SensorType::Gyroscope.name(), "Gyroscope");
    assert_eq!(SensorType::Magnetometer.name(), "Magnetometer");
    assert_eq!(SensorType::Proximity.name(), "Proximity");
    assert_eq!(SensorType::Sound.name(), "Sound");
    assert_eq!(SensorType::AirQuality.name(), "Air Quality");
    assert_eq!(SensorType::Voltage.name(), "Voltage");
    assert_eq!(SensorType::Current.name(), "Current");
    assert_eq!(SensorType::Power.name(), "Power");
    assert_eq!(SensorType::Custom(42).name(), "Custom");
}

#[test]
fn test_sensor_stats_last_reading_updated() {
    let mut stats = SensorStats::new();
    assert_eq!(stats.last_reading, 0);

    stats.record_success();
    assert!(stats.last_reading > 0);
}

#[test]
fn test_peer_record_debug() {
    let record = PeerRecord { addr: "127.0.0.1:5683".to_string(), latest_seq: 0, quality: 50, last_seen_secs: 0 };

    let debug_str = format!("{:?}", record);
    assert!(debug_str.contains("PeerRecord"));
    assert!(debug_str.contains("127.0.0.1:5683"));
}

#[test]
fn test_peer_record_clone() {
    let record1 = PeerRecord {
        addr: "192.168.1.1:5683".to_string(),
        latest_seq: 100,
        quality: 90,
        last_seen_secs: 999999,
    };

    let record2 = record1.clone();
    assert_eq!(record1.addr, record2.addr);
    assert_eq!(record1.latest_seq, record2.latest_seq);
    assert_eq!(record1.quality, record2.quality);
    assert_eq!(record1.last_seen_secs, record2.last_seen_secs);
}

#[test]
fn profile_times_accounting() {
    let mut t = ProfileTimes::new();
    t.account(PowerProfile::Balanced, 40);
    t.account(PowerProfile::Balanced, 2);
    t.account(PowerProfile::LowPower, 7);
    assert_eq!(t.time_in_profile(PowerProfile::Balanced), 42);
    assert_eq!(t.time_in_profile(PowerProfile::LowPower), 7);
    assert_eq!(t.time_in_profile(PowerProfile::HighPerformance), 0);
    t.record_sleep(10);
    assert_eq!(t.sleep_wake_cycles, 1);
    t.uptime_secs = 100;
    assert_eq!(t.active_time(), 90);
    t.uptime_secs = 5;
    assert_eq!(t.active_time(), 0);
}

#[test]
fn power_intervals_exact() {
    assert_eq!(PowerProfile::Balanced.network_sync_interval(), Duration::from_secs(5));
    assert_eq!(PowerProfile::LowPower.network_sync_interval(), Duration::from_secs(30));
    assert_eq!(PowerProfile::HighPerformance.sensor_sampling_interval(), Duration::from_millis(100));
}
