//! Sensor kinds with their units and names, and reading counters.

use crate::time::unix_time_millis;
use vstd::prelude::*;

verus! {

/// Sensor types supported by the platform.
#[derive(Debug, Clone, Copy, PartialEq, Eq, Hash, Structural)]
pub enum SensorType {
    /// Temperature sensor (Celsius).
    Temperature,
    /// Humidity sensor (percentage).
    Humidity,
    /// Barometric pressure (hPa).
    Pressure,
    /// Light sensor (lux).
    Light,
    /// Motion/PIR sensor (binary).
    Motion,
    /// GPS location (lat/lon).
    GPS,
    /// Accelerometer (3-axis).
    Accelerometer,
    /// Gyroscope (3-axis).
    Gyroscope,
    /// Magnetometer (3-axis).
    Magnetometer,
    /// Proximity sensor (cm).
    Proximity,
    /// Sound level (dB).
    Sound,
    /// Air quality (PPM).
    AirQuality,
    /// Voltage (V).
    Voltage,
    /// Current (A).
    Current,
    /// Power (W).
    Power,
    /// A sensor type of the application's own, by number.
    Custom(u16),
}

impl SensorType {
    /// The unit in which readings of this type are given.
    pub open spec fn unit_text(self) -> Seq<char> {
        match self {
            SensorType::Temperature => "°C"@,
            SensorType::Humidity => "%"@,
            SensorType::Pressure => "hPa"@,
            SensorType::Light => "lux"@,
            SensorType::Motion => "bool"@,
            SensorType::GPS => "deg"@,
            SensorType::Accelerometer => "m/s²"@,
            SensorType::Gyroscope => "rad/s"@,
            SensorType::Magnetometer => "μT"@,
            SensorType::Proximity => "cm"@,
            SensorType::Sound => "dB"@,
            SensorType::AirQuality => "PPM"@,
            SensorType::Voltage => "V"@,
            SensorType::Current => "A"@,
            SensorType::Power => "W"@,
            SensorType::Custom(_) => "custom"@,
        }
    }

    /// The human-readable name of this type.
    pub open spec fn name_text(self) -> Seq<char> {
        match self {
            SensorType::Temperature => "Temperature"@,
            SensorType::Humidity => "Humidity"@,
            SensorType::Pressure => "Pressure"@,
            SensorType::Light => "Light"@,
            SensorType::Motion => "Motion"@,
            SensorType::GPS => "GPS"@,
            SensorType::Accelerometer => "Accelerometer"@,
            SensorType::Gyroscope => "Gyroscope"@,
            SensorType::Magnetometer => "Magnetometer"@,
            SensorType::Proximity => "Proximity"@,
            SensorType::Sound => "Sound"@,
            SensorType::AirQuality => "Air Quality"@,
            SensorType::Voltage => "Voltage"@,
            SensorType::Current => "Current"@,
            SensorType::Power => "Power"@,
            SensorType::Custom(_) => "Custom"@,
        }
    }

    /// Default unit for this sensor type.
    pub fn default_unit(&self) -> (u: &'static str)
        ensures
            u@ == self.unit_text(),
    {
        match self {
            SensorType::Temperature => "°C",
            SensorType::Humidity => "%",
            SensorType::Pressure => "hPa",
            SensorType::Light => "lux",
            SensorType::Motion => "bool",
            SensorType::GPS => "deg",
            SensorType::Accelerometer => "m/s²",
            SensorType::Gyroscope => "rad/s",
            SensorType::Magnetometer => "μT",
            SensorType::Proximity => "cm",
            SensorType::Sound => "dB",
            SensorType::AirQuality => "PPM",
            SensorType::Voltage => "V",
            SensorType::Current => "A",
            SensorType::Power => "W",
            SensorType::Custom(_) => "custom",
        }
    }

    /// Human-readable name.
    pub fn name(&self) -> (n: &'static str)
        ensures
            n@ == self.name_text(),
    {
        match self {
            SensorType::Temperature => "Temperature",
            SensorType::Humidity => "Humidity",
            SensorType::Pressure => "Pressure",
            SensorType::Light => "Light",
            SensorType::Motion => "Motion",
            SensorType::GPS => "GPS",
            SensorType::Accelerometer => "Accelerometer",
            SensorType::Gyroscope => "Gyroscope",
            SensorType::Magnetometer => "Magnetometer",
            SensorType::Proximity => "Proximity",
            SensorType::Sound => "Sound",
            SensorType::AirQuality => "Air Quality",
            SensorType::Voltage => "Voltage",
            SensorType::Current => "Current",
            SensorType::Power => "Power",
            SensorType::Custom(_) => "Custom",
        }
    }
}

/// Counters of sensor readings.
#[derive(Debug, Clone)]
pub struct SensorStats {
    /// Total successful readings taken.
    pub total_readings: u64,
    /// Failed readings.
    pub failed_readings: u64,
    /// Average reading interval (ms).
    pub avg_interval_ms: u64,
    /// Time of the last successful reading, in milliseconds since the Unix epoch.
    pub last_reading: u64,
}

impl SensorStats {
    /// Counters that are all zero.
    pub fn new() -> (s: Self)
        ensures
            s.total_readings == 0,
            s.failed_readings == 0,
            s.avg_interval_ms == 0,
            s.last_reading == 0,
    {
        SensorStats { total_readings: 0, failed_readings: 0, avg_interval_ms: 0, last_reading: 0 }
    }

    /// Counts a successful reading taken at `now_ms` (milliseconds since the
    /// Unix epoch).
    pub fn record_success_at(&mut self, now_ms: u64)
        requires
            old(self).total_readings < u64::MAX,
        ensures
            final(self).total_readings == old(self).total_readings + 1,
            final(self).last_reading == now_ms,
            final(self).failed_readings == old(self).failed_readings,
            final(self).avg_interval_ms == old(self).avg_interval_ms,
    {
        self.total_readings = self.total_readings + 1;
        self.last_reading = now_ms;
    }

    /// Counts a successful reading taken now, by the system clock.
    pub fn record_success(&mut self)
        requires
            old(self).total_readings < u64::MAX,
        ensures
            final(self).total_readings == old(self).total_readings + 1,
            final(self).failed_readings == old(self).failed_readings,
            final(self).avg_interval_ms == old(self).avg_interval_ms,
    {
        let now_ms = unix_time_millis();
        self.record_success_at(now_ms);
    }

    /// Counts a failed reading.
    pub fn record_failure(&mut self)
        requires
            old(self).failed_readings < u64::MAX,
        ensures
            final(self).failed_readings == old(self).failed_readings + 1,
            final(self).total_readings == old(self).total_readings,
            final(self).avg_interval_ms == old(self).avg_interval_ms,
            final(self).last_reading == old(self).last_reading,
    {
        self.failed_readings = self.failed_readings + 1;
    }
}

impl Default for SensorStats {
    fn default() -> (s: Self)
        ensures
            s.total_readings == 0,
            s.failed_readings == 0,
            s.avg_interval_ms == 0,
            s.last_reading == 0,
    {
        SensorStats::new()
    }
}

} // verus!
