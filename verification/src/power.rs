//! Power profiles and sleep configuration for battery-powered devices.
//!
//! Each profile fixes a network sync interval, a sensor sampling interval,
//! a CPU frequency share and an estimated power draw; the intervals are
//! stated exactly, as whole milliseconds.

use crate::time::{duration_as_nanos, from_millis, from_secs};
use std::time::Duration;
use vstd::prelude::*;

verus! {

/// Power profile modes, from no savings to extreme savings.
#[derive(Debug, Clone, Copy, PartialEq, Eq, Structural)]
pub enum PowerProfile {
    /// Full CPU speed, network always on, high sampling rate.
    HighPerformance,
    /// Adaptive CPU speed, sync every 5 s, normal sampling.
    Balanced,
    /// Low CPU speed, sync every 30 s, low sampling.
    LowPower,
    /// Minimal CPU speed, sync every 5 min, minimal sampling.
    UltraLowPower,
}

impl PowerProfile {
    /// The network sync interval of a profile, in milliseconds.
    pub open spec fn sync_interval_ms(self) -> int {
        match self {
            PowerProfile::HighPerformance => 1_000,
            PowerProfile::Balanced => 5_000,
            PowerProfile::LowPower => 30_000,
            PowerProfile::UltraLowPower => 300_000,
        }
    }

    /// The sensor sampling interval of a profile, in milliseconds.
    pub open spec fn sampling_interval_ms(self) -> int {
        match self {
            PowerProfile::HighPerformance => 100,
            PowerProfile::Balanced => 1_000,
            PowerProfile::LowPower => 10_000,
            PowerProfile::UltraLowPower => 60_000,
        }
    }

    /// The CPU frequency of a profile, in percent of the maximum.
    pub open spec fn cpu_percent(self) -> u8 {
        match self {
            PowerProfile::HighPerformance => 100,
            PowerProfile::Balanced => 75,
            PowerProfile::LowPower => 50,
            PowerProfile::UltraLowPower => 25,
        }
    }

    /// The estimated power draw of a profile, in milliwatts.
    pub open spec fn power_mw(self) -> u32 {
        match self {
            PowerProfile::HighPerformance => 1000,
            PowerProfile::Balanced => 500,
            PowerProfile::LowPower => 200,
            PowerProfile::UltraLowPower => 50,
        }
    }

    /// Network sync interval for this profile.
    pub fn network_sync_interval(&self) -> (d: Duration)
        ensures
            duration_as_nanos(d) == self.sync_interval_ms() * 1_000_000,
    {
        match self {
            PowerProfile::HighPerformance => from_secs(1),
            PowerProfile::Balanced => from_secs(5),
            PowerProfile::LowPower => from_secs(30),
            PowerProfile::UltraLowPower => from_secs(300),
        }
    }

    /// Sensor sampling interval for this profile.
    pub fn sensor_sampling_interval(&self) -> (d: Duration)
        ensures
            duration_as_nanos(d) == self.sampling_interval_ms() * 1_000_000,
    {
        match self {
            PowerProfile::HighPerformance => from_millis(100),
            PowerProfile::Balanced => from_secs(1),
            PowerProfile::LowPower => from_secs(10),
            PowerProfile::UltraLowPower => from_secs(60),
        }
    }

    /// CPU frequency, in percent of the maximum.
    pub fn cpu_frequency_percent(&self) -> (p: u8)
        ensures
            p == self.cpu_percent(),
    {
        match self {
            PowerProfile::HighPerformance => 100,
            PowerProfile::Balanced => 75,
            PowerProfile::LowPower => 50,
            PowerProfile::UltraLowPower => 25,
        }
    }

    /// Estimated power consumption, in milliwatts.
    pub fn estimated_power_consumption_mw(&self) -> (mw: u32)
        ensures
            mw == self.power_mw(),
    {
        match self {
            PowerProfile::HighPerformance => 1000,
            PowerProfile::Balanced => 500,
            PowerProfile::LowPower => 200,
            PowerProfile::UltraLowPower => 50,
        }
    }
}

/// The order of the profiles from most to least power-hungry.
pub open spec fn savings_rank(p: PowerProfile) -> int {
    match p {
        PowerProfile::HighPerformance => 0,
        PowerProfile::Balanced => 1,
        PowerProfile::LowPower => 2,
        PowerProfile::UltraLowPower => 3,
    }
}

/// A profile that saves more power draws less, runs the CPU slower, and
/// syncs and samples less often.
pub proof fn lemma_profiles_ordered(a: PowerProfile, b: PowerProfile)
    requires
        savings_rank(a) < savings_rank(b),
    ensures
        a.power_mw() > b.power_mw(),
        a.cpu_percent() > b.cpu_percent(),
        a.sync_interval_ms() < b.sync_interval_ms(),
        a.sampling_interval_ms() < b.sampling_interval_ms(),
{
}

/// Sleep mode configuration: how long to sleep and what may wake the device.
#[derive(Debug, Clone)]
pub struct SleepConfig {
    /// Sleep duration.
    pub duration: Duration,
    /// Wake on timer.
    pub wake_on_timer: bool,
    /// Wake on network activity.
    pub wake_on_network: bool,
    /// Wake on sensor interrupt.
    pub wake_on_sensor: bool,
}

impl SleepConfig {
    /// A sleep that any wake source may end.
    pub fn new(duration: Duration) -> (c: Self)
        ensures
            c.duration == duration,
            c.wake_on_timer,
            c.wake_on_network,
            c.wake_on_sensor,
    {
        SleepConfig { duration, wake_on_timer: true, wake_on_network: true, wake_on_sensor: true }
    }

    /// A deep sleep that only the timer ends.
    pub fn deep_sleep(duration: Duration) -> (c: Self)
        ensures
            c.duration == duration,
            c.wake_on_timer,
            !c.wake_on_network,
            !c.wake_on_sensor,
    {
        SleepConfig { duration, wake_on_timer: true, wake_on_network: false, wake_on_sensor: false }
    }
}

/// Why a device woke from sleep.
#[derive(Debug, Clone, Copy, PartialEq, Eq, Structural)]
pub enum WakeReason {
    /// The timer expired.
    Timer,
    /// Network activity.
    Network,
    /// A sensor interrupt.
    Sensor,
    /// An external interrupt.
    External,
    /// Unknown reason.
    Unknown,
}


/// Time spent per power profile and asleep, in seconds (the integer part
/// of a device's power statistics).
#[derive(Debug, Clone, Copy)]
pub struct ProfileTimes {
    /// Seconds since start.
    pub uptime_secs: u64,
    /// Seconds in `HighPerformance`.
    pub time_in_high_performance: u64,
    /// Seconds in `Balanced`.
    pub time_in_balanced: u64,
    /// Seconds in `LowPower`.
    pub time_in_low_power: u64,
    /// Seconds in `UltraLowPower`.
    pub time_in_ultra_low_power: u64,
    /// Seconds asleep.
    pub total_sleep_time: u64,
    /// Number of sleeps.
    pub sleep_wake_cycles: u64,
}

impl ProfileTimes {
    /// The seconds spent in `p`.
    pub open spec fn spec_time_in(self, p: PowerProfile) -> u64 {
        match p {
            PowerProfile::HighPerformance => self.time_in_high_performance,
            PowerProfile::Balanced => self.time_in_balanced,
            PowerProfile::LowPower => self.time_in_low_power,
            PowerProfile::UltraLowPower => self.time_in_ultra_low_power,
        }
    }

    /// Nothing counted yet.
    pub fn new() -> (t: Self)
        ensures
            t == (ProfileTimes {
                uptime_secs: 0,
                time_in_high_performance: 0,
                time_in_balanced: 0,
                time_in_low_power: 0,
                time_in_ultra_low_power: 0,
                total_sleep_time: 0,
                sleep_wake_cycles: 0,
            }),
    {
        ProfileTimes {
            uptime_secs: 0,
            time_in_high_performance: 0,
            time_in_balanced: 0,
            time_in_low_power: 0,
            time_in_ultra_low_power: 0,
            total_sleep_time: 0,
            sleep_wake_cycles: 0,
        }
    }

    /// Seconds spent in `profile`.
    pub fn time_in_profile(&self, profile: PowerProfile) -> (t: u64)
        ensures
            t == self.spec_time_in(profile),
    {
        match profile {
            PowerProfile::HighPerformance => self.time_in_high_performance,
            PowerProfile::Balanced => self.time_in_balanced,
            PowerProfile::LowPower => self.time_in_low_power,
            PowerProfile::UltraLowPower => self.time_in_ultra_low_power,
        }
    }

    /// Seconds awake: the uptime less the sleep time, or zero.
    pub fn active_time(&self) -> (t: u64)
        ensures
            t == (if self.uptime_secs >= self.total_sleep_time { (self.uptime_secs - self.total_sleep_time) as u64 } else { 0u64 }),
    {
        if self.uptime_secs >= self.total_sleep_time { self.uptime_secs - self.total_sleep_time } else { 0 }
    }

    /// Adds `secs` seconds to the time spent in `profile`.
    pub fn account(&mut self, profile: PowerProfile, secs: u64)
        requires
            old(self).spec_time_in(profile) + secs <= u64::MAX,
        ensures
            forall|p: PowerProfile| #[trigger] final(self).spec_time_in(p) == if p == profile {
                (old(self).spec_time_in(p) + secs) as u64
            } else {
                old(self).spec_time_in(p)
            },
            final(self).uptime_secs == old(self).uptime_secs,
            final(self).total_sleep_time == old(self).total_sleep_time,
            final(self).sleep_wake_cycles == old(self).sleep_wake_cycles,
    {
        match profile {
            PowerProfile::HighPerformance => self.time_in_high_performance = self.time_in_high_performance + secs,
            PowerProfile::Balanced => self.time_in_balanced = self.time_in_balanced + secs,
            PowerProfile::LowPower => self.time_in_low_power = self.time_in_low_power + secs,
            PowerProfile::UltraLowPower => self.time_in_ultra_low_power = self.time_in_ultra_low_power + secs,
        }
    }

    /// Counts a sleep of `secs` seconds.
    pub fn record_sleep(&mut self, secs: u64)
        requires
            old(self).total_sleep_time + secs <= u64::MAX,
            old(self).sleep_wake_cycles < u64::MAX,
        ensures
            *final(self) == (ProfileTimes {
                total_sleep_time: (old(self).total_sleep_time + secs) as u64,
                sleep_wake_cycles: (old(self).sleep_wake_cycles + 1) as u64,
                ..*old(self)
            }),
    {
        self.total_sleep_time = self.total_sleep_time + secs;
        self.sleep_wake_cycles = self.sleep_wake_cycles + 1;
    }
}

} // verus!
