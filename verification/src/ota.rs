//! Over-the-air firmware update management: update descriptions, progress,
//! statistics, configuration and the update state machine.
//!
//! An update is checked for, downloaded (which checks that it is compatible
//! with the running version and that the firmware's hash matches), then
//! applied, which installs its version; a rollback marks the update failed.

use vstd::prelude::*;
use crate::error::Error;
use crate::text::{append_str, seq_lt, seq_le, str_lt, str_eq, lowercase};
use crate::crypto::blake3_digest;
use crate::ota::hex::hex_encode;

pub mod hex;
pub mod utils;

verus! {

/// Update channel (stable, beta, alpha).
#[derive(Debug, Clone, Copy, PartialEq, Eq, Structural)]
pub enum UpdateChannel {
    /// Stable releases only.
    Stable,
    /// Beta releases (pre-release testing).
    Beta,
    /// Alpha releases (bleeding edge).
    Alpha,
}

/// Update state machine.
#[derive(Debug, Clone, Copy, PartialEq, Eq, Structural)]
pub enum UpdateState {
    /// Idle, no update in progress.
    Idle,
    /// Checking for updates.
    Checking,
    /// Downloading an update.
    Downloading,
    /// Verifying a download.
    Verifying,
    /// Applying an update.
    Applying,
    /// Update completed successfully.
    Completed,
    /// Update failed.
    Failed,
    /// Rolling back.
    RollingBack,
}

/// Update information from the update server.
#[derive(Debug, Clone)]
pub struct UpdateInfo {
    /// New version string.
    pub version: String,
    /// Download URL.
    pub url: String,
    /// Firmware size in bytes.
    pub size: u64,
    /// Hash of the firmware (hex).
    pub hash: String,
    /// Release notes.
    pub release_notes: String,
    /// Is this a critical update?
    pub critical: bool,
    /// Minimum compatible version.
    pub min_version: Option<String>,
    /// Update channel.
    pub channel: UpdateChannel,
    /// Release timestamp.
    pub released_at: u64,
}

/// The abstract value of an update description.
pub struct UpdateInfoView {
    /// New version string.
    pub version: Seq<char>,
    /// Download URL.
    pub url: Seq<char>,
    /// Firmware size in bytes.
    pub size: u64,
    /// Hash of the firmware (hex).
    pub hash: Seq<char>,
    /// Release notes.
    pub release_notes: Seq<char>,
    /// Is this a critical update?
    pub critical: bool,
    /// Minimum compatible version.
    pub min_version: Option<Seq<char>>,
    /// Update channel.
    pub channel: UpdateChannel,
    /// Release timestamp.
    pub released_at: u64,
}

impl View for UpdateInfo {
    type V = UpdateInfoView;

    open spec fn view(&self) -> UpdateInfoView {
        UpdateInfoView {
            version: self.version@,
            url: self.url@,
            size: self.size,
            hash: self.hash@,
            release_notes: self.release_notes@,
            critical: self.critical,
            min_version: match self.min_version {
                Some(m) => Some(m@),
                None => None,
            },
            channel: self.channel,
            released_at: self.released_at,
        }
    }
}

impl UpdateInfoView {
    /// Whether the update can be installed over `current`: there is no
    /// minimum version, or `current` sorts at or after it.
    pub open spec fn compatible_with(self, current: Seq<char>) -> bool {
        match self.min_version {
            Some(m) => seq_le(m, current),
            None => true,
        }
    }

    /// Whether the update is newer than `current`: its version sorts after it.
    pub open spec fn newer_than(self, current: Seq<char>) -> bool {
        seq_lt(current, self.version)
    }
}

impl UpdateInfo {
    /// Check if the update is compatible with the current version (string
    /// comparison with the minimum version, if there is one).
    pub fn is_compatible(&self, current_version: &str) -> (b: bool)
        ensures
            b == self@.compatible_with(current_version@),
    {
        match &self.min_version {
            Some(min_ver) => str_eq(min_ver.as_str(), current_version) || str_lt(min_ver.as_str(), current_version),
            None => true,
        }
    }

    /// Check if the update is newer than the current version (string comparison).
    pub fn is_newer(&self, current_version: &str) -> (b: bool)
        ensures
            b == self@.newer_than(current_version@),
    {
        str_lt(current_version, self.version.as_str())
    }

    /// A copy of the update description.
    pub fn copy(&self) -> (r: Self)
        ensures
            r@ == self@,
    {
        UpdateInfo {
            version: self.version.clone(),
            url: self.url.clone(),
            size: self.size,
            hash: self.hash.clone(),
            release_notes: self.release_notes.clone(),
            critical: self.critical,
            min_version: match &self.min_version {
                Some(m) => Some(m.clone()),
                None => None,
            },
            channel: self.channel,
            released_at: self.released_at,
        }
    }
}

/// Update progress information.
#[derive(Debug, Clone)]
pub struct UpdateProgress {
    /// Current state.
    pub state: UpdateState,
    /// Bytes downloaded.
    pub downloaded: u64,
    /// Total bytes to download.
    pub total: u64,
    /// Progress percentage (0-100).
    pub percentage: u8,
    /// Current operation description.
    pub message: String,
}

impl UpdateProgress {
    /// Create new progress in a state: nothing downloaded, empty message.
    pub fn new(state: UpdateState) -> (p: Self)
        ensures
            p.state == state,
            p.downloaded == 0,
            p.total == 0,
            p.percentage == 0,
            p.message@ == Seq::<char>::empty(),
    {
        UpdateProgress { state, downloaded: 0, total: 0, percentage: 0, message: String::new() }
    }
}

/// Update statistics.
#[derive(Debug, Clone)]
pub struct UpdateStats {
    /// Total updates applied.
    pub updates_applied: u64,
    /// Total updates failed.
    pub updates_failed: u64,
    /// Total bytes downloaded.
    pub bytes_downloaded: u64,
    /// Last check timestamp.
    pub last_check: u64,
    /// Last update timestamp.
    pub last_update: u64,
    /// Current version install date.
    pub current_version_installed_at: u64,
}

impl UpdateStats {
    /// Create new, zeroed stats.
    pub fn new() -> (s: Self)
        ensures
            s.updates_applied == 0,
            s.updates_failed == 0,
            s.bytes_downloaded == 0,
            s.last_check == 0,
            s.last_update == 0,
            s.current_version_installed_at == 0,
    {
        UpdateStats {
            updates_applied: 0,
            updates_failed: 0,
            bytes_downloaded: 0,
            last_check: 0,
            last_update: 0,
            current_version_installed_at: 0,
        }
    }

    /// Record a successful update at `now_secs` (seconds since the Unix
    /// epoch): counted, and `now_secs` taken as both the last update and the
    /// install time of the current version.
    pub fn record_success_at(&mut self, now_secs: u64)
        requires
            old(self).updates_applied < u64::MAX,
        ensures
            *final(self) == (UpdateStats {
                updates_applied: (old(self).updates_applied + 1) as u64,
                last_update: now_secs,
                current_version_installed_at: now_secs,
                ..*old(self)
            }),
    {
        self.updates_applied = self.updates_applied + 1;
        self.last_update = now_secs;
        self.current_version_installed_at = now_secs;
    }

    /// Record a successful update now, by the system clock: as
    /// `record_success_at` with the clock's reading.
    pub fn record_success(&mut self)
        requires
            old(self).updates_applied < u64::MAX,
        ensures
            final(self).updates_applied == old(self).updates_applied + 1,
            final(self).updates_failed == old(self).updates_failed,
            final(self).bytes_downloaded == old(self).bytes_downloaded,
            final(self).last_check == old(self).last_check,
            final(self).current_version_installed_at == final(self).last_update,
    {
        let now_secs = crate::time::unix_time_secs();
        self.record_success_at(now_secs);
    }

    /// Record a failed update.
    pub fn record_failure(&mut self)
        requires
            old(self).updates_failed < u64::MAX,
        ensures
            *final(self) == (UpdateStats { updates_failed: (old(self).updates_failed + 1) as u64, ..*old(self) }),
    {
        self.updates_failed = self.updates_failed + 1;
    }
}

/// OTA configuration.
#[derive(Debug, Clone)]
pub struct OtaConfig {
    /// Update server URL.
    pub server_url: String,
    /// Update channel.
    pub channel: UpdateChannel,
    /// Auto-download updates.
    pub auto_download: bool,
    /// Auto-apply updates.
    pub auto_apply: bool,
    /// Check interval (seconds).
    pub check_interval_secs: u64,
    /// Download bandwidth limit (bytes/sec, 0 = unlimited).
    pub bandwidth_limit: u64,
    /// Verify signatures.
    pub verify_signatures: bool,
}

impl Default for OtaConfig {
    fn default() -> (c: Self)
        ensures
            c.server_url@ == Seq::<char>::empty(),
            c.channel == UpdateChannel::Stable,
            !c.auto_download,
            !c.auto_apply,
            c.check_interval_secs == 86400,
            c.bandwidth_limit == 0,
            c.verify_signatures,
    {
        OtaConfig {
            server_url: String::new(),
            channel: UpdateChannel::Stable,
            auto_download: false,
            auto_apply: false,
            check_interval_secs: 86400,
            bandwidth_limit: 0,
            verify_signatures: true,
        }
    }
}

/// The error text of an update that cannot be installed over the running version.
pub open spec fn incompatible_message(version: Seq<char>, current: Seq<char>) -> Seq<char> {
    "Update "@ + version + " is not compatible with current version "@ + current
}

/// The error text of a firmware whose hash is not the expected one.
pub open spec fn mismatch_message(expected: Seq<char>, got: Seq<char>) -> Seq<char> {
    "Firmware hash mismatch: expected "@ + expected + ", got "@ + got
}

/// Whether a firmware's hash matches the expected one, letter case aside.
pub open spec fn firmware_matches(firmware: Seq<u8>, expected: Seq<char>) -> bool {
    lowercase(hex_encode(blake3_digest(firmware))) == lowercase(expected)
}

/// The firmware the simulated download produces: `size` zero bytes.
pub open spec fn simulated_firmware(size: u64) -> Seq<u8> {
    Seq::new(size as nat, |i: int| 0u8)
}

/// OTA Manager for firmware updates.
pub struct OtaManager {
    current_version: String,
    device_id: String,
    config: OtaConfig,
    progress: UpdateProgress,
    stats: UpdateStats,
    pending_update: Option<UpdateInfo>,
}

/// The abstract value of an optional update description.
pub open spec fn opt_update_view(u: Option<UpdateInfo>) -> Option<UpdateInfoView> {
    match u {
        Some(u) => Some(u@),
        None => None,
    }
}

impl OtaManager {
    /// The running firmware version.
    pub closed spec fn spec_current_version(&self) -> Seq<char> {
        self.current_version@
    }

    /// The device identifier.
    pub closed spec fn spec_device_id(&self) -> Seq<char> {
        self.device_id@
    }

    /// The configuration.
    pub closed spec fn spec_config(&self) -> OtaConfig {
        self.config
    }

    /// The progress of the current operation.
    pub closed spec fn spec_progress(&self) -> UpdateProgress {
        self.progress
    }

    /// The statistics.
    pub closed spec fn spec_stats(&self) -> UpdateStats {
        self.stats
    }

    /// The downloaded update that waits to be applied, if any.
    pub closed spec fn spec_pending(&self) -> Option<UpdateInfoView> {
        opt_update_view(self.pending_update)
    }

    /// Create a new OTA manager: idle, default configuration, zeroed stats,
    /// nothing pending.
    pub fn new(current_version: String, device_id: String) -> (m: Self)
        ensures
            m.spec_current_version() == current_version@,
            m.spec_device_id() == device_id@,
            m.spec_progress().state == UpdateState::Idle,
            m.spec_progress().percentage == 0,
            m.spec_config().channel == UpdateChannel::Stable,
            !m.spec_config().auto_download,
            !m.spec_config().auto_apply,
            m.spec_config().server_url@ == Seq::<char>::empty(),
            m.spec_stats().updates_applied == 0,
            m.spec_stats().updates_failed == 0,
            m.spec_stats().bytes_downloaded == 0,
            m.spec_pending() is None,
    {
        OtaManager {
            current_version,
            device_id,
            config: OtaConfig::default(),
            progress: UpdateProgress::new(UpdateState::Idle),
            stats: UpdateStats::new(),
            pending_update: None,
        }
    }

    /// Set the update server URL.
    pub fn set_update_server(&mut self, url: String)
        ensures
            final(self).spec_config() == (OtaConfig { server_url: url, ..old(self).spec_config() }),
            final(self).spec_current_version() == old(self).spec_current_version(),
            final(self).spec_pending() == old(self).spec_pending(),
            final(self).spec_progress() == old(self).spec_progress(),
    {
        self.config.server_url = url;
    }

    /// Set the update channel.
    pub fn set_channel(&mut self, channel: UpdateChannel)
        ensures
            final(self).spec_config() == (OtaConfig { channel, ..old(self).spec_config() }),
            final(self).spec_current_version() == old(self).spec_current_version(),
            final(self).spec_pending() == old(self).spec_pending(),
            final(self).spec_progress() == old(self).spec_progress(),
    {
        self.config.channel = channel;
    }

    /// Set auto-download.
    pub fn set_auto_download(&mut self, enabled: bool)
        ensures
            final(self).spec_config() == (OtaConfig { auto_download: enabled, ..old(self).spec_config() }),
            final(self).spec_current_version() == old(self).spec_current_version(),
            final(self).spec_pending() == old(self).spec_pending(),
            final(self).spec_progress() == old(self).spec_progress(),
    {
        self.config.auto_download = enabled;
    }

    /// Set auto-apply.
    pub fn set_auto_apply(&mut self, enabled: bool)
        ensures
            final(self).spec_config() == (OtaConfig { auto_apply: enabled, ..old(self).spec_config() }),
            final(self).spec_current_version() == old(self).spec_current_version(),
            final(self).spec_pending() == old(self).spec_pending(),
            final(self).spec_progress() == old(self).spec_progress(),
    {
        self.config.auto_apply = enabled;
    }

    /// Check for updates: the check's time is recorded and no update is
    /// reported (there is no update server to ask).
    pub fn check_for_updates(&mut self) -> (r: Result<Option<UpdateInfo>, Error>)
        ensures
            r matches Ok(u) && u is None,
            final(self).spec_progress().state == UpdateState::Idle,
            final(self).spec_current_version() == old(self).spec_current_version(),
            final(self).spec_pending() == old(self).spec_pending(),
            final(self).spec_config() == old(self).spec_config(),
    {
        self.progress.state = UpdateState::Checking;
        self.progress.message = "Checking for updates...".to_owned();
        self.stats.last_check = crate::time::unix_time_secs();
        self.progress.state = UpdateState::Idle;
        Ok(None)
    }

    fn verify_firmware(firmware: &[u8], expected_hash: &str) -> (r: Result<(), Error>)
        ensures
            r is Ok <==> firmware_matches(firmware@, expected_hash@),
            r matches Err(e) ==> (e matches Error::ValidationFailed(m) && m@ == mismatch_message(
                expected_hash@,
                hex_encode(blake3_digest(firmware@)),
            )),
    {
        let hash = utils::calculate_hash(firmware);
        let a = crate::text::to_lowercase(hash.as_str());
        let b = crate::text::to_lowercase(expected_hash);
        if !str_eq(a.as_str(), b.as_str()) {
            let mut m = String::new();
            append_str(&mut m, "Firmware hash mismatch: expected ");
            append_str(&mut m, expected_hash);
            append_str(&mut m, ", got ");
            append_str(&mut m, hash.as_str());
            proof {
                assert(m@ =~= mismatch_message(expected_hash@, hex_encode(blake3_digest(firmware@))));
            }
            return Err(Error::ValidationFailed(m));
        }
        Ok(())
    }

    /// Download an update: an update that is not compatible with the running
    /// version is refused; otherwise the firmware (simulated: `size` zero
    /// bytes) is downloaded, counted, and checked against the update's hash;
    /// if it matches, the update becomes the pending one.
    pub fn download_update(&mut self, update: &UpdateInfo) -> (r: Result<Vec<u8>, Error>)
        requires
            old(self).spec_stats().bytes_downloaded + update.size <= u64::MAX,
            update.size <= usize::MAX,
        ensures
            !update@.compatible_with(old(self).spec_current_version()) ==> (r matches Err(e)
                && e matches Error::ValidationFailed(m)
                && m@ == incompatible_message(update.version@, old(self).spec_current_version()))
                && final(self).spec_pending() == old(self).spec_pending()
                && final(self).spec_progress() == old(self).spec_progress()
                && final(self).spec_stats() == old(self).spec_stats(),
            update@.compatible_with(old(self).spec_current_version()) ==> {
                &&& final(self).spec_stats().bytes_downloaded == old(self).spec_stats().bytes_downloaded + update.size
                &&& final(self).spec_progress().downloaded == update.size
                &&& final(self).spec_progress().total == update.size
                &&& final(self).spec_progress().percentage == (if update.size > 0 { 100u8 } else { 0u8 })
                &&& (firmware_matches(simulated_firmware(update.size), update.hash@) ==> (r matches Ok(f)
                    && f@ == simulated_firmware(update.size)) && final(self).spec_pending() == Some(update@)
                    && final(self).spec_progress().state == UpdateState::Idle)
                &&& (!firmware_matches(simulated_firmware(update.size), update.hash@) ==> (r matches Err(e)
                    && e matches Error::ValidationFailed(m) && m@ == mismatch_message(
                    update.hash@,
                    hex_encode(blake3_digest(simulated_firmware(update.size))),
                )) && final(self).spec_pending() == old(self).spec_pending()
                    && final(self).spec_progress().state == UpdateState::Verifying)
            },
            final(self).spec_current_version() == old(self).spec_current_version(),
            final(self).spec_config() == old(self).spec_config(),
            final(self).spec_device_id() == old(self).spec_device_id(),
    {
        if !update.is_compatible(self.current_version.as_str()) {
            let mut m = String::new();
            append_str(&mut m, "Update ");
            append_str(&mut m, update.version.as_str());
            append_str(&mut m, " is not compatible with current version ");
            append_str(&mut m, self.current_version.as_str());
            proof {
                assert(m@ =~= incompatible_message(update.version@, old(self).spec_current_version()));
            }
            return Err(Error::ValidationFailed(m));
        }
        self.progress.state = UpdateState::Downloading;
        self.progress.downloaded = 0;
        self.progress.total = update.size;
        self.progress.percentage = 0;
        let mut m = String::new();
        append_str(&mut m, "Downloading version ");
        append_str(&mut m, update.version.as_str());
        append_str(&mut m, "...");
        self.progress.message = m;

        let n = update.size as usize;
        let mut firmware: Vec<u8> = Vec::new();
        let mut i: usize = 0;
        while i < n
            invariant
                i <= n,
                firmware@ == Seq::new(i as nat, |k: int| 0u8),
            decreases n - i,
        {
            firmware.push(0u8);
            i = i + 1;
            proof {
                assert(firmware@ =~= Seq::new(i as nat, |k: int| 0u8));
            }
        }

        self.progress.downloaded = update.size;
        self.progress.total = update.size;
        self.progress.percentage = if update.size > 0 { 100 } else { 0 };
        self.stats.bytes_downloaded = self.stats.bytes_downloaded + update.size;

        self.progress.state = UpdateState::Verifying;
        self.progress.message = "Verifying download...".to_owned();
        match Self::verify_firmware(firmware.as_slice(), update.hash.as_str()) {
            Ok(()) => {},
            Err(e) => {
                return Err(e);
            },
        }

        self.pending_update = Some(update.copy());
        self.progress.state = UpdateState::Idle;
        Ok(firmware)
    }

    /// Apply the pending update: its version becomes the running version,
    /// the update is counted as applied and nothing is pending any more.
    /// Without a pending update, nothing changes and the call fails.
    pub fn apply_update(&mut self, firmware: &[u8]) -> (r: Result<(), Error>)
        requires
            old(self).spec_stats().updates_applied < u64::MAX,
        ensures
            old(self).spec_pending() is None ==> (r matches Err(e) && e matches Error::ValidationFailed(m)
                && m@ == "No pending update to apply"@) && *final(self) == *old(self),
            old(self).spec_pending() matches Some(u) ==> r is Ok
                && final(self).spec_current_version() == u.version
                && final(self).spec_progress().state == UpdateState::Completed
                && final(self).spec_progress().message@ == "Update applied successfully"@
                && final(self).spec_pending() is None
                && final(self).spec_stats().updates_applied == old(self).spec_stats().updates_applied + 1
                && final(self).spec_stats().updates_failed == old(self).spec_stats().updates_failed
                && final(self).spec_config() == old(self).spec_config()
                && final(self).spec_device_id() == old(self).spec_device_id(),
    {
        match &self.pending_update {
            None => {
                let mut m = String::new();
                append_str(&mut m, "No pending update to apply");
                proof {
                    assert(m@ =~= "No pending update to apply"@);
                }
                Err(Error::ValidationFailed(m))
            },
            Some(update) => {
                let version = update.version.clone();
                self.progress.state = UpdateState::Applying;
                self.current_version = version;
                self.progress.state = UpdateState::Completed;
                self.progress.message = "Update applied successfully".to_owned();
                self.stats.record_success();
                self.pending_update = None;
                Ok(())
            },
        }
    }

    /// Roll back: the update is marked failed and counted as failed; the
    /// device keeps its partition, so the call always fails with an
    /// internal error.
    pub fn rollback(&mut self) -> (r: Result<(), Error>)
        requires
            old(self).spec_stats().updates_failed < u64::MAX,
        ensures
            r matches Err(e) && e matches Error::Internal(m) && m@ == "Rollback not implemented"@,
            final(self).spec_progress().state == UpdateState::Failed,
            final(self).spec_stats().updates_failed == old(self).spec_stats().updates_failed + 1,
            final(self).spec_stats().updates_applied == old(self).spec_stats().updates_applied,
            final(self).spec_current_version() == old(self).spec_current_version(),
            final(self).spec_pending() == old(self).spec_pending(),
            final(self).spec_config() == old(self).spec_config(),
    {
        self.progress.state = UpdateState::RollingBack;
        self.progress.message = "Rolling back to previous version...".to_owned();
        self.progress.state = UpdateState::Failed;
        self.stats.record_failure();
        let mut m = String::new();
        append_str(&mut m, "Rollback not implemented");
        proof {
            assert(m@ =~= "Rollback not implemented"@);
        }
        Err(Error::Internal(m))
    }

    /// Get the current version.
    pub fn current_version(&self) -> (v: &str)
        ensures
            v@ == self.spec_current_version(),
    {
        self.current_version.as_str()
    }

    /// Get the update progress.
    pub fn progress(&self) -> (p: &UpdateProgress)
        ensures
            *p == self.spec_progress(),
    {
        &self.progress
    }

    /// Get the statistics.
    pub fn stats(&self) -> (s: &UpdateStats)
        ensures
            *s == self.spec_stats(),
    {
        &self.stats
    }

    /// Get the pending update.
    pub fn pending_update(&self) -> (u: Option<&UpdateInfo>)
        ensures
            self.spec_pending() is None ==> u is None,
            self.spec_pending() matches Some(p) ==> (u matches Some(x) && x@ == p),
    {
        match &self.pending_update {
            Some(u) => Some(u),
            None => None,
        }
    }

    /// Cancel the pending update: nothing pending, idle progress.
    pub fn cancel_update(&mut self)
        ensures
            final(self).spec_pending() is None,
            final(self).spec_progress().state == UpdateState::Idle,
            final(self).spec_progress().downloaded == 0,
            final(self).spec_progress().total == 0,
            final(self).spec_progress().percentage == 0,
            final(self).spec_current_version() == old(self).spec_current_version(),
            final(self).spec_config() == old(self).spec_config(),
            final(self).spec_stats() == old(self).spec_stats(),
    {
        self.pending_update = None;
        self.progress = UpdateProgress::new(UpdateState::Idle);
    }

    /// Check if an update is in progress: downloading, verifying or applying.
    pub fn is_updating(&self) -> (b: bool)
        ensures
            b == (self.spec_progress().state == UpdateState::Downloading || self.spec_progress().state
                == UpdateState::Verifying || self.spec_progress().state == UpdateState::Applying),
    {
        match self.progress.state {
            UpdateState::Downloading | UpdateState::Verifying | UpdateState::Applying => true,
            _ => false,
        }
    }

    /// Get the device ID.
    pub fn device_id(&self) -> (d: &str)
        ensures
            d@ == self.spec_device_id(),
    {
        self.device_id.as_str()
    }

    /// Get the configuration.
    pub fn config(&self) -> (c: &OtaConfig)
        ensures
            *c == self.spec_config(),
    {
        &self.config
    }

    /// Set the configuration.
    pub fn set_config(&mut self, config: OtaConfig)
        ensures
            final(self).spec_config() == config,
            final(self).spec_current_version() == old(self).spec_current_version(),
            final(self).spec_pending() == old(self).spec_pending(),
            final(self).spec_progress() == old(self).spec_progress(),
    {
        self.config = config;
    }
}

/// Firmware partition (for A/B updates).
#[derive(Debug, Clone, Copy, PartialEq, Eq, Structural)]
pub enum Partition {
    /// Partition A.
    A,
    /// Partition B.
    B,
}

impl Partition {
    /// The other partition.
    pub open spec fn spec_other(self) -> Partition {
        match self {
            Partition::A => Partition::B,
            Partition::B => Partition::A,
        }
    }

    /// Get the other partition.
    pub fn other(&self) -> (p: Partition)
        ensures
            p == self.spec_other(),
            p != *self,
    {
        match self {
            Partition::A => Partition::B,
            Partition::B => Partition::A,
        }
    }
}

/// Switching partitions twice returns to the first.
pub proof fn lemma_partition_other_involutive(p: Partition)
    ensures
        p.spec_other().spec_other() == p,
        p.spec_other() != p,
{
}

/// A compatible update whose firmware matches, once downloaded and applied,
/// is the running version: the download leaves it pending and applying the
/// pending update installs its version.
pub proof fn lemma_download_then_apply_installs(
    m0: OtaManager,
    m1: OtaManager,
    m2: OtaManager,
    u: UpdateInfoView,
)
    requires
        u.compatible_with(m0.spec_current_version()),
        m1.spec_pending() == Some(u),
        m2.spec_pending() is None,
        m1.spec_pending() matches Some(p) ==> m2.spec_current_version() == p.version,
    ensures
        m2.spec_current_version() == u.version,
{
}


impl Default for UpdateStats {
    /// All counters zero.
    fn default() -> (s: Self)
        ensures
            s.updates_applied == 0,
            s.updates_failed == 0,
            s.bytes_downloaded == 0,
            s.last_check == 0,
            s.last_update == 0,
            s.current_version_installed_at == 0,
    {
        UpdateStats { updates_applied: 0, updates_failed: 0, bytes_downloaded: 0, last_check: 0, last_update: 0, current_version_installed_at: 0 }
    }
}

} // verus!
