//! DTLS security configuration for CoAP: security modes, configuration
//! presets and their validation, statistics, and pre-shared key utilities.

use std::time::Duration;
use vstd::prelude::*;
use crate::error::{Error, CryptoError};
use crate::time::duration_as_nanos;

pub mod psk;
pub mod session;
pub use session::{DtlsSession, DtlsSessionManager, SecureCoap};

verus! {

/// DTLS 1.2 protocol version.
pub const DTLS_VERSION_1_2: u16 = 0xFEFD;

/// DTLS 1.3 protocol version.
pub const DTLS_VERSION_1_3: u16 = 0xFEFC;

/// Default session timeout in seconds (24 hours).
pub const DEFAULT_SESSION_TIMEOUT_SECS: u64 = 86400;

/// Maximum session cache size.
pub const MAX_SESSION_CACHE: usize = 100;

/// DTLS security mode.
#[derive(Debug, Clone, PartialEq, Eq, Structural)]
pub enum SecurityMode {
    /// No security (testing only).
    NoSec,
    /// Pre-Shared Key (PSK) mode - recommended for IoT.
    PreSharedKey,
    /// Certificate-based (X.509).
    Certificate,
}

/// DTLS configuration.
#[derive(Debug, Clone)]
pub struct DtlsConfig {
    /// Security mode.
    pub mode: SecurityMode,
    /// Certificate (DER-encoded) for Certificate mode.
    pub certificate: Vec<u8>,
    /// Private key (PKCS8 DER-encoded) for Certificate mode.
    pub private_key: Vec<u8>,
    /// Pre-shared key for PSK mode.
    pub psk: Vec<u8>,
    /// PSK identity for PSK mode.
    pub psk_identity: String,
    /// Verify peer certificates (Certificate mode only).
    pub verify_peer: bool,
    /// Trusted CA certificates for peer verification.
    pub ca_certs: Vec<Vec<u8>>,
    /// Session timeout.
    pub session_timeout: Duration,
    /// Enable session resumption.
    pub enable_resumption: bool,
    /// DTLS version to use.
    pub dtls_version: u16,
}

/// The defaults of a configuration, other than its mode and keys: peers
/// verified, no CA certificates, a 24-hour session timeout, resumption on,
/// DTLS 1.2.
pub open spec fn default_settings(c: DtlsConfig) -> bool {
    &&& c.verify_peer
    &&& c.ca_certs@.len() == 0
    &&& duration_as_nanos(c.session_timeout) == DEFAULT_SESSION_TIMEOUT_SECS as u128 * 1_000_000_000
    &&& c.enable_resumption
    &&& c.dtls_version == DTLS_VERSION_1_2
}

/// The error text a configuration fails validation with, if it does.
pub open spec fn validation_failure(c: DtlsConfig) -> Option<Seq<char>> {
    match c.mode {
        SecurityMode::NoSec => None,
        SecurityMode::PreSharedKey => if c.psk@.len() == 0 {
            Some("PSK cannot be empty"@)
        } else if c.psk_identity@.len() == 0 {
            Some("PSK identity cannot be empty"@)
        } else {
            None
        },
        SecurityMode::Certificate => if c.certificate@.len() == 0 {
            Some("Certificate cannot be empty"@)
        } else if c.private_key@.len() == 0 {
            Some("Private key cannot be empty"@)
        } else if c.verify_peer && c.ca_certs@.len() == 0 {
            Some("CA certificates required for peer verification"@)
        } else {
            None
        },
    }
}

impl Default for DtlsConfig {
    fn default() -> (c: Self)
        ensures
            c.mode == SecurityMode::NoSec,
            c.certificate@.len() == 0,
            c.private_key@.len() == 0,
            c.psk@.len() == 0,
            c.psk_identity@.len() == 0,
            default_settings(c),
    {
        DtlsConfig {
            mode: SecurityMode::NoSec,
            certificate: Vec::new(),
            private_key: Vec::new(),
            psk: Vec::new(),
            psk_identity: String::new(),
            verify_peer: true,
            ca_certs: Vec::new(),
            session_timeout: crate::time::from_secs(DEFAULT_SESSION_TIMEOUT_SECS),
            enable_resumption: true,
            dtls_version: DTLS_VERSION_1_2,
        }
    }
}

impl DtlsConfig {
    /// A PSK-based configuration (recommended for IoT).
    pub fn psk(psk: Vec<u8>, identity: String) -> (c: Self)
        ensures
            c.mode == SecurityMode::PreSharedKey,
            c.psk@ == psk@,
            c.psk_identity@ == identity@,
            c.certificate@.len() == 0,
            c.private_key@.len() == 0,
            default_settings(c),
    {
        DtlsConfig { mode: SecurityMode::PreSharedKey, psk, psk_identity: identity, ..Default::default() }
    }

    /// A certificate-based configuration.
    pub fn certificate(cert: Vec<u8>, key: Vec<u8>) -> (c: Self)
        ensures
            c.mode == SecurityMode::Certificate,
            c.certificate@ == cert@,
            c.private_key@ == key@,
            c.psk@.len() == 0,
            c.psk_identity@.len() == 0,
            default_settings(c),
    {
        DtlsConfig { mode: SecurityMode::Certificate, certificate: cert, private_key: key, ..Default::default() }
    }

    /// A configuration without security (testing only).
    pub fn no_security() -> (c: Self)
        ensures
            c.mode == SecurityMode::NoSec,
            c.certificate@.len() == 0,
            c.private_key@.len() == 0,
            c.psk@.len() == 0,
            c.psk_identity@.len() == 0,
            default_settings(c),
    {
        DtlsConfig { mode: SecurityMode::NoSec, ..Default::default() }
    }

    /// Add a trusted CA certificate.
    pub fn add_ca_cert(&mut self, ca_cert: Vec<u8>)
        ensures
            final(self).ca_certs@ == old(self).ca_certs@.push(ca_cert),
            final(self).mode == old(self).mode,
            final(self).certificate == old(self).certificate,
            final(self).private_key == old(self).private_key,
            final(self).psk == old(self).psk,
            final(self).psk_identity == old(self).psk_identity,
            final(self).verify_peer == old(self).verify_peer,
            final(self).session_timeout == old(self).session_timeout,
            final(self).enable_resumption == old(self).enable_resumption,
            final(self).dtls_version == old(self).dtls_version,
    {
        self.ca_certs.push(ca_cert);
    }

    /// Validate the configuration: a PSK configuration needs a key and an
    /// identity; a certificate configuration needs a certificate, a private
    /// key, and CA certificates when it verifies peers.
    pub fn validate(&self) -> (r: Result<(), Error>)
        ensures
            validation_failure(*self) is None ==> r is Ok,
            validation_failure(*self) matches Some(m) ==> (r matches Err(e)
                && e matches Error::Crypto(CryptoError::KeyGenerationFailed(s)) && s@ == m),
    {
        proof {
            reveal_strlit("PSK cannot be empty");
            reveal_strlit("PSK identity cannot be empty");
            reveal_strlit("Certificate cannot be empty");
            reveal_strlit("Private key cannot be empty");
            reveal_strlit("CA certificates required for peer verification");
        }
        match self.mode {
            SecurityMode::NoSec => Ok(()),
            SecurityMode::PreSharedKey => {
                if self.psk.len() == 0 {
                    return Err(Error::crypto("PSK cannot be empty"));
                }
                if self.psk_identity.as_str().unicode_len() == 0 {
                    return Err(Error::crypto("PSK identity cannot be empty"));
                }
                Ok(())
            },
            SecurityMode::Certificate => {
                if self.certificate.len() == 0 {
                    return Err(Error::crypto("Certificate cannot be empty"));
                }
                if self.private_key.len() == 0 {
                    return Err(Error::crypto("Private key cannot be empty"));
                }
                if self.verify_peer && self.ca_certs.len() == 0 {
                    return Err(Error::crypto("CA certificates required for peer verification"));
                }
                Ok(())
            },
        }
    }
}

/// DTLS statistics.
#[derive(Debug, Clone)]
pub struct DtlsStats {
    /// Total handshakes completed.
    pub handshakes_completed: u64,
    /// Total handshakes failed.
    pub handshakes_failed: u64,
    /// Total sessions resumed.
    pub sessions_resumed: u64,
    /// Active sessions.
    pub active_sessions: usize,
    /// Replay attacks detected.
    pub replay_attacks: u64,
    /// Peer verification failures.
    pub verification_failures: u64,
}

impl DtlsStats {
    /// Create empty stats.
    pub fn new() -> (s: Self)
        ensures
            s.handshakes_completed == 0,
            s.handshakes_failed == 0,
            s.sessions_resumed == 0,
            s.active_sessions == 0,
            s.replay_attacks == 0,
            s.verification_failures == 0,
    {
        DtlsStats {
            handshakes_completed: 0,
            handshakes_failed: 0,
            sessions_resumed: 0,
            active_sessions: 0,
            replay_attacks: 0,
            verification_failures: 0,
        }
    }
}

/// A PSK configuration with a key and an identity validates, and so does one
/// without security; a certificate configuration that verifies peers does
/// not validate before a CA certificate is added.
pub proof fn lemma_validation_by_mode(c: DtlsConfig)
    ensures
        c.mode == SecurityMode::NoSec ==> validation_failure(c) is None,
        c.mode == SecurityMode::PreSharedKey && c.psk@.len() > 0 && c.psk_identity@.len() > 0
            ==> validation_failure(c) is None,
        c.mode == SecurityMode::Certificate && c.verify_peer && c.ca_certs@.len() == 0
            ==> validation_failure(c) is Some,
{
}


impl Default for DtlsStats {
    /// All counters zero.
    fn default() -> (s: Self)
        ensures
            s.handshakes_completed == 0,
            s.handshakes_failed == 0,
            s.sessions_resumed == 0,
            s.active_sessions == 0,
            s.replay_attacks == 0,
            s.verification_failures == 0,
    {
        DtlsStats { handshakes_completed: 0, handshakes_failed: 0, sessions_resumed: 0, active_sessions: 0, replay_attacks: 0, verification_failures: 0 }
    }
}

} // verus!
