//! Utility functions for OTA updates: version comparison and validation,
//! firmware hashing and download time estimation.

use std::cmp::Ordering;
use std::time::Duration;
use vstd::prelude::*;
use crate::text::{seq_lt, str_lt, str_eq};
use crate::ota::hex::hex_encode;
use crate::crypto::blake3_digest;
use crate::time::duration_as_nanos;

verus! {

/// Compare versions lexicographically (as strings).
pub fn compare_versions(v1: &str, v2: &str) -> (o: Ordering)
    ensures
        o == Ordering::Less <==> seq_lt(v1@, v2@),
        o == Ordering::Equal <==> v1@ == v2@,
        o == Ordering::Greater <==> seq_lt(v2@, v1@),
{
    if str_eq(v1, v2) {
        proof {
            crate::text::lemma_seq_lt_irreflexive(v1@);
        }
        Ordering::Equal
    } else if str_lt(v1, v2) {
        proof {
            crate::text::lemma_seq_lt_asymmetric(v1@, v2@);
        }
        Ordering::Less
    } else {
        proof {
            crate::text::lemma_seq_lt_total(v1@, v2@);
        }
        Ordering::Greater
    }
}

/// Whether a character is alphanumeric (`char::is_alphanumeric`, Unicode-aware).
pub uninterp spec fn alphanumeric(c: char) -> bool;

/// Whether a character is alphanumeric.
///
/// Trusted: `char::is_alphanumeric` is a function of the character alone;
/// the result is the named property.
#[verifier::external_body]
pub(crate) fn is_alphanumeric(c: char) -> (b: bool)
    ensures
        b == alphanumeric(c),
{
    c.is_alphanumeric()
}

/// Whether a character may appear in a version string.
pub open spec fn version_char(c: char) -> bool {
    alphanumeric(c) || c == '.' || c == '-'
}

/// Check if a version string is valid: non-empty, and made of alphanumeric
/// characters, dots and dashes.
pub fn is_valid_version(version: &str) -> (b: bool)
    ensures
        b == (version@.len() > 0 && forall|i: int| 0 <= i < version@.len() ==> #[trigger] version_char(version@[i])),
{
    let n = version.unicode_len();
    if n == 0 {
        return false;
    }
    let mut i: usize = 0;
    while i < n
        invariant
            n == version@.len(),
            i <= n,
            forall|j: int| 0 <= j < i ==> #[trigger] version_char(version@[j]),
        decreases n - i,
    {
        let c = version.get_char(i);
        if !(is_alphanumeric(c) || c == '.' || c == '-') {
            proof {
                assert(!version_char(version@[i as int]));
            }
            return false;
        }
        i = i + 1;
    }
    true
}

/// Calculate a firmware hash: the hex encoding of its Blake3 digest.
pub fn calculate_hash(firmware: &[u8]) -> (s: String)
    ensures
        s@ == hex_encode(blake3_digest(firmware@)),
{
    let digest = crate::crypto::blake3_hash(firmware);
    crate::ota::hex::encode(digest.as_slice())
}

/// Estimate the download time of `size_bytes` bytes at `bandwidth_bps` bits
/// per second, in whole seconds; zero without bandwidth.
pub fn estimate_download_time(size_bytes: u64, bandwidth_bps: u64) -> (d: Duration)
    requires
        bandwidth_bps > 0 ==> size_bytes * 8 <= u64::MAX,
    ensures
        bandwidth_bps == 0 ==> duration_as_nanos(d) == 0,
        bandwidth_bps > 0 ==> duration_as_nanos(d) == (((size_bytes * 8) as u64 / bandwidth_bps) as u128) * 1_000_000_000,
{
    if bandwidth_bps == 0 {
        return crate::time::from_secs(0);
    }
    let seconds = (size_bytes * 8) / bandwidth_bps;
    crate::time::from_secs(seconds)
}

} // verus!
