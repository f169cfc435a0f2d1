//! Pre-shared key utilities for IoT devices.

use vstd::prelude::*;
use crate::crypto::blake3_digest;
use crate::text::append_str;
use vstd::string::StringSliceAdditionalSpecFns;

verus! {

/// One random byte (`rand::random::<u8>`).
///
/// Nothing is stated of the value: it is random.
#[verifier::external_body]
pub(crate) fn random_byte() -> u8 {
    rand::random::<u8>()
}

/// Generate a random PSK of `length` bytes.
pub fn generate_psk(length: usize) -> (k: Vec<u8>)
    ensures
        k@.len() == length,
{
    let mut k: Vec<u8> = Vec::new();
    let mut i: usize = 0;
    while i < length
        invariant
            i <= length,
            k@.len() == i,
        decreases length - i,
    {
        k.push(random_byte());
        i = i + 1;
    }
    k
}

/// `n` rounds of Blake3 hashing, starting from `start`.
pub open spec fn rehash(start: Seq<u8>, n: nat) -> Seq<u8>
    decreases n,
{
    if n == 0 {
        start
    } else {
        blake3_digest(rehash(start, (n - 1) as nat))
    }
}

/// The key derived from a passphrase and a salt: Blake3 of the
/// passphrase's bytes followed by the salt, hashed `iterations` more times,
/// cut to 32 bytes.
pub open spec fn derived_key(passphrase: Seq<u8>, salt: Seq<u8>, iterations: nat) -> Seq<u8> {
    let k = rehash(blake3_digest(passphrase + salt), iterations);
    if k.len() <= 32 { k } else { k.subrange(0, 32) }
}

/// Generate a PSK from a passphrase by iterated Blake3 hashing of the
/// passphrase and the salt.
pub fn derive_psk_from_passphrase(passphrase: &str, salt: &[u8], iterations: u32) -> (k: Vec<u8>)
    ensures
        k@ == derived_key(passphrase.spec_bytes(), salt@, iterations as nat),
        k@.len() == 32,
{
    let mut input: Vec<u8> = Vec::new();
    crate::types::push_slice(&mut input, passphrase.as_bytes());
    crate::types::push_slice(&mut input, salt);
    let mut current = crate::crypto::blake3_hash(input.as_slice());
    let ghost start = blake3_digest(passphrase.spec_bytes() + salt@);
    proof {
        assert(input@ =~= passphrase.spec_bytes() + salt@);
    }
    let mut i: u32 = 0;
    while i < iterations
        invariant
            i <= iterations,
            current@ == rehash(start, i as nat),
        decreases iterations - i,
    {
        current = crate::crypto::blake3_hash(current.as_slice());
        i = i + 1;
    }
    let mut derived: Vec<u8> = Vec::new();
    crate::types::push_slice(&mut derived, current.as_slice());
    proof {
        assert(derived@ =~= derived_key(passphrase.spec_bytes(), salt@, iterations as nat));
    }
    derived
}

/// The text of a PSK identity: device, `@`, manufacturer.
pub open spec fn identity_text(device_id: Seq<char>, manufacturer: Seq<char>) -> Seq<char> {
    device_id + "@"@ + manufacturer
}

/// Create a PSK identity from device information.
pub fn create_identity(device_id: &str, manufacturer: &str) -> (s: String)
    ensures
        s@ == identity_text(device_id@, manufacturer@),
{
    let mut s = String::new();
    append_str(&mut s, device_id);
    append_str(&mut s, "@");
    append_str(&mut s, manufacturer);
    proof {
        assert(s@ =~= identity_text(device_id@, manufacturer@));
    }
    s
}

} // verus!
