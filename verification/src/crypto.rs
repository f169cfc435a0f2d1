//! Cryptography for IoT nodes: Ed25519 signing and verification, Blake3
//! hashing.
//!
//! A keypair is kept as its 32-byte seed; the public key and signatures are
//! derived from it by the Ed25519 implementation.

use crate::error::Error;
use crate::text::append_str;
use crate::types::{AgentPubKey, Signature};
use ed25519_dalek::Signer;
use ed25519_dalek::Verifier;
use rand::RngCore;
use vstd::prelude::*;

verus! {

/// The Blake3 digest of a byte sequence (`blake3::hash`).
pub uninterp spec fn blake3_digest(data: Seq<u8>) -> Seq<u8>;

/// The 32-byte Blake3 digest of `data`.
///
/// Trusted: `blake3::hash` is a function of its input alone; its bytes are
/// the named digest.
#[verifier::external_body]
pub(crate) fn blake3_hash(data: &[u8]) -> (out: [u8; 32])
    ensures
        out@ == blake3_digest(data@),
{
    *blake3::hash(data).as_bytes()
}

/// Hash data using Blake3.
pub fn hash(data: &[u8]) -> (h: crate::types::Hash)
    ensures
        h.0@ == blake3_digest(data@),
{
    crate::types::Hash::from_bytes(data)
}

/// The Ed25519 public key (compressed point) of the key with secret `seed`.
pub uninterp spec fn ed25519_public_key(seed: Seq<u8>) -> Seq<u8>;

/// The Ed25519 signature of `data` by the key with secret `seed` (Ed25519
/// signing is deterministic).
pub uninterp spec fn ed25519_signature(seed: Seq<u8>, data: Seq<u8>) -> Seq<u8>;

/// Whether 32 bytes decompress to a curve point, i.e. are a usable public key.
pub uninterp spec fn ed25519_key_valid(public_key: Seq<u8>) -> bool;

/// Whether the Ed25519 check of `signature` on `data` under `public_key`
/// passes.
pub uninterp spec fn ed25519_accepts(public_key: Seq<u8>, data: Seq<u8>, signature: Seq<u8>) -> bool;

/// Whether `signature` verifies on `data` under `public_key`: the key is
/// usable and the check passes.
pub open spec fn verifies(public_key: Seq<u8>, data: Seq<u8>, signature: Seq<u8>) -> bool {
    ed25519_key_valid(public_key) && ed25519_accepts(public_key, data, signature)
}

/// The public key of the signing key with secret `seed`.
///
/// Trusted: `SigningKey::from_bytes(seed).verifying_key().to_bytes()` is a
/// function of the seed; it is the compression of a curve point, so it
/// decompresses again (`VerifyingKey::from_bytes` accepts it).
#[verifier::external_body]
fn derive_public_key(seed: &[u8; 32]) -> (pk: [u8; 32])
    ensures
        pk@ == ed25519_public_key(seed@),
        ed25519_key_valid(pk@),
{
    ed25519_dalek::SigningKey::from_bytes(seed).verifying_key().to_bytes()
}

/// The signature of `data` by the signing key with secret `seed`.
///
/// Trusted: `Signer::sign` of `SigningKey` (which calls `try_sign`, which
/// does not fail) is deterministic, as Ed25519 (RFC 8032) is; and a
/// signature it makes verifies under the key's public key, which is a curve
/// point.
#[verifier::external_body]
fn sign_bytes(seed: &[u8; 32], data: &[u8]) -> (sig: [u8; 64])
    ensures
        sig@ == ed25519_signature(seed@, data@),
        verifies(ed25519_public_key(seed@), data@, sig@),
{
    ed25519_dalek::SigningKey::from_bytes(seed).sign(data).to_bytes()
}

/// Why a verification failed, with the description the implementation gave.
pub enum VerifyFailure {
    /// The public key bytes are not a curve point.
    InvalidKey(String),
    /// The signature does not check.
    BadSignature(String),
}

/// Whether a check failed on the key, before the signature was looked at.
pub open spec fn rejects_key(r: Result<(), VerifyFailure>) -> bool {
    r matches Err(VerifyFailure::InvalidKey(_))
}

/// Checks `sig` on `data` under the public key `pk`.
///
/// Trusted: `VerifyingKey::from_bytes` fails exactly when the key is not
/// usable, and `Verifier::verify` of `VerifyingKey` is a function of the
/// key, the data and the signature. The texts of the errors are the
/// implementation's `Display` of its `SignatureError`; nothing is stated of
/// them.
#[verifier::external_body]
fn check_signature(pk: &[u8; 32], data: &[u8], sig: &[u8; 64]) -> (r: Result<(), VerifyFailure>)
    ensures
        rejects_key(r) <==> !ed25519_key_valid(pk@),
        (r is Ok) <==> (ed25519_key_valid(pk@) && ed25519_accepts(pk@, data@, sig@)),
{
    let key = match ed25519_dalek::VerifyingKey::from_bytes(pk) {
        Ok(key) => key,
        Err(e) => return Err(VerifyFailure::InvalidKey(format!("{}", e))),
    };
    match key.verify(data, &ed25519_dalek::Signature::from_bytes(sig)) {
        Ok(()) => Ok(()),
        Err(e) => Err(VerifyFailure::BadSignature(format!("{}", e))),
    }
}

/// Random bytes from the thread-local generator (`RngCore::fill_bytes`).
///
/// Nothing is stated of the result: it is random.
#[verifier::external_body]
pub fn random_bytes<const N: usize>() -> [u8; N] {
    let mut bytes = [0u8; N];
    rand::rng().fill_bytes(&mut bytes);
    bytes
}

/// An Ed25519 keypair, kept as its secret seed.
pub struct Keypair {
    seed: [u8; 32],
}

impl Keypair {
    /// The secret seed of the keypair.
    pub closed spec fn spec_seed(&self) -> Seq<u8> {
        self.seed@
    }

    /// A new keypair from a random seed.
    pub fn generate() -> (k: Self)
        ensures
            k.spec_seed().len() == 32,
    {
        let seed: [u8; 32] = random_bytes();
        Keypair { seed }
    }

    /// The keypair with secret `seed` (deterministic).
    pub fn from_seed(seed: &[u8; 32]) -> (k: Self)
        ensures
            k.spec_seed() == seed@,
    {
        Keypair { seed: *seed }
    }

    /// The public key.
    pub fn public_key(&self) -> (pk: AgentPubKey)
        ensures
            pk.0@ == ed25519_public_key(self.spec_seed()),
            ed25519_key_valid(pk.0@),
    {
        AgentPubKey(derive_public_key(&self.seed))
    }

    /// Sign data. The signature verifies on `data` under this keypair's
    /// public key.
    pub fn sign(&self, data: &[u8]) -> (s: Signature)
        ensures
            s.0@ == ed25519_signature(self.spec_seed(), data@),
            verifies(ed25519_public_key(self.spec_seed()), data@, s.0@),
    {
        Signature(sign_bytes(&self.seed, data))
    }

    /// The secret seed.
    pub fn seed(&self) -> (s: [u8; 32])
        ensures
            s@ == self.spec_seed(),
    {
        self.seed
    }
}

/// The error text of a public key that is not a curve point.
pub open spec fn invalid_key_text(detail: Seq<char>) -> Seq<char> {
    "Invalid public key: "@ + detail
}

/// The error text of a signature that does not check.
pub open spec fn failed_check_text(detail: Seq<char>) -> Seq<char> {
    "Signature verification failed: "@ + detail
}

/// Verify an Ed25519 signature: `Ok` exactly when it verifies; a key that
/// is not a curve point and a failed check give crypto errors whose texts
/// begin "Invalid public key: " and "Signature verification failed: ".
pub fn verify(public_key: &AgentPubKey, data: &[u8], signature: &Signature) -> (r: Result<(), Error>)
    ensures
        r is Ok <==> verifies(public_key.0@, data@, signature.0@),
        !ed25519_key_valid(public_key.0@) ==> (r matches Err(Error::Crypto(crate::error::CryptoError::KeyGenerationFailed(m)))
            && exists|d: Seq<char>| m@ == invalid_key_text(d)),
        ed25519_key_valid(public_key.0@) && !ed25519_accepts(public_key.0@, data@, signature.0@) ==> (r matches Err(
            Error::Crypto(crate::error::CryptoError::KeyGenerationFailed(m)),
        ) && exists|d: Seq<char>| m@ == failed_check_text(d)),
{
    match check_signature(&public_key.0, data, &signature.0) {
        Ok(()) => Ok(()),
        Err(VerifyFailure::InvalidKey(detail)) => {
            let mut m = String::new();
            append_str(&mut m, "Invalid public key: ");
            append_str(&mut m, detail.as_str());
            proof {
                assert(m@ =~= invalid_key_text(detail@));
            }
            Err(Error::crypto(m.as_str()))
        },
        Err(VerifyFailure::BadSignature(detail)) => {
            let mut m = String::new();
            append_str(&mut m, "Signature verification failed: ");
            append_str(&mut m, detail.as_str());
            proof {
                assert(m@ =~= failed_check_text(detail@));
            }
            Err(Error::crypto(m.as_str()))
        },
    }
}

} // verus!
