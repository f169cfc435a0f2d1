use aingle_minimal::crypto::{verify, Keypair};
use aingle_minimal::ota::utils::{calculate_hash, is_valid_version};

#[test]
fn blake3_digest_of_empty_input() {
    assert_eq!(calculate_hash(b""), "af1349b9f5f9a1a6a0404dea36dcc9499bcb25c9adc112b7cc9a93cae41f3262");
    let h = aingle_minimal::types::Hash::from_bytes(&[0u8; 32]);
    assert_ne!(h.0, [0u8; 32]);
    assert_eq!(h.to_hex().len(), 64);
}

#[test]
fn public_key_is_derived_from_seed() {
    let a = Keypair::from_seed(&[1u8; 32]);
    let b = Keypair::from_seed(&[1u8; 32]);
    let c = Keypair::from_seed(&[2u8; 32]);
    assert_ne!(a.public_key().0, [1u8; 32]);
    assert_eq!(a.public_key(), b.public_key());
    assert_ne!(a.public_key(), c.public_key());
}

#[test]
fn signatures_are_deterministic_and_checked() {
    let k = Keypair::from_seed(&[9u8; 32]);
    let s1 = k.sign(b"payload");
    let s2 = k.sign(b"payload");
    assert_eq!(s1, s2);
    assert!(verify(&k.public_key(), b"payload", &s1).is_ok());
    let other = Keypair::from_seed(&[8u8; 32]);
    assert!(verify(&other.public_key(), b"payload", &s1).is_err());
    let bad_key = aingle_minimal::types::AgentPubKey([0xffu8; 32]);
    let err = verify(&bad_key, b"payload", &s1).unwrap_err();
    assert!(err.to_string().contains("Invalid public key: ") || err.to_string().contains("Signature verification failed: "));
}

#[test]
fn version_characters_are_checked() {
    assert!(is_valid_version("1.2.3-beta"));
    assert!(!is_valid_version("1.2 3"));
    assert!(!is_valid_version(""));
}
