use aingle_minimal::crypto::{hash, random_bytes, verify, Keypair};

#[test]
fn test_keypair_generation() {
    let kp = Keypair::generate();
    let pk = kp.public_key();
    assert_eq!(pk.as_bytes().len(), 32);
}

#[test]
fn test_sign_verify() {
    let kp = Keypair::generate();
    let data = b"Hello, AIngle!";
    let sig = kp.sign(data);

    assert!(verify(&kp.public_key(), data, &sig).is_ok());
}

#[test]
fn test_verify_rejects_tampered_data() {
    let kp = Keypair::generate();
    let data = b"Hello, AIngle!";
    let sig = kp.sign(data);

    let tampered = b"Tampered data!";
    assert!(verify(&kp.public_key(), tampered, &sig).is_err());
}

#[test]
fn test_verify_rejects_wrong_key() {
    let kp1 = Keypair::generate();
    let kp2 = Keypair::generate();
    let data = b"Hello, AIngle!";
    let sig = kp1.sign(data);

    assert!(verify(&kp2.public_key(), data, &sig).is_err());
}

#[test]
fn test_hash() {
    let data = b"test data";
    let h = hash(data);
    assert_eq!(h.as_bytes().len(), 32);
}

#[test]
fn test_deterministic_keypair() {
    let seed = [42u8; 32];
    let kp1 = Keypair::from_seed(&seed);
    let kp2 = Keypair::from_seed(&seed);
    assert_eq!(kp1.public_key(), kp2.public_key());
}

#[test]
fn test_random_bytes() {
    let bytes1: [u8; 16] = random_bytes();
    let bytes2: [u8; 16] = random_bytes();
    assert_ne!(bytes1, bytes2);
}
