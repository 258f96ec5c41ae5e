use rand::RngCore;
use sigkit::ed25519::{check_auth, sign_then_verify, Keypair, PublicKey, Signature};

#[test]
fn hello_world_scenario() {
    let payload: Vec<u8> = b"Hello, world!".to_vec();
    let keypair = Keypair::generate();
    let signature = keypair.sign(&payload);
    let public_key = keypair.public_key();
    assert!(public_key.verify(&payload, &signature));

    let mut mutated = payload.clone();
    let last = mutated.len() - 1;
    mutated[last] = b'?';
    assert!(!public_key.verify(&mutated, &signature));
}

#[test]
fn sign_verify_many_payloads() {
    let payloads: Vec<Vec<u8>> = vec![
        Vec::new(),
        vec![0x00],
        b"a".to_vec(),
        b"Hello, world!".to_vec(),
        (0u16..256).map(|b| b as u8).collect(),
    ];
    for payload in &payloads {
        let keypair = Keypair::generate();
        let signature = keypair.sign(payload);
        assert_eq!(signature.as_bytes().len(), 64);
        assert!(check_auth(keypair.public_key(), payload, &signature));
    }
}

#[test]
fn sign_verify_random_payloads() {
    let mut rng = rand::thread_rng();
    for len in [1usize, 16, 333] {
        let mut payload = vec![0u8; len];
        rng.fill_bytes(&mut payload);
        let keypair = Keypair::generate();
        let signature = keypair.sign(&payload);
        assert!(check_auth(keypair.public_key(), &payload, &signature));
    }
}

#[test]
fn self_test_always_passes() {
    assert!(sign_then_verify(&b"Hello, world!".to_vec()));
    assert!(sign_then_verify(&Vec::new()));
}

#[test]
fn mutated_message_byte_is_rejected() {
    let payload: Vec<u8> = b"Hello, world!".to_vec();
    let keypair = Keypair::generate();
    let signature = keypair.sign(&payload);
    let public_key = keypair.public_key();
    for i in 0..payload.len() {
        let mut mutated = payload.clone();
        mutated[i] ^= 0x01;
        assert!(!public_key.verify(&mutated, &signature));
    }
}

#[test]
fn mutated_signature_byte_is_rejected() {
    let payload: Vec<u8> = b"Hello, world!".to_vec();
    let keypair = Keypair::generate();
    let signature = keypair.sign(&payload);
    let public_key = keypair.public_key();
    for i in 0..signature.as_bytes().len() {
        let mut bytes = signature.as_bytes().clone();
        bytes[i] ^= 0x01;
        let mutated = Signature::new(bytes).unwrap();
        assert!(!public_key.verify(&payload, &mutated));
    }
}

#[test]
fn different_public_key_is_rejected() {
    let payload: Vec<u8> = b"Hello, world!".to_vec();
    let keypair = Keypair::generate();
    let signature = keypair.sign(&payload);
    let other = Keypair::generate();
    assert!(!other.public_key().verify(&payload, &signature));
}

#[test]
fn signing_is_deterministic() {
    let payload: Vec<u8> = b"Hello, world!".to_vec();
    let keypair = Keypair::generate();
    let first = keypair.sign(&payload);
    let second = keypair.sign(&payload);
    assert_eq!(first.as_bytes(), second.as_bytes());
}

#[test]
fn generated_keypairs_differ() {
    let first = Keypair::generate();
    let second = Keypair::generate();
    assert_ne!(first.public_key().as_bytes(), second.public_key().as_bytes());
}

#[test]
fn garbage_signature_is_a_plain_false() {
    let payload: Vec<u8> = b"Hello, world!".to_vec();
    let keypair = Keypair::generate();
    let garbage = Signature::new(vec![0u8; 64]).unwrap();
    assert!(!keypair.public_key().verify(&payload, &garbage));
}

#[test]
fn wrong_length_key_and_signature_are_rejected() {
    assert!(PublicKey::new(vec![0u8; 31]).is_none());
    assert!(PublicKey::new(vec![0u8; 33]).is_none());
    assert!(PublicKey::new(vec![0u8; 32]).is_some());
    assert!(Signature::new(vec![0u8; 63]).is_none());
    assert!(Signature::new(vec![0u8; 65]).is_none());
    assert!(Signature::new(vec![0u8; 64]).is_some());
}

#[test]
fn key_and_signature_hex_match_hex_crate() {
    let payload: Vec<u8> = b"Hello, world!".to_vec();
    let keypair = Keypair::generate();
    let signature = keypair.sign(&payload);
    let public_key = keypair.public_key();
    assert_eq!(public_key.to_hex(), hex::encode(public_key.as_bytes()));
    assert_eq!(signature.to_hex(), hex::encode(signature.as_bytes()));
    assert_eq!(public_key.to_hex().len(), 64);
    assert_eq!(signature.to_hex().len(), 128);
}

#[test]
fn agrees_with_reference_implementation() {
    let payload: Vec<u8> = b"Hello, world!".to_vec();
    let keypair = Keypair::generate();
    let signature = keypair.sign(&payload);
    let pk_arr: [u8; 32] = keypair.public_key().as_bytes().as_slice().try_into().unwrap();
    let sig_arr: [u8; 64] = signature.as_bytes().as_slice().try_into().unwrap();
    let dalek_key = ed25519_dalek::VerifyingKey::from_bytes(&pk_arr).unwrap();
    let dalek_sig = ed25519_dalek::Signature::from_bytes(&sig_arr);
    assert!(ed25519_dalek::Verifier::verify(&dalek_key, &payload, &dalek_sig).is_ok());
}
