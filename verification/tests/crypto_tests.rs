use evice_blockchain::crypto::{verify, KeyPair, PRIVATE_KEY_SIZE, PUBLIC_KEY_SIZE, SIGNATURE_SIZE};

#[test]
fn test_signature_roundtrip() {
    let keypair = KeyPair::new();
    let message = b"a message worth signing".to_vec();
    let signature = keypair.sign(&message);
    assert_eq!(signature.len(), SIGNATURE_SIZE);
    assert!(verify(&keypair.public_key_bytes(), &message, &signature));
}

#[test]
fn test_key_sizes() {
    let keypair = KeyPair::new();
    assert_eq!(keypair.public_key_bytes().len(), PUBLIC_KEY_SIZE);
    assert_eq!(keypair.private_key_bytes().len(), PRIVATE_KEY_SIZE);
}

#[test]
fn test_verify_rejects_flipped_message_bit() {
    let keypair = KeyPair::new();
    let message = b"a message worth signing".to_vec();
    let signature = keypair.sign(&message);

    for byte in 0..message.len() {
        let mut tampered = message.clone();
        tampered[byte] ^= 0x01;
        assert!(!verify(&keypair.public_key_bytes(), &tampered, &signature));
    }
}

#[test]
fn test_verify_rejects_flipped_signature_bits() {
    let keypair = KeyPair::new();
    let message = b"a message worth signing".to_vec();
    let signature = keypair.sign(&message);

    // Flipping a bit anywhere in the signature must break it; probe a spread
    // of positions rather than all 2420 bytes.
    let mut byte = 0;
    while byte < signature.len() {
        let mut tampered = signature.clone();
        tampered[byte] ^= 0x01;
        assert!(!verify(&keypair.public_key_bytes(), &message, &tampered));
        byte += 97;
    }
}

#[test]
fn test_verify_rejects_wrong_key() {
    let keypair = KeyPair::new();
    let other = KeyPair::new();
    let message = b"a message worth signing".to_vec();
    let signature = keypair.sign(&message);
    assert!(!verify(&other.public_key_bytes(), &message, &signature));
}

#[test]
fn test_verify_rejects_malformed_inputs() {
    let keypair = KeyPair::new();
    let message = b"a message worth signing".to_vec();
    let signature = keypair.sign(&message);

    // Wrong public key length.
    assert!(!verify(&[0u8; 5], &message, &signature));
    // Empty signature.
    assert!(!verify(&keypair.public_key_bytes(), &message, &[]));
    // Oversized signature.
    let mut oversized = signature.clone();
    oversized.push(0);
    assert!(!verify(&keypair.public_key_bytes(), &message, &oversized));
}
