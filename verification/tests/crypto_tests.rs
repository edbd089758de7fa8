use rustvault::crypto::{decrypt, derive_key, encrypt};
use rustvault::errors::VaultError;

#[test]
fn derive_key_is_deterministic() {
    let salt = [7u8; 32];
    let k1 = derive_key("correct horse battery staple", &salt).unwrap();
    let k2 = derive_key("correct horse battery staple", &salt).unwrap();
    assert_eq!(k1, k2);
}

#[test]
fn derive_key_depends_on_salt() {
    let k1 = derive_key("pw", &[1u8; 32]).unwrap();
    let k2 = derive_key("pw", &[2u8; 32]).unwrap();
    assert_ne!(k1, k2);
}

#[test]
fn derive_key_depends_on_password() {
    let salt = [9u8; 32];
    let k1 = derive_key("pw-one", &salt).unwrap();
    let k2 = derive_key("pw-two", &salt).unwrap();
    assert_ne!(k1, k2);
}

#[test]
fn encrypt_decrypt_round_trip() {
    let key = derive_key("master", &[3u8; 32]).unwrap();
    let (ciphertext, nonce) = encrypt("secret123", &key).unwrap();
    let back = decrypt(&ciphertext, &key, &nonce).unwrap();
    assert_eq!(back, "secret123");
}

#[test]
fn encrypt_empty_round_trip() {
    let key = derive_key("master", &[3u8; 32]).unwrap();
    let (ciphertext, nonce) = encrypt("", &key).unwrap();
    // the authentication tag alone remains
    assert_eq!(ciphertext.len(), 16);
    let back = decrypt(&ciphertext, &key, &nonce).unwrap();
    assert_eq!(back, "");
}

#[test]
fn ciphertext_carries_sixteen_byte_tag() {
    let key = [5u8; 32];
    let (ciphertext, _nonce) = encrypt("abcdef", &key).unwrap();
    assert_eq!(ciphertext.len(), 6 + 16);
}

#[test]
fn tamper_detection_every_bit_position() {
    let key = derive_key("master", &[4u8; 32]).unwrap();
    let (ciphertext, nonce) = encrypt("attack at dawn", &key).unwrap();
    for byte in 0..ciphertext.len() {
        for bit in 0..8 {
            let mut tampered = ciphertext.clone();
            tampered[byte] ^= 1u8 << bit;
            let r = decrypt(&tampered, &key, &nonce);
            assert_eq!(r.unwrap_err(), VaultError::DecryptionFailed);
        }
    }
}

#[test]
fn decrypt_with_wrong_key_fails() {
    let k1 = derive_key("right", &[8u8; 32]).unwrap();
    let k2 = derive_key("wrong", &[8u8; 32]).unwrap();
    let (ciphertext, nonce) = encrypt("payload", &k1).unwrap();
    let r = decrypt(&ciphertext, &k2, &nonce);
    assert_eq!(r.unwrap_err(), VaultError::DecryptionFailed);
}

#[test]
fn nonces_differ_between_encryptions() {
    let key = [6u8; 32];
    let (_c1, n1) = encrypt("same plaintext", &key).unwrap();
    let (_c2, n2) = encrypt("same plaintext", &key).unwrap();
    assert_ne!(n1, n2);
}
