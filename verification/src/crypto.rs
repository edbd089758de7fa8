//! Key derivation, authenticated encryption and password hashing.
//!
//! The outside crates do the cryptography; each call stands behind one
//! trusted wrapper whose contract names what the call computes. Everything
//! around the calls is verified.

use aes_gcm::aead::Aead;
use aes_gcm::KeyInit;
use argon2::password_hash::PasswordHasher;
use argon2::password_hash::PasswordVerifier;
use vstd::prelude::*;

use crate::errors::VaultError;

verus! {

/// The 32-byte key that the memory-hard KDF (Argon2, fixed default
/// parameters) derives from a password and a salt; a function of those two
/// inputs alone.
pub uninterp spec fn kdf_of(password: Seq<char>, salt: Seq<u8>) -> Seq<u8>;

/// The ciphertext (16-byte authentication tag appended) that AES-256-GCM
/// produces from a key, a nonce and the UTF-8 bytes of a plaintext string; a
/// function of those three inputs alone.
pub uninterp spec fn aead_enc(key: Seq<u8>, nonce: Seq<u8>, plaintext: Seq<char>) -> Seq<u8>;

/// What AES-256-GCM decryption followed by UTF-8 decoding yields for a key,
/// a nonce and a ciphertext: the plaintext string, or nothing when the tag
/// does not authenticate or the bytes are not valid UTF-8.
pub uninterp spec fn aead_dec(key: Seq<u8>, nonce: Seq<u8>, ciphertext: Seq<u8>) -> Option<
    Seq<char>,
>;

/// Whether a password matches a PHC-formatted password hash string, under
/// the algorithm and parameters that the string itself carries; false when
/// the string is not a well-formed PHC string.
pub uninterp spec fn phc_verifies(password: Seq<char>, hash: Seq<char>) -> bool;

/// How many bytes the UTF-8 encoding of a string takes (what
/// `str::as_bytes` hands to the cipher): between one and four bytes per
/// character.
pub uninterp spec fn utf8_len(s: Seq<char>) -> nat;

/// The largest plaintext length, in characters, for which encryption is
/// promised to succeed: its UTF-8 encoding (at most four bytes per
/// character) then stays within AES-GCM's plaintext bound of 2^36 - 32
/// bytes.
pub open spec fn plaintext_len_limit() -> nat {
    0x1_0000_0000
}

/// Relies on `argon2::Argon2::hash_password_into` with the default
/// parameters: the derived key is a deterministic function of the password
/// and the salt alone, written to the whole 32-byte output buffer. It fails
/// only on parameter or resource limits, never on the password's content.
#[verifier::external_body]
fn argon2_derive(password: &str, salt: &[u8; 32]) -> (r: Result<[u8; 32], VaultError>)
    ensures
        r matches Ok(k) ==> k@ == kdf_of(password@, salt@),
        r matches Err(e) ==> e == VaultError::KeyDerivation,
{
    let mut key = [0u8; 32];
    match argon2::Argon2::default().hash_password_into(password.as_bytes(), salt, &mut key) {
        Ok(()) => Ok(key),
        Err(_) => Err(VaultError::KeyDerivation),
    }
}

/// Relies on `rand::random`: a 12-byte value from the thread-local CSPRNG.
/// Nothing is assumed of the outcome.
#[verifier::external_body]
pub(crate) fn random_nonce() -> [u8; 12] {
    rand::random()
}

/// Relies on `rand::random`: a 32-byte value from the thread-local CSPRNG.
/// Nothing is assumed of the outcome.
#[verifier::external_body]
pub(crate) fn random_salt() -> [u8; 32] {
    rand::random()
}

/// Relies on `aes_gcm::Aes256Gcm` through `aead::Aead::encrypt`: AES-256-GCM
/// over the UTF-8 bytes of `value` (`str::as_bytes`, between one and four
/// bytes per character), appending the 16-byte tag; deterministic in key,
/// nonce and plaintext, and `aead::Aead::decrypt` inverts it under the same
/// key and nonce. Its only failure is a plaintext beyond 2^36 - 32 bytes, so
/// it succeeds for every value within `plaintext_len_limit` characters.
#[verifier::external_body]
fn aead_encrypt(value: &str, key: &[u8; 32], nonce: &[u8; 12]) -> (r: Result<Vec<u8>, VaultError>)
    ensures
        r matches Ok(ct) ==> ct@ == aead_enc(key@, nonce@, value@) && aead_dec(
            key@,
            nonce@,
            ct@,
        ) == Some(value@) && ct@.len() == utf8_len(value@) + 16 && value@.len() <= utf8_len(
            value@,
        ) <= 4 * value@.len(),
        value@.len() <= plaintext_len_limit() ==> r is Ok,
        r matches Err(e) ==> e == VaultError::Storage,
{
    let cipher = aes_gcm::Aes256Gcm::new(&aes_gcm::Key::<aes_gcm::Aes256Gcm>::from(*key));
    let nonce_arr = aes_gcm::aead::Nonce::<aes_gcm::Aes256Gcm>::from(*nonce);
    match cipher.encrypt(&nonce_arr, value.as_bytes()) {
        Ok(ct) => Ok(ct),
        Err(_) => Err(VaultError::Storage),
    }
}

/// Relies on `aes_gcm::Aes256Gcm` through `aead::Aead::decrypt`, with
/// `String::from_utf8` decoding the recovered bytes: together they return
/// the plaintext string exactly when key, nonce and ciphertext authenticate
/// and decode, and fail on a wrong key or any altered bit.
#[verifier::external_body]
fn aead_decrypt(ciphertext: &Vec<u8>, key: &[u8; 32], nonce: &[u8; 12]) -> (r: Result<
    String,
    VaultError,
>)
    ensures
        r matches Ok(s) ==> aead_dec(key@, nonce@, ciphertext@) == Some(s@),
        r matches Err(e) ==> e == VaultError::DecryptionFailed && aead_dec(
            key@,
            nonce@,
            ciphertext@,
        ) is None,
{
    let cipher = aes_gcm::Aes256Gcm::new(&aes_gcm::Key::<aes_gcm::Aes256Gcm>::from(*key));
    let nonce_arr = aes_gcm::aead::Nonce::<aes_gcm::Aes256Gcm>::from(*nonce);
    match cipher.decrypt(&nonce_arr, ciphertext.as_slice()) {
        Ok(bytes) => match String::from_utf8(bytes) {
            Ok(s) => Ok(s),
            Err(_) => Err(VaultError::DecryptionFailed),
        },
        Err(_) => Err(VaultError::DecryptionFailed),
    }
}

/// Relies on `argon2::Argon2::hash_password` (PHC string, random 16-byte
/// salt from the operating system): any hash it returns verifies against the
/// password it was computed from. The salt is random, so nothing more is
/// assumed of the string.
#[verifier::external_body]
pub(crate) fn hash_password(password: &str) -> (r: Result<String, VaultError>)
    ensures
        r matches Ok(h) ==> phc_verifies(password@, h@),
        r matches Err(e) ==> e == VaultError::KeyDerivation,
{
    match argon2::Argon2::default().hash_password(password.as_bytes()) {
        Ok(h) => Ok(h.to_string()),
        Err(_) => Err(VaultError::KeyDerivation),
    }
}

/// Relies on `phc::PasswordHash::new` and
/// `argon2::Argon2::verify_password`: parsing the PHC string and checking
/// the password against it is deterministic in the password and the string;
/// a string that does not parse verifies nothing.
#[verifier::external_body]
pub(crate) fn verify_password(password: &str, hash: &str) -> (r: bool)
    ensures
        r == phc_verifies(password@, hash@),
{
    match argon2::password_hash::phc::PasswordHash::new(hash) {
        Ok(parsed) => argon2::Argon2::default().verify_password(
            password.as_bytes(),
            &parsed,
        ).is_ok(),
        Err(_) => false,
    }
}

/// Derive the tenant encryption key from a password and the tenant's
/// 32-byte salt. Deterministic: the same password and salt always yield the
/// same key, so a tenant reconstructs its key at every login without the key
/// ever being stored.
pub fn derive_key(password: &str, salt: &[u8; 32]) -> (r: Result<[u8; 32], VaultError>)
    ensures
        r matches Ok(k) ==> k@ == kdf_of(password@, salt@),
        r matches Err(e) ==> e == VaultError::KeyDerivation,
{
    argon2_derive(password, salt)
}

/// Key derivation is deterministic: two keys derived from the same password
/// and the same salt are equal.
pub proof fn lemma_derive_key_deterministic(
    password: Seq<char>,
    salt: Seq<u8>,
    k1: Seq<u8>,
    k2: Seq<u8>,
)
    requires
        k1 == kdf_of(password, salt),
        k2 == kdf_of(password, salt),
    ensures
        k1 == k2,
{
}

/// Encrypt a value under a key, with a fresh random 12-byte nonce per call.
/// The returned ciphertext is the value's UTF-8 bytes under AES-256-GCM with
/// the 16-byte authentication tag appended, and decrypts to the value under
/// the same key and nonce. Encryption succeeds for every value within
/// `plaintext_len_limit` characters.
pub fn encrypt(value: &str, key: &[u8; 32]) -> (r: Result<(Vec<u8>, [u8; 12]), VaultError>)
    ensures
        r matches Ok(p) ==> p.0@ == aead_enc(key@, p.1@, value@) && aead_dec(key@, p.1@, p.0@)
            == Some(value@) && p.0@.len() == utf8_len(value@) + 16 && value@.len() <= utf8_len(
            value@,
        ) <= 4 * value@.len(),
        value@.len() <= plaintext_len_limit() ==> r is Ok,
        r matches Err(e) ==> e == VaultError::Storage,
{
    let nonce = random_nonce();
    match aead_encrypt(value, key, &nonce) {
        Ok(ct) => Ok((ct, nonce)),
        Err(e) => Err(e),
    }
}

/// Decrypt a ciphertext under a key and nonce. A wrong key and a tampered
/// ciphertext fail with the same undifferentiated error.
pub fn decrypt(ciphertext: &Vec<u8>, key: &[u8; 32], nonce: &[u8; 12]) -> (r: Result<
    String,
    VaultError,
>)
    ensures
        r matches Ok(s) ==> aead_dec(key@, nonce@, ciphertext@) == Some(s@),
        aead_dec(key@, nonce@, ciphertext@) matches Some(p) ==> r matches Ok(s) && s@ == p,
        r matches Err(e) ==> e == VaultError::DecryptionFailed,
{
    aead_decrypt(ciphertext, key, nonce)
}

} // verus!
