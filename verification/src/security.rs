//! Cryptographic primitives of the vault: password-based key derivation
//! and symmetric authenticated encryption of opaque byte buffers.
//!
//! An encrypted blob is laid out as `nonce (12 bytes) || ciphertext_with_tag`.
//! The nonce is generated fresh for every encryption call.

use vstd::prelude::*;
use vstd::slice::{slice_subrange, slice_to_vec};

use crate::errors::SecurityError;

verus! {

/// Length in bytes of a persisted salt.
pub const SALT_LEN: usize = 16;

/// Length in bytes of the nonce prepended to every encrypted blob.
pub const NONCE_LEN: usize = 12;

/// Length in bytes of a derived symmetric key.
pub const KEY_LEN: usize = 32;

/// Length in bytes of the authentication tag appended to the ciphertext.
pub const TAG_LEN: usize = 16;

/// Iteration count of the key derivation: high enough to resist offline
/// brute force.
pub const PBKDF2_ROUNDS: u32 = 100000;

/// The largest plaintext the cipher accepts (2^36 bytes).
pub const P_MAX: u64 = 0x10_0000_0000;

/// The key that PBKDF2 with HMAC-SHA-256 derives from a password, a salt,
/// a round count and a requested output length. The result depends on those
/// arguments alone.
pub uninterp spec fn pbkdf2_key_of(password: Seq<u8>, salt: Seq<u8>, rounds: u32, out_len: nat) -> Seq<u8>;

/// The ciphertext (tag included) that AES-256-GCM produces for a key, a
/// nonce and a plaintext. The result depends on those arguments alone.
pub uninterp spec fn gcm_cipher_of(key: Seq<u8>, nonce: Seq<u8>, plain: Seq<u8>) -> Seq<u8>;

/// What AES-256-GCM decryption returns for a key, a nonce and a ciphertext:
/// `None` when the authentication tag does not verify. The result depends
/// on those arguments alone.
pub uninterp spec fn gcm_plain_of(key: Seq<u8>, nonce: Seq<u8>, cipher: Seq<u8>) -> Option<Seq<u8>>;

/// Relies on `rand::thread_rng` and `RngCore::fill_bytes`: fills a buffer
/// of the requested length with cryptographically secure random bytes.
/// Nothing is promised of the values.
#[verifier::external_body]
fn random_bytes(n: usize) -> (r: Vec<u8>)
    ensures
        r@.len() == n,
{
    let mut buf = vec![0u8; n];
    rand::RngCore::fill_bytes(&mut rand::thread_rng(), &mut buf);
    buf
}

/// Relies on `pbkdf2::pbkdf2` with `hmac::Hmac<sha2::Sha256>`: fills the
/// output buffer with a key that is a deterministic function of the
/// password, the salt, the round count and the output length. HMAC accepts
/// a key of any length, so the call cannot fail.
#[verifier::external_body]
fn pbkdf2_hmac_sha256(password: &[u8], salt: &[u8], rounds: u32, out_len: usize) -> (r: Vec<u8>)
    ensures
        r@.len() == out_len,
        r@ == pbkdf2_key_of(password@, salt@, rounds, out_len as nat),
{
    let mut key = vec![0u8; out_len];
    let _ = pbkdf2::pbkdf2::<hmac::Hmac<sha2::Sha256>>(password, salt, rounds, &mut key);
    key
}

/// Relies on `aes_gcm::Aes256Gcm` through `aead::Aead::encrypt`: the
/// ciphertext is a deterministic function of key, nonce and plaintext, is
/// exactly 16 bytes (the tag) longer than the plaintext, decrypts back to
/// the plaintext under the same key and nonce, and the call fails only
/// when the plaintext exceeds the AES-GCM length bound of 2^36 bytes.
/// `Key::from_slice` and `Nonce::from_slice` panic on other lengths, so
/// those are excluded.
#[verifier::external_body]
fn aes256_gcm_encrypt(key: &[u8], nonce: &[u8], data: &[u8]) -> (r: Result<Vec<u8>, SecurityError>)
    requires
        key@.len() == KEY_LEN,
        nonce@.len() == NONCE_LEN,
    ensures
        match r {
            Ok(c) => {
                &&& data@.len() <= P_MAX
                &&& c@.len() == data@.len() + TAG_LEN
                &&& c@ == gcm_cipher_of(key@, nonce@, data@)
                &&& gcm_plain_of(key@, nonce@, c@) == Some(data@)
            },
            Err(e) => e == SecurityError::EncryptionError && data@.len() > P_MAX,
        },
{
    let k = aes_gcm::Key::<aes_gcm::Aes256Gcm>::from_slice(key);
    let cipher = <aes_gcm::Aes256Gcm as aes_gcm::KeyInit>::new(k);
    let n = aes_gcm::Nonce::from_slice(nonce);
    match aes_gcm::aead::Aead::encrypt(&cipher, n, data) {
        Ok(c) => Ok(c),
        Err(_) => Err(SecurityError::EncryptionError),
    }
}

/// Relies on `aes_gcm::Aes256Gcm` through `aead::Aead::decrypt`: the result
/// is a deterministic function of key, nonce and ciphertext, and the call
/// fails exactly when that function has no value (too-short or too-long
/// input, or an authentication-tag mismatch). `Key::from_slice` and
/// `Nonce::from_slice` panic on other lengths, so those are excluded.
#[verifier::external_body]
fn aes256_gcm_decrypt(key: &[u8], nonce: &[u8], cipher_text: &[u8]) -> (r: Result<
    Vec<u8>,
    SecurityError,
>)
    requires
        key@.len() == KEY_LEN,
        nonce@.len() == NONCE_LEN,
    ensures
        match r {
            Ok(p) => gcm_plain_of(key@, nonce@, cipher_text@) == Some(p@),
            Err(e) => e == SecurityError::DecryptionError && gcm_plain_of(
                key@,
                nonce@,
                cipher_text@,
            ) is None,
        },
{
    let k = aes_gcm::Key::<aes_gcm::Aes256Gcm>::from_slice(key);
    let cipher = <aes_gcm::Aes256Gcm as aes_gcm::KeyInit>::new(k);
    let n = aes_gcm::Nonce::from_slice(nonce);
    match aes_gcm::aead::Aead::decrypt(&cipher, n, cipher_text) {
        Ok(p) => Ok(p),
        Err(_) => Err(SecurityError::DecryptionError),
    }
}

/// Generate a fresh random salt for a new vault.
pub fn generate_salt() -> (r: Vec<u8>)
    ensures
        r@.len() == SALT_LEN,
{
    random_bytes(SALT_LEN)
}

/// Derive the 32-byte asset key from a password and a salt. The same
/// (password, salt) pair always yields the same key.
pub fn derive_key(password: &str, salt: &[u8]) -> (r: Vec<u8>)
    ensures
        r@.len() == KEY_LEN,
        r@ == derive_key_spec(password@, salt@),
{
    pbkdf2_hmac_sha256(password.as_bytes(), salt, PBKDF2_ROUNDS, KEY_LEN)
}

/// The key that `derive_key` returns: a function of the password and the
/// salt alone, so key derivation is deterministic.
pub open spec fn derive_key_spec(password: Seq<char>, salt: Seq<u8>) -> Seq<u8> {
    pbkdf2_key_of(vstd::utf8::encode_utf8(password), salt, PBKDF2_ROUNDS, KEY_LEN as nat)
}

/// What `decrypt_data` returns for a blob and a key: an error when the
/// blob is shorter than a nonce or when authenticated decryption of the
/// remainder under the leading nonce fails, the recovered plaintext
/// otherwise.
pub open spec fn decrypt_spec(blob: Seq<u8>, key: Seq<u8>) -> Result<Seq<u8>, SecurityError> {
    if blob.len() < NONCE_LEN {
        Err(SecurityError::DecryptionError)
    } else {
        match gcm_plain_of(key, blob.subrange(0, NONCE_LEN as int), blob.subrange(NONCE_LEN as int, blob.len() as int)) {
            Some(p) => Ok(p),
            None => Err(SecurityError::DecryptionError),
        }
    }
}

/// Authenticated-encrypt `data` under `key` with a fresh random 12-byte
/// nonce and return `nonce || ciphertext_with_tag`. Succeeds on every
/// plaintext the cipher accepts, and the blob decrypts back to `data`
/// under the same key.
pub fn encrypt_data(data: &[u8], key: &[u8]) -> (r: Result<Vec<u8>, SecurityError>)
    requires
        key@.len() == KEY_LEN,
    ensures
        match r {
            Ok(blob) => {
                &&& data@.len() <= P_MAX
                &&& blob@.len() == data@.len() + NONCE_LEN + TAG_LEN
                &&& decrypt_spec(blob@, key@) == Ok::<Seq<u8>, SecurityError>(data@)
            },
            Err(e) => e == SecurityError::EncryptionError && data@.len() > P_MAX,
        },
{
    let nonce = random_bytes(NONCE_LEN);
    let cipher_text = match aes256_gcm_encrypt(key, nonce.as_slice(), data) {
        Ok(c) => c,
        Err(e) => {
            return Err(e);
        },
    };
    let ghost nonce_view = nonce@;
    let mut blob = nonce;
    blob.extend_from_slice(cipher_text.as_slice());
    proof {
        assert(blob@.subrange(0, NONCE_LEN as int) =~= nonce_view);
        assert(blob@.subrange(NONCE_LEN as int, blob@.len() as int) =~= cipher_text@);
    }
    Ok(blob)
}

/// Split the first 12 bytes of `blob` as the nonce and authenticated-decrypt
/// the remainder under `key`. Fails exactly when the blob is shorter than a
/// nonce or when authentication fails (wrong key, corruption, tampering).
pub fn decrypt_data(encrypted_data: &[u8], key: &[u8]) -> (r: Result<Vec<u8>, SecurityError>)
    requires
        key@.len() == KEY_LEN,
    ensures
        match r {
            Ok(p) => decrypt_spec(encrypted_data@, key@) == Ok::<Seq<u8>, SecurityError>(p@),
            Err(e) => decrypt_spec(encrypted_data@, key@) == Err::<Seq<u8>, SecurityError>(e),
        },
{
    if encrypted_data.len() < NONCE_LEN {
        return Err(SecurityError::DecryptionError);
    }
    let nonce = slice_subrange(encrypted_data, 0, NONCE_LEN);
    let cipher_text = slice_subrange(encrypted_data, NONCE_LEN, encrypted_data.len());
    aes256_gcm_decrypt(key, nonce, cipher_text)
}

/// Determinism law: two derivations from the same password and the same
/// salt yield byte-identical keys.
pub fn derive_key_deterministic(password: &str, salt: &[u8]) -> (r: (Vec<u8>, Vec<u8>))
    ensures
        r.0@ == r.1@,
{
    (derive_key(password, salt), derive_key(password, salt))
}

/// Round-trip law: decrypting a blob that `encrypt_data` produced, with
/// the key it was produced under, recovers the original buffer exactly.
pub fn encrypt_decrypt_roundtrip(data: &[u8], key: &[u8]) -> (r: Vec<u8>)
    requires
        key@.len() == KEY_LEN,
        data@.len() <= P_MAX,
    ensures
        r@ == data@,
{
    let blob = match encrypt_data(data, key) {
        Ok(b) => b,
        Err(_) => {
            proof {
                assert(false);
            }
            return slice_to_vec(data);
        },
    };
    match decrypt_data(blob.as_slice(), key) {
        Ok(p) => p,
        Err(_) => {
            proof {
                assert(false);
            }
            slice_to_vec(data)
        },
    }
}

} // verus!
