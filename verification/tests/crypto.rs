use shard_vault::security::{decrypt_data, derive_key, encrypt_data, generate_salt};
use shard_vault::SecurityError;

#[test]
fn salt_has_sixteen_bytes() {
    let salt = generate_salt();
    assert_eq!(salt.len(), 16);
}

#[test]
fn two_salts_differ() {
    // 128 random bits colliding is beyond negligible.
    assert_ne!(generate_salt(), generate_salt());
}

#[test]
fn derive_key_is_deterministic() {
    let salt = vec![7u8; 16];
    let k1 = derive_key("correct horse battery staple", &salt);
    let k2 = derive_key("correct horse battery staple", &salt);
    assert_eq!(k1, k2);
    assert_eq!(k1.len(), 32);
}

#[test]
fn derive_key_depends_on_password() {
    let salt = vec![7u8; 16];
    let k1 = derive_key("password one", &salt);
    let k2 = derive_key("password two", &salt);
    assert_ne!(k1, k2);
}

#[test]
fn derive_key_depends_on_salt() {
    let k1 = derive_key("same password", &vec![1u8; 16]);
    let k2 = derive_key("same password", &vec![2u8; 16]);
    assert_ne!(k1, k2);
}

#[test]
fn derive_key_is_not_the_password() {
    let salt = vec![0u8; 16];
    let key = derive_key("secret", &salt);
    assert_ne!(key.as_slice(), "secret".as_bytes());
}

#[test]
fn encrypt_decrypt_round_trip() {
    let key = derive_key("round trip", &vec![3u8; 16]);
    let data: Vec<u8> = (0u32..1000).map(|i| (i % 251) as u8).collect();
    let blob = encrypt_data(&data, &key).unwrap();
    assert_eq!(blob.len(), data.len() + 12 + 16);
    let back = decrypt_data(&blob, &key).unwrap();
    assert_eq!(back, data);
}

#[test]
fn encrypt_decrypt_round_trip_empty() {
    let key = vec![9u8; 32];
    let blob = encrypt_data(&[], &key).unwrap();
    assert_eq!(blob.len(), 28);
    let back = decrypt_data(&blob, &key).unwrap();
    assert!(back.is_empty());
}

#[test]
fn encryption_uses_fresh_nonces() {
    let key = vec![5u8; 32];
    let data = b"same plaintext".to_vec();
    let b1 = encrypt_data(&data, &key).unwrap();
    let b2 = encrypt_data(&data, &key).unwrap();
    assert_ne!(b1, b2);
    assert_ne!(&b1[..12], &b2[..12]);
}

#[test]
fn ciphertext_is_not_the_plaintext() {
    let key = vec![5u8; 32];
    let data = b"plaintext must never appear".to_vec();
    let blob = encrypt_data(&data, &key).unwrap();
    assert!(!blob
        .windows(data.len())
        .any(|w| w == data.as_slice()));
}

#[test]
fn tampering_any_bit_is_detected() {
    let key = derive_key("tamper", &vec![4u8; 16]);
    let data = b"sixteen byte msg".to_vec();
    let blob = encrypt_data(&data, &key).unwrap();
    for byte in 0..blob.len() {
        for bit in 0..8 {
            let mut bad = blob.clone();
            bad[byte] ^= 1 << bit;
            assert_eq!(
                decrypt_data(&bad, &key).unwrap_err(),
                SecurityError::DecryptionError,
                "flip at byte {byte} bit {bit} was not detected"
            );
        }
    }
}

#[test]
fn truncated_blob_is_rejected() {
    let key = vec![1u8; 32];
    let blob = encrypt_data(b"hello", &key).unwrap();
    let short = &blob[..11];
    assert_eq!(
        decrypt_data(short, &key).unwrap_err(),
        SecurityError::DecryptionError
    );
    assert_eq!(
        decrypt_data(&[], &key).unwrap_err(),
        SecurityError::DecryptionError
    );
}

#[test]
fn wrong_key_fails() {
    let k1 = derive_key("first key", &vec![8u8; 16]);
    let k2 = derive_key("second key", &vec![8u8; 16]);
    let blob = encrypt_data(b"for key one only", &k1).unwrap();
    assert_eq!(
        decrypt_data(&blob, &k2).unwrap_err(),
        SecurityError::DecryptionError
    );
    assert_eq!(decrypt_data(&blob, &k1).unwrap(), b"for key one only");
}

#[test]
fn round_trip_law_function() {
    let key = vec![6u8; 32];
    let data = b"through the law function".to_vec();
    assert_eq!(
        shard_vault::security::encrypt_decrypt_roundtrip(&data, &key),
        data
    );
}

#[test]
fn determinism_law_function() {
    let (k1, k2) = shard_vault::security::derive_key_deterministic("pw", &vec![1u8; 16]);
    assert_eq!(k1, k2);
}
