use aes_gcm::aead::rand_core::RngCore;
use aes_gcm::aead::OsRng;
use base64::engine::general_purpose::STANDARD as B64;
use base64::Engine as _;
use pae_engine::crypto::vault::{decrypt, derive_key, encrypt, CryptoError};

fn random_key_b64() -> String {
    let mut key = [0u8; 32];
    OsRng.fill_bytes(&mut key);
    B64.encode(key)
}

#[test]
fn test_encrypt_decrypt_roundtrip() {
    let key_b64 = random_key_b64();
    let plaintext = "PAE zero-knowledge test payload";
    let (ct, nonce) = encrypt(plaintext, &key_b64).unwrap();
    let result = decrypt(&ct, &nonce, &key_b64).unwrap();
    assert_eq!(result, plaintext);
}

#[test]
fn test_empty_passphrase_rejected() {
    let result = derive_key("", None);
    assert!(result.is_err());
    assert!(matches!(result.unwrap_err(), CryptoError::EmptyPassphrase));
}

#[test]
fn test_empty_plaintext_rejected() {
    let key_b64 = random_key_b64();
    let result = encrypt("", &key_b64);
    assert!(result.is_err());
    assert!(matches!(result.unwrap_err(), CryptoError::EmptyPlaintext));
}

#[test]
fn test_invalid_key_length_rejected() {
    let short_key = B64.encode([0u8; 16]);
    let result = encrypt("test", &short_key);
    assert!(result.is_err());
}

#[test]
fn test_invalid_base64_rejected() {
    let result = encrypt("test", "not-valid-base64!!!");
    assert!(result.is_err());
}

#[test]
fn test_decrypt_wrong_key_fails() {
    let key1 = random_key_b64();
    let key2 = random_key_b64();
    let (ct, nonce) = encrypt("secret", &key1).unwrap();
    let result = decrypt(&ct, &nonce, &key2);
    assert!(result.is_err());
}

#[test]
fn invalid_salt_is_reported_before_hashing() {
    let result = derive_key("passphrase", Some("ab"));
    assert!(matches!(result.unwrap_err(), CryptoError::InvalidSalt(_)));
    let result = derive_key("passphrase", Some("bad salt with spaces"));
    assert!(matches!(result.unwrap_err(), CryptoError::InvalidSalt(_)));
}

#[test]
fn salt_that_does_not_decode_to_eight_bytes_is_invalid() {
    // PHC characters, but '.' is outside the B64 alphabet
    assert!(matches!(derive_key("passphrase", Some("abc.defg")).unwrap_err(), CryptoError::InvalidSalt(_)));
    // decodes to 4 bytes, fewer than Argon2's minimum of 8
    assert!(matches!(derive_key("passphrase", Some("AAAAAA")).unwrap_err(), CryptoError::InvalidSalt(_)));
}

#[test]
fn key_length_error_reports_both_lengths() {
    let short_key = B64.encode([7u8; 16]);
    match encrypt("test", &short_key).unwrap_err() {
        CryptoError::InvalidKeyLength { expected, actual } => {
            assert_eq!(expected, 32);
            assert_eq!(actual, 16);
        }
        other => panic!("unexpected error {other:?}"),
    }
    let err = encrypt("test", &short_key).unwrap_err();
    assert_eq!(err.message(), "Invalid key length: expected 32 bytes, got 16");
}

#[test]
fn decrypt_checks_nonce_length() {
    let key_b64 = random_key_b64();
    let (ct, _) = encrypt("payload", &key_b64).unwrap();
    let short_nonce = B64.encode([1u8; 8]);
    match decrypt(&ct, &short_nonce, &key_b64).unwrap_err() {
        CryptoError::InvalidNonceLength { expected, actual } => {
            assert_eq!(expected, 12);
            assert_eq!(actual, 8);
        }
        other => panic!("unexpected error {other:?}"),
    }
}

#[test]
fn decrypt_reports_which_field_is_not_base64() {
    let key_b64 = random_key_b64();
    match decrypt("%%%", "AAAAAAAAAAAAAAAA", &key_b64).unwrap_err() {
        CryptoError::InvalidBase64(m) => assert!(m.starts_with("ciphertext: ")),
        other => panic!("unexpected error {other:?}"),
    }
    match decrypt("AAAA", "AAAAAAAAAAAAAAAA", "%%%").unwrap_err() {
        CryptoError::InvalidBase64(m) => assert!(m.starts_with("key: ")),
        other => panic!("unexpected error {other:?}"),
    }
}

#[test]
fn tampered_ciphertext_fails_authentication() {
    let key_b64 = random_key_b64();
    let (ct, nonce) = encrypt("ledger", &key_b64).unwrap();
    let mut bytes = B64.decode(&ct).unwrap();
    bytes[0] ^= 0x01;
    let tampered = B64.encode(&bytes);
    assert!(matches!(decrypt(&tampered, &nonce, &key_b64).unwrap_err(), CryptoError::DecryptionFailed(_)));
}

#[test]
fn ciphertext_is_sixteen_bytes_longer_and_nonce_twelve() {
    let key_b64 = random_key_b64();
    let (ct, nonce) = encrypt("abc", &key_b64).unwrap();
    assert_eq!(B64.decode(&ct).unwrap().len(), 3 + 16);
    assert_eq!(B64.decode(&nonce).unwrap().len(), 12);
}

#[test]
fn non_ascii_plaintext_roundtrips() {
    let key_b64 = random_key_b64();
    let plaintext = "héllo — ₹100 ✓";
    let (ct, nonce) = encrypt(plaintext, &key_b64).unwrap();
    assert_eq!(decrypt(&ct, &nonce, &key_b64).unwrap(), plaintext);
}
