//! HTTP endpoints of the crypto vault: key derivation, encryption and
//! decryption.

use vstd::prelude::*;
use vstd::utf8::encode_utf8;
use crate::codec::base64_decoded;
use crate::codec::base64_encoded;
use crate::crypto::vault::{self, CryptoError};

verus! {

pub struct DeriveKeyRequest {
    pub passphrase: String,
    pub salt: Option<String>,
}

pub struct DeriveKeyResponse {
    pub key_hash: String,
    pub salt: String,
}

pub struct EncryptRequest {
    pub plaintext: String,
    pub key_b64: String,
}

pub struct EncryptResponse {
    pub ciphertext_b64: String,
    pub nonce_b64: String,
}

pub struct DecryptRequest {
    pub ciphertext_b64: String,
    pub nonce_b64: String,
    pub key_b64: String,
}

pub struct DecryptResponse {
    pub plaintext: String,
}

/// Error body of the crypto endpoints.
pub struct ApiError {
    pub error: String,
    pub code: String,
}

/// HTTP status and code of a crypto error: 400 `INVALID_INPUT` for bad
/// input; 422 `DECRYPTION_FAILED` when authentication fails; 422
/// `CRYPTO_ERROR` when derivation or encryption fails; 500 `CRYPTO_ERROR`
/// otherwise.
pub open spec fn crypto_status(e: &CryptoError) -> (u16, Seq<char>) {
    match e {
        CryptoError::EmptyPassphrase | CryptoError::EmptyPlaintext | CryptoError::InvalidBase64(_)
        | CryptoError::InvalidKeyLength { .. } | CryptoError::InvalidNonceLength { .. }
        | CryptoError::InvalidSalt(_) => (400, "INVALID_INPUT"@),
        CryptoError::HashingFailed(_) | CryptoError::EncryptionFailed(_) => (422, "CRYPTO_ERROR"@),
        CryptoError::DecryptionFailed(_) => (422, "DECRYPTION_FAILED"@),
        _ => (500, "CRYPTO_ERROR"@),
    }
}

/// Maps a crypto error to an HTTP status and an error body.
pub fn crypto_err(e: CryptoError) -> (r: (u16, ApiError))
    ensures
        r.0 == crypto_status(&e).0,
        r.1.code@ == crypto_status(&e).1,
        r.1.error@ == e.message_spec(),
{
    let (status, code): (u16, &str) = match &e {
        CryptoError::EmptyPassphrase
        | CryptoError::EmptyPlaintext
        | CryptoError::InvalidBase64(_)
        | CryptoError::InvalidKeyLength { .. }
        | CryptoError::InvalidNonceLength { .. }
        | CryptoError::InvalidSalt(_) => (400, "INVALID_INPUT"),
        CryptoError::HashingFailed(_) | CryptoError::EncryptionFailed(_) => (422, "CRYPTO_ERROR"),
        CryptoError::DecryptionFailed(_) => (422, "DECRYPTION_FAILED"),
        _ => (500, "CRYPTO_ERROR"),
    };
    (status, ApiError { error: e.message(), code: code.to_owned() })
}

/// Whether `r` failed with this status and code.
pub open spec fn fails_with(r: Result<DeriveKeyResponse, (u16, ApiError)>, status: u16, code: Seq<char>) -> bool {
    r matches Err((s, e)) && s == status && e.code@ == code
}

/// Whether the request's salt, if any, is one Argon2 hashes with.
pub open spec fn request_salt_ok(salt: Option<String>) -> bool {
    match salt {
        Some(s) => vault::salt_usable(s@),
        None => true,
    }
}

/// Derives a key from the request's passphrase and optional salt.
pub fn derive_key(req: DeriveKeyRequest) -> (r: Result<DeriveKeyResponse, (u16, ApiError)>)
    ensures
        req.passphrase@.len() == 0 ==> fails_with(r, 400, "INVALID_INPUT"@),
        req.passphrase@.len() > 0 && !request_salt_ok(req.salt)
            && encode_utf8(req.passphrase@).len() <= vault::ARGON2_MAX_PASSWORD ==> fails_with(r, 400, "INVALID_INPUT"@),
        req.passphrase@.len() > 0 && !request_salt_ok(req.salt) ==> (fails_with(r, 400, "INVALID_INPUT"@)
            || fails_with(r, 422, "CRYPTO_ERROR"@)),
        req.passphrase@.len() > 0 && request_salt_ok(req.salt)
            && encode_utf8(req.passphrase@).len() > vault::ARGON2_MAX_PASSWORD ==> fails_with(r, 422, "CRYPTO_ERROR"@),
        req.passphrase@.len() > 0 && request_salt_ok(req.salt)
            && encode_utf8(req.passphrase@).len() <= vault::ARGON2_MAX_PASSWORD ==> r is Ok,
        r matches Ok(resp) ==> {
            &&& resp.key_hash@ == base64_encoded(vault::derived_key(req.passphrase@, resp.salt@))
            &&& vault::salt_usable(resp.salt@)
            &&& (req.salt matches Some(s) ==> resp.salt@ == s@)
        },
{
    let salt = match &req.salt {
        Some(s) => Some(s.as_str()),
        None => None,
    };
    match vault::derive_key(req.passphrase.as_str(), salt) {
        Ok((key_hash, salt)) => Ok(DeriveKeyResponse { key_hash, salt }),
        Err(e) => Err(crypto_err(e)),
    }
}

/// Whether an encryption result failed with this status and code.
pub open spec fn encrypt_fails_with(r: Result<EncryptResponse, (u16, ApiError)>, status: u16, code: Seq<char>) -> bool {
    r matches Err((s, e)) && s == status && e.code@ == code
}

/// Encrypts the request's plaintext under its key.
pub fn encrypt(req: EncryptRequest) -> (r: Result<EncryptResponse, (u16, ApiError)>)
    ensures
        req.plaintext@.len() == 0 ==> encrypt_fails_with(r, 400, "INVALID_INPUT"@),
        req.plaintext@.len() > 0 ==> match base64_decoded(req.key_b64@) {
            None => encrypt_fails_with(r, 400, "INVALID_INPUT"@),
            Some(key) => if key.len() != vault::AES_KEY_LEN {
                encrypt_fails_with(r, 400, "INVALID_INPUT"@)
            } else if encode_utf8(req.plaintext@).len() > vault::AES_GCM_MAX_PLAINTEXT {
                encrypt_fails_with(r, 422, "CRYPTO_ERROR"@)
            } else {
                r is Ok
            },
        },
        r matches Ok(resp) ==> vault::decrypt_outcome(resp.ciphertext_b64@, resp.nonce_b64@, req.key_b64@)
            == vault::DecryptOutcome::Plaintext(req.plaintext@),
        r matches Ok(resp) ==> (base64_decoded(resp.ciphertext_b64@) matches Some(c)
            && c.len() == encode_utf8(req.plaintext@).len() + 16),
        r matches Ok(resp) ==> (base64_decoded(resp.nonce_b64@) matches Some(n) && n.len() == vault::NONCE_LEN),
{
    match vault::encrypt(req.plaintext.as_str(), req.key_b64.as_str()) {
        Ok((ciphertext_b64, nonce_b64)) => Ok(EncryptResponse { ciphertext_b64, nonce_b64 }),
        Err(e) => Err(crypto_err(e)),
    }
}

/// Decrypts the request's ciphertext with its nonce and key.
pub fn decrypt(req: DecryptRequest) -> (r: Result<DecryptResponse, (u16, ApiError)>)
    ensures
        match vault::decrypt_outcome(req.ciphertext_b64@, req.nonce_b64@, req.key_b64@) {
            vault::DecryptOutcome::Plaintext(p) => r matches Ok(resp) && resp.plaintext@ == p,
            vault::DecryptOutcome::DecryptionFailed => r matches Err((s, e)) && s == 422 && e.code@ == "DECRYPTION_FAILED"@,
            vault::DecryptOutcome::InvalidUtf8 => r matches Err((s, e)) && s == 500 && e.code@ == "CRYPTO_ERROR"@,
            _ => r matches Err((s, e)) && s == 400 && e.code@ == "INVALID_INPUT"@,
        },
{
    match vault::decrypt(req.ciphertext_b64.as_str(), req.nonce_b64.as_str(), req.key_b64.as_str()) {
        Ok(plaintext) => Ok(DecryptResponse { plaintext }),
        Err(e) => Err(crypto_err(e)),
    }
}

} // verus!
