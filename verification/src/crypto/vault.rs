//! Argon2id key derivation and AES-256-GCM encryption of text, with keys,
//! nonces, salts and ciphertexts carried as base64 text.

use vstd::prelude::*;
use vstd::utf8::*;
use aes_gcm::aead::{Aead, KeyInit};
use aes_gcm::aead::rand_core::RngCore;
use argon2::{Algorithm, Argon2, Params, PasswordHasher, Version};
use argon2::password_hash::{Error as HashError, SaltString};
use crate::codec::{base64_decode, base64_decoded, base64_encode, base64_encoded, string_from_utf8};
use crate::text::{decimal, join, usize_to_decimal};

verus! {

/// Argon2 iteration count (time cost).
pub const ARGON2_ITERATIONS: u32 = 600_000;
/// Argon2 memory cost in KiB.
pub const ARGON2_MEMORY_KIB: u32 = 65536;
/// Argon2 lanes.
pub const ARGON2_PARALLELISM: u32 = 4;
/// Length of the derived key in bytes.
pub const AES_KEY_LEN: usize = 32;
/// Length of an AES-GCM nonce in bytes.
pub const NONCE_LEN: usize = 12;
/// Largest plaintext, in bytes, that AES-GCM accepts.
pub const AES_GCM_MAX_PLAINTEXT: u64 = 0x10_0000_0000;

/// Errors that can occur during cryptographic operations.
#[derive(Debug)]
pub enum CryptoError {
    InvalidSalt(String),
    InvalidParams(String),
    HashingFailed(String),
    InvalidBase64(String),
    InvalidKeyLength { expected: usize, actual: usize },
    InvalidNonceLength { expected: usize, actual: usize },
    EncryptionFailed(String),
    DecryptionFailed(String),
    InvalidUtf8,
    EmptyPassphrase,
    EmptyPlaintext,
}

impl CryptoError {
    /// The human-readable message of this error.
    pub open spec fn message_spec(&self) -> Seq<char> {
        match self {
            CryptoError::InvalidSalt(m) => "Invalid salt: "@ + m@,
            CryptoError::InvalidParams(m) => "Invalid Argon2 parameters: "@ + m@,
            CryptoError::HashingFailed(m) => "Password hashing failed: "@ + m@,
            CryptoError::InvalidBase64(m) => "Invalid base64 input: "@ + m@,
            CryptoError::InvalidKeyLength { expected, actual } => "Invalid key length: expected "@
                + decimal(*expected as nat) + " bytes, got "@ + decimal(*actual as nat),
            CryptoError::InvalidNonceLength { expected, actual } => "Invalid nonce length: expected "@
                + decimal(*expected as nat) + " bytes, got "@ + decimal(*actual as nat),
            CryptoError::EncryptionFailed(m) => "Encryption failed: "@ + m@,
            CryptoError::DecryptionFailed(m) => "Decryption failed: "@ + m@,
            CryptoError::InvalidUtf8 => "Invalid UTF-8 in decrypted content"@,
            CryptoError::EmptyPassphrase => "Passphrase must not be empty"@,
            CryptoError::EmptyPlaintext => "Plaintext must not be empty"@,
        }
    }

    /// Human-readable error message.
    pub fn message(&self) -> (m: String)
        ensures
            m@ == self.message_spec(),
    {
        match self {
            CryptoError::InvalidSalt(m) => join("Invalid salt: ", m.as_str()),
            CryptoError::InvalidParams(m) => join("Invalid Argon2 parameters: ", m.as_str()),
            CryptoError::HashingFailed(m) => join("Password hashing failed: ", m.as_str()),
            CryptoError::InvalidBase64(m) => join("Invalid base64 input: ", m.as_str()),
            CryptoError::InvalidKeyLength { expected, actual } => {
                let a = join("Invalid key length: expected ", usize_to_decimal(*expected).as_str());
                let b = join(a.as_str(), " bytes, got ");
                join(b.as_str(), usize_to_decimal(*actual).as_str())
            },
            CryptoError::InvalidNonceLength { expected, actual } => {
                let a = join("Invalid nonce length: expected ", usize_to_decimal(*expected).as_str());
                let b = join(a.as_str(), " bytes, got ");
                join(b.as_str(), usize_to_decimal(*actual).as_str())
            },
            CryptoError::EncryptionFailed(m) => join("Encryption failed: ", m.as_str()),
            CryptoError::DecryptionFailed(m) => join("Decryption failed: ", m.as_str()),
            CryptoError::InvalidUtf8 => "Invalid UTF-8 in decrypted content".to_owned(),
            CryptoError::EmptyPassphrase => "Passphrase must not be empty".to_owned(),
            CryptoError::EmptyPlaintext => "Plaintext must not be empty".to_owned(),
        }
    }
}

// ---------------------------------------------------------------------------
// AES-256-GCM

/// Ciphertext (with its 16-byte tag appended) that `Aes256Gcm::encrypt`
/// produces for a key, a nonce and a plaintext, with no associated data.
pub uninterp spec fn aes256gcm_sealed(key: Seq<u8>, nonce: Seq<u8>, plaintext: Seq<u8>) -> Seq<u8>;

/// What `Aes256Gcm::decrypt` gives for a key, a nonce and a ciphertext with no
/// associated data: the plaintext, or `None` where authentication fails.
pub uninterp spec fn aes256gcm_opened(key: Seq<u8>, nonce: Seq<u8>, ciphertext: Seq<u8>) -> Option<Seq<u8>>;

/// `Aes256Gcm::new_from_slice(key)` then `encrypt(nonce, plaintext)`.
///
/// Trusted: the call fails exactly when the plaintext is longer than
/// `AES_GCM_MAX_PLAINTEXT` bytes (the crate's `P_MAX` check); the ciphertext
/// is `aes256gcm_sealed`, is 16 bytes longer than the plaintext, and
/// decrypting it with the same key and nonce gives the plaintext back.
#[verifier::external_body]
fn aes256gcm_encrypt(key: &[u8], nonce: &[u8], plaintext: &[u8]) -> (r: Result<Vec<u8>, String>)
    requires
        key@.len() == 32,
        nonce@.len() == 12,
    ensures
        r is Ok <==> plaintext@.len() <= AES_GCM_MAX_PLAINTEXT,
        r matches Ok(c) ==> {
            &&& c@ == aes256gcm_sealed(key@, nonce@, plaintext@)
            &&& c@.len() == plaintext@.len() + 16
            &&& aes256gcm_opened(key@, nonce@, c@) == Some(plaintext@)
        },
{
    let cipher = aes_gcm::Aes256Gcm::new_from_slice(key).map_err(|e| e.to_string())?;
    cipher.encrypt(aes_gcm::Nonce::from_slice(nonce), plaintext).map_err(|e| e.to_string())
}

/// `Aes256Gcm::new_from_slice(key)` then `decrypt(nonce, ciphertext)`.
///
/// Trusted: the plaintext is `aes256gcm_opened`, and the call fails exactly
/// where that is `None`.
#[verifier::external_body]
fn aes256gcm_decrypt(key: &[u8], nonce: &[u8], ciphertext: &[u8]) -> (r: Result<Vec<u8>, String>)
    requires
        key@.len() == 32,
        nonce@.len() == 12,
    ensures
        match r {
            Ok(p) => aes256gcm_opened(key@, nonce@, ciphertext@) == Some(p@),
            Err(_) => aes256gcm_opened(key@, nonce@, ciphertext@) is None,
        },
{
    let cipher = aes_gcm::Aes256Gcm::new_from_slice(key).map_err(|e| e.to_string())?;
    cipher.decrypt(aes_gcm::Nonce::from_slice(nonce), ciphertext).map_err(|e| e.to_string())
}

/// `len` bytes from the operating system's generator (`OsRng::fill_bytes`).
///
/// Trusted: only the length is stated; the bytes are random. `fill_bytes`
/// panics if the operating system cannot supply randomness, which nothing
/// here can rule out.
#[verifier::external_body]
fn os_random_bytes(len: usize) -> (v: Vec<u8>)
    ensures
        v@.len() == len,
{
    let mut v = vec![0u8; len];
    aes_gcm::aead::OsRng.fill_bytes(&mut v);
    v
}

// ---------------------------------------------------------------------------
// Argon2id

/// A character allowed in a PHC salt: `[a-zA-Z0-9/+.-]`.
pub open spec fn is_salt_char(c: char) -> bool {
    ('a' <= c && c <= 'z') || ('A' <= c && c <= 'Z') || ('0' <= c && c <= '9') || c == '/'
        || c == '+' || c == '.' || c == '-'
}

/// What `SaltString::from_b64` accepts: 4 to 64 characters, each a salt
/// character.
pub open spec fn phc_salt_valid(s: Seq<char>) -> bool {
    &&& 4 <= s.len() <= 64
    &&& forall|i: int| 0 <= i < s.len() ==> is_salt_char(#[trigger] s[i])
}

/// What `argon2::Params::new(m_cost, t_cost, p_cost, Some(output_len))`
/// accepts.
pub open spec fn argon2_params_valid(m_cost: u32, t_cost: u32, p_cost: u32, output_len: usize) -> bool {
    &&& m_cost >= 8
    &&& m_cost >= 8 * p_cost
    &&& t_cost >= 1
    &&& 1 <= p_cost <= 0xFF_FFFF
    &&& 4 <= output_len <= 0xFFFF_FFFF
}

/// Raw output that Argon2id (version 0x13) computes for the cost parameters,
/// the output length, the password and the salt (given as its B64 text), as
/// `Argon2::hash_password(..)` stores it in the hash's output bytes.
pub uninterp spec fn argon2id_raw(
    m_cost: u32,
    t_cost: u32,
    p_cost: u32,
    output_len: usize,
    password: Seq<u8>,
    salt: Seq<char>,
) -> Seq<u8>;

/// What `password_hash::Salt::decode_b64` gives for a salt text: the bytes
/// that the text encodes in B64 (standard alphabet, no padding), or `None`
/// where it is not canonical B64.
pub uninterp spec fn phc_b64_decoded(salt: Seq<char>) -> Option<Seq<u8>>;

/// A salt that Argon2 hashes with: a PHC salt string that decodes to at
/// least 8 bytes (`MIN_SALT_LEN`).
pub open spec fn salt_usable(salt: Seq<char>) -> bool {
    &&& phc_salt_valid(salt)
    &&& phc_b64_decoded(salt) matches Some(b) && b.len() >= 8
}

/// Longest password, in bytes, that Argon2 accepts (`MAX_PWD_LEN`).
pub const ARGON2_MAX_PASSWORD: u64 = 0xFFFF_FFFF;

/// How an Argon2id hashing call failed.
pub enum Argon2Failure {
    /// `Params::new` refused the parameters.
    Params(String),
    /// The salt was refused: by `SaltString::from_b64`, or by hashing (it
    /// does not decode as B64, or decodes to too few bytes).
    Salt(String),
    /// Hashing failed otherwise.
    Hash(String),
}

/// `SaltString::generate(&mut OsRng).to_string()`: a fresh random salt.
///
/// Trusted: the salt is random; what is stated is that it is a PHC salt
/// string that decodes to 16 bytes (`generate` B64-encodes 16 random bytes
/// with `encode_b64`).
#[verifier::external_body]
fn salt_generate() -> (s: String)
    ensures
        phc_salt_valid(s@),
        phc_b64_decoded(s@) is Some,
        phc_b64_decoded(s@)->0.len() == 16,
{
    SaltString::generate(&mut aes_gcm::aead::OsRng).to_string()
}

/// Argon2id (version 0x13) raw output for `password` under `salt`:
/// `SaltString::from_b64`, `Params::new`, `Argon2::new(..).hash_password`,
/// then the hash's output bytes.
///
/// Trusted, for parameters that `Params::new` accepts and an output length
/// that `Output` holds (10 to 64 bytes): a refused salt is one that is not
/// `salt_usable` (`from_b64`'s length and character checks, `decode_b64`, and
/// `MIN_SALT_LEN` in `hash_password_into`), and a salt that is not usable is
/// refused whenever the password is within `MAX_PWD_LEN` (a longer password
/// is reported first when the salt decodes but is too short); the call
/// succeeds exactly where the salt is usable and the password is at most
/// `MAX_PWD_LEN` bytes, and its output is `argon2id_raw` of the arguments,
/// `output_len` bytes long. Memory is capped at `ARGON2_MEMORY_KIB`: the call
/// allocates `m_cost` KiB, and an allocation the machine cannot make aborts
/// rather than returning.
#[verifier::external_body]
fn argon2id_hash(m_cost: u32, t_cost: u32, p_cost: u32, output_len: usize, password: &[u8], salt: &str)
    -> (r: Result<Vec<u8>, Argon2Failure>)
    requires
        argon2_params_valid(m_cost, t_cost, p_cost, output_len),
        m_cost <= ARGON2_MEMORY_KIB,
        10 <= output_len <= 64,
    ensures
        r matches Err(Argon2Failure::Salt(_)) ==> !salt_usable(salt@),
        r is Ok || !(!salt_usable(salt@) && password@.len() <= ARGON2_MAX_PASSWORD) || r matches Err(Argon2Failure::Salt(_)),
        r is Ok <==> (salt_usable(salt@) && password@.len() <= ARGON2_MAX_PASSWORD),
        r is Ok || r matches Err(Argon2Failure::Salt(_)) || r matches Err(Argon2Failure::Hash(_)),
        r matches Ok(k) ==> k@ == argon2id_raw(m_cost, t_cost, p_cost, output_len, password@, salt@),
        r matches Ok(k) ==> k@.len() == output_len,
{
    let salt = SaltString::from_b64(salt).map_err(|e| Argon2Failure::Salt(e.to_string()))?;
    let params = Params::new(m_cost, t_cost, p_cost, Some(output_len)).map_err(|e| Argon2Failure::Params(e.to_string()))?;
    match Argon2::new(Algorithm::Argon2id, Version::V0x13, params).hash_password(password, &salt) {
        Ok(h) => match h.hash {
            Some(out) => Ok(out.as_bytes().to_vec()),
            None => Err(Argon2Failure::Hash(String::new())),
        },
        Err(e @ (HashError::SaltInvalid(_) | HashError::B64Encoding(_))) => Err(Argon2Failure::Salt(e.to_string())),
        Err(e) => Err(Argon2Failure::Hash(e.to_string())),
    }
}

/// The 32-byte key that `derive_key` derives from a passphrase and a salt.
pub open spec fn derived_key(passphrase: Seq<char>, salt: Seq<char>) -> Seq<u8> {
    argon2id_raw(ARGON2_MEMORY_KIB, ARGON2_ITERATIONS, ARGON2_PARALLELISM, AES_KEY_LEN, encode_utf8(passphrase), salt)
}

/// The salt `derive_key` is given accepts hashing: none (a fresh one is
/// generated) or a usable one.
pub open spec fn salt_accepted(existing_salt: Option<&str>) -> bool {
    match existing_salt {
        Some(s) => salt_usable(s@),
        None => true,
    }
}

/// Derives a 256-bit key from a passphrase with Argon2id and returns
/// `(key_hash, salt)`: the base64 of the 32-byte key, and the salt as B64
/// text. With `existing_salt` the derivation is repeatable: the same
/// passphrase and salt give the same key; without it a fresh random salt is
/// generated.
pub fn derive_key(passphrase: &str, existing_salt: Option<&str>) -> (r: Result<(String, String), CryptoError>)
    ensures
        passphrase@.len() == 0 ==> r is Err && r->Err_0 is EmptyPassphrase,
        r matches Err(CryptoError::InvalidSalt(_)) ==> !salt_accepted(existing_salt),
        passphrase@.len() > 0 && !salt_accepted(existing_salt) && encode_utf8(passphrase@).len() <= ARGON2_MAX_PASSWORD
            ==> r matches Err(CryptoError::InvalidSalt(_)),
        passphrase@.len() > 0 && !salt_accepted(existing_salt) ==> (r matches Err(CryptoError::InvalidSalt(_))
            || r matches Err(CryptoError::HashingFailed(_))),
        passphrase@.len() > 0 && salt_accepted(existing_salt) ==> (
            r is Ok <==> encode_utf8(passphrase@).len() <= ARGON2_MAX_PASSWORD),
        passphrase@.len() > 0 && salt_accepted(existing_salt) && encode_utf8(passphrase@).len() > ARGON2_MAX_PASSWORD
            ==> r matches Err(CryptoError::HashingFailed(_)),
        r matches Ok((hash, salt)) ==> {
            &&& salt_usable(salt@)
            &&& existing_salt matches Some(s) ==> salt@ == s@
            &&& derived_key(passphrase@, salt@).len() == AES_KEY_LEN
            &&& hash@ == base64_encoded(derived_key(passphrase@, salt@))
        },
        r matches Err(e) ==> (e is EmptyPassphrase || e is InvalidSalt || e is HashingFailed),
{
    if passphrase.is_empty() {
        return Err(CryptoError::EmptyPassphrase);
    }
    let salt = match existing_salt {
        Some(s) => s.to_owned(),
        None => salt_generate(),
    };
    proof {
        assert(argon2_params_valid(ARGON2_MEMORY_KIB, ARGON2_ITERATIONS, ARGON2_PARALLELISM, AES_KEY_LEN));
    }
    match argon2id_hash(ARGON2_MEMORY_KIB, ARGON2_ITERATIONS, ARGON2_PARALLELISM, AES_KEY_LEN, passphrase.as_bytes(), salt.as_str()) {
        Ok(key) => Ok((base64_encode(key.as_slice()), salt)),
        Err(Argon2Failure::Params(e)) => Err(CryptoError::InvalidParams(e)),
        Err(Argon2Failure::Salt(e)) => Err(CryptoError::InvalidSalt(e)),
        Err(Argon2Failure::Hash(e)) => Err(CryptoError::HashingFailed(e)),
    }
}

// ---------------------------------------------------------------------------
// Encryption

/// Outcome of `decrypt`, without the outside crates' error messages.
pub enum DecryptOutcome {
    Plaintext(Seq<char>),
    InvalidBase64,
    InvalidKeyLength(nat),
    InvalidNonceLength(nat),
    DecryptionFailed,
    InvalidUtf8,
}

/// What `decrypt` gives for the three base64 texts, in the order in which it
/// checks them.
pub open spec fn decrypt_outcome(ciphertext_b64: Seq<char>, nonce_b64: Seq<char>, key_b64: Seq<char>) -> DecryptOutcome {
    match (base64_decoded(key_b64), base64_decoded(ciphertext_b64), base64_decoded(nonce_b64)) {
        (Some(key), Some(ct), Some(nonce)) => {
            if key.len() != AES_KEY_LEN {
                DecryptOutcome::InvalidKeyLength(key.len())
            } else if nonce.len() != NONCE_LEN {
                DecryptOutcome::InvalidNonceLength(nonce.len())
            } else {
                match aes256gcm_opened(key, nonce, ct) {
                    None => DecryptOutcome::DecryptionFailed,
                    Some(p) => if valid_utf8(p) {
                        DecryptOutcome::Plaintext(decode_utf8(p))
                    } else {
                        DecryptOutcome::InvalidUtf8
                    },
                }
            }
        },
        _ => DecryptOutcome::InvalidBase64,
    }
}

/// Whether a `decrypt` result is the one `decrypt_outcome` describes.
pub open spec fn matches_outcome(r: Result<String, CryptoError>, o: DecryptOutcome) -> bool {
    match o {
        DecryptOutcome::Plaintext(p) => r matches Ok(s) && s@ == p,
        DecryptOutcome::InvalidBase64 => r matches Err(CryptoError::InvalidBase64(_)),
        DecryptOutcome::InvalidKeyLength(n) => r matches Err(CryptoError::InvalidKeyLength { expected, actual })
            && expected == AES_KEY_LEN && actual == n,
        DecryptOutcome::InvalidNonceLength(n) => r matches Err(CryptoError::InvalidNonceLength { expected, actual })
            && expected == NONCE_LEN && actual == n,
        DecryptOutcome::DecryptionFailed => r matches Err(CryptoError::DecryptionFailed(_)),
        DecryptOutcome::InvalidUtf8 => r matches Err(CryptoError::InvalidUtf8),
    }
}

/// Encrypts `plaintext` with AES-256-GCM under the base64 key `key_b64`,
/// with a fresh random 12-byte nonce, and returns
/// `(ciphertext_b64, nonce_b64)`. Whatever nonce was drawn, `decrypt` of the
/// two texts with the same key gives the plaintext back.
pub fn encrypt(plaintext: &str, key_b64: &str) -> (r: Result<(String, String), CryptoError>)
    ensures
        plaintext@.len() == 0 ==> r is Err && r->Err_0 is EmptyPlaintext,
        plaintext@.len() > 0 ==> match base64_decoded(key_b64@) {
            None => r matches Err(CryptoError::InvalidBase64(_)),
            Some(key) => if key.len() != AES_KEY_LEN {
                r matches Err(CryptoError::InvalidKeyLength { expected, actual })
                    && expected == AES_KEY_LEN && actual == key.len()
            } else if encode_utf8(plaintext@).len() > AES_GCM_MAX_PLAINTEXT {
                r matches Err(CryptoError::EncryptionFailed(_))
            } else {
                r is Ok
            },
        },
        r matches Ok((ct, nonce)) ==> exists|key: Seq<u8>, n: Seq<u8>| {
            &&& base64_decoded(key_b64@) == Some(key)
            &&& n.len() == NONCE_LEN
            &&& nonce@ == base64_encoded(n)
            &&& ct@ == base64_encoded(aes256gcm_sealed(key, n, encode_utf8(plaintext@)))
        },
        r matches Ok((ct, nonce)) ==> decrypt_outcome(ct@, nonce@, key_b64@) == DecryptOutcome::Plaintext(plaintext@),
        r matches Ok((ct, nonce)) ==> (base64_decoded(ct@) matches Some(c)
            && c.len() == encode_utf8(plaintext@).len() + 16),
        r matches Ok((ct, nonce)) ==> (base64_decoded(nonce@) matches Some(n) && n.len() == NONCE_LEN),
{
    if plaintext.is_empty() {
        return Err(CryptoError::EmptyPlaintext);
    }
    let key = match base64_decode(key_b64) {
        Ok(k) => k,
        Err(e) => return Err(CryptoError::InvalidBase64(join("key: ", e.as_str()))),
    };
    if key.len() != AES_KEY_LEN {
        return Err(CryptoError::InvalidKeyLength { expected: AES_KEY_LEN, actual: key.len() });
    }
    let nonce = os_random_bytes(NONCE_LEN);
    let bytes = plaintext.as_bytes();
    let ct = match aes256gcm_encrypt(key.as_slice(), nonce.as_slice(), bytes) {
        Ok(c) => c,
        Err(e) => return Err(CryptoError::EncryptionFailed(e)),
    };
    let ct_b64 = base64_encode(ct.as_slice());
    let nonce_b64 = base64_encode(nonce.as_slice());
    proof {
        let p = encode_utf8(plaintext@);
        assert(bytes@ == p);
        encode_utf8_valid_utf8(plaintext@);
        encode_utf8_decode_utf8(plaintext@);
        assert(decrypt_outcome(ct_b64@, nonce_b64@, key_b64@) == DecryptOutcome::Plaintext(plaintext@));
    }
    Ok((ct_b64, nonce_b64))
}

/// Decrypts a base64 AES-256-GCM ciphertext with a base64 nonce and key and
/// returns the plaintext text.
pub fn decrypt(ciphertext_b64: &str, nonce_b64: &str, key_b64: &str) -> (r: Result<String, CryptoError>)
    ensures
        matches_outcome(r, decrypt_outcome(ciphertext_b64@, nonce_b64@, key_b64@)),
{
    let key = match base64_decode(key_b64) {
        Ok(k) => k,
        Err(e) => return Err(CryptoError::InvalidBase64(join("key: ", e.as_str()))),
    };
    let ciphertext = match base64_decode(ciphertext_b64) {
        Ok(c) => c,
        Err(e) => return Err(CryptoError::InvalidBase64(join("ciphertext: ", e.as_str()))),
    };
    let nonce = match base64_decode(nonce_b64) {
        Ok(n) => n,
        Err(e) => return Err(CryptoError::InvalidBase64(join("nonce: ", e.as_str()))),
    };
    if key.len() != AES_KEY_LEN {
        return Err(CryptoError::InvalidKeyLength { expected: AES_KEY_LEN, actual: key.len() });
    }
    if nonce.len() != NONCE_LEN {
        return Err(CryptoError::InvalidNonceLength { expected: NONCE_LEN, actual: nonce.len() });
    }
    let plain = match aes256gcm_decrypt(key.as_slice(), nonce.as_slice(), ciphertext.as_slice()) {
        Ok(p) => p,
        Err(e) => return Err(CryptoError::DecryptionFailed(e)),
    };
    match string_from_utf8(plain) {
        Ok(s) => Ok(s),
        Err(_) => Err(CryptoError::InvalidUtf8),
    }
}

} // verus!
