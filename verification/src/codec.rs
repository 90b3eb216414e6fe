//! Byte encodings: base64 (standard alphabet, padded), UTF-8, SHA-256 and
//! lowercase hexadecimal.

use vstd::prelude::*;
use vstd::utf8::*;
use base64::Engine;
use sha2::Digest;

verus! {

/// What `base64::engine::general_purpose::STANDARD.decode` gives for a text:
/// the decoded bytes, or `None` where the text is not valid padded base64.
pub uninterp spec fn base64_decoded(text: Seq<char>) -> Option<Seq<u8>>;

/// What `base64::engine::general_purpose::STANDARD.encode` gives for bytes.
pub uninterp spec fn base64_encoded(bytes: Seq<u8>) -> Seq<char>;

/// SHA-256 digest of a byte sequence, as `sha2::Sha256::digest` computes it.
pub uninterp spec fn sha256_digest(data: Seq<u8>) -> Seq<u8>;

/// Decodes standard, padded base64 with `STANDARD.decode`.
///
/// Trusted: the decoded bytes are `base64_decoded` of the text, and the call
/// fails exactly where that is `None`; the error is the crate's message.
#[verifier::external_body]
pub fn base64_decode(text: &str) -> (r: Result<Vec<u8>, String>)
    ensures
        match r {
            Ok(bytes) => base64_decoded(text@) == Some(bytes@),
            Err(_) => base64_decoded(text@) is None,
        },
{
    base64::engine::general_purpose::STANDARD.decode(text).map_err(|e| e.to_string())
}

/// Encodes bytes as standard, padded base64 with `STANDARD.encode`.
///
/// Trusted: the text is `base64_encoded` of the bytes, and decoding it with
/// the same engine gives the bytes back (the round trip the crate documents).
/// `encode` panics only when the encoded length overflows `usize`, which
/// cannot happen for a slice: std bounds every slice to `isize::MAX` bytes.
#[verifier::external_body]
pub fn base64_encode(bytes: &[u8]) -> (text: String)
    ensures
        text@ == base64_encoded(bytes@),
        base64_decoded(text@) == Some(bytes@),
{
    base64::engine::general_purpose::STANDARD.encode(bytes)
}

/// SHA-256 of `data` with `sha2::Sha256::digest`.
///
/// Trusted: the digest is `sha256_digest` of the data and is 32 bytes long.
#[verifier::external_body]
pub fn sha256(data: &[u8]) -> (digest: Vec<u8>)
    ensures
        digest@ == sha256_digest(data@),
        digest@.len() == 32,
{
    sha2::Sha256::digest(data).to_vec()
}

/// `String::from_utf8`: the string decoded from `bytes`, or an error where
/// they are not valid UTF-8 (std's documented behaviour).
#[verifier::external_body]
pub fn string_from_utf8(bytes: Vec<u8>) -> (r: Result<String, ()>)
    ensures
        r is Ok <==> valid_utf8(bytes@),
        r matches Ok(s) ==> s@ == decode_utf8(bytes@),
{
    String::from_utf8(bytes).map_err(|_| ())
}

/// Lowercase hexadecimal digit for a nibble.
pub open spec fn hex_digit(d: u8) -> char {
    if d < 10 {
        ((d + 48) as u8) as char
    } else {
        ((d + 87) as u8) as char
    }
}

/// Lowercase hex text of bytes: two digits per byte, high nibble first
/// (the `{:x}` format of a digest).
pub open spec fn hex_lower(bytes: Seq<u8>) -> Seq<char> {
    Seq::new(
        2 * bytes.len(),
        |i: int|
            if i % 2 == 0 {
                hex_digit(bytes[i / 2] / 16)
            } else {
                hex_digit(bytes[i / 2] % 16)
            },
    )
}

fn hex_char(d: u8) -> (c: char)
    requires
        d < 16,
    ensures
        c == hex_digit(d),
{
    if d < 10 {
        (d + 48) as char
    } else {
        (d + 87) as char
    }
}

/// Lowercase hexadecimal text of `bytes`.
pub fn to_hex(bytes: &[u8]) -> (s: String)
    requires
        bytes@.len() <= usize::MAX / 2,
    ensures
        s@ == hex_lower(bytes@),
{
    let mut out: Vec<char> = Vec::new();
    let mut i: usize = 0;
    while i < bytes.len()
        invariant
            i <= bytes@.len() <= usize::MAX / 2,
            out@.len() == 2 * i,
            forall|k: int| 0 <= k < 2 * i ==> #[trigger] out@[k] == hex_lower(bytes@)[k],
        decreases bytes@.len() - i,
    {
        let b = bytes[i];
        out.push(hex_char(b / 16));
        out.push(hex_char(b % 16));
        i += 1;
    }
    proof {
        assert(out@ =~= hex_lower(bytes@));
    }
    crate::text::string_from_chars(&out)
}

} // verus!
