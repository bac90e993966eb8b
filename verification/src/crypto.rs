use vstd::prelude::*;
use aes_gcm::aead::{Aead, KeyInit};
use aes_gcm::{Aes256Gcm, Key, Nonce};
use base64::engine::general_purpose;
use base64::Engine;
use rand::RngCore;
use crate::encoding::{base64_encoded, base64_decoded};

verus! {

/// `base64::DecodeError`, returned opaque by `b64_decode`.
#[verifier::external_type_specification]
#[verifier::external_body]
pub struct ExDecodeError(base64::DecodeError);

/// `aes_gcm::Error` (the `aead` error), returned opaque by the cipher wrappers.
#[verifier::external_type_specification]
#[verifier::external_body]
pub struct ExAeadError(aes_gcm::Error);

/// `rand::Error`, the random source's error, returned opaque by `fill_random`.
#[verifier::external_type_specification]
#[verifier::external_body]
pub struct ExRandError(rand::Error);

/// Calls `base64::engine::general_purpose::STANDARD.encode`. Claimed: the text is the
/// standard, padded base64 of the bytes (RFC 4648, section 4), as `base64_encoded` spells it
/// out. The call panics when the encoded length overflows `usize`; `requires` keeps well
/// below.
#[verifier::external_body]
pub(crate) fn b64_encode(bytes: &[u8]) -> (t: String)
    requires
        bytes@.len() <= usize::MAX / 2,
    ensures
        t@ == base64_encoded(bytes@),
{
    general_purpose::STANDARD.encode(bytes)
}

/// Calls `base64::engine::general_purpose::STANDARD.decode`. Claimed: that engine accepts
/// exactly the canonical, padded texts (padding required, no trailing bits), so it succeeds
/// exactly when the text is `base64_encoded` of some bytes, and then returns those bytes.
#[verifier::external_body]
pub(crate) fn b64_decode(text: &str) -> (r: Result<Vec<u8>, base64::DecodeError>)
    ensures
        match r {
            Ok(b) => base64_encoded(b@) == text@,
            Err(_) => base64_decoded(text@) is None,
        },
{
    general_purpose::STANDARD.decode(text)
}

/// Calls `serde_json::Error::custom` (of `serde::de::Error`) with a decode error, which
/// makes a JSON error holding its message. Nothing is claimed of the error value.
#[verifier::external_body]
pub(crate) fn json_error_from_decode(e: base64::DecodeError) -> serde_json::Error {
    <serde_json::Error as serde::de::Error>::custom(e)
}

/// What PBKDF2 with HMAC-SHA256 derives, as 32 bytes, from a password, a salt and a number
/// of rounds.
pub uninterp spec fn pbkdf2_sha256(password: Seq<u8>, salt: Seq<u8>, rounds: u32) -> Seq<u8>;

/// Calls `pbkdf2::pbkdf2_hmac_array::<sha2::Sha256, 32>`. Claimed: the key is a function of
/// the arguments, named `pbkdf2_sha256`, and is 32 bytes long (the array's length).
#[verifier::external_body]
pub(crate) fn pbkdf2_key(password: &[u8], salt: &[u8], rounds: u32) -> (k: Vec<u8>)
    ensures
        k@ == pbkdf2_sha256(password@, salt@, rounds),
        k@.len() == 32,
{
    pbkdf2::pbkdf2_hmac_array::<sha2::Sha256, 32>(password, salt, rounds).to_vec()
}

/// What AES-256-GCM (no associated data) encrypts a plaintext to under a key and a nonce:
/// the ciphertext followed by the tag.
pub uninterp spec fn aes256gcm_seal(key: Seq<u8>, nonce: Seq<u8>, plaintext: Seq<u8>) -> Seq<u8>;

/// What AES-256-GCM (no associated data) decrypts a ciphertext with its tag to, if the tag
/// checks out.
pub uninterp spec fn aes256gcm_open(key: Seq<u8>, nonce: Seq<u8>, ciphertext: Seq<u8>) -> Option<Seq<u8>>;

/// The most plaintext bytes AES-256-GCM takes (`aes_gcm::P_MAX`).
pub open spec fn aes_gcm_max_plaintext() -> int {
    0x10_0000_0000
}

/// Calls `Aes256Gcm::new(key).encrypt(Nonce::from_slice(nonce), plaintext)`. Claimed, from
/// the crate's source: it fails exactly when the plaintext is longer than `P_MAX` (2^36
/// bytes); otherwise the result is named `aes256gcm_seal`, is 16 bytes (the tag) longer than
/// the plaintext, and decrypting it with the same key and nonce gives the plaintext back.
/// The key and nonce slices must have the cipher's lengths, else `from_slice` panics.
#[verifier::external_body]
pub(crate) fn aes256gcm_encrypt(key: &[u8], nonce: &[u8], plaintext: &[u8]) -> (r: Result<
    Vec<u8>,
    aes_gcm::Error,
>)
    requires
        key@.len() == 32,
        nonce@.len() == 12,
    ensures
        r is Ok <==> plaintext@.len() <= aes_gcm_max_plaintext(),
        r matches Ok(c) ==> {
            &&& c@ == aes256gcm_seal(key@, nonce@, plaintext@)
            &&& c@.len() == plaintext@.len() + 16
            &&& aes256gcm_open(key@, nonce@, c@) == Some(plaintext@)
        },
{
    Aes256Gcm::new(Key::<Aes256Gcm>::from_slice(key)).encrypt(Nonce::from_slice(nonce), plaintext)
}

/// Calls `Aes256Gcm::new(key).decrypt(Nonce::from_slice(nonce), ciphertext)`. Claimed: it
/// succeeds exactly when `aes256gcm_open` holds a value, and then returns it. The key and
/// nonce slices must have the cipher's lengths, else `from_slice` panics.
#[verifier::external_body]
pub(crate) fn aes256gcm_decrypt(key: &[u8], nonce: &[u8], ciphertext: &[u8]) -> (r: Result<
    Vec<u8>,
    aes_gcm::Error,
>)
    requires
        key@.len() == 32,
        nonce@.len() == 12,
    ensures
        match r {
            Ok(p) => aes256gcm_open(key@, nonce@, ciphertext@) == Some(p@),
            Err(_) => aes256gcm_open(key@, nonce@, ciphertext@) is None,
        },
{
    Aes256Gcm::new(Key::<Aes256Gcm>::from_slice(key)).decrypt(Nonce::from_slice(nonce), ciphertext)
}

/// Calls `to_string` on an AEAD error. Claimed, from `aead`'s `Display` impl: the text is
/// `aead::Error`.
#[verifier::external_body]
pub(crate) fn aead_error_text(e: &aes_gcm::Error) -> (s: String)
    ensures
        s@ == "aead::Error"@,
{
    e.to_string()
}

/// Calls `rand::rngs::OsRng.try_fill_bytes` (the operating system's random source, through
/// `getrandom`) on the buffer. The bytes are random, so only that the buffer keeps its
/// length is claimed; the call gives the source's error instead of panicking when the source
/// fails.
#[verifier::external_body]
pub(crate) fn fill_random(buf: &mut Vec<u8>) -> (r: Result<(), rand::Error>)
    ensures
        final(buf)@.len() == old(buf)@.len(),
{
    rand::rngs::OsRng.try_fill_bytes(buf.as_mut_slice())
}

} // verus!
