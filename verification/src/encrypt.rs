//! Encryption: the memory-mode and stream-mode pipelines, and the writer of
//! the earlier text format.

pub mod crypto;
pub mod pipeline;

use crate::ciphers::{encrypt, sealable, sealed};
use crate::error::CryptoError;
use crate::global::enums::Algorithm;
use crate::key::gen_nonce;
use crate::secret::Secret;
use core::num::NonZeroU32;
use vstd::prelude::*;

verus! {

/// A file of the earlier text format: salt, nonce and ciphertext, each in
/// base64 with the standard alphabet and padding.
#[derive(Debug)]
pub struct DexiosFile {
    pub salt: String,
    pub nonce: String,
    pub data: String,
}

/// Length of the salt of the text format.
pub const TEXT_SALT_LEN: usize = 256;

/// Length of the nonce of the text format.
pub const TEXT_NONCE_LEN: usize = 12;

/// Number of PBKDF2 iterations of the text format.
pub const TEXT_ITERATIONS: u32 = 122880;

/// Longest secret, in bytes, that PBKDF2 with HMAC-SHA512 takes: 2^61 - 1,
/// the longest input whose length in bits the hash can count.
pub const PBKDF2_MAX_SECRET: u64 = 2305843009213693951;

/// The 32 bytes that PBKDF2 with HMAC-SHA512 derives from a secret and a
/// salt in the given number of iterations.
pub uninterp spec fn pbkdf2_hmac_sha512(iterations: u32, salt: Seq<u8>, secret: Seq<u8>) -> Seq<u8>;

/// `bytes` in base64 with the standard alphabet and padding.
pub uninterp spec fn base64_text(bytes: Seq<u8>) -> Seq<char>;

/// `ring::pbkdf2::derive` with `PBKDF2_HMAC_SHA512` into 32 bytes.
///
/// Trusted: the key depends on iterations, salt and secret alone and has 32
/// bytes. `ring` panics on a secret or a salt whose length in bits the hash
/// cannot count; the salt handed over has the 256 bytes of the text format,
/// the secret at most 2^61 - 1 bytes, and the iteration count is not zero.
#[verifier::external_body]
fn pbkdf2_derive(iterations: u32, salt: &[u8], secret: &[u8]) -> (key: Vec<u8>)
    requires
        iterations > 0,
        salt@.len() == TEXT_SALT_LEN,
        secret@.len() <= PBKDF2_MAX_SECRET,
    ensures
        key@ == pbkdf2_hmac_sha512(iterations, salt@, secret@),
        key@.len() == 32,
{
    let mut key = vec![0u8; 32];
    ring::pbkdf2::derive(
        ring::pbkdf2::PBKDF2_HMAC_SHA512,
        NonZeroU32::new(iterations).unwrap(),
        salt,
        secret,
        &mut key,
    );
    key
}

/// `base64::encode`.
///
/// Trusted: the text depends on the bytes alone.
#[verifier::external_body]
fn base64_encode(bytes: &[u8]) -> (text: String)
    ensures
        text@ == base64_text(bytes@),
{
    base64::encode(bytes)
}

/// The three texts of the file that the text format makes of `data`.
pub open spec fn text_file(data: Seq<u8>, raw_key: Seq<u8>, salt: Seq<u8>, nonce: Seq<u8>) -> (
    Seq<char>,
    Seq<char>,
    Seq<char>,
) {
    (
        base64_text(salt),
        base64_text(nonce),
        base64_text(
            sealed(
                Algorithm::Aes256Gcm,
                pbkdf2_hmac_sha512(TEXT_ITERATIONS, salt, raw_key),
                nonce,
                data,
            ),
        ),
    )
}

/// Why the text format makes no file of a plaintext, a raw key, a salt and a
/// nonce of these lengths, if it makes none.
pub open spec fn text_file_failure(data_len: nat, raw_key_len: nat, salt_len: nat, nonce_len: nat) -> Option<
    CryptoError,
> {
    if raw_key_len == 0 || salt_len != TEXT_SALT_LEN || nonce_len != TEXT_NONCE_LEN {
        Some(CryptoError::UsageFailure)
    } else if raw_key_len > PBKDF2_MAX_SECRET {
        Some(CryptoError::KdfFailure)
    } else if !sealable(Algorithm::Aes256Gcm, data_len) {
        Some(CryptoError::AeadFailure)
    } else {
        None
    }
}

/// Encrypts `data` into the text format under the given salt and nonce: the
/// key is PBKDF2-HMAC-SHA512 of the raw key over the salt, the cipher is
/// AES-256-GCM, and salt, nonce and ciphertext are stored in base64.
///
/// Fails with `UsageFailure` where the raw key is empty, the salt is not 256
/// bytes or the nonce not 12 bytes long; with `KdfFailure` where the raw key
/// is longer than [`PBKDF2_MAX_SECRET`], which the key derivation cannot
/// take; and with `AeadFailure` where the cipher cannot take the plaintext.
pub fn encrypt_file_with(data: &[u8], raw_key: &Secret, salt: &[u8], nonce: &[u8]) -> (r: Result<
    DexiosFile,
    CryptoError,
>)
    ensures
        r is Ok <==> text_file_failure(data@.len(), raw_key@.len(), salt@.len(), nonce@.len())
            is None,
        r matches Ok(file) ==> (file.salt@, file.nonce@, file.data@) == text_file(
            data@,
            raw_key@,
            salt@,
            nonce@,
        ),
        r matches Err(e) ==> text_file_failure(
            data@.len(),
            raw_key@.len(),
            salt@.len(),
            nonce@.len(),
        ) == Some(e),
{
    if raw_key.expose().len() == 0 || salt.len() != TEXT_SALT_LEN || nonce.len()
        != TEXT_NONCE_LEN {
        return Err(CryptoError::UsageFailure);
    }
    if raw_key.expose().len() as u64 > PBKDF2_MAX_SECRET {
        return Err(CryptoError::KdfFailure);
    }
    let key = Secret::new(pbkdf2_derive(TEXT_ITERATIONS, salt, raw_key.expose().as_slice()));
    let encrypted_bytes = match encrypt(Algorithm::Aes256Gcm, key.expose().as_slice(), nonce, data) {
        Ok(bytes) => bytes,
        Err(e) => {
            return Err(e);
        },
    };
    Ok(
        DexiosFile {
            salt: base64_encode(salt),
            nonce: base64_encode(nonce),
            data: base64_encode(encrypted_bytes.as_slice()),
        },
    )
}

/// Encrypts `data` into the text format with a fresh random salt and nonce.
///
/// What comes back is what [`encrypt_file_with`] makes of some salt of 256
/// and some nonce of 12 bytes. It fails with `UsageFailure` where the raw key
/// is empty, with `KdfFailure` where it is longer than
/// [`PBKDF2_MAX_SECRET`], with `AeadFailure` where the cipher cannot take the
/// plaintext, and in no other case.
pub fn encrypt_file(data: &[u8], raw_key: &Secret) -> (r: Result<DexiosFile, CryptoError>)
    ensures
        r is Ok <==> text_file_failure(
            data@.len(),
            raw_key@.len(),
            TEXT_SALT_LEN as nat,
            TEXT_NONCE_LEN as nat,
        ) is None,
        r matches Ok(file) ==> exists|salt: Seq<u8>, nonce: Seq<u8>|
            salt.len() == TEXT_SALT_LEN && nonce.len() == TEXT_NONCE_LEN && (
                file.salt@,
                file.nonce@,
                file.data@,
            ) == #[trigger] text_file(data@, raw_key@, salt, nonce),
        r matches Err(e) ==> text_file_failure(
            data@.len(),
            raw_key@.len(),
            TEXT_SALT_LEN as nat,
            TEXT_NONCE_LEN as nat,
        ) == Some(e),
{
    let salt = gen_nonce(TEXT_SALT_LEN);
    let nonce = gen_nonce(TEXT_NONCE_LEN);
    encrypt_file_with(data, raw_key, salt.as_slice(), nonce.as_slice())
}

} // verus!
