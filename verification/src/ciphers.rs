//! One-shot authenticated encryption over the three supported ciphers.
//!
//! The ciphers themselves come from the `aes-gcm`, `chacha20poly1305` and
//! `deoxys` crates. Each call is made in a small trusted function whose
//! contract names the bytes that the cipher returns; everything around the
//! call (choice of cipher, length checks, error mapping) is verified.

use crate::error::CryptoError;
use crate::global::enums::Algorithm;
use crate::global::{KEY_LEN, TAG_LEN};
use aead::generic_array::GenericArray;
use aead::{Aead, NewAead};
use aes_gcm::Aes256Gcm;
use chacha20poly1305::XChaCha20Poly1305;
use deoxys::DeoxysII256;
use vstd::prelude::*;

verus! {

/// The error type shared by the AEAD crates. It carries no information.
#[verifier::external_type_specification]
#[verifier::external_body]
pub struct ExAeadError(aead::Error);

/// Largest plaintext that AES-256-GCM takes, in bytes: 2^36 - 17. The
/// cipher numbers its 16-byte blocks with a 32-bit counter whose first value
/// goes to the tag, and a longer plaintext would run the counter out.
pub const AES_GCM_MAX_PLAINTEXT: u64 = 68719476719;

/// Largest input that AES-256-GCM takes for opening, in bytes: the largest
/// plaintext and its tag.
pub const AES_GCM_MAX_CIPHERTEXT: u64 = 68719476735;

/// Largest plaintext that XChaCha20-Poly1305 accepts, in bytes: one less than
/// 64 * (2^32 - 1).
pub const XCHACHA_MAX_PLAINTEXT: u64 = 274877906879;

/// What `Aes256Gcm::encrypt` returns for a 32-byte key, a 12-byte nonce and a
/// plaintext of at most [`AES_GCM_MAX_PLAINTEXT`] bytes: ciphertext followed
/// by the tag.
pub uninterp spec fn aes256gcm_sealed(key: Seq<u8>, nonce: Seq<u8>, plaintext: Seq<u8>) -> Seq<u8>;

/// What `Aes256Gcm::decrypt` returns for an input of at most
/// [`AES_GCM_MAX_CIPHERTEXT`] bytes: the plaintext, or `None` where the cipher
/// rejects the input.
pub uninterp spec fn aes256gcm_opened(key: Seq<u8>, nonce: Seq<u8>, ciphertext: Seq<u8>) -> Option<Seq<u8>>;

/// What `XChaCha20Poly1305::encrypt` returns for a 32-byte key, a 24-byte
/// nonce and a plaintext within the cipher's limit.
pub uninterp spec fn xchacha20poly1305_sealed(key: Seq<u8>, nonce: Seq<u8>, plaintext: Seq<u8>) -> Seq<u8>;

/// What `XChaCha20Poly1305::decrypt` returns.
pub uninterp spec fn xchacha20poly1305_opened(key: Seq<u8>, nonce: Seq<u8>, ciphertext: Seq<u8>) -> Option<Seq<u8>>;

/// What `DeoxysII256::encrypt` returns for a 32-byte key and a 15-byte nonce.
pub uninterp spec fn deoxys_ii_256_sealed(key: Seq<u8>, nonce: Seq<u8>, plaintext: Seq<u8>) -> Seq<u8>;

/// What `DeoxysII256::decrypt` returns.
pub uninterp spec fn deoxys_ii_256_opened(key: Seq<u8>, nonce: Seq<u8>, ciphertext: Seq<u8>) -> Option<Seq<u8>>;

/// `Aead::encrypt` of `aes_gcm::Aes256Gcm` with empty associated data.
///
/// Trusted: for a plaintext of at most 2^36 - 17 bytes the cipher returns
/// the plaintext's length plus a 16-byte tag, the bytes depend on key, nonce
/// and plaintext alone, and `Aes256Gcm::decrypt` with the same key and nonce
/// gives the plaintext back. A longer plaintext is kept from the call: up to
/// 2^36 bytes the cipher lets it through and then panics when its block
/// counter runs out.
#[verifier::external_body]
fn aes256gcm_seal(key: &[u8], nonce: &[u8], plaintext: &[u8]) -> (r: Result<Vec<u8>, aead::Error>)
    requires
        key@.len() == 32,
        nonce@.len() == 12,
        plaintext@.len() + 16 <= isize::MAX,
        plaintext@.len() <= AES_GCM_MAX_PLAINTEXT,
    ensures
        r is Ok,
        r matches Ok(c) ==> c@ == aes256gcm_sealed(key@, nonce@, plaintext@)
            && c@.len() == plaintext@.len() + 16
            && aes256gcm_opened(key@, nonce@, c@) == Some(plaintext@),
{
    Aes256Gcm::new(GenericArray::from_slice(key)).encrypt(GenericArray::from_slice(nonce), plaintext)
}

/// `Aead::decrypt` of `aes_gcm::Aes256Gcm` with empty associated data.
///
/// Trusted: the outcome depends on key, nonce and ciphertext alone, and a
/// plaintext that comes back is 16 bytes shorter than the input. An input of
/// 2^36 bytes or more is kept from the call: with a matching tag the cipher
/// would panic on it when its block counter runs out.
#[verifier::external_body]
fn aes256gcm_open(key: &[u8], nonce: &[u8], ciphertext: &[u8]) -> (r: Result<Vec<u8>, aead::Error>)
    requires
        key@.len() == 32,
        nonce@.len() == 12,
        ciphertext@.len() <= AES_GCM_MAX_CIPHERTEXT,
    ensures
        r is Ok <==> aes256gcm_opened(key@, nonce@, ciphertext@) is Some,
        r matches Ok(p) ==> aes256gcm_opened(key@, nonce@, ciphertext@) == Some(p@)
            && p@.len() + 16 == ciphertext@.len(),
{
    Aes256Gcm::new(GenericArray::from_slice(key)).decrypt(GenericArray::from_slice(nonce), ciphertext)
}

/// `Aead::encrypt` of `chacha20poly1305::XChaCha20Poly1305` with empty
/// associated data.
///
/// Trusted: the cipher refuses exactly the plaintexts of 64 * (2^32 - 1) bytes
/// or more; otherwise it returns the plaintext's length plus a 16-byte tag,
/// the bytes depend on key, nonce and plaintext alone, and
/// `XChaCha20Poly1305::decrypt` with the same key and nonce gives the
/// plaintext back.
#[verifier::external_body]
fn xchacha20poly1305_seal(key: &[u8], nonce: &[u8], plaintext: &[u8]) -> (r: Result<Vec<u8>, aead::Error>)
    requires
        key@.len() == 32,
        nonce@.len() == 24,
        plaintext@.len() + 16 <= isize::MAX,
    ensures
        r is Ok <==> plaintext@.len() <= XCHACHA_MAX_PLAINTEXT,
        r matches Ok(c) ==> c@ == xchacha20poly1305_sealed(key@, nonce@, plaintext@)
            && c@.len() == plaintext@.len() + 16
            && xchacha20poly1305_opened(key@, nonce@, c@) == Some(plaintext@),
{
    XChaCha20Poly1305::new(GenericArray::from_slice(key)).encrypt(GenericArray::from_slice(nonce), plaintext)
}

/// `Aead::decrypt` of `chacha20poly1305::XChaCha20Poly1305` with empty
/// associated data.
///
/// Trusted: the outcome depends on key, nonce and ciphertext alone, and a
/// plaintext that comes back is 16 bytes shorter than the input.
#[verifier::external_body]
fn xchacha20poly1305_open(key: &[u8], nonce: &[u8], ciphertext: &[u8]) -> (r: Result<Vec<u8>, aead::Error>)
    requires
        key@.len() == 32,
        nonce@.len() == 24,
    ensures
        r is Ok <==> xchacha20poly1305_opened(key@, nonce@, ciphertext@) is Some,
        r matches Ok(p) ==> xchacha20poly1305_opened(key@, nonce@, ciphertext@) == Some(p@)
            && p@.len() + 16 == ciphertext@.len(),
{
    XChaCha20Poly1305::new(GenericArray::from_slice(key)).decrypt(GenericArray::from_slice(nonce), ciphertext)
}

/// `Aead::encrypt` of `deoxys::DeoxysII256` with empty associated data.
///
/// Trusted: the cipher refuses no plaintext; it returns the plaintext's length
/// plus a 16-byte tag, the bytes depend on key, nonce and plaintext alone, and
/// `DeoxysII256::decrypt` with the same key and nonce gives the plaintext
/// back.
#[verifier::external_body]
fn deoxys_ii_256_seal(key: &[u8], nonce: &[u8], plaintext: &[u8]) -> (r: Result<Vec<u8>, aead::Error>)
    requires
        key@.len() == 32,
        nonce@.len() == 15,
        plaintext@.len() + 16 <= isize::MAX,
    ensures
        r is Ok,
        r matches Ok(c) ==> c@ == deoxys_ii_256_sealed(key@, nonce@, plaintext@)
            && c@.len() == plaintext@.len() + 16
            && deoxys_ii_256_opened(key@, nonce@, c@) == Some(plaintext@),
{
    DeoxysII256::new(GenericArray::from_slice(key)).encrypt(GenericArray::from_slice(nonce), plaintext)
}

/// `Aead::decrypt` of `deoxys::DeoxysII256` with empty associated data.
///
/// Trusted: the outcome depends on key, nonce and ciphertext alone, and a
/// plaintext that comes back is 16 bytes shorter than the input.
#[verifier::external_body]
fn deoxys_ii_256_open(key: &[u8], nonce: &[u8], ciphertext: &[u8]) -> (r: Result<Vec<u8>, aead::Error>)
    requires
        key@.len() == 32,
        nonce@.len() == 15,
    ensures
        r is Ok <==> deoxys_ii_256_opened(key@, nonce@, ciphertext@) is Some,
        r matches Ok(p) ==> deoxys_ii_256_opened(key@, nonce@, ciphertext@) == Some(p@)
            && p@.len() + 16 == ciphertext@.len(),
{
    DeoxysII256::new(GenericArray::from_slice(key)).decrypt(GenericArray::from_slice(nonce), ciphertext)
}

/// Length in bytes of the nonce that `algorithm` takes.
pub open spec fn spec_nonce_len(algorithm: Algorithm) -> usize {
    match algorithm {
        Algorithm::Aes256Gcm => 12,
        Algorithm::XChaCha20Poly1305 => 24,
        Algorithm::DeoxysII256 => 15,
    }
}

/// Length in bytes of the nonce that `algorithm` takes.
#[verifier::when_used_as_spec(spec_nonce_len)]
pub fn nonce_len(algorithm: Algorithm) -> (n: usize)
    ensures
        n == spec_nonce_len(algorithm),
{
    match algorithm {
        Algorithm::Aes256Gcm => 12,
        Algorithm::XChaCha20Poly1305 => 24,
        Algorithm::DeoxysII256 => 15,
    }
}

/// Whether a plaintext of `len` bytes can be sealed by `algorithm`: it is
/// within the cipher's own limit, and plaintext and tag together fit in one
/// allocation.
pub open spec fn sealable(algorithm: Algorithm, len: nat) -> bool {
    &&& len + TAG_LEN <= isize::MAX
    &&& match algorithm {
        Algorithm::Aes256Gcm => len <= AES_GCM_MAX_PLAINTEXT,
        Algorithm::XChaCha20Poly1305 => len <= XCHACHA_MAX_PLAINTEXT,
        Algorithm::DeoxysII256 => true,
    }
}

/// The bytes that sealing `plaintext` under `key` and `nonce` yields.
pub open spec fn sealed(algorithm: Algorithm, key: Seq<u8>, nonce: Seq<u8>, plaintext: Seq<u8>) -> Seq<u8> {
    match algorithm {
        Algorithm::Aes256Gcm => aes256gcm_sealed(key, nonce, plaintext),
        Algorithm::XChaCha20Poly1305 => xchacha20poly1305_sealed(key, nonce, plaintext),
        Algorithm::DeoxysII256 => deoxys_ii_256_sealed(key, nonce, plaintext),
    }
}

/// The plaintext that opening `ciphertext` under `key` and `nonce` yields, or
/// `None` where the cipher rejects it.
pub open spec fn opened(algorithm: Algorithm, key: Seq<u8>, nonce: Seq<u8>, ciphertext: Seq<u8>) -> Option<Seq<u8>> {
    match algorithm {
        Algorithm::Aes256Gcm => aes256gcm_opened(key, nonce, ciphertext),
        Algorithm::XChaCha20Poly1305 => xchacha20poly1305_opened(key, nonce, ciphertext),
        Algorithm::DeoxysII256 => deoxys_ii_256_opened(key, nonce, ciphertext),
    }
}

/// Whether an input of `len` bytes can be what `algorithm` sealed: it holds
/// a tag and is no longer than the largest plaintext with its tag.
pub open spec fn openable(algorithm: Algorithm, len: nat) -> bool {
    &&& len >= TAG_LEN
    &&& algorithm == Algorithm::Aes256Gcm ==> len <= AES_GCM_MAX_CIPHERTEXT
}

/// Whether an input of `len` bytes can be what `algorithm` sealed.
pub fn can_open(algorithm: Algorithm, len: usize) -> (b: bool)
    ensures
        b == openable(algorithm, len as nat),
{
    len >= TAG_LEN && match algorithm {
        Algorithm::Aes256Gcm => len as u64 <= AES_GCM_MAX_CIPHERTEXT,
        _ => true,
    }
}

/// The plaintext that `ciphertext` stands for under `key` and `nonce`: `None`
/// where it is too short or too long to have been sealed, or the cipher
/// rejects it.
pub open spec fn unsealed(algorithm: Algorithm, key: Seq<u8>, nonce: Seq<u8>, ciphertext: Seq<u8>) -> Option<
    Seq<u8>,
> {
    if openable(algorithm, ciphertext.len()) {
        opened(algorithm, key, nonce, ciphertext)
    } else {
        None
    }
}

/// `ciphertext` is what `algorithm` makes of `plaintext` under `key` and
/// `nonce`, and opens back to it.
pub open spec fn seals_to(
    algorithm: Algorithm,
    key: Seq<u8>,
    nonce: Seq<u8>,
    plaintext: Seq<u8>,
    ciphertext: Seq<u8>,
) -> bool {
    &&& ciphertext == sealed(algorithm, key, nonce, plaintext)
    &&& ciphertext.len() == plaintext.len() + TAG_LEN
    &&& unsealed(algorithm, key, nonce, ciphertext) == Some(plaintext)
}

/// Sealing `plaintext` under `key` and `nonce` yields 16 bytes more than the
/// plaintext, and what it yields opens back to the plaintext.
pub open spec fn reopens(algorithm: Algorithm, key: Seq<u8>, nonce: Seq<u8>, plaintext: Seq<u8>) -> bool {
    seals_to(algorithm, key, nonce, plaintext, sealed(algorithm, key, nonce, plaintext))
}

/// Whether a plaintext of `len` bytes can be sealed by `algorithm`.
pub fn can_seal(algorithm: Algorithm, len: usize) -> (b: bool)
    ensures
        b == sealable(algorithm, len as nat),
{
    len <= (usize::MAX / 2) - TAG_LEN && match algorithm {
        Algorithm::Aes256Gcm => len as u64 <= AES_GCM_MAX_PLAINTEXT,
        Algorithm::XChaCha20Poly1305 => len as u64 <= XCHACHA_MAX_PLAINTEXT,
        Algorithm::DeoxysII256 => true,
    }
}

/// Seals `plaintext` in one shot and returns ciphertext followed by the
/// 16-byte tag.
///
/// Fails with `AeadFailure`, and returns nothing, when the key is not 32
/// bytes, the nonce does not have the algorithm's length or the plaintext is
/// not [`sealable`].
pub fn encrypt(algorithm: Algorithm, key: &[u8], nonce: &[u8], plaintext: &[u8]) -> (r: Result<
    Vec<u8>,
    CryptoError,
>)
    ensures
        r is Ok <==> key@.len() == KEY_LEN && nonce@.len() == nonce_len(algorithm) && sealable(
            algorithm,
            plaintext@.len(),
        ),
        r matches Ok(c) ==> seals_to(algorithm, key@, nonce@, plaintext@, c@),
        r matches Err(e) ==> e == CryptoError::AeadFailure,
{
    if key.len() != KEY_LEN || nonce.len() != nonce_len(algorithm) || !can_seal(
        algorithm,
        plaintext.len(),
    ) {
        return Err(CryptoError::AeadFailure);
    }
    let sealed = match algorithm {
        Algorithm::Aes256Gcm => aes256gcm_seal(key, nonce, plaintext),
        Algorithm::XChaCha20Poly1305 => xchacha20poly1305_seal(key, nonce, plaintext),
        Algorithm::DeoxysII256 => deoxys_ii_256_seal(key, nonce, plaintext),
    };
    match sealed {
        Ok(ciphertext) => Ok(ciphertext),
        Err(_) => Err(CryptoError::AeadFailure),
    }
}

/// Opens `ciphertext` (ciphertext followed by tag) in one shot and returns
/// the plaintext.
///
/// Fails with `AeadFailure` when the key is not 32 bytes or the nonce does not
/// have the algorithm's length, and with `AuthenticationFailure` when the
/// input is shorter than the tag, longer than anything the cipher can have
/// sealed, or rejected by the cipher.
pub fn decrypt(algorithm: Algorithm, key: &[u8], nonce: &[u8], ciphertext: &[u8]) -> (r: Result<
    Vec<u8>,
    CryptoError,
>)
    ensures
        r is Ok <==> key@.len() == KEY_LEN && nonce@.len() == nonce_len(algorithm) && unsealed(
            algorithm,
            key@,
            nonce@,
            ciphertext@,
        ) is Some,
        r matches Ok(p) ==> unsealed(algorithm, key@, nonce@, ciphertext@) == Some(p@) && p@.len()
            + TAG_LEN == ciphertext@.len(),
        r matches Err(e) ==> e == (if key@.len() == KEY_LEN && nonce@.len() == nonce_len(
            algorithm,
        ) {
            CryptoError::AuthenticationFailure
        } else {
            CryptoError::AeadFailure
        }),
{
    if key.len() != KEY_LEN || nonce.len() != nonce_len(algorithm) {
        return Err(CryptoError::AeadFailure);
    }
    if !can_open(algorithm, ciphertext.len()) {
        return Err(CryptoError::AuthenticationFailure);
    }
    let opened = match algorithm {
        Algorithm::Aes256Gcm => aes256gcm_open(key, nonce, ciphertext),
        Algorithm::XChaCha20Poly1305 => xchacha20poly1305_open(key, nonce, ciphertext),
        Algorithm::DeoxysII256 => deoxys_ii_256_open(key, nonce, ciphertext),
    };
    match opened {
        Ok(plaintext) => Ok(plaintext),
        Err(_) => Err(CryptoError::AuthenticationFailure),
    }
}

} // verus!
