//! Key derivation and the random values that go with it.
//!
//! A raw key (a password or the contents of a keyfile) becomes a 32-byte key
//! through Argon2id. The cost settings are fixed per header version, so a
//! header alone tells a reader how to derive the key again.

use crate::ciphers::nonce_len;
use crate::error::CryptoError;
use crate::global::enums::{Algorithm, CipherMode, HeaderVersion};
use crate::global::{KEY_LEN, SALT_LEN};
use crate::secret::Secret;
use rand::prelude::StdRng;
use rand::{RngCore, SeedableRng};
use vstd::prelude::*;

verus! {

/// The error type of the `argon2` crate.
#[verifier::external_type_specification]
#[verifier::external_body]
pub struct ExArgon2Error(argon2::Error);

/// Argon2id cost settings.
#[derive(Clone, Copy, Debug, PartialEq, Eq, Structural)]
pub struct KdfParams {
    /// Memory in KiB.
    pub memory_kib: u32,
    /// Number of passes over the memory.
    pub iterations: u32,
    /// Number of lanes.
    pub parallelism: u32,
}

/// The cost settings that belong to each header version.
pub open spec fn spec_kdf_params(version: HeaderVersion) -> KdfParams {
    match version {
        HeaderVersion::V1 => KdfParams { memory_kib: 8192, iterations: 8, parallelism: 4 },
        HeaderVersion::V2 => KdfParams { memory_kib: 8192, iterations: 10, parallelism: 4 },
        HeaderVersion::V3 => KdfParams { memory_kib: 12288, iterations: 8, parallelism: 4 },
    }
}

/// The cost settings that belong to each header version.
#[verifier::when_used_as_spec(spec_kdf_params)]
pub fn kdf_params(version: HeaderVersion) -> (p: KdfParams)
    ensures
        p == spec_kdf_params(version),
{
    match version {
        HeaderVersion::V1 => KdfParams { memory_kib: 8192, iterations: 8, parallelism: 4 },
        HeaderVersion::V2 => KdfParams { memory_kib: 8192, iterations: 10, parallelism: 4 },
        HeaderVersion::V3 => KdfParams { memory_kib: 12288, iterations: 8, parallelism: 4 },
    }
}

/// Longest password, in bytes, that Argon2 takes: 2^32 - 1.
pub const ARGON2_MAX_PASSWORD: usize = 0xFFFF_FFFF;

/// Whether the `argon2` crate takes a password and a salt of these lengths
/// under these costs: the memory is 8 KiB for each lane at the least and
/// 2^28 - 1 KiB at the most, there is a pass at the least, there are between
/// 1 and 2^24 - 1 lanes, the password has at most 2^32 - 1 bytes and the salt
/// between 8 and 2^32 - 1.
pub open spec fn argon2_accepts(
    password_len: nat,
    salt_len: nat,
    memory_kib: u32,
    iterations: u32,
    parallelism: u32,
) -> bool {
    &&& 8 <= memory_kib <= 0x0FFF_FFFF
    &&& iterations >= 1
    &&& 1 <= parallelism <= 0xFF_FFFF
    &&& memory_kib >= 8 * parallelism
    &&& password_len <= ARGON2_MAX_PASSWORD
    &&& 8 <= salt_len <= 0xFFFF_FFFF
}

/// The 32 bytes that Argon2id (version 0x13) derives from a password and a
/// salt under the given costs, or `None` where the `argon2` crate reports
/// failure.
pub uninterp spec fn argon2id_derived(
    password: Seq<u8>,
    salt: Seq<u8>,
    memory_kib: u32,
    iterations: u32,
    parallelism: u32,
) -> Option<Seq<u8>>;

/// `Argon2::hash_password_into` of the `argon2` crate, for Argon2id version
/// 0x13 with a 32-byte output and parameters built by `Params::new`.
///
/// Trusted: the outcome depends on the five arguments alone; a key derives
/// exactly where costs and lengths are within the bounds that the crate
/// checks, as [`argon2_accepts`] spells them out; and a key that comes back
/// has 32 bytes.
#[verifier::external_body]
fn argon2id(password: &[u8], salt: &[u8], memory_kib: u32, iterations: u32, parallelism: u32) -> (r:
    Result<Vec<u8>, argon2::Error>)
    ensures
        r is Ok <==> argon2id_derived(password@, salt@, memory_kib, iterations, parallelism) is Some,
        r is Ok <==> argon2_accepts(
            password@.len(),
            salt@.len(),
            memory_kib,
            iterations,
            parallelism,
        ),
        r matches Ok(k) ==> argon2id_derived(password@, salt@, memory_kib, iterations, parallelism)
            == Some(k@) && k@.len() == 32,
{
    let params = argon2::Params::new(memory_kib, iterations, parallelism, Some(32))?;
    let mut key = vec![0u8; 32];
    argon2::Argon2::new(argon2::Algorithm::Argon2id, argon2::Version::V0x13, params)
        .hash_password_into(password, salt, &mut key)?;
    Ok(key)
}

/// `RngCore::fill_bytes` on a `StdRng` that `SeedableRng::from_entropy` has
/// seeded from the operating system.
///
/// Trusted: the buffer that comes back has the length asked for. Nothing is
/// said of its contents. The `rand` crate panics when the operating system
/// cannot supply entropy.
#[verifier::external_body]
fn random_bytes(len: usize) -> (bytes: Vec<u8>)
    ensures
        bytes@.len() == len,
{
    let mut bytes = vec![0u8; len];
    StdRng::from_entropy().fill_bytes(&mut bytes);
    bytes
}

/// The key that `raw_key` and `salt` derive under the settings of `version`.
pub open spec fn derived_key(raw_key: Seq<u8>, salt: Seq<u8>, version: HeaderVersion) -> Option<
    Seq<u8>,
> {
    let p = spec_kdf_params(version);
    argon2id_derived(raw_key, salt, p.memory_kib, p.iterations, p.parallelism)
}

/// Derives the 32-byte key from `raw_key` and `salt` with the settings that
/// `version` selects. The raw key is consumed and wiped.
///
/// Fails with `KdfFailure` exactly when Argon2id reports failure, which it
/// does for a raw key of more than [`ARGON2_MAX_PASSWORD`] bytes and for no
/// other.
pub fn argon2_hash(raw_key: Secret, salt: &[u8; 16], version: &HeaderVersion) -> (r: Result<
    Secret,
    CryptoError,
>)
    ensures
        r is Ok <==> derived_key(raw_key@, salt@, *version) is Some,
        r is Ok <==> raw_key@.len() <= ARGON2_MAX_PASSWORD,
        r matches Ok(key) ==> derived_key(raw_key@, salt@, *version) == Some(key@) && key@.len()
            == KEY_LEN,
        r matches Err(e) ==> e == CryptoError::KdfFailure,
{
    let p = kdf_params(*version);
    let derived = argon2id(
        raw_key.expose().as_slice(),
        salt.as_slice(),
        p.memory_kib,
        p.iterations,
        p.parallelism,
    );
    match derived {
        Ok(key) => Ok(Secret::new(key)),
        Err(_) => Err(CryptoError::KdfFailure),
    }
}

/// A fresh random salt: [`salt_from`] of sixteen bytes drawn at random.
pub fn gen_salt() -> (salt: [u8; 16])
    ensures
        salt@.len() == SALT_LEN,
{
    let bytes = random_bytes(SALT_LEN);
    salt_from(bytes.as_slice())
}

/// The salt that holds the sixteen bytes of `bytes`, in their order.
pub fn salt_from(bytes: &[u8]) -> (salt: [u8; 16])
    requires
        bytes@.len() == SALT_LEN,
    ensures
        salt@ == bytes@,
{
    let mut salt = [0u8; 16];
    let mut i: usize = 0;
    while i < SALT_LEN
        invariant
            i <= SALT_LEN,
            bytes@.len() == SALT_LEN,
            forall|j: int| 0 <= j < i ==> salt@[j] == bytes@[j],
        decreases SALT_LEN - i,
    {
        salt[i] = bytes[i];
        i = i + 1;
    }
    assert(salt@ =~= bytes@);
    salt
}

/// Number of random nonce bytes stored in a header: the whole nonce in memory
/// mode, the nonce less the five bytes of block counter and last-block flag
/// in stream mode.
pub open spec fn spec_stored_nonce_len(algorithm: Algorithm, mode: CipherMode) -> usize {
    match mode {
        CipherMode::MemoryMode => nonce_len(algorithm),
        CipherMode::StreamMode => (nonce_len(algorithm) - 5) as usize,
    }
}

/// Number of random nonce bytes stored in a header.
#[verifier::when_used_as_spec(spec_stored_nonce_len)]
pub fn stored_nonce_len(algorithm: Algorithm, mode: CipherMode) -> (n: usize)
    ensures
        n == spec_stored_nonce_len(algorithm, mode),
{
    match mode {
        CipherMode::MemoryMode => nonce_len(algorithm),
        CipherMode::StreamMode => nonce_len(algorithm) - 5,
    }
}

/// Fresh random nonce bytes of the given length.
pub fn gen_nonce(len: usize) -> (nonce: Vec<u8>)
    ensures
        nonce@.len() == len,
{
    random_bytes(len)
}

} // verus!
