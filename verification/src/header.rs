//! The fixed 64-byte header: layout, parsing, signing and verification.
//!
//! | Offset | Size | Field                                   |
//! |--------|------|-----------------------------------------|
//! | 0      | 2    | magic byte, version number              |
//! | 2      | 2    | algorithm ordinal, little-endian        |
//! | 4      | 2    | cipher-mode ordinal, little-endian      |
//! | 6      | 2    | reserved, zero                          |
//! | 8      | 16   | salt                                    |
//! | 24     | 24   | nonce, padded with zeros                |
//! | 48     | 16   | reserved, zero                          |

use crate::error::CryptoError;
use crate::global::enums::{
    algorithm_number, algorithm_numbered, spec_algorithm_number, spec_algorithm_numbered,
    Algorithm, CipherMode, HeaderVersion,
};
use crate::global::structs::{Header, HeaderType, HeaderView};
use crate::global::{KEY_LEN, SALT_LEN};
use crate::key::stored_nonce_len;
use crate::observer::Observer;
use crate::secret::Secret;
use vstd::prelude::*;
use vstd::slice::slice_subrange;

verus! {

/// Total length of a serialized header.
pub const HEADER_LEN: usize = 64;

/// Length of the signature that follows the header.
pub const SIGNATURE_LEN: usize = 32;

/// First byte of every header.
pub const MAGIC: u8 = 0xDE;

/// Offset of the salt.
pub const SALT_OFFSET: usize = 8;

/// Offset of the nonce slot.
pub const NONCE_OFFSET: usize = 24;

/// Length of the nonce slot: the longest nonce of any algorithm.
pub const NONCE_SLOT_LEN: usize = 24;

/// The number that stands for a version in the header.
pub open spec fn spec_version_number(version: HeaderVersion) -> u8 {
    match version {
        HeaderVersion::V1 => 1,
        HeaderVersion::V2 => 2,
        HeaderVersion::V3 => 3,
    }
}

/// The number that stands for a version in the header.
#[verifier::when_used_as_spec(spec_version_number)]
pub fn version_number(version: HeaderVersion) -> (n: u8)
    ensures
        n == spec_version_number(version),
{
    match version {
        HeaderVersion::V1 => 1,
        HeaderVersion::V2 => 2,
        HeaderVersion::V3 => 3,
    }
}

/// The version that a number stands for, if any.
pub open spec fn spec_version_from_number(n: u8) -> Option<HeaderVersion> {
    if n == 1 {
        Some(HeaderVersion::V1)
    } else if n == 2 {
        Some(HeaderVersion::V2)
    } else if n == 3 {
        Some(HeaderVersion::V3)
    } else {
        None
    }
}

/// The version that a number stands for, if any.
#[verifier::when_used_as_spec(spec_version_from_number)]
pub fn version_from_number(n: u8) -> (v: Option<HeaderVersion>)
    ensures
        v == spec_version_from_number(n),
{
    if n == 1 {
        Some(HeaderVersion::V1)
    } else if n == 2 {
        Some(HeaderVersion::V2)
    } else if n == 3 {
        Some(HeaderVersion::V3)
    } else {
        None
    }
}

/// The stable ordinal of an algorithm: its number, counted from one.
pub open spec fn spec_algorithm_ordinal(algorithm: Algorithm) -> u16 {
    spec_algorithm_number(algorithm) as u16
}

/// The stable ordinal of an algorithm: its number, counted from one.
#[verifier::when_used_as_spec(spec_algorithm_ordinal)]
pub fn algorithm_ordinal(algorithm: Algorithm) -> (n: u16)
    ensures
        n == spec_algorithm_ordinal(algorithm),
{
    algorithm_number(algorithm) as u16
}

/// The algorithm that an ordinal stands for, if any.
pub open spec fn spec_algorithm_from_ordinal(n: u16) -> Option<Algorithm> {
    spec_algorithm_numbered(n as usize)
}

/// The algorithm that an ordinal stands for, if any.
#[verifier::when_used_as_spec(spec_algorithm_from_ordinal)]
pub fn algorithm_from_ordinal(n: u16) -> (a: Option<Algorithm>)
    ensures
        a == spec_algorithm_from_ordinal(n),
{
    algorithm_numbered(n as usize)
}

/// The stable ordinal of a cipher mode.
pub open spec fn spec_mode_ordinal(mode: CipherMode) -> u16 {
    match mode {
        CipherMode::MemoryMode => 1,
        CipherMode::StreamMode => 2,
    }
}

/// The stable ordinal of a cipher mode.
#[verifier::when_used_as_spec(spec_mode_ordinal)]
pub fn mode_ordinal(mode: CipherMode) -> (n: u16)
    ensures
        n == spec_mode_ordinal(mode),
{
    match mode {
        CipherMode::MemoryMode => 1,
        CipherMode::StreamMode => 2,
    }
}

/// The cipher mode that an ordinal stands for, if any.
pub open spec fn spec_mode_from_ordinal(n: u16) -> Option<CipherMode> {
    if n == 1 {
        Some(CipherMode::MemoryMode)
    } else if n == 2 {
        Some(CipherMode::StreamMode)
    } else {
        None
    }
}

/// The cipher mode that an ordinal stands for, if any.
#[verifier::when_used_as_spec(spec_mode_from_ordinal)]
pub fn mode_from_ordinal(n: u16) -> (m: Option<CipherMode>)
    ensures
        m == spec_mode_from_ordinal(n),
{
    if n == 1 {
        Some(CipherMode::MemoryMode)
    } else if n == 2 {
        Some(CipherMode::StreamMode)
    } else {
        None
    }
}

/// The two bytes of `n`, low byte first.
pub open spec fn u16_le(n: u16) -> Seq<u8> {
    seq![(n % 256) as u8, (n / 256) as u8]
}

/// The number whose low byte is `lo` and whose high byte is `hi`.
pub open spec fn u16_from_le(lo: u8, hi: u8) -> u16 {
    (lo + 256 * hi) as u16
}

/// `n` zero bytes.
pub open spec fn zeros(n: nat) -> Seq<u8> {
    Seq::new(n, |i: int| 0u8)
}

/// The 64 bytes that stand for a well-formed header.
pub open spec fn serialized(h: HeaderView) -> Seq<u8> {
    seq![MAGIC, spec_version_number(h.header_type.header_version)] + u16_le(
        spec_algorithm_ordinal(h.header_type.algorithm),
    ) + u16_le(spec_mode_ordinal(h.header_type.cipher_mode)) + zeros(2) + h.salt + h.nonce + zeros(
        (NONCE_SLOT_LEN - h.nonce.len()) as nat,
    ) + zeros(16)
}

/// The header that 64 bytes stand for, or `None` where the magic byte, the
/// version, an ordinal or a reserved byte is not what the layout allows.
pub open spec fn parsed(bytes: Seq<u8>) -> Option<HeaderView> {
    if bytes.len() != HEADER_LEN || bytes[0] != MAGIC {
        None
    } else {
        match (
            spec_version_from_number(bytes[1]),
            spec_algorithm_from_ordinal(u16_from_le(bytes[2], bytes[3])),
            spec_mode_from_ordinal(u16_from_le(bytes[4], bytes[5])),
        ) {
            (Some(version), Some(algorithm), Some(mode)) => {
                let n = stored_nonce_end(algorithm, mode);
                if bytes[6] == 0 && bytes[7] == 0 && bytes.subrange(n, HEADER_LEN as int) == zeros(
                    (HEADER_LEN - n) as nat,
                ) {
                    Some(
                        HeaderView {
                            header_type: HeaderType {
                                header_version: version,
                                cipher_mode: mode,
                                algorithm,
                            },
                            nonce: bytes.subrange(NONCE_OFFSET as int, n),
                            salt: bytes.subrange(SALT_OFFSET as int, NONCE_OFFSET as int),
                        },
                    )
                } else {
                    None
                }
            },
            _ => None,
        }
    }
}

/// Offset of the first byte after the stored nonce.
pub open spec fn stored_nonce_end(algorithm: Algorithm, mode: CipherMode) -> int {
    NONCE_OFFSET + stored_nonce_len(algorithm, mode)
}

/// Parsing undoes serializing: a reader recovers version, algorithm, mode,
/// salt and nonce of every well-formed header from its 64 bytes.
pub proof fn lemma_parse_serialized(h: HeaderView)
    requires
        h.wf(),
    ensures
        serialized(h).len() == HEADER_LEN,
        parsed(serialized(h)) == Some(h),
{
    let b = serialized(h);
    let n = stored_nonce_end(h.header_type.algorithm, h.header_type.cipher_mode);
    assert(b.len() == HEADER_LEN);
    assert(b.subrange(n, HEADER_LEN as int) =~= zeros((HEADER_LEN - n) as nat));
    assert(b.subrange(NONCE_OFFSET as int, n) =~= h.nonce);
    assert(b.subrange(SALT_OFFSET as int, NONCE_OFFSET as int) =~= h.salt);
}

/// A header determines its bytes and the bytes determine the header: two
/// well-formed headers with the same 64 bytes are the same header.
pub proof fn lemma_serialize_injective(h1: HeaderView, h2: HeaderView)
    requires
        h1.wf(),
        h2.wf(),
        serialized(h1) == serialized(h2),
    ensures
        h1 == h2,
{
    lemma_parse_serialized(h1);
    lemma_parse_serialized(h2);
}

/// Serializing undoes parsing: the layout has one encoding per header, so
/// bytes that parse are exactly the serialization of what they parse to.
pub proof fn lemma_serialize_parsed(bytes: Seq<u8>)
    requires
        parsed(bytes) is Some,
    ensures
        parsed(bytes)->Some_0.wf(),
        serialized(parsed(bytes)->Some_0) == bytes,
{
    let h = parsed(bytes)->Some_0;
    let n = stored_nonce_end(h.header_type.algorithm, h.header_type.cipher_mode);
    let z = zeros((HEADER_LEN - n) as nat);
    assert(forall|i: int| n <= i < HEADER_LEN ==> bytes[i] == bytes.subrange(n, HEADER_LEN as int)[i - n]);
    assert(forall|i: int| n <= i < HEADER_LEN ==> bytes[i] == z[i - n]);
    assert(serialized(h) =~= bytes);
}

/// Appends `n` zero bytes to `out`.
fn push_zeros(out: &mut Vec<u8>, n: usize)
    ensures
        final(out)@ == old(out)@ + zeros(n as nat),
{
    let mut i: usize = 0;
    while i < n
        invariant
            i <= n,
            out@ == old(out)@ + zeros(i as nat),
        decreases n - i,
    {
        out.push(0u8);
        i = i + 1;
        assert(out@ =~= old(out)@ + zeros(i as nat));
    }
}

/// Whether every byte of `bytes` from `from` on is zero.
fn all_zero_from(bytes: &[u8], from: usize) -> (b: bool)
    requires
        from <= bytes@.len(),
    ensures
        b == (bytes@.subrange(from as int, bytes@.len() as int) == zeros(
            (bytes@.len() - from) as nat,
        )),
{
    let ghost rest = bytes@.subrange(from as int, bytes@.len() as int);
    let mut i: usize = from;
    while i < bytes.len()
        invariant
            from <= i <= bytes@.len(),
            rest == bytes@.subrange(from as int, bytes@.len() as int),
            forall|j: int| from <= j < i ==> bytes@[j] == 0,
        decreases bytes@.len() - i,
    {
        if bytes[i] != 0 {
            assert(rest[i - from] != 0);
            return false;
        }
        i = i + 1;
    }
    assert(rest =~= zeros((bytes@.len() - from) as nat));
    true
}

impl Header {
    /// The 64 bytes of the header.
    ///
    /// Fails with `HeaderFailure` when the nonce does not have the length
    /// that algorithm and mode call for.
    pub fn serialize(&self) -> (r: Result<Vec<u8>, CryptoError>)
        ensures
            r is Ok <==> self@.wf(),
            r matches Ok(bytes) ==> bytes@ == serialized(self@) && bytes@.len() == HEADER_LEN,
            r matches Err(e) ==> e == CryptoError::HeaderFailure,
    {
        let algorithm = self.header_type.algorithm;
        let mode = self.header_type.cipher_mode;
        if self.nonce.len() != stored_nonce_len(algorithm, mode) {
            return Err(CryptoError::HeaderFailure);
        }
        let a = algorithm_ordinal(algorithm);
        let m = mode_ordinal(mode);
        let mut out: Vec<u8> = Vec::new();
        out.push(MAGIC);
        out.push(version_number(self.header_type.header_version));
        out.push((a % 256) as u8);
        out.push((a / 256) as u8);
        out.push((m % 256) as u8);
        out.push((m / 256) as u8);
        push_zeros(&mut out, 2);
        out.extend_from_slice(self.salt.as_slice());
        out.extend_from_slice(self.nonce.as_slice());
        push_zeros(&mut out, NONCE_SLOT_LEN - self.nonce.len());
        push_zeros(&mut out, 16);
        assert(out@ =~= serialized(self@));
        Ok(out)
    }

    /// The header that `bytes` stand for.
    ///
    /// Fails with `HeaderFailure` when `bytes` is not 64 bytes long, does not
    /// start with the magic byte, names an unknown version, algorithm or
    /// mode, or holds a non-zero byte where the layout reserves zeros.
    pub fn deserialize(bytes: &[u8]) -> (r: Result<Header, CryptoError>)
        ensures
            r is Ok <==> parsed(bytes@) is Some,
            r matches Ok(h) ==> parsed(bytes@) == Some(h@) && h@.wf(),
            r matches Err(e) ==> e == CryptoError::HeaderFailure,
    {
        if bytes.len() != HEADER_LEN || bytes[0] != MAGIC {
            return Err(CryptoError::HeaderFailure);
        }
        let version = version_from_number(bytes[1]);
        let algorithm = algorithm_from_ordinal(bytes[2] as u16 + 256 * (bytes[3] as u16));
        let mode = mode_from_ordinal(bytes[4] as u16 + 256 * (bytes[5] as u16));
        match (version, algorithm, mode) {
            (Some(version), Some(algorithm), Some(mode)) => {
                let end = NONCE_OFFSET + stored_nonce_len(algorithm, mode);
                if bytes[6] != 0 || bytes[7] != 0 || !all_zero_from(bytes, end) {
                    return Err(CryptoError::HeaderFailure);
                }
                let mut salt = [0u8; 16];
                let mut i: usize = 0;
                while i < SALT_LEN
                    invariant
                        i <= SALT_LEN,
                        bytes@.len() == HEADER_LEN,
                        forall|j: int| 0 <= j < i ==> salt@[j] == bytes@[SALT_OFFSET + j],
                    decreases SALT_LEN - i,
                {
                    salt[i] = bytes[SALT_OFFSET + i];
                    i = i + 1;
                }
                let mut nonce: Vec<u8> = Vec::new();
                nonce.extend_from_slice(slice_subrange(bytes, NONCE_OFFSET, end));
                let header = Header {
                    header_type: HeaderType { header_version: version, cipher_mode: mode, algorithm },
                    nonce,
                    salt,
                };
                assert(header@.salt =~= bytes@.subrange(SALT_OFFSET as int, NONCE_OFFSET as int));
                assert(header@.nonce =~= bytes@.subrange(NONCE_OFFSET as int, end as int));
                Ok(header)
            },
            _ => Err(CryptoError::HeaderFailure),
        }
    }
}

/// The 32-byte keyed BLAKE3 hash of `data` under a 32-byte key.
pub uninterp spec fn blake3_keyed(key: Seq<u8>, data: Seq<u8>) -> Seq<u8>;

/// `blake3::keyed_hash`.
///
/// Trusted: the tag depends on key and data alone and has 32 bytes.
#[verifier::external_body]
fn keyed_hash(key: &[u8], data: &[u8]) -> (tag: Vec<u8>)
    requires
        key@.len() == 32,
    ensures
        tag@ == blake3_keyed(key@, data@),
        tag@.len() == 32,
{
    let mut k = [0u8; 32];
    k.copy_from_slice(key);
    blake3::keyed_hash(&k, data).as_bytes().to_vec()
}

/// `==` on `blake3::Hash`, which compares the 32 bytes in constant time.
///
/// Trusted: the result says whether the two byte strings are equal.
#[verifier::external_body]
fn tags_equal(a: &[u8], b: &[u8]) -> (eq: bool)
    requires
        a@.len() == 32,
        b@.len() == 32,
    ensures
        eq == (a@ == b@),
{
    let mut x = [0u8; 32];
    let mut y = [0u8; 32];
    x.copy_from_slice(a);
    y.copy_from_slice(b);
    blake3::Hash::from(x) == blake3::Hash::from(y)
}

/// The signature of a serialized header under a derived key.
pub open spec fn signature_of(header_bytes: Seq<u8>, key: Seq<u8>) -> Seq<u8> {
    blake3_keyed(key, header_bytes)
}

/// Signs the serialized header with the derived key and returns the 32-byte
/// tag that is written right after the header.
///
/// Fails with `UsageFailure` when the key is not 32 bytes long.
pub fn sign(header_bytes: &[u8], key: &Secret) -> (r: Result<Vec<u8>, CryptoError>)
    ensures
        r is Ok <==> key@.len() == KEY_LEN,
        r matches Ok(tag) ==> tag@ == signature_of(header_bytes@, key@) && tag@.len()
            == SIGNATURE_LEN,
        r matches Err(e) ==> e == CryptoError::UsageFailure,
{
    if key.expose().len() != KEY_LEN {
        return Err(CryptoError::UsageFailure);
    }
    Ok(keyed_hash(key.expose().as_slice(), header_bytes))
}

/// Checks, in constant time, that `signature` is the 32-byte tag `expected`.
///
/// Fails with `AuthenticationFailure` where it is anything else.
pub fn check_signature(expected: &[u8], signature: &[u8]) -> (r: Result<(), CryptoError>)
    ensures
        r is Ok <==> expected@.len() == SIGNATURE_LEN && signature@ == expected@,
        r matches Err(e) ==> e == CryptoError::AuthenticationFailure,
{
    if expected.len() == SIGNATURE_LEN && signature.len() == SIGNATURE_LEN && tags_equal(
        expected,
        signature,
    ) {
        Ok(())
    } else {
        Err(CryptoError::AuthenticationFailure)
    }
}

/// Checks, in constant time, that `signature` is the tag of the serialized
/// header under the derived key.
///
/// Fails with `UsageFailure` when the key is not 32 bytes long, and with
/// `AuthenticationFailure` when the signature is anything but the tag.
pub fn verify(header_bytes: &[u8], signature: &[u8], key: &Secret) -> (r: Result<(), CryptoError>)
    ensures
        r is Ok <==> key@.len() == KEY_LEN && signature@ == signature_of(header_bytes@, key@),
        r matches Err(e) ==> e == (if key@.len() == KEY_LEN {
            CryptoError::AuthenticationFailure
        } else {
            CryptoError::UsageFailure
        }),
{
    if key.expose().len() != KEY_LEN {
        return Err(CryptoError::UsageFailure);
    }
    let expected = keyed_hash(key.expose().as_slice(), header_bytes);
    check_signature(expected.as_slice(), signature)
}

/// Folds header and signature into the observer, byte for byte as they stand
/// in the container.
pub fn hash(observer: &mut Observer, header_bytes: &[u8], signature: &[u8])
    ensures
        final(observer)@ == old(observer)@ + header_bytes@ + signature@,
{
    observer.update(header_bytes);
    observer.update(signature);
}

} // verus!
