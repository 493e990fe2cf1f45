//! The two decryption pipelines.
//!
//! A container is read front to back: the header is parsed, the key is
//! derived from the raw key and the header's salt, the signature is checked
//! against the header, and only then is any ciphertext opened.

use crate::ciphers::{decrypt, unsealed};
use crate::error::{bytes_result, prepend, CryptoError};
use crate::global::enums::CipherMode;
use crate::global::structs::{Header, HeaderView};
use crate::header::{parsed, signature_of, verify, HEADER_LEN};
use crate::key::{argon2_hash, derived_key};
use crate::secret::Secret;
use crate::streams::{started_stream, stream_plaintext, DecryptStream, SEALED_BLOCK_SIZE};
use vstd::prelude::*;
use vstd::slice::slice_subrange;

verus! {

/// Offset of the ciphertext in a container.
pub const CIPHERTEXT_OFFSET: usize = 96;

/// The header of a container and the key derived for it, once the signature
/// has been found to match; or the reason why the container is refused.
pub open spec fn authenticated(container: Seq<u8>, raw_key: Seq<u8>) -> Result<
    (HeaderView, Seq<u8>),
    CryptoError,
> {
    if raw_key.len() == 0 {
        Err(CryptoError::UsageFailure)
    } else if container.len() < CIPHERTEXT_OFFSET {
        Err(CryptoError::HeaderFailure)
    } else {
        match parsed(container.take(HEADER_LEN as int)) {
            None => Err(CryptoError::HeaderFailure),
            Some(h) => match derived_key(raw_key, h.salt, h.header_type.header_version) {
                None => Err(CryptoError::KdfFailure),
                Some(key) => if container.subrange(HEADER_LEN as int, CIPHERTEXT_OFFSET as int)
                    == signature_of(container.take(HEADER_LEN as int), key) {
                    Ok((h, key))
                } else {
                    Err(CryptoError::AuthenticationFailure)
                },
            },
        }
    }
}

/// The plaintext of the ciphertext that follows an authenticated header.
pub open spec fn body_plaintext(h: HeaderView, key: Seq<u8>, ciphertext: Seq<u8>) -> Result<
    Seq<u8>,
    CryptoError,
> {
    match h.header_type.cipher_mode {
        CipherMode::MemoryMode => match unsealed(h.header_type.algorithm, key, h.nonce, ciphertext) {
            Some(plain) => Ok(plain),
            None => Err(CryptoError::AuthenticationFailure),
        },
        CipherMode::StreamMode => stream_plaintext(
            started_stream(h.header_type.algorithm, key, h.nonce),
            ciphertext,
        ),
    }
}

/// The plaintext of a container under `raw_key`, whatever its mode, or the
/// reason why it has none.
pub open spec fn decrypted(container: Seq<u8>, raw_key: Seq<u8>) -> Result<Seq<u8>, CryptoError> {
    match authenticated(container, raw_key) {
        Err(e) => Err(e),
        Ok((h, key)) => body_plaintext(h, key, container.skip(CIPHERTEXT_OFFSET as int)),
    }
}

/// The plaintext of a container that is asked to be of `mode`: that of
/// [`decrypted`], but `UsageFailure` where the authenticated header names the
/// other mode.
pub open spec fn decrypted_as(mode: CipherMode, container: Seq<u8>, raw_key: Seq<u8>) -> Result<
    Seq<u8>,
    CryptoError,
> {
    match authenticated(container, raw_key) {
        Err(e) => Err(e),
        Ok((h, key)) => if h.header_type.cipher_mode != mode {
            Err(CryptoError::UsageFailure)
        } else {
            body_plaintext(h, key, container.skip(CIPHERTEXT_OFFSET as int))
        },
    }
}

/// The three parts of a container: the 64 bytes of the header, the 32 bytes
/// of the signature and the ciphertext, or `None` where the container is too
/// short to hold header and signature.
pub fn container_parts(container: &[u8]) -> (r: Option<(&[u8], &[u8], &[u8])>)
    ensures
        r is Some <==> container@.len() >= CIPHERTEXT_OFFSET,
        r matches Some(parts) ==> {
            &&& parts.0@ == container@.take(HEADER_LEN as int)
            &&& parts.1@ == container@.subrange(HEADER_LEN as int, CIPHERTEXT_OFFSET as int)
            &&& parts.2@ == container@.skip(CIPHERTEXT_OFFSET as int)
        },
{
    if container.len() < CIPHERTEXT_OFFSET {
        return None;
    }
    let header_bytes = slice_subrange(container, 0, HEADER_LEN);
    let signature = slice_subrange(container, HEADER_LEN, CIPHERTEXT_OFFSET);
    let ciphertext = slice_subrange(container, CIPHERTEXT_OFFSET, container.len());
    assert(header_bytes@ =~= container@.take(HEADER_LEN as int));
    assert(ciphertext@ =~= container@.skip(CIPHERTEXT_OFFSET as int));
    Some((header_bytes, signature, ciphertext))
}

/// Parses the header of `container`, derives the key and checks the
/// signature. The raw key is consumed and wiped.
pub(crate) fn authenticate(container: &[u8], raw_key: Secret) -> (r: Result<(Header, Secret), CryptoError>)
    ensures
        r is Ok <==> authenticated(container@, raw_key@) is Ok,
        r matches Err(e) ==> authenticated(container@, raw_key@) == Err::<
            (HeaderView, Seq<u8>),
            CryptoError,
        >(e),
        r matches Ok(pair) ==> authenticated(container@, raw_key@) == Ok::<
            (HeaderView, Seq<u8>),
            CryptoError,
        >((pair.0@, pair.1@)) && pair.0@.wf() && pair.1@.len() == 32,
{
    if raw_key.expose().len() == 0 {
        return Err(CryptoError::UsageFailure);
    }
    let (header_bytes, signature, _) = match container_parts(container) {
        Some(parts) => parts,
        None => {
            return Err(CryptoError::HeaderFailure);
        },
    };
    let header = match Header::deserialize(header_bytes) {
        Ok(header) => header,
        Err(e) => {
            return Err(e);
        },
    };
    let key = match argon2_hash(raw_key, &header.salt, &header.header_type.header_version) {
        Ok(key) => key,
        Err(e) => {
            return Err(e);
        },
    };
    match verify(header_bytes, signature, &key) {
        Ok(()) => Ok((header, key)),
        Err(e) => Err(e),
    }
}

/// Opens `ciphertext` chunk by chunk.
fn open_blocks(stream: &mut DecryptStream, ciphertext: &[u8]) -> (r: Result<Vec<u8>, CryptoError>)
    ensures
        bytes_result(r) == stream_plaintext(old(stream)@, ciphertext@),
{
    let ghost s0 = stream@;
    let mut plain: Vec<u8> = Vec::new();
    let mut offset: usize = 0;
    proof {
        assert(ciphertext@.skip(0) =~= ciphertext@);
        let whole = stream_plaintext(s0, ciphertext@);
        if whole is Ok {
            assert(plain@ + whole->Ok_0 =~= whole->Ok_0);
        }
    }
    loop
        invariant_except_break
            offset <= ciphertext@.len(),
            s0 == old(stream)@,
            stream_plaintext(s0, ciphertext@) == prepend(
                plain@,
                stream_plaintext(stream@, ciphertext@.skip(offset as int)),
            ),
        ensures
            s0 == old(stream)@,
            stream_plaintext(s0, ciphertext@) == Ok::<Seq<u8>, CryptoError>(plain@),
        decreases ciphertext@.len() - offset,
    {
        let ghost rest = ciphertext@.skip(offset as int);
        let ghost cur = stream@;
        let ghost done = plain@;
        if ciphertext.len() - offset >= SEALED_BLOCK_SIZE {
            let chunk = slice_subrange(ciphertext, offset, offset + SEALED_BLOCK_SIZE);
            assert(chunk@ =~= rest.take(SEALED_BLOCK_SIZE as int));
            assert(rest.skip(SEALED_BLOCK_SIZE as int) =~= ciphertext@.skip(
                offset + SEALED_BLOCK_SIZE,
            ));
            match stream.decrypt_next(chunk) {
                Ok(block) => {
                    plain.extend_from_slice(block.as_slice());
                    proof {
                        let tail = stream_plaintext(stream@, rest.skip(SEALED_BLOCK_SIZE as int));
                        assert(stream_plaintext(cur, rest) == prepend(block@, tail));
                        assert(plain@ == done + block@);
                        assert(stream_plaintext(s0, ciphertext@) == prepend(
                            done,
                            stream_plaintext(cur, rest),
                        ));
                        assert(prepend(done, prepend(block@, tail)) == prepend(done + block@, tail))
                            by {
                            if tail is Ok {
                                assert(done + (block@ + tail->Ok_0) =~= (done + block@)
                                    + tail->Ok_0);
                            }
                        }
                    }
                    offset = offset + SEALED_BLOCK_SIZE;
                },
                Err(e) => {
                    return Err(e);
                },
            }
        } else {
            let chunk = slice_subrange(ciphertext, offset, ciphertext.len());
            assert(chunk@ =~= rest);
            match stream.decrypt_last(chunk) {
                Ok(block) => {
                    plain.extend_from_slice(block.as_slice());
                    assert(stream_plaintext(cur, rest) == Ok::<Seq<u8>, CryptoError>(block@));
                    assert(plain@ == done + block@);
                    assert(stream_plaintext(s0, ciphertext@) == prepend(
                        done,
                        stream_plaintext(cur, rest),
                    ));
                    break ;
                },
                Err(e) => {
                    return Err(e);
                },
            }
        }
    }
    Ok(plain)
}

/// Opens the ciphertext that follows an authenticated header.
fn open_body(header: &Header, key: Secret, ciphertext: &[u8]) -> (r: Result<Vec<u8>, CryptoError>)
    requires
        header@.wf(),
        key@.len() == 32,
    ensures
        bytes_result(r) == body_plaintext(header@, key@, ciphertext@),
{
    let algorithm = header.header_type.algorithm;
    match header.header_type.cipher_mode {
        CipherMode::MemoryMode => decrypt(
            algorithm,
            key.expose().as_slice(),
            header.nonce.as_slice(),
            ciphertext,
        ),
        CipherMode::StreamMode => {
            let mut stream = match DecryptStream::new(algorithm, key, header.nonce.as_slice()) {
                Ok(stream) => stream,
                Err(e) => {
                    return Err(e);
                },
            };
            open_blocks(&mut stream, ciphertext)
        },
    }
}

/// Decrypts a container of either mode: algorithm, mode, salt and nonce are
/// read from its header, and the caller supplies the raw key alone.
///
/// Fails with `UsageFailure` for an empty raw key; with `HeaderFailure` for a
/// container shorter than header and signature or a header that does not
/// parse; with `KdfFailure` when the key derivation fails; and with
/// `AuthenticationFailure` when the signature does not match the header, or
/// when the ciphertext, or any block of it, does not open. No plaintext is
/// returned on any failure.
pub fn decrypt_bytes(container: &[u8], raw_key: Secret) -> (r: Result<Vec<u8>, CryptoError>)
    ensures
        bytes_result(r) == decrypted(container@, raw_key@),
{
    let (header, key) = match authenticate(container, raw_key) {
        Ok(pair) => pair,
        Err(e) => {
            return Err(e);
        },
    };
    let ciphertext = slice_subrange(container, CIPHERTEXT_OFFSET, container.len());
    assert(ciphertext@ =~= container@.skip(CIPHERTEXT_OFFSET as int));
    open_body(&header, key, ciphertext)
}

/// Decrypts a memory-mode container.
///
/// As [`decrypt_bytes`], but a container whose authenticated header names
/// stream mode fails with `UsageFailure`.
pub fn decrypt_bytes_memory_mode(container: &[u8], raw_key: Secret) -> (r: Result<
    Vec<u8>,
    CryptoError,
>)
    ensures
        bytes_result(r) == decrypted_as(CipherMode::MemoryMode, container@, raw_key@),
{
    let (header, key) = match authenticate(container, raw_key) {
        Ok(pair) => pair,
        Err(e) => {
            return Err(e);
        },
    };
    if header.header_type.cipher_mode != CipherMode::MemoryMode {
        return Err(CryptoError::UsageFailure);
    }
    let ciphertext = slice_subrange(container, CIPHERTEXT_OFFSET, container.len());
    assert(ciphertext@ =~= container@.skip(CIPHERTEXT_OFFSET as int));
    open_body(&header, key, ciphertext)
}

/// Decrypts a stream-mode container.
///
/// As [`decrypt_bytes`], but a container whose authenticated header names
/// memory mode fails with `UsageFailure`.
pub fn decrypt_bytes_stream_mode(container: &[u8], raw_key: Secret) -> (r: Result<
    Vec<u8>,
    CryptoError,
>)
    ensures
        bytes_result(r) == decrypted_as(CipherMode::StreamMode, container@, raw_key@),
{
    let (header, key) = match authenticate(container, raw_key) {
        Ok(pair) => pair,
        Err(e) => {
            return Err(e);
        },
    };
    if header.header_type.cipher_mode != CipherMode::StreamMode {
        return Err(CryptoError::UsageFailure);
    }
    let ciphertext = slice_subrange(container, CIPHERTEXT_OFFSET, container.len());
    assert(ciphertext@ =~= container@.skip(CIPHERTEXT_OFFSET as int));
    open_body(&header, key, ciphertext)
}

} // verus!
