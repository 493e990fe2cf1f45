//! The two encryption pipelines.
//!
//! Memory mode seals the whole plaintext in one piece. Stream mode seals it
//! in blocks of [`BLOCK_SIZE`] bytes, the last of which is short or empty.
//! Either way the container is header, signature, ciphertext, in that order.

use crate::ciphers::{can_seal, encrypt, reopens, sealable, sealed};
use crate::error::{bytes_option, prepend, text_option, CryptoError, Failing};
use crate::global::enums::{Algorithm, BenchMode, CipherMode, HashMode};
use crate::global::structs::{Header, HeaderType, HeaderView};
use crate::global::{BLOCK_SIZE, SALT_LEN, VERSION};
use crate::header::{hash, serialized, sign, signature_of, SIGNATURE_LEN};
use crate::key::{
    argon2_hash, derived_key, gen_nonce, gen_salt, stored_nonce_len, ARGON2_MAX_PASSWORD,
};
use crate::observer::{digest_text, Observer};
use crate::secret::Secret;
use crate::streams::{
    started_stream, stream_ciphertext, stream_reopens, EncryptStream, StreamState, StreamView,
};
use vstd::prelude::*;
use vstd::slice::slice_subrange;

verus! {

/// What an encryption hands back.
pub struct Encrypted {
    /// The header that was built and signed.
    pub header: Header,
    /// The container, where the caller asked for it to be written.
    pub container: Option<Vec<u8>>,
    /// The digest of the container, where the caller asked for it.
    pub digest: Option<String>,
}

/// The container that memory mode makes of `data` under `raw_key` and the
/// header `h`, or the reason why it makes none.
pub open spec fn memory_container(data: Seq<u8>, raw_key: Seq<u8>, h: HeaderView) -> Result<
    Seq<u8>,
    CryptoError,
> {
    let algorithm = h.header_type.algorithm;
    if raw_key.len() == 0 || h.header_type.cipher_mode != CipherMode::MemoryMode {
        Err(CryptoError::UsageFailure)
    } else if !h.wf() {
        Err(CryptoError::HeaderFailure)
    } else if !sealable(algorithm, data.len()) {
        Err(CryptoError::AeadFailure)
    } else {
        match derived_key(raw_key, h.salt, h.header_type.header_version) {
            None => Err(CryptoError::KdfFailure),
            Some(key) => Ok(
                serialized(h) + signature_of(serialized(h), key) + sealed(
                    algorithm,
                    key,
                    h.nonce,
                    data,
                ),
            ),
        }
    }
}

/// `container` is what memory mode makes of `data` under `raw_key` and `h`:
/// its signature has 32 bytes and its ciphertext opens back to `data` under
/// the derived key.
pub open spec fn memory_encrypts_to(
    data: Seq<u8>,
    raw_key: Seq<u8>,
    h: HeaderView,
    container: Seq<u8>,
) -> bool {
    &&& memory_container(data, raw_key, h) == Ok::<Seq<u8>, CryptoError>(container)
    &&& signature_of(
        serialized(h),
        derived_key(raw_key, h.salt, h.header_type.header_version)->Some_0,
    ).len() == SIGNATURE_LEN
    &&& reopens(
        h.header_type.algorithm,
        derived_key(raw_key, h.salt, h.header_type.header_version)->Some_0,
        h.nonce,
        data,
    )
}

/// The container as the write flag lets it through.
pub open spec fn reported_container(container: Seq<u8>, bench: BenchMode) -> Option<Seq<u8>> {
    if bench == BenchMode::WriteToFilesystem {
        Some(container)
    } else {
        None
    }
}

/// The digest as the hash flag lets it through.
pub open spec fn reported_digest(container: Seq<u8>, hash: HashMode) -> Option<Seq<char>> {
    if hash == HashMode::CalculateHash {
        Some(digest_text(container))
    } else {
        None
    }
}

/// Joins header, signature and ciphertext into a container.
pub fn container_of(header_bytes: &[u8], signature: &[u8], ciphertext: &[u8]) -> (container: Vec<
    u8,
>)
    ensures
        container@ == header_bytes@ + signature@ + ciphertext@,
{
    let mut container: Vec<u8> = Vec::new();
    container.extend_from_slice(header_bytes);
    container.extend_from_slice(signature);
    container.extend_from_slice(ciphertext);
    assert(container@ =~= header_bytes@ + signature@ + ciphertext@);
    container
}

/// What is handed back for a finished container: the container where
/// `bench` asks for it to be written, its digest where `hash_mode` asks for
/// one. Neither flag depends on the other.
pub fn report(header: Header, container: Vec<u8>, bench: BenchMode, hash_mode: HashMode) -> (out:
    Encrypted)
    ensures
        out.header@ == header@,
        bytes_option(out.container) == reported_container(container@, bench),
        text_option(out.digest) == reported_digest(container@, hash_mode),
{
    let digest = if hash_mode == HashMode::CalculateHash {
        let mut observer = Observer::new();
        observer.update(container.as_slice());
        assert(observer@ =~= container@);
        Some(observer.digest())
    } else {
        None
    };
    let container = if bench == BenchMode::WriteToFilesystem {
        Some(container)
    } else {
        None
    };
    Encrypted { header, container, digest }
}

/// Encrypts `data` in memory mode under the given header, which carries
/// version, algorithm, salt and nonce.
///
/// The container is header, signature and one AEAD output. It is handed back
/// only with `WriteToFilesystem`, its digest only with `CalculateHash`; the
/// two flags do not depend on each other. Raw key and plaintext are consumed
/// and wiped on every path.
///
/// Fails with `UsageFailure` for an empty raw key or a header of another
/// mode, with `HeaderFailure` for a nonce of the wrong length, with
/// `AeadFailure` for a plaintext that the cipher cannot take, and with
/// `KdfFailure` when the key derivation fails.
pub fn encrypt_bytes_memory_mode_with(
    data: Secret,
    raw_key: Secret,
    bench: BenchMode,
    hash_mode: HashMode,
    header: Header,
) -> (r: Result<Encrypted, CryptoError>)
    ensures
        r is Ok <==> memory_container(data@, raw_key@, header@) is Ok,
        r matches Err(e) ==> memory_container(data@, raw_key@, header@) == Err::<
            Seq<u8>,
            CryptoError,
        >(e),
        r matches Ok(out) ==> {
            let container = memory_container(data@, raw_key@, header@)->Ok_0;
            &&& out.header@ == header@
            &&& memory_encrypts_to(data@, raw_key@, header@, container)
            &&& bytes_option(out.container) == reported_container(container, bench)
            &&& text_option(out.digest) == reported_digest(container, hash_mode)
        },
        r is Ok ==> raw_key@.len() <= ARGON2_MAX_PASSWORD,
        r.is_err_of(CryptoError::KdfFailure) ==> raw_key@.len() > ARGON2_MAX_PASSWORD,
{
    let algorithm = header.header_type.algorithm;
    if raw_key.expose().len() == 0 || header.header_type.cipher_mode != CipherMode::MemoryMode {
        return Err(CryptoError::UsageFailure);
    }
    let header_bytes = match header.serialize() {
        Ok(bytes) => bytes,
        Err(e) => {
            return Err(e);
        },
    };
    if !can_seal(algorithm, data.expose().len()) {
        return Err(CryptoError::AeadFailure);
    }
    let key = match argon2_hash(raw_key, &header.salt, &header.header_type.header_version) {
        Ok(key) => key,
        Err(e) => {
            return Err(e);
        },
    };
    let signature = match sign(header_bytes.as_slice(), &key) {
        Ok(signature) => signature,
        Err(e) => {
            return Err(e);
        },
    };
    let ciphertext = match encrypt(
        algorithm,
        key.expose().as_slice(),
        header.nonce.as_slice(),
        data.expose().as_slice(),
    ) {
        Ok(ciphertext) => ciphertext,
        Err(e) => {
            return Err(e);
        },
    };
    let container = container_of(
        header_bytes.as_slice(),
        signature.as_slice(),
        ciphertext.as_slice(),
    );
    Ok(report(header, container, bench, hash_mode))
}

/// Why memory mode makes no container of a plaintext and a raw key of these
/// lengths, whatever salt and nonce it draws, if it makes none.
pub open spec fn memory_failure(data_len: nat, raw_key_len: nat, algorithm: Algorithm) -> Option<
    CryptoError,
> {
    if raw_key_len == 0 {
        Some(CryptoError::UsageFailure)
    } else if !sealable(algorithm, data_len) {
        Some(CryptoError::AeadFailure)
    } else if raw_key_len > ARGON2_MAX_PASSWORD {
        Some(CryptoError::KdfFailure)
    } else {
        None
    }
}

/// Encrypts `data` in memory mode with a fresh random salt and nonce under
/// the current header version.
///
/// What comes back is what [`encrypt_bytes_memory_mode_with`] makes of the
/// header that is returned. Whatever salt and nonce are drawn, the call
/// succeeds unless [`memory_failure`] names a failure: `UsageFailure` for an
/// empty raw key, `AeadFailure` for a plaintext that the cipher cannot take,
/// `KdfFailure` for a raw key that the key derivation cannot take.
pub fn encrypt_bytes_memory_mode(
    data: Secret,
    raw_key: Secret,
    bench: BenchMode,
    hash_mode: HashMode,
    algorithm: Algorithm,
) -> (r: Result<Encrypted, CryptoError>)
    ensures
        r is Ok <==> memory_failure(data@.len(), raw_key@.len(), algorithm) is None,
        r matches Err(e) ==> memory_failure(data@.len(), raw_key@.len(), algorithm) == Some(e),
        r.is_err_of(CryptoError::KdfFailure) ==> exists|salt: Seq<u8>|
            salt.len() == SALT_LEN && #[trigger] derived_key(raw_key@, salt, VERSION) is None,
        r matches Ok(out) ==> {
            let container = memory_container(data@, raw_key@, out.header@)->Ok_0;
            &&& out.header@.header_type == (HeaderType {
                header_version: VERSION,
                cipher_mode: CipherMode::MemoryMode,
                algorithm,
            })
            &&& out.header@.wf()
            &&& memory_encrypts_to(data@, raw_key@, out.header@, container)
            &&& bytes_option(out.container) == reported_container(container, bench)
            &&& text_option(out.digest) == reported_digest(container, hash_mode)
        },
{
    let salt = gen_salt();
    let nonce = gen_nonce(stored_nonce_len(algorithm, CipherMode::MemoryMode));
    let header = Header {
        header_type: HeaderType {
            header_version: VERSION,
            cipher_mode: CipherMode::MemoryMode,
            algorithm,
        },
        nonce,
        salt,
    };
    let ghost h = header@;
    let r = encrypt_bytes_memory_mode_with(data, raw_key, bench, hash_mode, header);
    proof {
        if r.is_err_of(CryptoError::KdfFailure) {
            assert(derived_key(raw_key@, h.salt, VERSION) is None);
        }
    }
    r
}

/// The container that stream mode makes of `data` under `raw_key` and the
/// header `h`, or the reason why it makes none.
pub open spec fn stream_container(data: Seq<u8>, raw_key: Seq<u8>, h: HeaderView) -> Result<
    Seq<u8>,
    CryptoError,
> {
    if raw_key.len() == 0 || h.header_type.cipher_mode != CipherMode::StreamMode {
        Err(CryptoError::UsageFailure)
    } else if !h.wf() {
        Err(CryptoError::HeaderFailure)
    } else {
        match derived_key(raw_key, h.salt, h.header_type.header_version) {
            None => Err(CryptoError::KdfFailure),
            Some(key) => prepend(
                serialized(h) + signature_of(serialized(h), key),
                stream_ciphertext(started_stream(h.header_type.algorithm, key, h.nonce), data),
            ),
        }
    }
}

/// `container` is what stream mode makes of `data` under `raw_key` and `h`:
/// its signature has 32 bytes and each of its blocks opens back under the
/// derived key.
pub open spec fn stream_encrypts_to(
    data: Seq<u8>,
    raw_key: Seq<u8>,
    h: HeaderView,
    container: Seq<u8>,
) -> bool {
    &&& stream_container(data, raw_key, h) == Ok::<Seq<u8>, CryptoError>(container)
    &&& signature_of(
        serialized(h),
        derived_key(raw_key, h.salt, h.header_type.header_version)->Some_0,
    ).len() == SIGNATURE_LEN
    &&& stream_reopens(
        started_stream(
            h.header_type.algorithm,
            derived_key(raw_key, h.salt, h.header_type.header_version)->Some_0,
            h.nonce,
        ),
        data,
    )
}

/// Every cipher takes a block of up to [`BLOCK_SIZE`] bytes.
pub proof fn lemma_block_sealable(algorithm: Algorithm, len: nat)
    requires
        len <= BLOCK_SIZE,
    ensures
        sealable(algorithm, len),
{
}

/// Seals `input` block by block and appends the sealed blocks to `out`,
/// folding them into the observer where there is one.
fn seal_blocks(
    stream: &mut EncryptStream,
    input: &[u8],
    out: &mut Vec<u8>,
    observer: &mut Observer,
) -> (r: Result<(), CryptoError>)
    requires
        old(stream)@.wf(),
        old(stream)@.state == StreamState::Flowing,
    ensures
        r is Ok <==> stream_ciphertext(old(stream)@, input@) is Ok,
        r matches Err(e) ==> stream_ciphertext(old(stream)@, input@) == Err::<Seq<u8>, CryptoError>(
            e,
        ),
        r is Ok ==> {
            let sealed = stream_ciphertext(old(stream)@, input@)->Ok_0;
            &&& final(out)@ == old(out)@ + sealed
            &&& final(observer)@ == old(observer)@ + sealed
            &&& stream_reopens(old(stream)@, input@)
        },
{
    let ghost s0 = stream@;
    let ghost out0 = out@;
    let ghost seen0 = observer@;
    let ghost mut done: Seq<u8> = Seq::empty();
    let mut offset: usize = 0;
    proof {
        assert(input@.skip(0) =~= input@);
        let whole = stream_ciphertext(s0, input@);
        if whole is Ok {
            assert(done + whole->Ok_0 =~= whole->Ok_0);
        }
    }
    loop
        invariant_except_break
            offset <= input@.len(),
            s0 == old(stream)@,
            stream@.wf(),
            stream@.state == StreamState::Flowing,
            stream@.algorithm == s0.algorithm,
            out@ == out0 + done,
            observer@ == seen0 + done,
            stream_ciphertext(s0, input@) == prepend(
                done,
                stream_ciphertext(stream@, input@.skip(offset as int)),
            ),
            stream_reopens(stream@, input@.skip(offset as int)) ==> stream_reopens(s0, input@),
        ensures
            s0 == old(stream)@,
            stream_ciphertext(s0, input@) == Ok::<Seq<u8>, CryptoError>(done),
            out@ == out0 + done,
            observer@ == seen0 + done,
            stream_reopens(s0, input@),
        decreases input@.len() - offset,
    {
        let ghost rest = input@.skip(offset as int);
        let ghost cur = stream@;
        proof {
            lemma_block_sealable(cur.algorithm, BLOCK_SIZE as nat);
            if input@.len() - offset < BLOCK_SIZE {
                lemma_block_sealable(cur.algorithm, (input@.len() - offset) as nat);
            }
        }
        if input.len() - offset >= BLOCK_SIZE {
            let block = slice_subrange(input, offset, offset + BLOCK_SIZE);
            assert(block@ =~= rest.take(BLOCK_SIZE as int));
            assert(rest.skip(BLOCK_SIZE as int) =~= input@.skip(offset + BLOCK_SIZE));
            match stream.encrypt_next(block) {
                Ok(sealed) => {
                    out.extend_from_slice(sealed.as_slice());
                    observer.update(sealed.as_slice());
                    proof {
                        let tail = stream_ciphertext(cur.advanced(), rest.skip(BLOCK_SIZE as int));
                        assert(prepend(done, prepend(sealed@, tail)) == prepend(
                            done + sealed@,
                            tail,
                        )) by {
                            if tail is Ok {
                                assert(done + (sealed@ + tail->Ok_0) =~= (done + sealed@)
                                    + tail->Ok_0);
                            }
                        }
                        assert(out@ =~= out0 + (done + sealed@));
                        assert(observer@ =~= seen0 + (done + sealed@));
                        done = done + sealed@;
                    }
                    offset = offset + BLOCK_SIZE;
                },
                Err(e) => {
                    return Err(e);
                },
            }
        } else {
            let block = slice_subrange(input, offset, input.len());
            assert(block@ =~= rest);
            match stream.encrypt_last(block) {
                Ok(sealed) => {
                    out.extend_from_slice(sealed.as_slice());
                    observer.update(sealed.as_slice());
                    proof {
                        assert(out@ =~= out0 + (done + sealed@));
                        assert(observer@ =~= seen0 + (done + sealed@));
                        done = done + sealed@;
                    }
                    break ;
                },
                Err(e) => {
                    return Err(e);
                },
            }
        }
    }
    Ok(())
}

/// Encrypts `input` in stream mode under the given header, which carries
/// version, algorithm, salt and base nonce.
///
/// The container is header, signature and one sealed block for every
/// [`BLOCK_SIZE`] bytes of input, followed by a sealed last block that holds
/// what remains: an input whose length is a multiple of the block size ends
/// in a last block without plaintext. The container is handed back only with
/// `WriteToFilesystem`, its digest only with `CalculateHash`. The raw key is
/// consumed and wiped on every path.
///
/// Fails with `UsageFailure` for an empty raw key or a header of another
/// mode, with `HeaderFailure` for a base nonce of the wrong length, with
/// `KdfFailure` when the key derivation fails, and with `AeadFailure` when
/// the input has more blocks than the counter can number.
pub fn encrypt_bytes_stream_mode_with(
    input: &[u8],
    raw_key: Secret,
    bench: BenchMode,
    hash_mode: HashMode,
    header: Header,
) -> (r: Result<Encrypted, CryptoError>)
    ensures
        r is Ok <==> stream_container(input@, raw_key@, header@) is Ok,
        r matches Err(e) ==> stream_container(input@, raw_key@, header@) == Err::<
            Seq<u8>,
            CryptoError,
        >(e),
        r matches Ok(out) ==> {
            let container = stream_container(input@, raw_key@, header@)->Ok_0;
            &&& out.header@ == header@
            &&& stream_encrypts_to(input@, raw_key@, header@, container)
            &&& bytes_option(out.container) == reported_container(container, bench)
            &&& text_option(out.digest) == reported_digest(container, hash_mode)
        },
        r is Ok ==> raw_key@.len() <= ARGON2_MAX_PASSWORD,
        r.is_err_of(CryptoError::KdfFailure) ==> raw_key@.len() > ARGON2_MAX_PASSWORD,
        r.is_err_of(CryptoError::AeadFailure) ==> raw_key@.len() <= ARGON2_MAX_PASSWORD,
{
    let algorithm = header.header_type.algorithm;
    if raw_key.expose().len() == 0 || header.header_type.cipher_mode != CipherMode::StreamMode {
        return Err(CryptoError::UsageFailure);
    }
    let header_bytes = match header.serialize() {
        Ok(bytes) => bytes,
        Err(e) => {
            return Err(e);
        },
    };
    let key = match argon2_hash(raw_key, &header.salt, &header.header_type.header_version) {
        Ok(key) => key,
        Err(e) => {
            return Err(e);
        },
    };
    let signature = match sign(header_bytes.as_slice(), &key) {
        Ok(signature) => signature,
        Err(e) => {
            return Err(e);
        },
    };
    let mut stream = match EncryptStream::new(algorithm, key, header.nonce.as_slice()) {
        Ok(stream) => stream,
        Err(e) => {
            return Err(e);
        },
    };
    let mut observer = Observer::new();
    hash(&mut observer, header_bytes.as_slice(), signature.as_slice());
    let mut container = header_bytes;
    container.extend_from_slice(signature.as_slice());
    proof {
        lemma_stream_ciphertext_fails(stream@, input@);
    }
    match seal_blocks(&mut stream, input, &mut container, &mut observer) {
        Ok(()) => {},
        Err(e) => {
            return Err(e);
        },
    }
    assert(observer@ =~= container@);
    let digest = if hash_mode == HashMode::CalculateHash {
        Some(observer.digest())
    } else {
        None
    };
    let container = if bench == BenchMode::WriteToFilesystem {
        Some(container)
    } else {
        None
    };
    Ok(Encrypted { header, container, digest })
}

/// Why stream mode makes no container of an input and a raw key of these
/// lengths, whatever salt and nonce it draws, if it makes none.
pub open spec fn stream_failure(input_len: nat, raw_key_len: nat) -> Option<CryptoError> {
    if raw_key_len == 0 {
        Some(CryptoError::UsageFailure)
    } else if raw_key_len > ARGON2_MAX_PASSWORD {
        Some(CryptoError::KdfFailure)
    } else if input_len / (BLOCK_SIZE as nat) > u32::MAX {
        Some(CryptoError::AeadFailure)
    } else {
        None
    }
}

/// Encrypts `input` in stream mode with a fresh random salt and base nonce
/// under the current header version.
///
/// What comes back is what [`encrypt_bytes_stream_mode_with`] makes of the
/// header that is returned. Whatever salt and nonce are drawn, the call
/// succeeds unless [`stream_failure`] names a failure: `UsageFailure` for an
/// empty raw key, `KdfFailure` for a raw key that the key derivation cannot
/// take, `AeadFailure` for an input of more blocks than the counter can
/// number.
pub fn encrypt_bytes_stream_mode(
    input: &[u8],
    raw_key: Secret,
    bench: BenchMode,
    hash_mode: HashMode,
    algorithm: Algorithm,
) -> (r: Result<Encrypted, CryptoError>)
    ensures
        r is Ok <==> stream_failure(input@.len(), raw_key@.len()) is None,
        r matches Err(e) ==> stream_failure(input@.len(), raw_key@.len()) == Some(e),
        r.is_err_of(CryptoError::KdfFailure) ==> exists|salt: Seq<u8>|
            salt.len() == SALT_LEN && #[trigger] derived_key(raw_key@, salt, VERSION) is None,
        r matches Ok(out) ==> {
            let container = stream_container(input@, raw_key@, out.header@)->Ok_0;
            &&& out.header@.header_type == (HeaderType {
                header_version: VERSION,
                cipher_mode: CipherMode::StreamMode,
                algorithm,
            })
            &&& out.header@.wf()
            &&& stream_encrypts_to(input@, raw_key@, out.header@, container)
            &&& bytes_option(out.container) == reported_container(container, bench)
            &&& text_option(out.digest) == reported_digest(container, hash_mode)
        },
{
    let salt = gen_salt();
    let nonce = gen_nonce(stored_nonce_len(algorithm, CipherMode::StreamMode));
    let header = Header {
        header_type: HeaderType {
            header_version: VERSION,
            cipher_mode: CipherMode::StreamMode,
            algorithm,
        },
        nonce,
        salt,
    };
    let ghost h = header@;
    proof {
        let key = derived_key(raw_key@, h.salt, VERSION);
        if key is Some {
            lemma_stream_ciphertext_fails(started_stream(algorithm, key->Some_0, h.nonce), input@);
        }
    }
    let r = encrypt_bytes_stream_mode_with(input, raw_key, bench, hash_mode, header);
    proof {
        if r.is_err_of(CryptoError::KdfFailure) {
            assert(derived_key(raw_key@, h.salt, VERSION) is None);
        }
    }
    r
}

/// A stream fails on `data` exactly when the counter has no number left for
/// one of the blocks before the last.
pub proof fn lemma_stream_ciphertext_fails(s: StreamView, data: Seq<u8>)
    ensures
        stream_ciphertext(s, data) is Err <==> s.counter + data.len() / (BLOCK_SIZE as nat)
            > u32::MAX,
        stream_ciphertext(s, data) matches Err(e) ==> e == CryptoError::AeadFailure,
    decreases data.len(),
{
    if data.len() >= BLOCK_SIZE && s.counter < u32::MAX {
        lemma_stream_ciphertext_fails(s.advanced(), data.skip(BLOCK_SIZE as int));
    }
}

} // verus!
