//! Stream-mode encryption one step at a time, for a caller that reads the
//! input block by block and writes what each step hands back.
//!
//! The caller reads up to [`BLOCK_SIZE`] bytes, hands buffer and count to
//! [`StreamEncryptor::feed`], writes the bytes it gets, and repeats until the
//! encryptor is done. A read that fills the buffer is sealed as a block that
//! is not the last; a shorter read, an empty one included, is sealed as the
//! last block. So the last block is sealed exactly once, also for an input
//! whose length is a multiple of the block size.

use crate::encrypt::crypto::{
    lemma_block_sealable, reported_container, reported_digest, stream_encrypts_to,
};
use crate::error::{bytes_option, prepend, text_option, CryptoError, Failing};
use crate::global::enums::{Algorithm, BenchMode, CipherMode, HashMode};
use crate::global::structs::{Header, HeaderType, HeaderView};
use crate::global::{BLOCK_SIZE, SALT_LEN, VERSION};
use crate::header::{serialized, sign, signature_of, SIGNATURE_LEN};
use crate::key::{
    argon2_hash, derived_key, gen_nonce, gen_salt, stored_nonce_len, ARGON2_MAX_PASSWORD,
};
use crate::observer::Observer;
use crate::secret::Secret;
use crate::ciphers::sealed;
use crate::streams::{
    block_nonce, started_stream, stream_ciphertext, stream_reopens, EncryptStream, StreamState,
    StreamView,
};
use vstd::prelude::*;
use vstd::slice::slice_subrange;

verus! {

/// Where an encryption stands.
#[derive(Clone, Copy, Debug, PartialEq, Eq, Structural)]
pub enum PipelineState {
    /// Nothing has been derived yet.
    Init,
    /// Key derived and header signed; the header has not been handed out.
    HeaderReady,
    /// The header has been handed out; blocks are being sealed.
    Encrypting,
    /// The last block has been sealed.
    Done,
}

/// A stream-mode encryption in progress.
pub struct StreamEncryptor {
    algorithm: Algorithm,
    bench: BenchMode,
    hash_mode: HashMode,
    state: PipelineState,
    front: Vec<u8>,
    stream: Option<EncryptStream>,
    observer: Observer,
    raw_key: Ghost<Seq<u8>>,
    header: Ghost<HeaderView>,
    consumed: Ghost<Seq<u8>>,
    sealed: Ghost<Seq<u8>>,
}

/// An encryption in progress as a mathematical value.
pub ghost struct EncryptorView {
    pub state: PipelineState,
    pub algorithm: Algorithm,
    pub bench: BenchMode,
    pub hash_mode: HashMode,
    /// The raw key that was handed in.
    pub raw_key: Seq<u8>,
    /// The header that was signed.
    pub header: HeaderView,
    /// The plaintext taken in so far.
    pub consumed: Seq<u8>,
    /// The bytes of the container made so far.
    pub emitted: Seq<u8>,
}

/// Whether a stream-mode encryption by `algorithm` can start from `raw_key`
/// and the header `h`, or why it cannot.
pub open spec fn stream_start(raw_key: Seq<u8>, h: HeaderView, algorithm: Algorithm) -> Result<
    (),
    CryptoError,
> {
    if raw_key.len() == 0 || h.header_type.cipher_mode != CipherMode::StreamMode
        || h.header_type.algorithm != algorithm {
        Err(CryptoError::UsageFailure)
    } else if !h.wf() {
        Err(CryptoError::HeaderFailure)
    } else if derived_key(raw_key, h.salt, h.header_type.header_version) is None {
        Err(CryptoError::KdfFailure)
    } else {
        Ok(())
    }
}

/// The sealed block that a step makes of `block`: the block sealed under the
/// derived key and the nonce of its place, which is the header's base nonce,
/// the number of full blocks taken in so far and the last-block flag.
pub open spec fn step_sealed(v: EncryptorView, block: Seq<u8>, last: bool) -> Seq<u8> {
    sealed(
        v.algorithm,
        derived_key(v.raw_key, v.header.salt, v.header.header_type.header_version)->Some_0,
        block_nonce(v.header.nonce, (v.consumed.len() / (BLOCK_SIZE as nat)) as u32, last),
        block,
    )
}

/// Header and signature as they open a container.
pub open spec fn container_front(raw_key: Seq<u8>, h: HeaderView) -> Seq<u8> {
    serialized(h) + signature_of(
        serialized(h),
        derived_key(raw_key, h.salt, h.header_type.header_version)->Some_0,
    )
}

impl View for StreamEncryptor {
    type V = EncryptorView;

    closed spec fn view(&self) -> EncryptorView {
        EncryptorView {
            state: self.state,
            algorithm: self.algorithm,
            bench: self.bench,
            hash_mode: self.hash_mode,
            raw_key: self.raw_key@,
            header: self.header@,
            consumed: self.consumed@,
            emitted: match self.state {
                PipelineState::Init | PipelineState::HeaderReady => Seq::empty(),
                _ => self.front@ + self.sealed@,
            },
        }
    }
}

impl StreamEncryptor {
    /// The key that raw key and header derive.
    spec fn key(&self) -> Seq<u8> {
        derived_key(
            self.raw_key@,
            self.header@.salt,
            self.header@.header_type.header_version,
        )->Some_0
    }

    /// The stream as it was before the first block.
    spec fn start(&self) -> StreamView {
        started_stream(self.algorithm, self.key(), self.header@.nonce)
    }

    /// What the observer has been fed where `bytes` have been made.
    spec fn observed(&self, bytes: Seq<u8>) -> Seq<u8> {
        if self.hash_mode == HashMode::CalculateHash {
            bytes
        } else {
            Seq::empty()
        }
    }

    /// The parts of the encryptor agree with each other.
    pub closed spec fn wf(&self) -> bool {
        match self.state {
            PipelineState::Init => self.stream is None,
            _ => {
                let s = self.stream->Some_0@;
                &&& self.stream is Some
                &&& stream_start(self.raw_key@, self.header@, self.algorithm) is Ok
                &&& signature_of(serialized(self.header@), self.key()).len() == SIGNATURE_LEN
                &&& self.front@ == container_front(self.raw_key@, self.header@)
                &&& s.wf()
                &&& s.algorithm == self.algorithm
                &&& s.key == self.key()
                &&& s.base_nonce == self.header@.nonce
                &&& self.state == PipelineState::HeaderReady ==> {
                    &&& s == self.start()
                    &&& self.consumed@ == Seq::<u8>::empty()
                    &&& self.sealed@ == Seq::<u8>::empty()
                    &&& self.observer@ == Seq::<u8>::empty()
                }
                &&& self.state == PipelineState::Encrypting ==> {
                    &&& s.state == StreamState::Flowing
                    &&& s.counter == self.consumed@.len() / (BLOCK_SIZE as nat)
                    &&& self.consumed@.len() % (BLOCK_SIZE as nat) == 0
                    &&& self.observer@ == self.observed(self.front@ + self.sealed@)
                    &&& forall|rest: Seq<u8>| #[trigger]
                        stream_ciphertext(self.start(), self.consumed@ + rest) == prepend(
                            self.sealed@,
                            stream_ciphertext(s, rest),
                        )
                    &&& forall|rest: Seq<u8>|
                        stream_reopens(s, rest) ==> #[trigger] stream_reopens(
                            self.start(),
                            self.consumed@ + rest,
                        )
                }
                &&& self.state == PipelineState::Done ==> {
                    &&& self.observer@ == self.observed(self.front@ + self.sealed@)
                    &&& stream_ciphertext(self.start(), self.consumed@) == Ok::<
                        Seq<u8>,
                        CryptoError,
                    >(self.sealed@)
                    &&& stream_reopens(self.start(), self.consumed@)
                }
            },
        }
    }

    /// An encryption by `algorithm` that has not started.
    pub fn new(algorithm: Algorithm, bench: BenchMode, hash_mode: HashMode) -> (e: StreamEncryptor)
        ensures
            e.wf(),
            e@.state == PipelineState::Init,
            e@.algorithm == algorithm,
            e@.bench == bench,
            e@.hash_mode == hash_mode,
            e@.emitted == Seq::<u8>::empty(),
    {
        StreamEncryptor {
            algorithm,
            bench,
            hash_mode,
            state: PipelineState::Init,
            front: Vec::new(),
            stream: None,
            observer: Observer::new(),
            raw_key: Ghost(Seq::empty()),
            header: Ghost(
                HeaderView {
                    header_type: HeaderType {
                        header_version: VERSION,
                        cipher_mode: CipherMode::StreamMode,
                        algorithm,
                    },
                    nonce: Seq::empty(),
                    salt: Seq::empty(),
                },
            ),
            consumed: Ghost(Seq::empty()),
            sealed: Ghost(Seq::empty()),
        }
    }

    /// Where the encryption stands.
    pub fn state(&self) -> (s: PipelineState)
        ensures
            s == self@.state,
    {
        self.state
    }

    /// Derives the key from raw key and the header's salt and signs the
    /// header; this takes the encryption from `Init` to `HeaderReady`. The
    /// raw key is consumed and wiped.
    ///
    /// Fails with `UsageFailure` outside `Init`, for an empty raw key and for
    /// a header of another mode or algorithm; with `HeaderFailure` for a base
    /// nonce of the wrong length; with `KdfFailure` when the key derivation
    /// fails. A call that fails leaves the encryption as it was.
    pub fn derive_with(&mut self, raw_key: Secret, header: Header) -> (r: Result<(), CryptoError>)
        requires
            old(self).wf(),
        ensures
            final(self).wf(),
            old(self)@.state != PipelineState::Init ==> r.is_err_of(CryptoError::UsageFailure),
            old(self)@.state == PipelineState::Init ==> r == stream_start(
                raw_key@,
                header@,
                old(self)@.algorithm,
            ),
            r is Err ==> final(self)@ == old(self)@,
            r is Ok ==> final(self)@ == (EncryptorView {
                state: PipelineState::HeaderReady,
                raw_key: raw_key@,
                header: header@,
                consumed: Seq::empty(),
                emitted: Seq::empty(),
                ..old(self)@
            }),
            r is Ok ==> raw_key@.len() <= ARGON2_MAX_PASSWORD,
            r.is_err_of(CryptoError::KdfFailure) ==> raw_key@.len() > ARGON2_MAX_PASSWORD,
    {
        if self.state != PipelineState::Init || raw_key.expose().len() == 0
            || header.header_type.cipher_mode != CipherMode::StreamMode
            || header.header_type.algorithm != self.algorithm {
            return Err(CryptoError::UsageFailure);
        }
        let mut front = match header.serialize() {
            Ok(bytes) => bytes,
            Err(e) => {
                return Err(e);
            },
        };
        let ghost raw = raw_key@;
        let key = match argon2_hash(raw_key, &header.salt, &header.header_type.header_version) {
            Ok(key) => key,
            Err(e) => {
                return Err(e);
            },
        };
        let signature = match sign(front.as_slice(), &key) {
            Ok(signature) => signature,
            Err(e) => {
                return Err(e);
            },
        };
        let stream = match EncryptStream::new(self.algorithm, key, header.nonce.as_slice()) {
            Ok(stream) => stream,
            Err(e) => {
                return Err(e);
            },
        };
        front.extend_from_slice(signature.as_slice());
        let ghost made = stream@;
        self.front = front;
        self.stream = Some(stream);
        self.observer = Observer::new();
        self.raw_key = Ghost(raw);
        self.header = Ghost(header@);
        self.consumed = Ghost(Seq::empty());
        self.sealed = Ghost(Seq::empty());
        self.state = PipelineState::HeaderReady;
        proof {
            assert(self.key() == made.key);
            assert(self.front@ == container_front(self.raw_key@, self.header@));
            assert(stream_start(self.raw_key@, self.header@, self.algorithm) is Ok);
        }
        Ok(())
    }

    /// Why an encryption in this state does not start from a raw key of this
    /// length, whatever salt and nonce it draws, if it does not.
    pub open spec fn derive_failure(state: PipelineState, raw_key_len: nat) -> Option<
        CryptoError,
    > {
        if state != PipelineState::Init || raw_key_len == 0 {
            Some(CryptoError::UsageFailure)
        } else if raw_key_len > ARGON2_MAX_PASSWORD {
            Some(CryptoError::KdfFailure)
        } else {
            None
        }
    }

    /// As [`StreamEncryptor::derive_with`], under a header of the current
    /// version with a fresh random salt and base nonce.
    ///
    /// Whatever salt and nonce are drawn, the call succeeds unless
    /// [`StreamEncryptor::derive_failure`] names a failure: `UsageFailure`
    /// outside `Init` and for an empty raw key, `KdfFailure` for a raw key
    /// that the key derivation cannot take.
    pub fn derive(&mut self, raw_key: Secret) -> (r: Result<(), CryptoError>)
        requires
            old(self).wf(),
        ensures
            final(self).wf(),
            r is Ok <==> Self::derive_failure(old(self)@.state, raw_key@.len()) is None,
            r matches Err(e) ==> Self::derive_failure(old(self)@.state, raw_key@.len()) == Some(e),
            r.is_err_of(CryptoError::KdfFailure) ==> exists|salt: Seq<u8>|
                salt.len() == SALT_LEN && #[trigger] derived_key(raw_key@, salt, VERSION) is None,
            r is Err ==> final(self)@ == old(self)@,
            r is Ok ==> {
                &&& final(self)@ == (EncryptorView {
                    state: PipelineState::HeaderReady,
                    raw_key: raw_key@,
                    header: final(self)@.header,
                    consumed: Seq::empty(),
                    emitted: Seq::empty(),
                    ..old(self)@
                })
                &&& final(self)@.header.header_type == (HeaderType {
                    header_version: VERSION,
                    cipher_mode: CipherMode::StreamMode,
                    algorithm: old(self)@.algorithm,
                })
                &&& stream_start(raw_key@, final(self)@.header, old(self)@.algorithm) is Ok
            },
    {
        let salt = gen_salt();
        let nonce = gen_nonce(stored_nonce_len(self.algorithm, CipherMode::StreamMode));
        let header = Header {
            header_type: HeaderType {
                header_version: VERSION,
                cipher_mode: CipherMode::StreamMode,
                algorithm: self.algorithm,
            },
            nonce,
            salt,
        };
        let ghost h = header@;
        let r = self.derive_with(raw_key, header);
        proof {
            if r.is_err_of(CryptoError::KdfFailure) {
                assert(derived_key(raw_key@, h.salt, VERSION) is None);
            }
        }
        r
    }

    /// Hands out header and signature, the first 96 bytes of the container;
    /// this takes the encryption from `HeaderReady` to `Encrypting`. The
    /// bytes are handed out only with `WriteToFilesystem`.
    ///
    /// Fails with `UsageFailure` in any other state and then leaves the
    /// encryption as it was.
    pub fn take_header(&mut self) -> (r: Result<Option<Vec<u8>>, CryptoError>)
        requires
            old(self).wf(),
        ensures
            final(self).wf(),
            old(self)@.state != PipelineState::HeaderReady ==> r.is_err_of(
                CryptoError::UsageFailure,
            ) && final(self)@ == old(self)@,
            old(self)@.state == PipelineState::HeaderReady ==> {
                let front = container_front(old(self)@.raw_key, old(self)@.header);
                &&& r matches Ok(out) && bytes_option(out) == reported_container(
                    front,
                    old(self)@.bench,
                )
                &&& final(self)@ == (EncryptorView {
                    state: PipelineState::Encrypting,
                    emitted: front,
                    ..old(self)@
                })
            },
    {
        if self.state != PipelineState::HeaderReady {
            return Err(CryptoError::UsageFailure);
        }
        if self.hash_mode == HashMode::CalculateHash {
            self.observer.update(self.front.as_slice());
        }
        let out = if self.bench == BenchMode::WriteToFilesystem {
            Some(self.front.clone())
        } else {
            None
        };
        self.state = PipelineState::Encrypting;
        proof {
            let start = self.start();
            assert(self.front@ + self.sealed@ =~= self.front@);
            assert(self.observer@ =~= self.observed(self.front@ + self.sealed@));
            assert forall|rest: Seq<u8>| #[trigger]
                stream_ciphertext(start, self.consumed@ + rest) == prepend(
                    self.sealed@,
                    stream_ciphertext(start, rest),
                ) by {
                assert(self.consumed@ + rest =~= rest);
                let whole = stream_ciphertext(start, rest);
                if whole is Ok {
                    assert(self.sealed@ + whole->Ok_0 =~= whole->Ok_0);
                }
            }
            assert forall|rest: Seq<u8>| stream_reopens(start, rest) implies #[trigger] stream_reopens(
                start,
                self.consumed@ + rest,
            ) by {
                assert(self.consumed@ + rest =~= rest);
            }
        }
        Ok(out)
    }

    /// What a call of [`StreamEncryptor::feed`] fails with, if it fails:
    /// `StreamExhausted` once the encryption is done, `UsageFailure` before
    /// the header was handed out, `InputIoFailure` for a count beyond the
    /// buffer or beyond the block size, and `AeadFailure` for a full block
    /// that the counter has no number left for.
    pub open spec fn feed_failure(v: EncryptorView, buffer_len: nat, read_count: nat) -> Option<
        CryptoError,
    > {
        if v.state == PipelineState::Done {
            Some(CryptoError::StreamExhausted)
        } else if v.state != PipelineState::Encrypting {
            Some(CryptoError::UsageFailure)
        } else if read_count > buffer_len || read_count > BLOCK_SIZE {
            Some(CryptoError::InputIoFailure)
        } else if read_count == BLOCK_SIZE && v.consumed.len() / (BLOCK_SIZE as nat) >= u32::MAX {
            Some(CryptoError::AeadFailure)
        } else {
            None
        }
    }

    /// Seals what one read brought: the first `read_count` bytes of `buffer`.
    /// A read of [`BLOCK_SIZE`] bytes is sealed as a block that is not the
    /// last; a shorter one, an empty one included, as the last block, which
    /// takes the encryption to `Done`. The sealed block is handed out only
    /// with `WriteToFilesystem`.
    ///
    /// What a step hands out is [`step_sealed`] of the block: the block sealed
    /// under the nonce of its place.
    ///
    /// Once done, the bytes made are the very container that
    /// [`crate::encrypt::crypto::encrypt_bytes_stream_mode_with`] makes of
    /// all the plaintext taken in. A call that fails, as
    /// [`StreamEncryptor::feed_failure`] says, leaves the encryption as it
    /// was.
    pub fn feed(&mut self, buffer: &[u8], read_count: usize) -> (r: Result<
        Option<Vec<u8>>,
        CryptoError,
    >)
        requires
            old(self).wf(),
        ensures
            final(self).wf(),
            match Self::feed_failure(old(self)@, buffer@.len(), read_count as nat) {
                Some(e) => r.is_err_of(e) && final(self)@ == old(self)@,
                None => {
                    let block = buffer@.take(read_count as int);
                    let sealed = step_sealed(old(self)@, block, read_count != BLOCK_SIZE);
                    &&& r matches Ok(out) && bytes_option(out) == reported_container(
                        sealed,
                        old(self)@.bench,
                    )
                    &&& sealed.len() == block.len() + 16
                    &&& final(self)@ == (EncryptorView {
                        state: if read_count == BLOCK_SIZE {
                            PipelineState::Encrypting
                        } else {
                            PipelineState::Done
                        },
                        consumed: old(self)@.consumed + block,
                        emitted: old(self)@.emitted + sealed,
                        ..old(self)@
                    })
                    &&& final(self)@.state == PipelineState::Done ==> stream_encrypts_to(
                        final(self)@.consumed,
                        final(self)@.raw_key,
                        final(self)@.header,
                        final(self)@.emitted,
                    )
                },
            },
    {
        if self.state == PipelineState::Done {
            return Err(CryptoError::StreamExhausted);
        }
        if self.state != PipelineState::Encrypting {
            return Err(CryptoError::UsageFailure);
        }
        if read_count > buffer.len() || read_count > BLOCK_SIZE {
            return Err(CryptoError::InputIoFailure);
        }
        let block = slice_subrange(buffer, 0, read_count);
        let ghost start = self.start();
        let ghost consumed0 = self.consumed@;
        let ghost sealed0 = self.sealed@;
        let ghost front = self.front@;
        let mut stream = self.stream.take().unwrap();
        let ghost s0 = stream@;
        proof {
            assert(block@ =~= buffer@.take(read_count as int));
            lemma_block_sealable(self.algorithm, block@.len());
        }
        let last = read_count != BLOCK_SIZE;
        let sealed = if last {
            stream.encrypt_last(block)
        } else {
            stream.encrypt_next(block)
        };
        let sealed = match sealed {
            Ok(sealed) => sealed,
            Err(e) => {
                self.stream = Some(stream);
                return Err(e);
            },
        };
        if self.hash_mode == HashMode::CalculateHash {
            self.observer.update(sealed.as_slice());
        }
        proof {
            let s1 = stream@;
            let consumed1 = consumed0 + block@;
            let sealed1 = sealed0 + sealed@;
            assert(front + sealed1 =~= (front + sealed0) + sealed@);
            assert((front + sealed1).skip((front + sealed0).len() as int) =~= sealed@);
            if last {
                assert(stream_ciphertext(start, consumed0 + block@) == prepend(
                    sealed0,
                    stream_ciphertext(s0, block@),
                ));
                assert(stream_reopens(s0, block@));
            } else {
                assert(consumed1.len() / (BLOCK_SIZE as nat) == consumed0.len() / (
                BLOCK_SIZE as nat) + 1);
                assert forall|rest: Seq<u8>| #[trigger]
                    stream_ciphertext(start, consumed1 + rest) == prepend(
                        sealed1,
                        stream_ciphertext(s1, rest),
                    ) by {
                    let joined = block@ + rest;
                    assert(consumed1 + rest =~= consumed0 + joined);
                    assert(joined.take(BLOCK_SIZE as int) =~= block@);
                    assert(joined.skip(BLOCK_SIZE as int) =~= rest);
                    assert(stream_ciphertext(start, consumed0 + joined) == prepend(
                        sealed0,
                        stream_ciphertext(s0, joined),
                    ));
                    let tail = stream_ciphertext(s1, rest);
                    assert(stream_ciphertext(s0, joined) == prepend(sealed@, tail));
                    if tail is Ok {
                        assert(sealed0 + (sealed@ + tail->Ok_0) =~= sealed1 + tail->Ok_0);
                    }
                }
                assert forall|rest: Seq<u8>| stream_reopens(s1, rest) implies #[trigger] stream_reopens(
                    start,
                    consumed1 + rest,
                ) by {
                    let joined = block@ + rest;
                    assert(consumed1 + rest =~= consumed0 + joined);
                    assert(joined.take(BLOCK_SIZE as int) =~= block@);
                    assert(joined.skip(BLOCK_SIZE as int) =~= rest);
                    assert(stream_reopens(s0, joined));
                    assert(stream_reopens(start, consumed0 + joined));
                }
            }
        }
        self.stream = Some(stream);
        self.consumed = Ghost(consumed0 + block@);
        self.sealed = Ghost(sealed0 + sealed@);
        if last {
            self.state = PipelineState::Done;
        }
        let out = if self.bench == BenchMode::WriteToFilesystem {
            Some(sealed)
        } else {
            None
        };
        Ok(out)
    }

    /// The digest of the container, once the encryption is done and where
    /// `CalculateHash` asks for it.
    ///
    /// Fails with `UsageFailure` before the encryption is done.
    pub fn finish(&self) -> (r: Result<Option<String>, CryptoError>)
        requires
            self.wf(),
        ensures
            self@.state != PipelineState::Done ==> r.is_err_of(CryptoError::UsageFailure),
            self@.state == PipelineState::Done ==> (r matches Ok(digest) && text_option(digest)
                == reported_digest(self@.emitted, self@.hash_mode)),
    {
        if self.state != PipelineState::Done {
            return Err(CryptoError::UsageFailure);
        }
        if self.hash_mode == HashMode::CalculateHash {
            Ok(Some(self.observer.digest()))
        } else {
            Ok(None)
        }
    }
}

} // verus!
