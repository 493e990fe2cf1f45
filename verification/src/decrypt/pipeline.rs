//! Stream-mode decryption one step at a time, for a caller that reads the
//! container chunk by chunk and writes what each step hands back.
//!
//! The caller reads the first 96 bytes and opens a [`StreamDecryptor`] with
//! them, then reads up to [`SEALED_BLOCK_SIZE`] bytes at a time and hands
//! buffer and count to [`StreamDecryptor::feed`]. A read that fills the
//! buffer is opened as a block that is not the last; a shorter read, an
//! empty one included, as the last block. Plaintext that earlier steps
//! handed out stays with the caller when a later step fails; a step that
//! fails hands out none, and no step after it hands out any.

use crate::decrypt::crypto::{authenticate, authenticated, decrypted, CIPHERTEXT_OFFSET};
use crate::error::{bytes_result, prepend, CryptoError, Failing};
use crate::global::enums::CipherMode;
use crate::secret::Secret;
use crate::streams::{
    block_opened, started_stream, stream_at, stream_plaintext, DecryptStream, StreamState,
    StreamView, SEALED_BLOCK_SIZE,
};
use vstd::prelude::*;
use vstd::slice::slice_subrange;

verus! {

/// Where a decryption stands.
#[derive(Clone, Copy, Debug, PartialEq, Eq, Structural)]
pub enum DecryptState {
    /// The header is authenticated; blocks are being opened.
    Decrypting,
    /// The last block has been opened.
    Done,
    /// A block did not open.
    Failed,
}

/// A stream-mode decryption in progress.
pub struct StreamDecryptor {
    stream: DecryptStream,
    state: DecryptState,
    front: Ghost<Seq<u8>>,
    raw_key: Ghost<Seq<u8>>,
    consumed: Ghost<Seq<u8>>,
    emitted: Ghost<Seq<u8>>,
}

/// A decryption in progress as a mathematical value.
pub ghost struct DecryptorView {
    pub state: DecryptState,
    /// Header and signature as they were read.
    pub front: Seq<u8>,
    /// The raw key that was handed in.
    pub raw_key: Seq<u8>,
    /// The ciphertext taken in so far.
    pub consumed: Seq<u8>,
    /// The plaintext handed out so far.
    pub emitted: Seq<u8>,
}

impl View for StreamDecryptor {
    type V = DecryptorView;

    closed spec fn view(&self) -> DecryptorView {
        DecryptorView {
            state: self.state,
            front: self.front@,
            raw_key: self.raw_key@,
            consumed: self.consumed@,
            emitted: self.emitted@,
        }
    }
}

/// The stream that opens the ciphertext behind an authenticated front.
pub open spec fn opening_stream(front: Seq<u8>, raw_key: Seq<u8>) -> StreamView {
    let pair = authenticated(front, raw_key)->Ok_0;
    started_stream(pair.0.header_type.algorithm, pair.1, pair.0.nonce)
}

impl StreamDecryptor {
    /// The parts of the decryptor agree with each other.
    pub closed spec fn wf(&self) -> bool {
        let start = opening_stream(self.front@, self.raw_key@);
        let s = self.stream@;
        &&& self.front@.len() == CIPHERTEXT_OFFSET
        &&& authenticated(self.front@, self.raw_key@) is Ok
        &&& authenticated(self.front@, self.raw_key@)->Ok_0.0.header_type.cipher_mode
            == CipherMode::StreamMode
        &&& self.state == DecryptState::Decrypting ==> {
            &&& s.state == StreamState::Flowing
            &&& self.consumed@.len() % (SEALED_BLOCK_SIZE as nat) == 0
            &&& s.counter == self.consumed@.len() / (SEALED_BLOCK_SIZE as nat)
            &&& s == stream_at(start, self.consumed@.len() / (SEALED_BLOCK_SIZE as nat))
            &&& forall|rest: Seq<u8>| #[trigger]
                stream_plaintext(start, self.consumed@ + rest) == prepend(
                    self.emitted@,
                    stream_plaintext(s, rest),
                )
        }
        &&& self.state == DecryptState::Done ==> stream_plaintext(start, self.consumed@) == Ok::<
            Seq<u8>,
            CryptoError,
        >(self.emitted@)
        &&& self.state == DecryptState::Failed ==> stream_plaintext(start, self.consumed@) is Err
    }

    /// Opens a decryption from the first 96 bytes of a container, header and
    /// signature, and the raw key, which is consumed and wiped.
    ///
    /// Fails with `UsageFailure` for an empty raw key; with `HeaderFailure`
    /// where `front` is not 96 bytes long or the header does not parse; with
    /// `KdfFailure` when the key derivation fails; with
    /// `AuthenticationFailure` where the signature does not match the
    /// header; and with `UsageFailure` where the authenticated header names
    /// memory mode.
    pub fn open(front: &[u8], raw_key: Secret) -> (r: Result<StreamDecryptor, CryptoError>)
        ensures
            front@.len() != CIPHERTEXT_OFFSET ==> r.is_err_of(
                if raw_key@.len() == 0 {
                    CryptoError::UsageFailure
                } else {
                    CryptoError::HeaderFailure
                },
            ),
            front@.len() == CIPHERTEXT_OFFSET ==> match authenticated(front@, raw_key@) {
                Err(e) => r.is_err_of(e),
                Ok((h, key)) => if h.header_type.cipher_mode != CipherMode::StreamMode {
                    r.is_err_of(CryptoError::UsageFailure)
                } else {
                    r is Ok
                },
            },
            r matches Ok(d) ==> d.wf() && d@ == (DecryptorView {
                state: DecryptState::Decrypting,
                front: front@,
                raw_key: raw_key@,
                consumed: Seq::empty(),
                emitted: Seq::empty(),
            }),
    {
        if front.len() != CIPHERTEXT_OFFSET {
            if raw_key.expose().len() == 0 {
                return Err(CryptoError::UsageFailure);
            }
            return Err(CryptoError::HeaderFailure);
        }
        let ghost raw = raw_key@;
        let (header, key) = match authenticate(front, raw_key) {
            Ok(pair) => pair,
            Err(e) => {
                return Err(e);
            },
        };
        if header.header_type.cipher_mode != CipherMode::StreamMode {
            return Err(CryptoError::UsageFailure);
        }
        let stream = match DecryptStream::new(
            header.header_type.algorithm,
            key,
            header.nonce.as_slice(),
        ) {
            Ok(stream) => stream,
            Err(e) => {
                return Err(e);
            },
        };
        let d = StreamDecryptor {
            stream,
            state: DecryptState::Decrypting,
            front: Ghost(front@),
            raw_key: Ghost(raw),
            consumed: Ghost(Seq::empty()),
            emitted: Ghost(Seq::empty()),
        };
        proof {
            let start = opening_stream(front@, raw);
            assert(d.stream@ == start);
            assert forall|rest: Seq<u8>| #[trigger]
                stream_plaintext(start, d.consumed@ + rest) == prepend(
                    d.emitted@,
                    stream_plaintext(start, rest),
                ) by {
                assert(d.consumed@ + rest =~= rest);
                let whole = stream_plaintext(start, rest);
                if whole is Ok {
                    assert(d.emitted@ + whole->Ok_0 =~= whole->Ok_0);
                }
            }
        }
        Ok(d)
    }

    /// Where the decryption stands.
    pub fn state(&self) -> (s: DecryptState)
        ensures
            s == self@.state,
    {
        self.state
    }

    /// Opens what one read brought: the first `read_count` bytes of
    /// `buffer`. A read of [`SEALED_BLOCK_SIZE`] bytes is opened as a block
    /// that is not the last; a shorter one, an empty one included, as the
    /// last block, which takes the decryption to `Done`.
    ///
    /// What a step returns is what the stream, as it stands after the full
    /// chunks read so far, makes of this chunk: the plaintext that the chunk
    /// opens to under the nonce of its place, or the failure of a chunk that
    /// does not open there. So a chunk that does not open fails at its own
    /// step, and every step before it hands out the plaintext of its chunk.
    ///
    /// Once done, the plaintext handed out over all steps is the very
    /// plaintext that [`crate::decrypt::crypto::decrypt_bytes`] returns for
    /// the container read. A block that does not open fails with
    /// `AuthenticationFailure` (or with `AeadFailure`, where the counter has
    /// no number left for it), hands out nothing and takes the decryption to
    /// `Failed`; the container read so far is one that `decrypt_bytes`
    /// refuses with the same failure, and where the block was not the last,
    /// so is every container that goes on from there. Every call after
    /// `Done` or `Failed` fails
    /// with `StreamExhausted`. A count beyond the buffer or beyond
    /// [`SEALED_BLOCK_SIZE`] fails with `InputIoFailure` and changes
    /// nothing.
    pub fn feed(&mut self, buffer: &[u8], read_count: usize) -> (r: Result<Vec<u8>, CryptoError>)
        requires
            old(self).wf(),
        ensures
            final(self).wf(),
            final(self)@.front == old(self)@.front,
            final(self)@.raw_key == old(self)@.raw_key,
            old(self)@.state != DecryptState::Decrypting ==> r.is_err_of(
                CryptoError::StreamExhausted,
            ) && final(self)@ == old(self)@,
            old(self)@.state == DecryptState::Decrypting && (read_count > buffer@.len()
                || read_count > SEALED_BLOCK_SIZE) ==> r.is_err_of(CryptoError::InputIoFailure)
                && final(self)@ == old(self)@,
            old(self)@.state == DecryptState::Decrypting && read_count <= buffer@.len()
                && read_count <= SEALED_BLOCK_SIZE ==> {
                let chunk = buffer@.take(read_count as int);
                let at = stream_at(
                    opening_stream(old(self)@.front, old(self)@.raw_key),
                    old(self)@.consumed.len() / (SEALED_BLOCK_SIZE as nat),
                );
                &&& final(self)@.consumed == old(self)@.consumed + chunk
                &&& bytes_result(r) == block_opened(at, chunk, read_count != SEALED_BLOCK_SIZE).0
                &&& match r {
                    Ok(plain) => {
                        &&& plain@.len() + 16 == chunk.len()
                        &&& final(self)@.emitted == old(self)@.emitted + plain@
                        &&& final(self)@.state == (if read_count == SEALED_BLOCK_SIZE {
                            DecryptState::Decrypting
                        } else {
                            DecryptState::Done
                        })
                    },
                    Err(e) => {
                        &&& final(self)@.emitted == old(self)@.emitted
                        &&& final(self)@.state == DecryptState::Failed
                        &&& decrypted(
                            final(self)@.front + final(self)@.consumed,
                            final(self)@.raw_key,
                        ) == Err::<Seq<u8>, CryptoError>(e)
                        &&& read_count == SEALED_BLOCK_SIZE ==> forall|rest: Seq<u8>|
                            #[trigger] decrypted(
                                final(self)@.front + (final(self)@.consumed + rest),
                                final(self)@.raw_key,
                            ) == Err::<Seq<u8>, CryptoError>(e)
                    },
                }
            },
            final(self)@.state == DecryptState::Done ==> decrypted(
                final(self)@.front + final(self)@.consumed,
                final(self)@.raw_key,
            ) == Ok::<Seq<u8>, CryptoError>(final(self)@.emitted),
            final(self)@.state == DecryptState::Failed ==> decrypted(
                final(self)@.front + final(self)@.consumed,
                final(self)@.raw_key,
            ) is Err,
    {
        proof {
            self.lemma_whole(self.consumed@);
        }
        if self.state != DecryptState::Decrypting {
            return Err(CryptoError::StreamExhausted);
        }
        if read_count > buffer.len() || read_count > SEALED_BLOCK_SIZE {
            return Err(CryptoError::InputIoFailure);
        }
        let chunk = slice_subrange(buffer, 0, read_count);
        let ghost start = opening_stream(self.front@, self.raw_key@);
        let ghost consumed0 = self.consumed@;
        let ghost emitted0 = self.emitted@;
        let ghost s0 = self.stream@;
        proof {
            assert(chunk@ =~= buffer@.take(read_count as int));
        }
        let last = read_count != SEALED_BLOCK_SIZE;
        let opened = if last {
            self.stream.decrypt_last(chunk)
        } else {
            self.stream.decrypt_next(chunk)
        };
        let ghost s1 = self.stream@;
        let ghost consumed1 = consumed0 + chunk@;
        self.consumed = Ghost(consumed1);
        match opened {
            Ok(plain) => {
                let ghost emitted1 = emitted0 + plain@;
                proof {
                    if last {
                        assert(stream_plaintext(start, consumed0 + chunk@) == prepend(
                            emitted0,
                            stream_plaintext(s0, chunk@),
                        ));
                    } else {
                        assert forall|rest: Seq<u8>| #[trigger]
                            stream_plaintext(start, consumed1 + rest) == prepend(
                                emitted1,
                                stream_plaintext(s1, rest),
                            ) by {
                            let joined = chunk@ + rest;
                            assert(consumed1 + rest =~= consumed0 + joined);
                            assert(joined.take(SEALED_BLOCK_SIZE as int) =~= chunk@);
                            assert(joined.skip(SEALED_BLOCK_SIZE as int) =~= rest);
                            assert(stream_plaintext(start, consumed0 + joined) == prepend(
                                emitted0,
                                stream_plaintext(s0, joined),
                            ));
                            let tail = stream_plaintext(s1, rest);
                            assert(stream_plaintext(s0, joined) == prepend(plain@, tail));
                            if tail is Ok {
                                assert(emitted0 + (plain@ + tail->Ok_0) =~= emitted1
                                    + tail->Ok_0);
                            }
                        }
                    }
                }
                self.emitted = Ghost(emitted1);
                if last {
                    self.state = DecryptState::Done;
                }
                proof {
                    self.lemma_whole(self.consumed@);
                }
                Ok(plain)
            },
            Err(e) => {
                proof {
                    assert(stream_plaintext(start, consumed0 + chunk@) == prepend(
                        emitted0,
                        stream_plaintext(s0, chunk@),
                    ));
                    if !last {
                        assert(chunk@.take(SEALED_BLOCK_SIZE as int) =~= chunk@);
                    }
                }
                self.state = DecryptState::Failed;
                proof {
                    self.lemma_whole(self.consumed@);
                    if !last {
                        assert forall|rest: Seq<u8>| #[trigger]
                            decrypted(self.front@ + (consumed1 + rest), self.raw_key@) == Err::<
                                Seq<u8>,
                                CryptoError,
                            >(e) by {
                            let joined = chunk@ + rest;
                            assert(consumed1 + rest =~= consumed0 + joined);
                            assert(joined.take(SEALED_BLOCK_SIZE as int) =~= chunk@);
                            assert(stream_plaintext(start, consumed0 + joined) == prepend(
                                emitted0,
                                stream_plaintext(s0, joined),
                            ));
                            self.lemma_whole(consumed1 + rest);
                        }
                    }
                }
                Err(e)
            },
        }
    }

    /// What decryption says of the container that is the authenticated
    /// front followed by `body` is what the opening stream makes of `body`.
    proof fn lemma_whole(&self, body: Seq<u8>)
        requires
            self.front@.len() == CIPHERTEXT_OFFSET,
            authenticated(self.front@, self.raw_key@) is Ok,
            authenticated(self.front@, self.raw_key@)->Ok_0.0.header_type.cipher_mode
                == CipherMode::StreamMode,
        ensures
            decrypted(self.front@ + body, self.raw_key@) == stream_plaintext(
                opening_stream(self.front@, self.raw_key@),
                body,
            ),
    {
        let whole = self.front@ + body;
        assert(whole.take(64) =~= self.front@.take(64));
        assert(whole.subrange(64, 96) =~= self.front@.subrange(64, 96));
        assert(whole.skip(96) =~= body);
    }
}

} // verus!
