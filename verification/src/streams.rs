//! Block-by-block authenticated encryption in the STREAM pattern.
//!
//! Every block is sealed under its own nonce: the base nonce, then the block
//! counter as four big-endian bytes, then one byte that is 1 for the last
//! block and 0 for every other. The counter starts at zero and goes up by
//! one with every block. A block that is moved, dropped or appended
//! therefore meets a nonce under which it was not sealed.
//!
//! A stream is fresh until it is started with key and base nonce, flowing
//! while blocks pass, and terminated once the last block has passed. Blocks
//! pass only while it is flowing.

use crate::ciphers::{decrypt, encrypt, nonce_len, reopens, sealable, sealed, seals_to, unsealed};
use crate::error::{bytes_result, prepend, CryptoError};
use crate::global::enums::Algorithm;
use crate::global::{BLOCK_SIZE, KEY_LEN, TAG_LEN};
use crate::secret::Secret;
use vstd::prelude::*;

verus! {

/// Number of nonce bytes that counter and last-block flag take.
pub const NONCE_TAIL_LEN: usize = 5;

/// Where a stream stands.
#[derive(Clone, Copy, Debug, PartialEq, Eq, Structural)]
pub enum StreamState {
    /// Made, but without key and nonce: no block can pass yet.
    Fresh,
    /// Started with key and nonce: blocks pass, the last has not.
    Flowing,
    /// The last block has passed; the stream refuses further use.
    Terminated,
}

/// A stream as a mathematical value.
pub ghost struct StreamView {
    pub algorithm: Algorithm,
    pub key: Seq<u8>,
    pub base_nonce: Seq<u8>,
    pub counter: u32,
    pub state: StreamState,
}

impl StreamView {
    /// Key and base nonce have the lengths that the algorithm calls for.
    pub open spec fn wf(self) -> bool {
        &&& self.key.len() == KEY_LEN
        &&& self.base_nonce.len() + NONCE_TAIL_LEN == nonce_len(self.algorithm)
    }

    /// The stream after one more block that was not the last.
    pub open spec fn advanced(self) -> StreamView {
        StreamView { counter: (self.counter + 1) as u32, ..self }
    }

    /// The stream after its last block.
    pub open spec fn terminated(self) -> StreamView {
        StreamView { state: StreamState::Terminated, ..self }
    }

    /// The nonce of the next block.
    pub open spec fn nonce(self, last: bool) -> Seq<u8> {
        block_nonce(self.base_nonce, self.counter, last)
    }
}

/// A stream of `algorithm` that has not been started.
pub open spec fn fresh_stream(algorithm: Algorithm) -> StreamView {
    StreamView {
        algorithm,
        key: Seq::empty(),
        base_nonce: Seq::empty(),
        counter: 0,
        state: StreamState::Fresh,
    }
}

/// A stream right after it was started with `key` and `base_nonce`.
pub open spec fn started_stream(algorithm: Algorithm, key: Seq<u8>, base_nonce: Seq<u8>) -> StreamView {
    StreamView { algorithm, key, base_nonce, counter: 0, state: StreamState::Flowing }
}

/// The stream `s` after `i` more blocks that were not the last.
pub open spec fn stream_at(s: StreamView, i: nat) -> StreamView {
    StreamView { counter: (s.counter + i) as u32, ..s }
}

/// Why a stream in state `s` does not take a block, if it does not:
/// `UsageFailure` before it was started, `StreamExhausted` once terminated,
/// and, for a block that is not the last, `AeadFailure` where the counter has
/// no number left for it.
pub open spec fn refusal(s: StreamView, last: bool) -> Option<CryptoError> {
    if s.state == StreamState::Fresh {
        Some(CryptoError::UsageFailure)
    } else if s.state == StreamState::Terminated {
        Some(CryptoError::StreamExhausted)
    } else if !last && s.counter == u32::MAX {
        Some(CryptoError::AeadFailure)
    } else {
        None
    }
}

/// The stream after a block has passed.
pub open spec fn passed(s: StreamView, last: bool) -> StreamView {
    if last {
        s.terminated()
    } else {
        s.advanced()
    }
}

/// What sealing a block returns in state `s`, and the stream after: a call
/// that fails leaves the stream as it was.
pub open spec fn block_sealed(s: StreamView, block: Seq<u8>, last: bool) -> (
    Result<Seq<u8>, CryptoError>,
    StreamView,
) {
    match refusal(s, last) {
        Some(e) => (Err(e), s),
        None => if sealable(s.algorithm, block.len()) {
            (Ok(sealed(s.algorithm, s.key, s.nonce(last), block)), passed(s, last))
        } else {
            (Err(CryptoError::AeadFailure), s)
        },
    }
}

/// What opening a block returns in state `s`, and the stream after: a call
/// that fails leaves the stream as it was.
pub open spec fn block_opened(s: StreamView, block: Seq<u8>, last: bool) -> (
    Result<Seq<u8>, CryptoError>,
    StreamView,
) {
    match refusal(s, last) {
        Some(e) => (Err(e), s),
        None => match unsealed(s.algorithm, s.key, s.nonce(last), block) {
            Some(plain) => (Ok(plain), passed(s, last)),
            None => (Err(CryptoError::AuthenticationFailure), s),
        },
    }
}

/// What opening a block that is not the last returns, and the stream after.
pub open spec fn next_opened(s: StreamView, block: Seq<u8>) -> (Result<Seq<u8>, CryptoError>, StreamView) {
    block_opened(s, block, false)
}

/// What opening the last block returns, and the stream after.
pub open spec fn last_opened(s: StreamView, block: Seq<u8>) -> (Result<Seq<u8>, CryptoError>, StreamView) {
    block_opened(s, block, true)
}

/// The four bytes of `counter`, most significant first.
pub open spec fn counter_be(counter: u32) -> Seq<u8> {
    seq![
        (counter / 16777216) as u8,
        (counter / 65536 % 256) as u8,
        (counter / 256 % 256) as u8,
        (counter % 256) as u8,
    ]
}

/// The nonce of block number `counter`: base nonce, counter, last-block flag.
pub open spec fn block_nonce(base_nonce: Seq<u8>, counter: u32, last: bool) -> Seq<u8> {
    base_nonce + counter_be(counter) + seq![if last { 1u8 } else { 0u8 }]
}

/// No two blocks of one stream share a nonce: from a block's nonce its
/// number and its last-block flag can be read back.
pub proof fn lemma_block_nonce_injective(
    base_nonce: Seq<u8>,
    counter1: u32,
    last1: bool,
    counter2: u32,
    last2: bool,
)
    requires
        block_nonce(base_nonce, counter1, last1) == block_nonce(base_nonce, counter2, last2),
    ensures
        counter1 == counter2,
        last1 == last2,
{
    let n1 = block_nonce(base_nonce, counter1, last1);
    let n2 = block_nonce(base_nonce, counter2, last2);
    let k = base_nonce.len() as int;
    assert(n1[k] == counter_be(counter1)[0] && n2[k] == counter_be(counter2)[0]);
    assert(n1[k + 1] == counter_be(counter1)[1] && n2[k + 1] == counter_be(counter2)[1]);
    assert(n1[k + 2] == counter_be(counter1)[2] && n2[k + 2] == counter_be(counter2)[2]);
    assert(n1[k + 3] == counter_be(counter1)[3] && n2[k + 3] == counter_be(counter2)[3]);
    assert(n1[k + 4] == (if last1 { 1u8 } else { 0u8 }));
    assert(n2[k + 4] == (if last2 { 1u8 } else { 0u8 }));
}

/// Builds the nonce of block number `counter`.
fn make_block_nonce(base_nonce: &[u8], counter: u32, last: bool) -> (nonce: Vec<u8>)
    ensures
        nonce@ == block_nonce(base_nonce@, counter, last),
{
    let mut nonce: Vec<u8> = Vec::new();
    nonce.extend_from_slice(base_nonce);
    nonce.push((counter / 16777216) as u8);
    nonce.push((counter / 65536 % 256) as u8);
    nonce.push((counter / 256 % 256) as u8);
    nonce.push((counter % 256) as u8);
    nonce.push(if last { 1u8 } else { 0u8 });
    assert(nonce@ =~= block_nonce(base_nonce@, counter, last));
    nonce
}

/// The sealing side of a stream.
pub struct EncryptStream {
    algorithm: Algorithm,
    key: Option<Secret>,
    base_nonce: Vec<u8>,
    counter: u32,
    state: StreamState,
}

impl View for EncryptStream {
    type V = StreamView;

    closed spec fn view(&self) -> StreamView {
        StreamView {
            algorithm: self.algorithm,
            key: match self.key {
                Some(key) => key@,
                None => Seq::empty(),
            },
            base_nonce: self.base_nonce@,
            counter: self.counter,
            state: self.state,
        }
    }
}

impl EncryptStream {
    #[verifier::type_invariant]
    spec fn inv(self) -> bool {
        if self.state == StreamState::Fresh {
            self@ == fresh_stream(self.algorithm)
        } else {
            self.key is Some && self@.wf()
        }
    }

    /// A stream of `algorithm` without key and nonce.
    pub fn fresh(algorithm: Algorithm) -> (s: EncryptStream)
        ensures
            s@ == fresh_stream(algorithm),
    {
        EncryptStream {
            algorithm,
            key: None,
            base_nonce: Vec::new(),
            counter: 0,
            state: StreamState::Fresh,
        }
    }

    /// Starts a fresh stream with `key` and `base_nonce`; from then on blocks
    /// pass.
    ///
    /// Fails with `UsageFailure` when the stream was started before, the key
    /// is not 32 bytes long or the base nonce is not five bytes shorter than
    /// the algorithm's nonce. A call that fails leaves the stream as it was.
    pub fn start(&mut self, key: Secret, base_nonce: &[u8]) -> (r: Result<(), CryptoError>)
        ensures
            r is Ok <==> old(self)@.state == StreamState::Fresh && key@.len() == KEY_LEN
                && base_nonce@.len() + NONCE_TAIL_LEN == nonce_len(old(self)@.algorithm),
            r is Ok ==> final(self)@ == started_stream(old(self)@.algorithm, key@, base_nonce@),
            r matches Err(e) ==> e == CryptoError::UsageFailure && final(self)@ == old(self)@,
    {
        if self.state != StreamState::Fresh || key.expose().len() != KEY_LEN || base_nonce.len()
            != nonce_len(self.algorithm) - NONCE_TAIL_LEN {
            return Err(CryptoError::UsageFailure);
        }
        let mut nonce: Vec<u8> = Vec::new();
        nonce.extend_from_slice(base_nonce);
        assert(nonce@ =~= base_nonce@);
        *self = EncryptStream {
            algorithm: self.algorithm,
            key: Some(key),
            base_nonce: nonce,
            counter: 0,
            state: StreamState::Flowing,
        };
        Ok(())
    }

    /// A stream of `algorithm`, started with `key` and `base_nonce`.
    ///
    /// Fails with `UsageFailure` when the key is not 32 bytes long or the
    /// base nonce is not five bytes shorter than the algorithm's nonce.
    pub fn new(algorithm: Algorithm, key: Secret, base_nonce: &[u8]) -> (r: Result<
        EncryptStream,
        CryptoError,
    >)
        ensures
            r is Ok <==> key@.len() == KEY_LEN && base_nonce@.len() + NONCE_TAIL_LEN == nonce_len(
                algorithm,
            ),
            r matches Ok(s) ==> s@ == started_stream(algorithm, key@, base_nonce@),
            r matches Err(e) ==> e == CryptoError::UsageFailure,
    {
        let mut stream = EncryptStream::fresh(algorithm);
        match stream.start(key, base_nonce) {
            Ok(()) => Ok(stream),
            Err(e) => Err(e),
        }
    }

    /// Where the stream stands.
    pub fn state(&self) -> (s: StreamState)
        ensures
            s == self@.state,
    {
        self.state
    }

    /// Seals one block under the nonce of its place.
    fn seal_block(&mut self, block: &[u8], last: bool) -> (r: Result<Vec<u8>, CryptoError>)
        ensures
            bytes_result(r) == block_sealed(old(self)@, block@, last).0,
            final(self)@ == block_sealed(old(self)@, block@, last).1,
            r matches Ok(out) ==> seals_to(
                old(self)@.algorithm,
                old(self)@.key,
                old(self)@.nonce(last),
                block@,
                out@,
            ),
    {
        proof {
            use_type_invariant(&*self);
        }
        if self.state == StreamState::Fresh {
            return Err(CryptoError::UsageFailure);
        }
        if self.state == StreamState::Terminated {
            return Err(CryptoError::StreamExhausted);
        }
        if !last && self.counter == u32::MAX {
            return Err(CryptoError::AeadFailure);
        }
        let nonce = make_block_nonce(self.base_nonce.as_slice(), self.counter, last);
        let key = self.key.as_ref().unwrap();
        match encrypt(self.algorithm, key.expose().as_slice(), nonce.as_slice(), block) {
            Ok(out) => {
                if last {
                    self.state = StreamState::Terminated;
                } else {
                    self.counter = self.counter + 1;
                }
                Ok(out)
            },
            Err(e) => Err(e),
        }
    }

    /// Seals a block that is not the last one.
    ///
    /// Fails with `UsageFailure` before the stream was started, with
    /// `StreamExhausted` once it is terminated, and with `AeadFailure` when
    /// the counter has no number left for this block or the cipher refuses
    /// the block's length. A call that fails leaves the stream as it was.
    pub fn encrypt_next(&mut self, block: &[u8]) -> (r: Result<Vec<u8>, CryptoError>)
        ensures
            bytes_result(r) == block_sealed(old(self)@, block@, false).0,
            final(self)@ == block_sealed(old(self)@, block@, false).1,
            r matches Ok(c) ==> seals_to(
                old(self)@.algorithm,
                old(self)@.key,
                old(self)@.nonce(false),
                block@,
                c@,
            ),
    {
        self.seal_block(block, false)
    }

    /// Seals the last block, which may be short or empty, and terminates the
    /// stream.
    ///
    /// Fails with `UsageFailure` before the stream was started, with
    /// `StreamExhausted` once it is terminated, and with `AeadFailure` when
    /// the cipher refuses the block's length. A call that fails leaves the
    /// stream as it was.
    pub fn encrypt_last(&mut self, block: &[u8]) -> (r: Result<Vec<u8>, CryptoError>)
        ensures
            bytes_result(r) == block_sealed(old(self)@, block@, true).0,
            final(self)@ == block_sealed(old(self)@, block@, true).1,
            r matches Ok(c) ==> seals_to(
                old(self)@.algorithm,
                old(self)@.key,
                old(self)@.nonce(true),
                block@,
                c@,
            ),
    {
        self.seal_block(block, true)
    }
}

/// The opening side of a stream.
pub struct DecryptStream {
    algorithm: Algorithm,
    key: Option<Secret>,
    base_nonce: Vec<u8>,
    counter: u32,
    state: StreamState,
}

impl View for DecryptStream {
    type V = StreamView;

    closed spec fn view(&self) -> StreamView {
        StreamView {
            algorithm: self.algorithm,
            key: match self.key {
                Some(key) => key@,
                None => Seq::empty(),
            },
            base_nonce: self.base_nonce@,
            counter: self.counter,
            state: self.state,
        }
    }
}

impl DecryptStream {
    #[verifier::type_invariant]
    spec fn inv(self) -> bool {
        if self.state == StreamState::Fresh {
            self@ == fresh_stream(self.algorithm)
        } else {
            self.key is Some && self@.wf()
        }
    }

    /// A stream of `algorithm` without key and nonce.
    pub fn fresh(algorithm: Algorithm) -> (s: DecryptStream)
        ensures
            s@ == fresh_stream(algorithm),
    {
        DecryptStream {
            algorithm,
            key: None,
            base_nonce: Vec::new(),
            counter: 0,
            state: StreamState::Fresh,
        }
    }

    /// Starts a fresh stream with `key` and `base_nonce`; from then on blocks
    /// pass.
    ///
    /// Fails with `UsageFailure` when the stream was started before, the key
    /// is not 32 bytes long or the base nonce is not five bytes shorter than
    /// the algorithm's nonce. A call that fails leaves the stream as it was.
    pub fn start(&mut self, key: Secret, base_nonce: &[u8]) -> (r: Result<(), CryptoError>)
        ensures
            r is Ok <==> old(self)@.state == StreamState::Fresh && key@.len() == KEY_LEN
                && base_nonce@.len() + NONCE_TAIL_LEN == nonce_len(old(self)@.algorithm),
            r is Ok ==> final(self)@ == started_stream(old(self)@.algorithm, key@, base_nonce@),
            r matches Err(e) ==> e == CryptoError::UsageFailure && final(self)@ == old(self)@,
    {
        if self.state != StreamState::Fresh || key.expose().len() != KEY_LEN || base_nonce.len()
            != nonce_len(self.algorithm) - NONCE_TAIL_LEN {
            return Err(CryptoError::UsageFailure);
        }
        let mut nonce: Vec<u8> = Vec::new();
        nonce.extend_from_slice(base_nonce);
        assert(nonce@ =~= base_nonce@);
        *self = DecryptStream {
            algorithm: self.algorithm,
            key: Some(key),
            base_nonce: nonce,
            counter: 0,
            state: StreamState::Flowing,
        };
        Ok(())
    }

    /// A stream of `algorithm`, started with `key` and `base_nonce`.
    ///
    /// Fails with `UsageFailure` when the key is not 32 bytes long or the
    /// base nonce is not five bytes shorter than the algorithm's nonce.
    pub fn new(algorithm: Algorithm, key: Secret, base_nonce: &[u8]) -> (r: Result<
        DecryptStream,
        CryptoError,
    >)
        ensures
            r is Ok <==> key@.len() == KEY_LEN && base_nonce@.len() + NONCE_TAIL_LEN == nonce_len(
                algorithm,
            ),
            r matches Ok(s) ==> s@ == started_stream(algorithm, key@, base_nonce@),
            r matches Err(e) ==> e == CryptoError::UsageFailure,
    {
        let mut stream = DecryptStream::fresh(algorithm);
        match stream.start(key, base_nonce) {
            Ok(()) => Ok(stream),
            Err(e) => Err(e),
        }
    }

    /// Where the stream stands.
    pub fn state(&self) -> (s: StreamState)
        ensures
            s == self@.state,
    {
        self.state
    }

    /// Opens one block under the nonce of its place.
    fn open_block(&mut self, block: &[u8], last: bool) -> (r: Result<Vec<u8>, CryptoError>)
        ensures
            bytes_result(r) == block_opened(old(self)@, block@, last).0,
            final(self)@ == block_opened(old(self)@, block@, last).1,
            r matches Ok(out) ==> out@.len() + TAG_LEN == block@.len(),
    {
        proof {
            use_type_invariant(&*self);
        }
        if self.state == StreamState::Fresh {
            return Err(CryptoError::UsageFailure);
        }
        if self.state == StreamState::Terminated {
            return Err(CryptoError::StreamExhausted);
        }
        if !last && self.counter == u32::MAX {
            return Err(CryptoError::AeadFailure);
        }
        let nonce = make_block_nonce(self.base_nonce.as_slice(), self.counter, last);
        let key = self.key.as_ref().unwrap();
        match decrypt(self.algorithm, key.expose().as_slice(), nonce.as_slice(), block) {
            Ok(out) => {
                if last {
                    self.state = StreamState::Terminated;
                } else {
                    self.counter = self.counter + 1;
                }
                Ok(out)
            },
            Err(e) => Err(e),
        }
    }

    /// Opens a block that is not the last one.
    ///
    /// Fails with `UsageFailure` before the stream was started, with
    /// `StreamExhausted` once it is terminated, with `AeadFailure` when the
    /// counter has no number left for this block, and with
    /// `AuthenticationFailure` when the block does not open under the nonce
    /// of its place. A call that fails leaves the stream as it was.
    pub fn decrypt_next(&mut self, block: &[u8]) -> (r: Result<Vec<u8>, CryptoError>)
        ensures
            bytes_result(r) == next_opened(old(self)@, block@).0,
            final(self)@ == next_opened(old(self)@, block@).1,
            r matches Ok(plain) ==> plain@.len() + TAG_LEN == block@.len(),
    {
        self.open_block(block, false)
    }

    /// Opens the last block and terminates the stream.
    ///
    /// Fails with `UsageFailure` before the stream was started, with
    /// `StreamExhausted` once it is terminated, and with
    /// `AuthenticationFailure` when the block does not open under the nonce
    /// of the last block at its place. A call that fails leaves the stream as
    /// it was.
    pub fn decrypt_last(&mut self, block: &[u8]) -> (r: Result<Vec<u8>, CryptoError>)
        ensures
            bytes_result(r) == last_opened(old(self)@, block@).0,
            final(self)@ == last_opened(old(self)@, block@).1,
            r matches Ok(plain) ==> plain@.len() + TAG_LEN == block@.len(),
    {
        self.open_block(block, true)
    }
}

/// Length of a sealed block that is not the last.
pub const SEALED_BLOCK_SIZE: usize = 1048592;

/// The ciphertext that a stream makes of `data`: one sealed block for every
/// [`BLOCK_SIZE`] bytes, then one sealed last block for what remains, which
/// is empty where the length is a multiple of the block size. It fails with
/// `AeadFailure` where the counter runs out before the last block.
pub open spec fn stream_ciphertext(s: StreamView, data: Seq<u8>) -> Result<Seq<u8>, CryptoError>
    decreases data.len(),
{
    if data.len() >= BLOCK_SIZE {
        if s.counter == u32::MAX {
            Err(CryptoError::AeadFailure)
        } else {
            prepend(
                sealed(s.algorithm, s.key, s.nonce(false), data.take(BLOCK_SIZE as int)),
                stream_ciphertext(s.advanced(), data.skip(BLOCK_SIZE as int)),
            )
        }
    } else {
        Ok(sealed(s.algorithm, s.key, s.nonce(true), data))
    }
}

/// Every block that a stream makes of `data` opens back under its nonce.
pub open spec fn stream_reopens(s: StreamView, data: Seq<u8>) -> bool
    decreases data.len(),
{
    if data.len() >= BLOCK_SIZE {
        s.counter < u32::MAX ==> {
            &&& reopens(s.algorithm, s.key, s.nonce(false), data.take(BLOCK_SIZE as int))
            &&& stream_reopens(s.advanced(), data.skip(BLOCK_SIZE as int))
        }
    } else {
        reopens(s.algorithm, s.key, s.nonce(true), data)
    }
}

/// The plaintext that a stream makes of `ciphertext`: every chunk of
/// [`SEALED_BLOCK_SIZE`] bytes is opened as a block that is not the last,
/// and what remains, which may be empty, as the last block. It fails at
/// the first chunk that does not open.
pub open spec fn stream_plaintext(s: StreamView, ciphertext: Seq<u8>) -> Result<Seq<u8>, CryptoError>
    decreases ciphertext.len(),
{
    if ciphertext.len() >= SEALED_BLOCK_SIZE {
        match next_opened(s, ciphertext.take(SEALED_BLOCK_SIZE as int)).0 {
            Ok(plain) => prepend(
                plain,
                stream_plaintext(
                    next_opened(s, ciphertext.take(SEALED_BLOCK_SIZE as int)).1,
                    ciphertext.skip(SEALED_BLOCK_SIZE as int),
                ),
            ),
            Err(e) => Err(e),
        }
    } else {
        last_opened(s, ciphertext).0
    }
}

} // verus!
