//! What holds of every container: theorems that tie encryption to
//! decryption.
//!
//! Each theorem speaks of the same mathematical functions as the contracts
//! of the pipelines: `memory_container` and `stream_container` for what
//! encryption writes, `decrypted` for what decryption reads.

use crate::ciphers::{sealed, unsealed};
use crate::decrypt::crypto::{authenticated, decrypted, CIPHERTEXT_OFFSET};
use crate::encrypt::crypto::{memory_encrypts_to, stream_encrypts_to};
use crate::error::CryptoError;
use crate::global::enums::CipherMode;
use crate::global::structs::HeaderView;
use crate::global::{BLOCK_SIZE, TAG_LEN};
use crate::header::{lemma_parse_serialized, parsed, serialized, signature_of, HEADER_LEN};
use crate::key::derived_key;
use crate::streams::{
    last_opened, next_opened, started_stream, stream_at, stream_ciphertext, stream_plaintext,
    stream_reopens, StreamState, StreamView, SEALED_BLOCK_SIZE,
};
use vstd::prelude::*;

verus! {

/// Number of sealed blocks that a stream makes of `len` bytes: one for every
/// full block and one last block.
pub open spec fn block_count(len: nat) -> nat {
    len / (BLOCK_SIZE as nat) + 1
}

/// The ciphertext of a stream is as long as the plaintext and one tag for
/// each block, and opening it chunk by chunk gives the plaintext back.
pub proof fn lemma_stream_round_trip(s: StreamView, data: Seq<u8>)
    requires
        s.state == StreamState::Flowing,
        stream_ciphertext(s, data) is Ok,
        stream_reopens(s, data),
    ensures
        stream_ciphertext(s, data)->Ok_0.len() == data.len() + TAG_LEN * block_count(data.len()),
        stream_plaintext(s, stream_ciphertext(s, data)->Ok_0) == Ok::<Seq<u8>, CryptoError>(data),
    decreases data.len(),
{
    let ct = stream_ciphertext(s, data)->Ok_0;
    if data.len() >= BLOCK_SIZE {
        let head = data.take(BLOCK_SIZE as int);
        let tail = data.skip(BLOCK_SIZE as int);
        let head_ct = sealed(s.algorithm, s.key, s.nonce(false), head);
        let tail_ct = stream_ciphertext(s.advanced(), tail)->Ok_0;
        lemma_stream_round_trip(s.advanced(), tail);
        assert(ct == head_ct + tail_ct);
        assert(head_ct.len() == SEALED_BLOCK_SIZE);
        assert(ct.take(SEALED_BLOCK_SIZE as int) =~= head_ct);
        assert(ct.skip(SEALED_BLOCK_SIZE as int) =~= tail_ct);
        assert(next_opened(s, head_ct).0 == Ok::<Seq<u8>, CryptoError>(head));
        assert(next_opened(s, head_ct).1 == s.advanced());
        assert(head + tail =~= data);
        assert(data.len() / (BLOCK_SIZE as nat) == tail.len() / (BLOCK_SIZE as nat) + 1) by {
            assert(tail.len() == data.len() - BLOCK_SIZE);
        }
    } else {
        assert(data.len() / (BLOCK_SIZE as nat) == 0);
        assert(last_opened(s, ct).0 == Ok::<Seq<u8>, CryptoError>(data));
    }
}

/// Decryption undoes memory-mode encryption: whatever the algorithm, the
/// container that encryption made of a plaintext decrypts to that plaintext
/// under the same raw key, and nothing but the raw key is asked of the
/// caller. The container is 96 bytes of header and signature, the plaintext's
/// length and one tag.
pub proof fn theorem_memory_round_trip(
    data: Seq<u8>,
    raw_key: Seq<u8>,
    h: HeaderView,
    container: Seq<u8>,
)
    requires
        memory_encrypts_to(data, raw_key, h, container),
    ensures
        decrypted(container, raw_key) == Ok::<Seq<u8>, CryptoError>(data),
        container.len() == CIPHERTEXT_OFFSET + data.len() + TAG_LEN,
{
    let key = derived_key(raw_key, h.salt, h.header_type.header_version)->Some_0;
    let body = sealed(h.header_type.algorithm, key, h.nonce, data);
    lemma_parse_serialized(h);
    lemma_container_parts(serialized(h), signature_of(serialized(h), key), body);
}

/// Decryption undoes stream-mode encryption: whatever the algorithm and
/// however many blocks, the container that encryption made of a plaintext
/// decrypts to that plaintext under the same raw key. The container is 96
/// bytes of header and signature, the plaintext's length and one tag for
/// each block, the last block included.
pub proof fn theorem_stream_round_trip(
    data: Seq<u8>,
    raw_key: Seq<u8>,
    h: HeaderView,
    container: Seq<u8>,
)
    requires
        stream_encrypts_to(data, raw_key, h, container),
    ensures
        decrypted(container, raw_key) == Ok::<Seq<u8>, CryptoError>(data),
        container.len() == CIPHERTEXT_OFFSET + data.len() + TAG_LEN * block_count(data.len()),
{
    let key = derived_key(raw_key, h.salt, h.header_type.header_version)->Some_0;
    let s = started_stream(h.header_type.algorithm, key, h.nonce);
    let body = stream_ciphertext(s, data)->Ok_0;
    lemma_parse_serialized(h);
    lemma_stream_round_trip(s, data);
    lemma_container_parts(serialized(h), signature_of(serialized(h), key), body);
}

/// Decryption undoes encryption, whatever the algorithm and the mode: a
/// container that either pipeline made of a plaintext decrypts to that
/// plaintext under the same raw key. Algorithm, mode, salt and nonce are
/// taken from the container's header; the caller supplies the raw key alone.
pub proof fn theorem_round_trip(
    data: Seq<u8>,
    raw_key: Seq<u8>,
    h: HeaderView,
    container: Seq<u8>,
)
    requires
        memory_encrypts_to(data, raw_key, h, container) || stream_encrypts_to(
            data,
            raw_key,
            h,
            container,
        ),
    ensures
        decrypted(container, raw_key) == Ok::<Seq<u8>, CryptoError>(data),
{
    if memory_encrypts_to(data, raw_key, h, container) {
        theorem_memory_round_trip(data, raw_key, h, container);
    } else {
        theorem_stream_round_trip(data, raw_key, h, container);
    }
}

/// The three parts of a container can be read back from it.
proof fn lemma_container_parts(header: Seq<u8>, signature: Seq<u8>, body: Seq<u8>)
    requires
        header.len() == HEADER_LEN,
        signature.len() == 32,
    ensures
        (header + signature + body).take(HEADER_LEN as int) == header,
        (header + signature + body).subrange(HEADER_LEN as int, CIPHERTEXT_OFFSET as int)
            == signature,
        (header + signature + body).skip(CIPHERTEXT_OFFSET as int) == body,
{
    let c = header + signature + body;
    assert(c.take(HEADER_LEN as int) =~= header);
    assert(c.subrange(HEADER_LEN as int, CIPHERTEXT_OFFSET as int) =~= signature);
    assert(c.skip(CIPHERTEXT_OFFSET as int) =~= body);
}

/// A change to the signature is always found out: a container that decrypts,
/// with any of its 32 signature bytes changed and its header left alone, is
/// refused with `AuthenticationFailure`, whatever else of it was changed, and
/// no plaintext is returned.
pub proof fn theorem_signature_tamper(container: Seq<u8>, tampered: Seq<u8>, raw_key: Seq<u8>)
    requires
        decrypted(container, raw_key) is Ok,
        tampered.len() >= CIPHERTEXT_OFFSET,
        tampered.take(HEADER_LEN as int) == container.take(HEADER_LEN as int),
        tampered.subrange(HEADER_LEN as int, CIPHERTEXT_OFFSET as int) != container.subrange(
            HEADER_LEN as int,
            CIPHERTEXT_OFFSET as int,
        ),
    ensures
        decrypted(tampered, raw_key) == Err::<Seq<u8>, CryptoError>(
            CryptoError::AuthenticationFailure,
        ),
{
}

/// A change to the header is found out unless the old signature happens to
/// be the tag of the new header: a container whose header bytes were changed
/// and whose signature was left alone decrypts only if the changed header
/// parses, a key derives from its salt, and the signature is the keyed hash
/// of the changed header under that key. Otherwise it is refused with
/// `HeaderFailure`, `KdfFailure` or `AuthenticationFailure`, before any
/// ciphertext is opened.
pub proof fn theorem_header_tamper(container: Seq<u8>, tampered: Seq<u8>, raw_key: Seq<u8>)
    requires
        raw_key.len() > 0,
        container.len() >= CIPHERTEXT_OFFSET,
        tampered.len() >= CIPHERTEXT_OFFSET,
        tampered.take(HEADER_LEN as int) != container.take(HEADER_LEN as int),
        tampered.subrange(HEADER_LEN as int, CIPHERTEXT_OFFSET as int) == container.subrange(
            HEADER_LEN as int,
            CIPHERTEXT_OFFSET as int,
        ),
    ensures
        authenticated(tampered, raw_key) is Ok ==> {
            let h = parsed(tampered.take(HEADER_LEN as int));
            &&& h is Some
            &&& derived_key(raw_key, h->Some_0.salt, h->Some_0.header_type.header_version) is Some
            &&& container.subrange(HEADER_LEN as int, CIPHERTEXT_OFFSET as int) == signature_of(
                tampered.take(HEADER_LEN as int),
                derived_key(
                    raw_key,
                    h->Some_0.salt,
                    h->Some_0.header_type.header_version,
                )->Some_0,
            )
        },
        authenticated(tampered, raw_key) matches Err(e) ==> decrypted(tampered, raw_key) == Err::<
            Seq<u8>,
            CryptoError,
        >(e) && (e == CryptoError::HeaderFailure || e == CryptoError::KdfFailure || e
            == CryptoError::AuthenticationFailure),
{
}

/// Length of the last sealed block of a stream over `len` bytes.
pub open spec fn last_block_len(len: nat) -> nat {
    len % (BLOCK_SIZE as nat) + TAG_LEN as nat
}

/// A stream whose last block was cut off does not open: the blocks before it
/// open, and the empty remainder is refused as a last block.
pub proof fn lemma_stream_truncation(s: StreamView, data: Seq<u8>)
    requires
        s.state == StreamState::Flowing,
        stream_ciphertext(s, data) is Ok,
        stream_reopens(s, data),
    ensures
        stream_ciphertext(s, data)->Ok_0.len() >= last_block_len(data.len()),
        stream_plaintext(
            s,
            stream_ciphertext(s, data)->Ok_0.take(
                stream_ciphertext(s, data)->Ok_0.len() - last_block_len(data.len()),
            ),
        ) == Err::<Seq<u8>, CryptoError>(CryptoError::AuthenticationFailure),
    decreases data.len(),
{
    let ct = stream_ciphertext(s, data)->Ok_0;
    let cut = ct.take(ct.len() - last_block_len(data.len()));
    lemma_stream_round_trip(s, data);
    if data.len() >= BLOCK_SIZE {
        let head = data.take(BLOCK_SIZE as int);
        let tail = data.skip(BLOCK_SIZE as int);
        let head_ct = sealed(s.algorithm, s.key, s.nonce(false), head);
        let tail_ct = stream_ciphertext(s.advanced(), tail)->Ok_0;
        lemma_stream_truncation(s.advanced(), tail);
        assert(tail.len() == data.len() - BLOCK_SIZE);
        assert(last_block_len(tail.len()) == last_block_len(data.len()));
        let tail_cut = tail_ct.take(tail_ct.len() - last_block_len(tail.len()));
        assert(ct == head_ct + tail_ct);
        assert(head_ct.len() == SEALED_BLOCK_SIZE);
        assert(cut =~= head_ct + tail_cut);
        assert(cut.take(SEALED_BLOCK_SIZE as int) =~= head_ct);
        assert(cut.skip(SEALED_BLOCK_SIZE as int) =~= tail_cut);
        assert(next_opened(s, head_ct).0 == Ok::<Seq<u8>, CryptoError>(head));
        assert(next_opened(s, head_ct).1 == s.advanced());
    } else {
        assert(data.len() % (BLOCK_SIZE as nat) == data.len());
        assert(cut.len() == 0);
        assert(last_opened(s, cut).0 == Err::<Seq<u8>, CryptoError>(
            CryptoError::AuthenticationFailure,
        ));
    }
}

/// Truncation is found out: a stream-mode container from which the last
/// sealed block was removed is refused with `AuthenticationFailure`.
pub proof fn theorem_stream_truncation(
    data: Seq<u8>,
    raw_key: Seq<u8>,
    h: HeaderView,
    container: Seq<u8>,
)
    requires
        stream_encrypts_to(data, raw_key, h, container),
    ensures
        container.len() >= CIPHERTEXT_OFFSET + last_block_len(data.len()),
        decrypted(container.take(container.len() - last_block_len(data.len())), raw_key) == Err::<
            Seq<u8>,
            CryptoError,
        >(CryptoError::AuthenticationFailure),
{
    let key = derived_key(raw_key, h.salt, h.header_type.header_version)->Some_0;
    let s = started_stream(h.header_type.algorithm, key, h.nonce);
    let body = stream_ciphertext(s, data)->Ok_0;
    let front = serialized(h) + signature_of(serialized(h), key);
    let cut = container.take(container.len() - last_block_len(data.len()));
    let body_cut = body.take(body.len() - last_block_len(data.len()));
    lemma_parse_serialized(h);
    lemma_stream_truncation(s, data);
    assert(cut =~= front + body_cut);
    lemma_container_parts(serialized(h), signature_of(serialized(h), key), body_cut);
}

/// A wrong raw key is found out by the signature unless the signature
/// happens to be a tag under the wrong key too: a container that decrypts
/// under one raw key is refused under another with `AuthenticationFailure`,
/// before any ciphertext is opened, whenever the key that the other raw key
/// derives does not sign the header to the same 32 bytes.
pub proof fn theorem_wrong_key(container: Seq<u8>, raw_key: Seq<u8>, other: Seq<u8>)
    requires
        decrypted(container, raw_key) is Ok,
        other.len() > 0,
        derived_key(
            other,
            parsed(container.take(HEADER_LEN as int))->Some_0.salt,
            parsed(container.take(HEADER_LEN as int))->Some_0.header_type.header_version,
        ) matches Some(key) ==> signature_of(container.take(HEADER_LEN as int), key)
            != container.subrange(HEADER_LEN as int, CIPHERTEXT_OFFSET as int),
    ensures
        decrypted(container, other) == Err::<Seq<u8>, CryptoError>(
            CryptoError::AuthenticationFailure,
        ) || decrypted(container, other) == Err::<Seq<u8>, CryptoError>(CryptoError::KdfFailure),
        authenticated(container, other) is Err,
{
}

/// Whether chunk number `i` of `ciphertext`, counted from zero, opens under
/// the nonce of its place: as a block that is not the last where it is a
/// full chunk, as the last block where it is what remains.
pub open spec fn chunk_opens(s: StreamView, ciphertext: Seq<u8>, i: nat) -> bool {
    let rest = ciphertext.skip(i * SEALED_BLOCK_SIZE);
    let at = stream_at(s, i);
    if rest.len() >= SEALED_BLOCK_SIZE {
        unsealed(at.algorithm, at.key, at.nonce(false), rest.take(SEALED_BLOCK_SIZE as int))
            is Some
    } else {
        unsealed(at.algorithm, at.key, at.nonce(true), rest) is Some
    }
}

/// A stream fails at the first chunk that does not open under the nonce of
/// its place: where the chunks before number `i` are those of a ciphertext
/// that opens, and chunk number `i` does not open, the whole is refused with
/// `AuthenticationFailure`, whatever follows that chunk.
pub proof fn lemma_stream_tamper(s: StreamView, good: Seq<u8>, bad: Seq<u8>, i: nat)
    requires
        s.state == StreamState::Flowing,
        s.counter + i < u32::MAX,
        stream_plaintext(s, good) is Ok,
        i * SEALED_BLOCK_SIZE <= good.len(),
        i * SEALED_BLOCK_SIZE <= bad.len(),
        good.take(i * SEALED_BLOCK_SIZE) == bad.take(i * SEALED_BLOCK_SIZE),
        !chunk_opens(s, bad, i),
    ensures
        stream_plaintext(s, bad) == Err::<Seq<u8>, CryptoError>(CryptoError::AuthenticationFailure),
    decreases i,
{
    if i == 0 {
        assert(bad.skip(0) =~= bad);
    } else {
        let size = SEALED_BLOCK_SIZE as int;
        let before = ((i - 1) * SEALED_BLOCK_SIZE) as int;
        assert(good.take(size) =~= good.take(i * SEALED_BLOCK_SIZE).take(size));
        assert(bad.take(size) =~= bad.take(i * SEALED_BLOCK_SIZE).take(size));
        assert(good.skip(size).take(before) =~= good.take(i * SEALED_BLOCK_SIZE).skip(size));
        assert(bad.skip(size).take(before) =~= bad.take(i * SEALED_BLOCK_SIZE).skip(size));
        assert(bad.skip(size).skip(before) =~= bad.skip(i * SEALED_BLOCK_SIZE));
        assert(stream_at(s.advanced(), (i - 1) as nat).counter == stream_at(s, i).counter);
        lemma_stream_tamper(s.advanced(), good.skip(size), bad.skip(size), (i - 1) as nat);
    }
}

/// Tampering with the ciphertext of a stream-mode container is found out no
/// later than at the chunk that was changed. Take a container that
/// decrypts, and another that agrees with it up to chunk number `i` of the
/// ciphertext: where that chunk of the other does not open under the nonce of
/// its place (as a changed, moved, shortened or appended chunk does not,
/// unless its tag was forged), the other is refused with
/// `AuthenticationFailure`.
pub proof fn theorem_block_tamper(
    container: Seq<u8>,
    tampered: Seq<u8>,
    raw_key: Seq<u8>,
    i: nat,
)
    requires
        decrypted(container, raw_key) is Ok,
        authenticated(container, raw_key)->Ok_0.0.header_type.cipher_mode == CipherMode::StreamMode,
        i < u32::MAX,
        CIPHERTEXT_OFFSET + i * SEALED_BLOCK_SIZE <= container.len(),
        CIPHERTEXT_OFFSET + i * SEALED_BLOCK_SIZE <= tampered.len(),
        tampered.take(CIPHERTEXT_OFFSET + i * SEALED_BLOCK_SIZE) == container.take(
            CIPHERTEXT_OFFSET + i * SEALED_BLOCK_SIZE,
        ),
        !chunk_opens(
            started_stream(
                authenticated(container, raw_key)->Ok_0.0.header_type.algorithm,
                authenticated(container, raw_key)->Ok_0.1,
                authenticated(container, raw_key)->Ok_0.0.nonce,
            ),
            tampered.skip(CIPHERTEXT_OFFSET as int),
            i,
        ),
    ensures
        decrypted(tampered, raw_key) == Err::<Seq<u8>, CryptoError>(
            CryptoError::AuthenticationFailure,
        ),
{
    let pair = authenticated(container, raw_key)->Ok_0;
    let s = started_stream(pair.0.header_type.algorithm, pair.1, pair.0.nonce);
    let upto = CIPHERTEXT_OFFSET + i * SEALED_BLOCK_SIZE;
    let good = container.skip(CIPHERTEXT_OFFSET as int);
    let bad = tampered.skip(CIPHERTEXT_OFFSET as int);
    assert(tampered.take(HEADER_LEN as int) =~= tampered.take(upto).take(HEADER_LEN as int));
    assert(container.take(HEADER_LEN as int) =~= container.take(upto).take(HEADER_LEN as int));
    assert(tampered.subrange(HEADER_LEN as int, CIPHERTEXT_OFFSET as int) =~= tampered.take(
        upto,
    ).subrange(HEADER_LEN as int, CIPHERTEXT_OFFSET as int));
    assert(container.subrange(HEADER_LEN as int, CIPHERTEXT_OFFSET as int) =~= container.take(
        upto,
    ).subrange(HEADER_LEN as int, CIPHERTEXT_OFFSET as int));
    assert(good.take(i * SEALED_BLOCK_SIZE) =~= container.take(upto).skip(
        CIPHERTEXT_OFFSET as int,
    ));
    assert(bad.take(i * SEALED_BLOCK_SIZE) =~= tampered.take(upto).skip(CIPHERTEXT_OFFSET as int));
    lemma_stream_tamper(s, good, bad, i);
}

/// Tampering with the ciphertext of a memory-mode container is found out: a
/// container with the header and signature of one that decrypts, whose
/// ciphertext does not open under the derived key and the header's nonce, is
/// refused with `AuthenticationFailure`.
pub proof fn theorem_memory_tamper(container: Seq<u8>, tampered: Seq<u8>, raw_key: Seq<u8>)
    requires
        decrypted(container, raw_key) is Ok,
        authenticated(container, raw_key)->Ok_0.0.header_type.cipher_mode == CipherMode::MemoryMode,
        tampered.len() >= CIPHERTEXT_OFFSET,
        tampered.take(CIPHERTEXT_OFFSET as int) == container.take(CIPHERTEXT_OFFSET as int),
        unsealed(
            authenticated(container, raw_key)->Ok_0.0.header_type.algorithm,
            authenticated(container, raw_key)->Ok_0.1,
            authenticated(container, raw_key)->Ok_0.0.nonce,
            tampered.skip(CIPHERTEXT_OFFSET as int),
        ) is None,
    ensures
        decrypted(tampered, raw_key) == Err::<Seq<u8>, CryptoError>(
            CryptoError::AuthenticationFailure,
        ),
{
    let upto = CIPHERTEXT_OFFSET as int;
    assert(tampered.take(HEADER_LEN as int) =~= tampered.take(upto).take(HEADER_LEN as int));
    assert(container.take(HEADER_LEN as int) =~= container.take(upto).take(HEADER_LEN as int));
    assert(tampered.subrange(HEADER_LEN as int, upto) =~= tampered.take(upto).subrange(
        HEADER_LEN as int,
        upto,
    ));
    assert(container.subrange(HEADER_LEN as int, upto) =~= container.take(upto).subrange(
        HEADER_LEN as int,
        upto,
    ));
}

} // verus!
