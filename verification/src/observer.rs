//! The integrity observer: a BLAKE3 hash folded over the bytes of a
//! container, reported as lowercase hexadecimal. The digest is not part of
//! the container; it is for comparison out of band.

use vstd::prelude::*;

verus! {

/// The incremental hash state of the `blake3` crate.
#[verifier::external_type_specification]
#[verifier::external_body]
pub struct ExHasher(blake3::Hasher);

/// The bytes that a hasher has been fed so far, in order.
pub uninterp spec fn hasher_input(hasher: blake3::Hasher) -> Seq<u8>;

/// The 32-byte BLAKE3 hash of `data`.
pub uninterp spec fn blake3_hash(data: Seq<u8>) -> Seq<u8>;

/// `blake3::Hasher::new`.
///
/// Trusted: a new hasher has been fed nothing.
#[verifier::external_body]
fn hasher_new() -> (hasher: blake3::Hasher)
    ensures
        hasher_input(hasher) == Seq::<u8>::empty(),
{
    blake3::Hasher::new()
}

/// `blake3::Hasher::update`.
///
/// Trusted: the hasher has afterwards been fed what it had been fed before,
/// followed by `data`.
#[verifier::external_body]
fn hasher_update(hasher: &mut blake3::Hasher, data: &[u8])
    ensures
        hasher_input(*final(hasher)) == hasher_input(*old(hasher)) + data@,
{
    hasher.update(data);
}

/// `blake3::Hasher::finalize`.
///
/// Trusted: the result is the hash of everything fed, whatever the pieces it
/// was fed in, and has 32 bytes.
#[verifier::external_body]
fn hasher_finalize(hasher: &blake3::Hasher) -> (hash: [u8; 32])
    ensures
        hash@ == blake3_hash(hasher_input(*hasher)),
{
    *hasher.finalize().as_bytes()
}

/// The sixteen hexadecimal digits, lowercase.
pub open spec fn hex_digit(n: int) -> char {
    seq!['0', '1', '2', '3', '4', '5', '6', '7', '8', '9', 'a', 'b', 'c', 'd', 'e', 'f'][n]
}

/// `bytes` in lowercase hexadecimal, two digits a byte, high digit first.
pub open spec fn hex_text(bytes: Seq<u8>) -> Seq<char> {
    Seq::new(
        2 * bytes.len(),
        |i: int|
            hex_digit(
                if i % 2 == 0 {
                    bytes[i / 2] as int / 16
                } else {
                    bytes[i / 2] as int % 16
                },
            ),
    )
}

/// `blake3::Hash::to_hex`, collected into a `String`.
///
/// Trusted: the text is the 32 bytes in lowercase hexadecimal, as
/// [`hex_text`] spells it out.
#[verifier::external_body]
fn hash_to_hex(hash: &[u8; 32]) -> (text: String)
    ensures
        text@ == hex_text(hash@),
{
    blake3::Hash::from(*hash).to_hex().to_string()
}

/// The digest that the observer reports for a container of these bytes.
pub open spec fn digest_text(data: Seq<u8>) -> Seq<char> {
    hex_text(blake3_hash(data))
}

/// A running hash over the bytes of a container.
pub struct Observer {
    hasher: blake3::Hasher,
}

impl View for Observer {
    type V = Seq<u8>;

    /// Everything fed so far.
    closed spec fn view(&self) -> Seq<u8> {
        hasher_input(self.hasher)
    }
}

impl Observer {
    /// An observer that has seen nothing.
    pub fn new() -> (observer: Observer)
        ensures
            observer@ == Seq::<u8>::empty(),
    {
        Observer { hasher: hasher_new() }
    }

    /// Folds `data` into the hash.
    pub fn update(&mut self, data: &[u8])
        ensures
            final(self)@ == old(self)@ + data@,
    {
        hasher_update(&mut self.hasher, data);
    }

    /// The digest of everything fed so far, as 64 hexadecimal digits. The
    /// observer can be fed further afterwards.
    pub fn digest(&self) -> (text: String)
        ensures
            text@ == digest_text(self@),
    {
        let hash = hasher_finalize(&self.hasher);
        hash_to_hex(&hash)
    }
}

} // verus!
