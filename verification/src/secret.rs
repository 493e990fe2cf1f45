//! A holder for key material that is wiped when it goes out of scope.

use vstd::prelude::*;
use zeroize::Zeroize;

verus! {

/// Sensitive bytes: a password, the contents of a keyfile, a derived key or
/// plaintext held in memory. The bytes are reachable only through
/// [`Secret::expose`], and the backing buffer is overwritten with zeros when
/// the holder is dropped.
pub struct Secret {
    bytes: Vec<u8>,
}

impl View for Secret {
    type V = Seq<u8>;

    closed spec fn view(&self) -> Seq<u8> {
        self.bytes@
    }
}

/// `zeroize::Zeroize::zeroize` on a `Vec<u8>`: overwrites the whole capacity
/// with zeros through volatile writes and then clears the vector, so the
/// vector is empty afterwards.
#[verifier::external_body]
fn wipe(bytes: &mut Vec<u8>)
    ensures
        final(bytes)@.len() == 0,
    opens_invariants none
    no_unwind
{
    bytes.zeroize();
}

impl Secret {
    /// Takes ownership of `bytes`.
    pub fn new(bytes: Vec<u8>) -> (s: Secret)
        ensures
            s@ == bytes@,
    {
        Secret { bytes }
    }

    /// A read-only view of the bytes, valid no longer than the holder.
    pub fn expose(&self) -> (bytes: &Vec<u8>)
        ensures
            bytes@ == self@,
    {
        &self.bytes
    }

    /// Overwrites the bytes with zeros now and leaves the holder empty.
    pub fn wipe(&mut self)
        ensures
            final(self)@ == Seq::<u8>::empty(),
    {
        wipe(&mut self.bytes);
        assert(self.bytes@ =~= Seq::<u8>::empty());
    }

    /// An explicit copy of the holder. Each copy is wiped on its own.
    pub fn duplicate(&self) -> (s: Secret)
        ensures
            s@ == self@,
    {
        Secret { bytes: self.bytes.clone() }
    }
}

impl Drop for Secret {
    fn drop(&mut self)
        opens_invariants none
        no_unwind
    {
        wipe(&mut self.bytes);
    }
}

} // verus!
