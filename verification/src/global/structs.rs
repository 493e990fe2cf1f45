//! The records that travel between the parts of the engine.

use crate::global::enums::{Algorithm, CipherMode, HashMode, HeaderVersion};
use crate::global::states::{EraseMode, KeyFile, PasswordMode, SkipMode};
use crate::key::stored_nonce_len;
use vstd::prelude::*;

verus! {

/// The three tags at the front of a header.
#[derive(Clone, Copy, Debug, PartialEq, Eq, Structural)]
pub struct HeaderType {
    pub header_version: HeaderVersion,
    pub cipher_mode: CipherMode,
    pub algorithm: Algorithm,
}

/// A container header: what a reader needs, besides the key, to open the
/// ciphertext that follows.
#[derive(Debug)]
pub struct Header {
    pub header_type: HeaderType,
    pub nonce: Vec<u8>,
    pub salt: [u8; 16],
}

/// What the command line settles for an encryption or a decryption.
#[derive(Debug)]
pub struct CryptoParams {
    pub hash_mode: HashMode,
    pub skip: SkipMode,
    pub password: PasswordMode,
    pub erase: EraseMode,
    pub keyfile: KeyFile,
}

/// A header as a mathematical value.
pub ghost struct HeaderView {
    pub header_type: HeaderType,
    pub nonce: Seq<u8>,
    pub salt: Seq<u8>,
}

impl View for Header {
    type V = HeaderView;

    open spec fn view(&self) -> HeaderView {
        HeaderView { header_type: self.header_type, nonce: self.nonce@, salt: self.salt@ }
    }
}

impl HeaderView {
    /// The salt has 16 bytes and the nonce has the length that algorithm and
    /// mode call for.
    pub open spec fn wf(self) -> bool {
        &&& self.salt.len() == 16
        &&& self.nonce.len() == stored_nonce_len(
            self.header_type.algorithm,
            self.header_type.cipher_mode,
        )
    }
}

} // verus!
