//! The kinds of failure the engine reports.

use vstd::prelude::*;

verus! {

/// Why an operation of the engine did not complete.
#[derive(Clone, Copy, Debug, PartialEq, Eq, Structural)]
pub enum CryptoError {
    /// Reading from the source failed or returned inconsistent counts.
    InputIoFailure,
    /// Writing to the sink failed or wrote short.
    OutputIoFailure,
    /// The key derivation function reported failure.
    KdfFailure,
    /// The encryption primitive refused its input.
    AeadFailure,
    /// A header signature or an AEAD tag did not match.
    AuthenticationFailure,
    /// Unknown version, unknown ordinal or malformed fixed-length field.
    HeaderFailure,
    /// A terminated streaming AEAD was used again.
    StreamExhausted,
    /// Invalid algorithm choice or empty raw key.
    UsageFailure,
}

impl CryptoError {
    /// The exit code that a front-end reports for this failure.
    pub open spec fn spec_exit_code(self) -> u8 {
        match self {
            CryptoError::InputIoFailure => 1,
            CryptoError::OutputIoFailure => 2,
            CryptoError::KdfFailure => 3,
            CryptoError::AeadFailure => 4,
            CryptoError::AuthenticationFailure => 5,
            CryptoError::HeaderFailure => 6,
            CryptoError::StreamExhausted => 7,
            CryptoError::UsageFailure => 8,
        }
    }

    /// The exit code that a front-end reports for this failure: a number
    /// from 1 to 8, one for each kind.
    #[verifier::when_used_as_spec(spec_exit_code)]
    pub fn exit_code(self) -> (code: u8)
        ensures
            code == self.spec_exit_code(),
            1 <= code <= 8,
    {
        match self {
            CryptoError::InputIoFailure => 1,
            CryptoError::OutputIoFailure => 2,
            CryptoError::KdfFailure => 3,
            CryptoError::AeadFailure => 4,
            CryptoError::AuthenticationFailure => 5,
            CryptoError::HeaderFailure => 6,
            CryptoError::StreamExhausted => 7,
            CryptoError::UsageFailure => 8,
        }
    }

    /// A sentence that says what went wrong.
    pub open spec fn spec_message(self) -> Seq<char> {
        match self {
            CryptoError::InputIoFailure => "Unable to read from the input"@,
            CryptoError::OutputIoFailure => "Unable to write to the output"@,
            CryptoError::KdfFailure => "Unable to derive a key from the password or keyfile"@,
            CryptoError::AeadFailure => "Unable to encrypt the data"@,
            CryptoError::AuthenticationFailure =>
                "Unable to decrypt the data: wrong key, or the file has been changed"@,
            CryptoError::HeaderFailure => "Unable to read the header"@,
            CryptoError::StreamExhausted => "The stream has already ended"@,
            CryptoError::UsageFailure => "Invalid key, algorithm or order of operations"@,
        }
    }

    /// A sentence that says what went wrong.
    pub fn message(self) -> (text: String)
        ensures
            text@ == self.spec_message(),
    {
        match self {
            CryptoError::InputIoFailure => "Unable to read from the input".to_owned(),
            CryptoError::OutputIoFailure => "Unable to write to the output".to_owned(),
            CryptoError::KdfFailure => "Unable to derive a key from the password or keyfile"
                .to_owned(),
            CryptoError::AeadFailure => "Unable to encrypt the data".to_owned(),
            CryptoError::AuthenticationFailure =>
                "Unable to decrypt the data: wrong key, or the file has been changed".to_owned(),
            CryptoError::HeaderFailure => "Unable to read the header".to_owned(),
            CryptoError::StreamExhausted => "The stream has already ended".to_owned(),
            CryptoError::UsageFailure => "Invalid key, algorithm or order of operations"
                .to_owned(),
        }
    }
}

/// Results whose error is a [`CryptoError`].
pub trait Failing {
    /// The result is the failure `e`.
    spec fn is_err_of(self, e: CryptoError) -> bool;
}

impl<T> Failing for Result<T, CryptoError> {
    open spec fn is_err_of(self, e: CryptoError) -> bool {
        self matches Err(x) && x == e
    }
}

/// A result that carries bytes, as a mathematical value.
pub open spec fn bytes_result(r: Result<Vec<u8>, CryptoError>) -> Result<Seq<u8>, CryptoError> {
    match r {
        Ok(bytes) => Ok(bytes@),
        Err(e) => Err(e),
    }
}

/// `front` followed by the bytes of `r`, or the failure of `r`.
pub open spec fn prepend(front: Seq<u8>, r: Result<Seq<u8>, CryptoError>) -> Result<
    Seq<u8>,
    CryptoError,
> {
    match r {
        Ok(bytes) => Ok(front + bytes),
        Err(e) => Err(e),
    }
}

/// Optional bytes, as a mathematical value.
pub open spec fn bytes_option(o: Option<Vec<u8>>) -> Option<Seq<u8>> {
    match o {
        Some(bytes) => Some(bytes@),
        None => None,
    }
}

/// Optional text, as a mathematical value.
pub open spec fn text_option(o: Option<String>) -> Option<Seq<char>> {
    match o {
        Some(text) => Some(text@),
        None => None,
    }
}

} // verus!
