//! The closed sets of choices that a caller or a header can name.

use vstd::prelude::*;

verus! {

/// The authenticated ciphers the engine can use.
#[derive(Clone, Copy, Debug, PartialEq, Eq, Structural)]
pub enum Algorithm {
    Aes256Gcm,
    XChaCha20Poly1305,
    DeoxysII256,
}

/// Whether the plaintext is sealed in one piece or block by block.
#[derive(Clone, Copy, Debug, PartialEq, Eq, Structural)]
pub enum CipherMode {
    MemoryMode,
    StreamMode,
}

/// Whether the container is handed out for writing.
#[derive(Clone, Copy, Debug, PartialEq, Eq, Structural)]
pub enum BenchMode {
    WriteToFilesystem,
    BenchmarkInMemory,
}

/// Whether a BLAKE3 digest of the container is reported.
#[derive(Clone, Copy, Debug, PartialEq, Eq, Structural)]
pub enum HashMode {
    CalculateHash,
    NoHash,
}

/// The header layouts and key-derivation settings the engine knows.
#[derive(Clone, Copy, Debug, PartialEq, Eq, Structural)]
pub enum HeaderVersion {
    V1,
    V2,
    V3,
}

/// The algorithms in the order of their numbers. The number of an algorithm,
/// counted from one, is its ordinal in a header and its selection number on
/// the command line.
pub open spec fn algorithms() -> Seq<Algorithm> {
    seq![Algorithm::Aes256Gcm, Algorithm::XChaCha20Poly1305, Algorithm::DeoxysII256]
}

/// The algorithm with the number `n`, counted from one, if there is one.
pub open spec fn spec_algorithm_numbered(n: usize) -> Option<Algorithm> {
    if 1 <= n <= algorithms().len() {
        Some(algorithms()[n - 1])
    } else {
        None
    }
}

/// The algorithm with the number `n`, counted from one, if there is one.
#[verifier::when_used_as_spec(spec_algorithm_numbered)]
pub fn algorithm_numbered(n: usize) -> (a: Option<Algorithm>)
    ensures
        a == spec_algorithm_numbered(n),
{
    if n == 1 {
        Some(Algorithm::Aes256Gcm)
    } else if n == 2 {
        Some(Algorithm::XChaCha20Poly1305)
    } else if n == 3 {
        Some(Algorithm::DeoxysII256)
    } else {
        None
    }
}

/// The number of an algorithm, counted from one.
pub open spec fn spec_algorithm_number(algorithm: Algorithm) -> usize {
    match algorithm {
        Algorithm::Aes256Gcm => 1,
        Algorithm::XChaCha20Poly1305 => 2,
        Algorithm::DeoxysII256 => 3,
    }
}

/// The number of an algorithm, counted from one.
#[verifier::when_used_as_spec(spec_algorithm_number)]
pub fn algorithm_number(algorithm: Algorithm) -> (n: usize)
    ensures
        n == spec_algorithm_number(algorithm),
        spec_algorithm_numbered(n) == Some(algorithm),
{
    match algorithm {
        Algorithm::Aes256Gcm => 1,
        Algorithm::XChaCha20Poly1305 => 2,
        Algorithm::DeoxysII256 => 3,
    }
}

} // verus!
