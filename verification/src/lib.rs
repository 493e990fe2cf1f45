//! Authenticated file encryption: key derivation, AEAD selection, the STREAM
//! block protocol, the self-describing container header and the memory and
//! stream pipelines built from them.
//!
//! A container is a 64-byte header, a 32-byte signature of the header and
//! the ciphertext. The raw key (a password or the contents of a keyfile)
//! becomes a 32-byte key through Argon2id over the header's salt; that key
//! signs the header and seals the plaintext, in one piece (memory mode) or
//! block by block (stream mode).
//!
//! - [`secret`]: the holder of key material, wiped when dropped.
//! - [`key`]: key derivation and random salts and nonces.
//! - [`ciphers`]: one-shot sealing and opening with the three ciphers.
//! - [`streams`]: the STREAM state machine and what a stream makes of
//!   whole inputs.
//! - [`header`]: layout, parsing, signing and verification of the header.
//! - [`observer`]: the BLAKE3 digest of a container.
//! - [`encrypt`] and [`decrypt`]: the pipelines, over whole buffers and one
//!   step at a time.
//! - [`guarantees`]: theorems that tie the pipelines together.
//! - [`global`]: constants, enumerations and the reading of command-line
//!   arguments.
//!
//! The ciphers, the key derivation functions, the hash and the random
//! generator are those of the crates that implement them. Each is called in
//! a small function whose contract is trusted and says no more than that
//! crate documents; where a result is a function of the arguments alone it
//! is given a name, and the contracts of everything built on top say exactly
//! which named results make up what is returned.

pub mod ciphers;
pub mod decrypt;
pub mod encrypt;
pub mod error;
pub mod global;
pub mod guarantees;
pub mod header;
pub mod key;
pub mod observer;
pub mod secret;
pub mod streams;
