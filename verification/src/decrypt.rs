//! Decryption: the memory-mode and stream-mode pipelines.

pub mod crypto;
pub mod pipeline;
