//! Constants and plain data shared by the whole engine.

pub mod enums;
pub mod parameters;
pub mod states;
pub mod structs;

use crate::global::enums::HeaderVersion;
use vstd::prelude::*;

verus! {

/// Number of plaintext bytes in every stream-mode block but the last.
pub const BLOCK_SIZE: usize = 1048576;

/// Length of the authentication tag that every AEAD appends.
pub const TAG_LEN: usize = 16;

/// Length of a derived key.
pub const KEY_LEN: usize = 32;

/// The header version that encryption writes.
pub const VERSION: HeaderVersion = HeaderVersion::V3;

/// Length of the salt stored in the header.
pub const SALT_LEN: usize = 16;

} // verus!
