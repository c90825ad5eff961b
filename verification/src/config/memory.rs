//! Memory configuration.

use vstd::prelude::*;

verus! {

/// Buffer alignment requirement in bytes.
pub const BUFFER_ALIGNMENT: u64 = 256;

/// Memory allocation chunk size in bytes (64 MiB).
pub const ALLOCATION_CHUNK_SIZE: u64 = 64 * 1024 * 1024;

/// Enable memory mapping debugging.
pub const ENABLE_MEMORY_DEBUGGING: bool = false;

} // verus!
