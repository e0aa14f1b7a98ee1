//! Byte-size units used by the transfer engines.

use vstd::prelude::*;

verus! {

/// One kibibyte.
pub const KB: usize = 1024;

/// One mebibyte.
pub const MB: usize = 1024 * 1024;

/// One gibibyte.
pub const GB: usize = 1024 * 1024 * 1024;

/// The largest chunk that an upload ever sends.
pub const MAX_BLOCK_SIZE: usize = 16 * 1024 * 1024;

} // verus!
