//! The error type of the fixed-capacity string and its builder.

use vstd::prelude::*;

verus! {

/// What can go wrong when text is put into a fixed-capacity buffer.
#[derive(Clone, Copy, Debug, PartialEq, Eq, Structural)]
#[non_exhaustive]
pub enum FixedStrError {
    /// The input does not fit into the space that is left.
    Overflow {
        /// The space that was available, in bytes.
        available: usize,
        /// The length of the input, in bytes.
        found: usize,
    },
    /// The bytes up to the first null byte are not valid UTF-8.
    InvalidUtf8,
}

} // verus!
