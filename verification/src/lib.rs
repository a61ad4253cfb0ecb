//! A fixed-capacity, null-padded UTF-8 string type with a predictable layout.
//!
//! `FixedStr<N>` stores exactly `N` bytes. Its visible content is the bytes up
//! to the first null byte; comparisons and text access look at that content
//! only.

pub mod byte_order;
pub mod effective_bytes;
pub mod fs_buffer;
pub mod fs_buffer_impl;
pub mod fs_core;
pub mod fs_error;
pub mod fs_fmt;
pub mod fs_impl;
pub mod hex;
pub mod laws;
pub mod string_helpers;
pub mod text;
pub mod trusted;
pub mod utf8_prefix;

pub use effective_bytes::{EffectiveBytes, EffectiveBytesIter};
pub use fs_buffer::FixedStrBuf;
pub use fs_core::FixedStr;
pub use fs_error::FixedStrError;
pub use hex::{dump_as_hex, fast_format_hex};
pub use string_helpers::{
    compute_valid_len, copy_into_buffer, find_first_null, find_valid_boundary,
    find_valid_utf8_len, panic_on_zero, truncate_utf8_lossy, BufferCopyMode,
};
