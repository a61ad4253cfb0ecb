//! The fixed-capacity string itself.

use vstd::prelude::*;
use vstd::string::StringSliceAdditionalSpecFns;
use vstd::utf8::*;
use crate::fs_error::FixedStrError;
use crate::string_helpers::{
    copy_into_buffer, copy_prefix, effective, find_first_null, find_valid_boundary, first_null,
    lemma_effective_text_valid, lemma_first_null, lemma_padded_effective,
    lemma_padded_keeps_effective, lemma_scan_boundary_on_valid, lemma_truncated,
    lemma_truncated_of_effective, lemma_truncated_text, padded, panic_on_zero, scan_boundary,
    truncate_utf8_lossy, truncated, valid_utf8_len, BufferCopyMode,
};
use crate::utf8_prefix::{lemma_longest_valid_prefix, longest_valid_prefix};

verus! {

/// A fixed-length string with a constant size of `N` bytes.
///
/// The string is stored in a `[u8; N]` array. Unused bytes are zeros. The
/// first null byte ends the visible content: what lies behind it is stored
/// but takes no part in text access or comparison.
#[derive(Clone, Copy, Debug)]
pub struct FixedStr<const N: usize> {
    data: [u8; N],
}

impl<const N: usize> View for FixedStr<N> {
    type V = Seq<u8>;

    /// The whole physical buffer: `N` bytes.
    closed spec fn view(&self) -> Seq<u8> {
        self.data@
    }
}

impl<const N: usize> FixedStr<N> {
    /// The visible content: the bytes before the first null byte.
    pub open spec fn effective(&self) -> Seq<u8> {
        effective(self@)
    }

    /// Whether the visible content is valid UTF-8.
    pub open spec fn valid(&self) -> bool {
        valid_utf8(self.effective())
    }

    /// The visible content as text. Meaningful when `valid()` holds.
    pub open spec fn text(&self) -> Seq<char> {
        decode_utf8(self.effective())
    }

    /// The buffer always holds exactly `N` bytes, whatever built the value.
    pub broadcast proof fn lemma_capacity(self)
        ensures
            #[trigger] self@.len() == N,
    {
    }

    /// The string whose buffer holds the given `N` bytes.
    pub closed spec fn with_bytes(bytes: Seq<u8>) -> Self {
        FixedStr { data: choose|a: [u8; N]| a@ == bytes }
    }

    /// A string is what its buffer holds: two strings with the same bytes
    /// are the same.
    pub proof fn lemma_with_bytes(self)
        ensures
            Self::with_bytes(self@) == self,
    {
        let a = choose|a: [u8; N]| a@ == self@;
        assert(self.data@ == self@);
        assert(a =~= self.data);
    }

    /// Returns the maximum capacity of the `FixedStr`.
    pub fn capacity(&self) -> (n: usize)
        ensures
            n == N,
            n == self@.len(),
    {
        N
    }

    /// Returns true if the bytes up to the first null byte form a valid UTF-8
    /// string.
    pub fn is_valid(&self) -> (r: bool)
        ensures
            r == self.valid(),
    {
        self.try_as_str().is_ok()
    }

    /// Returns the number of bytes up to the first null byte.
    pub fn len(&self) -> (n: usize)
        ensures
            n == first_null(self@),
            n == self.effective().len(),
            n <= N,
    {
        proof {
            lemma_first_null(self@);
        }
        find_first_null(&self.data)
    }

    /// Returns whether the visible content is empty.
    pub fn is_empty(&self) -> (r: bool)
        ensures
            r == (self.effective().len() == 0),
    {
        self.len() == 0
    }

    /// Creates a new `FixedStr` from the given input string.
    ///
    /// The input is copied into the buffer. If it is longer than `N`, it is
    /// cut at the last character boundary at or before `N`; if it holds a
    /// null byte, it ends there. The rest of the buffer is filled with zeros.
    pub fn new(input: &str) -> (r: Self)
        requires
            N > 0,
        ensures
            r@ == truncated(input.spec_bytes(), N as nat),
            r@.len() == N,
            r.valid(),
            r.effective() == input.spec_bytes().subrange(0, r.effective().len() as int),
            r.effective().len() == valid_utf8_len(input.spec_bytes(), N as int),
            r.effective().len() <= N,
            r.effective().len() <= input.spec_bytes().len(),
            is_char_boundary(input.spec_bytes(), r.effective().len() as int),
            forall|i: int| r.effective().len() <= i < N ==> r@[i] == 0,
            first_null(input.spec_bytes()) <= N ==> r.effective() == effective(
                input.spec_bytes(),
            ),
            first_null(input.spec_bytes()) == input.spec_bytes().len() <= N ==> r.text()
                == input@,
    {
        proof {
            encode_utf8_valid_utf8(input@);
            encode_utf8_decode_utf8(input@);
            lemma_truncated(input.spec_bytes(), N as nat);
            lemma_truncated_text(input.spec_bytes(), N as nat);
            lemma_first_null(input.spec_bytes());
            if first_null(input.spec_bytes()) == input.spec_bytes().len() {
                assert(effective(input.spec_bytes()) =~= input.spec_bytes());
            }
        }
        match copy_into_buffer(input.as_bytes(), BufferCopyMode::Truncate) {
            Ok(buf) => Self { data: buf },
            Err(_) => Self { data: [0u8; N] },
        }
    }

    /// Creates a new `FixedStr` by a forward scan over whole characters,
    /// cutting at the last character boundary at or before `N`. Nothing
    /// reports whether the input was cut.
    ///
    /// A null byte in the input is copied like any other character: it ends
    /// the visible content, and what follows it stays in the buffer.
    pub fn new_const(input: &str) -> (r: Self)
        requires
            N > 0,
        ensures
            r@ == padded(
                input.spec_bytes().subrange(0, scan_boundary(input.spec_bytes(), 0, N as int)),
                N as nat,
            ),
            scan_boundary(input.spec_bytes(), 0, N as int) == longest_valid_prefix(
                input.spec_bytes(),
                if N <= input.spec_bytes().len() {
                    N as int
                } else {
                    input.spec_bytes().len() as int
                },
            ),
            is_char_boundary(input.spec_bytes(), scan_boundary(input.spec_bytes(), 0, N as int)),
            r@.len() == N,
            r.valid(),
            r.effective() == effective(
                input.spec_bytes().subrange(0, scan_boundary(input.spec_bytes(), 0, N as int)),
            ),
    {
        panic_on_zero(N);
        let bytes = input.as_bytes();
        proof {
            encode_utf8_valid_utf8(input@);
            assert(bytes@.subrange(0, 0).len() == 0);
            lemma_scan_boundary_on_valid(bytes@, 0, N as int);
        }
        let len = find_valid_boundary(bytes, N);
        proof {
            let kept = bytes@.subrange(0, len as int);
            lemma_longest_valid_prefix(
                bytes@,
                if N <= bytes@.len() {
                    N as int
                } else {
                    bytes@.len() as int
                },
            );
            lemma_padded_keeps_effective(kept, N as nat);
            lemma_effective_text_valid(kept);
        }
        Self { data: copy_prefix(bytes, len) }
    }

    /// Creates a `FixedStr` from a byte slice, keeping its longest valid
    /// UTF-8 prefix of at most `N` bytes that ends before the first null
    /// byte.
    pub fn from_slice(input: &[u8]) -> (r: Self)
        requires
            N > 0,
        ensures
            r@ == truncated(input@, N as nat),
            r@.len() == N,
            r.valid(),
            r.effective() == input@.subrange(0, valid_utf8_len(input@, N as int)),
    {
        proof {
            lemma_truncated(input@, N as nat);
        }
        match copy_into_buffer(input, BufferCopyMode::Truncate) {
            Ok(buf) => Self { data: buf },
            Err(_) => Self { data: [0u8; N] },
        }
    }

    /// Creates a `FixedStr` from a slice without validating UTF-8: the first
    /// `N` bytes at most are stored as they are.
    pub fn from_slice_unsafe(slice: &[u8]) -> (r: Self)
        requires
            N > 0,
        ensures
            r@ == padded(
                slice@.subrange(
                    0,
                    if slice@.len() <= N {
                        slice@.len() as int
                    } else {
                        N as int
                    },
                ),
                N as nat,
            ),
            r@.len() == N,
    {
        match copy_into_buffer(slice, BufferCopyMode::Slice) {
            Ok(buf) => Self { data: buf },
            Err(_) => Self { data: [0u8; N] },
        }
    }

    /// Constructs a `FixedStr` from an array of bytes, keeping its longest
    /// valid UTF-8 prefix that ends before the first null byte.
    pub fn from_bytes(bytes: [u8; N]) -> (r: Self)
        requires
            N > 0,
        ensures
            r@ == truncated(bytes@, N as nat),
            r@.len() == N,
            r.valid(),
            r.effective() == bytes@.subrange(0, valid_utf8_len(bytes@, N as int)),
            valid_utf8(effective(bytes@)) ==> r.effective() == effective(bytes@),
    {
        proof {
            lemma_truncated(bytes@, N as nat);
            lemma_first_null(bytes@);
            lemma_longest_valid_prefix(bytes@, first_null(bytes@));
        }
        match copy_into_buffer(&bytes, BufferCopyMode::Truncate) {
            Ok(buf) => Self { data: buf },
            Err(_) => Self { data: [0u8; N] },
        }
    }

    /// Stores a byte array without UTF-8 validation. The bytes are used
    /// as they are.
    pub fn from_bytes_unsafe(bytes: [u8; N]) -> (r: Self)
        requires
            N > 0,
        ensures
            r@ == bytes@,
    {
        match copy_into_buffer(&bytes, BufferCopyMode::Slice) {
            Ok(buf) => {
                assert(buf@ =~= bytes@);
                Self { data: buf }
            },
            Err(_) => Self { data: bytes },
        }
    }

    /// Replaces the content with `input`, up to its first null byte. An input
    /// that does not fit is refused and the value stays as it was.
    pub fn set(&mut self, input: &str) -> (r: Result<(), FixedStrError>)
        requires
            N > 0,
        ensures
            match r {
                Ok(_) => {
                    &&& effective(input.spec_bytes()).len() <= N
                    &&& final(self)@ == padded(effective(input.spec_bytes()), N as nat)
                    &&& final(self).effective() == effective(input.spec_bytes())
                    &&& final(self).valid()
                },
                Err(FixedStrError::Overflow { available, found }) => {
                    &&& effective(input.spec_bytes()).len() > N
                    &&& available == N
                    &&& found == effective(input.spec_bytes()).len()
                    &&& *final(self) == *old(self)
                },
                Err(FixedStrError::InvalidUtf8) => false,
            },
    {
        let bytes = input.as_bytes();
        let end = find_first_null(bytes);
        let visible = vstd::slice::slice_subrange(bytes, 0, end);
        proof {
            encode_utf8_valid_utf8(input@);
            lemma_effective_text_valid(bytes@);
        }
        match copy_into_buffer(visible, BufferCopyMode::Exact) {
            Ok(buf) => {
                proof {
                    assert(visible@.subrange(0, visible@.len() as int) =~= visible@);
                    lemma_padded_effective(visible@, N as nat);
                }
                self.data = buf;
                Ok(())
            },
            Err(e) => Err(e),
        }
    }

    /// Replaces the content with `input`, cut at the last character boundary
    /// at or before `N` and at its first null byte.
    pub fn set_lossy(&mut self, input: &str)
        requires
            N > 0,
        ensures
            final(self)@ == truncated(input.spec_bytes(), N as nat),
            final(self).valid(),
            final(self).effective() == input.spec_bytes().subrange(
                0,
                valid_utf8_len(input.spec_bytes(), N as int),
            ),
    {
        let bytes = input.as_bytes();
        let end = find_first_null(bytes);
        let visible = vstd::slice::slice_subrange(bytes, 0, end);
        proof {
            lemma_truncated_of_effective(bytes@, N as nat);
            lemma_truncated(bytes@, N as nat);
        }
        match copy_into_buffer(visible, BufferCopyMode::Truncate) {
            Ok(buf) => {
                self.data = buf;
            },
            Err(_) => {},
        }
    }

    /// Clears the `FixedStr`, setting all bytes to zero.
    pub fn clear(&mut self)
        ensures
            final(self)@ == padded(Seq::<u8>::empty(), N as nat),
            final(self).effective().len() == 0,
    {
        self.data = [0u8; N];
        proof {
            assert(self@ =~= padded(Seq::<u8>::empty(), N as nat));
            lemma_padded_effective(Seq::<u8>::empty(), N as nat);
        }
    }

    /// Truncates the visible content to `new_len` bytes.
    ///
    /// If `new_len` is less than the current length, the bytes from
    /// `new_len` to the end of the buffer are set to zero. Otherwise nothing
    /// changes. It is up to the caller to cut on a character boundary.
    pub fn truncate(&mut self, new_len: usize)
        ensures
            new_len >= old(self).effective().len() ==> *final(self) == *old(self),
            new_len < old(self).effective().len() ==> {
                &&& final(self)@ == padded(old(self)@.subrange(0, new_len as int), N as nat)
                &&& final(self).effective() == old(self).effective().subrange(0, new_len as int)
                &&& final(self).effective().len() == new_len
                &&& forall|i: int| new_len <= i < N ==> final(self)@[i] == 0
            },
    {
        let current = self.len();
        if new_len < current {
            let ghost before = self@;
            proof {
                lemma_first_null(before);
            }
            let mut i: usize = new_len;
            while i < N
                invariant
                    new_len <= i <= N,
                    self@.len() == N,
                    before.len() == N,
                    forall|k: int| 0 <= k < new_len ==> self@[k] == before[k],
                    forall|k: int| new_len <= k < i ==> self@[k] == 0,
                decreases N - i,
            {
                self.data[i] = 0;
                i += 1;
            }
            proof {
                let kept = before.subrange(0, new_len as int);
                assert(self@ =~= padded(kept, N as nat));
                lemma_padded_effective(kept, N as nat);
                assert(kept =~= effective(before).subrange(0, new_len as int));
            }
        }
    }

    /// The text of the longest valid UTF-8 prefix of the visible content:
    /// all of it when it is valid.
    pub(crate) fn visible_text(&self) -> (s: &str)
        ensures
            s.spec_bytes() == self@.subrange(0, valid_utf8_len(self@, N as int)),
            s@ == decode_utf8(self@.subrange(0, valid_utf8_len(self@, N as int))),
            self.valid() ==> s.spec_bytes() == self.effective() && s@ == self.text(),
    {
        proof {
            lemma_first_null(self@);
            lemma_longest_valid_prefix(self@, first_null(self@));
        }
        truncate_utf8_lossy(&self.data, N)
    }

    /// Returns the visible content as a string slice. The content must be
    /// valid UTF-8; `try_as_str` is there for content that may not be.
    pub fn as_str(&self) -> (s: &str)
        requires
            self.valid(),
        ensures
            s.spec_bytes() == self.effective(),
            s@ == self.text(),
    {
        self.visible_text()
    }

    /// Attempts to interpret the visible content as a UTF-8 string.
    pub fn try_as_str(&self) -> (r: Result<&str, FixedStrError>)
        ensures
            match r {
                Ok(s) => self.valid() && s.spec_bytes() == self.effective() && s@ == self.text(),
                Err(e) => !self.valid() && e == FixedStrError::InvalidUtf8,
            },
    {
        let end = find_first_null(&self.data);
        match core::str::from_utf8(vstd::slice::slice_subrange(&self.data, 0, end)) {
            Ok(s) => {
                proof {
                    encode_utf8_decode_utf8(s@);
                }
                Ok(s)
            },
            Err(_) => Err(FixedStrError::InvalidUtf8),
        }
    }

    /// Returns the raw bytes stored in the `FixedStr`: all `N` of them.
    pub fn as_bytes(&self) -> (b: &[u8])
        ensures
            b@ == self@,
            b@.len() == N,
    {
        &self.data
    }

    /// Returns the raw bytes stored in the `FixedStr` for writing. What is
    /// written through the slice is stored as it is.
    pub fn as_mut_bytes(&mut self) -> (b: &mut [u8])
        ensures
            b@ == old(self)@,
            final(self)@ == final(b)@,
    {
        &mut self.data
    }

    /// A `FixedStr` that holds `bytes` as they are, whatever `N` is.
    pub(crate) fn from_array(bytes: [u8; N]) -> (r: Self)
        ensures
            r@ == bytes@,
    {
        Self { data: bytes }
    }

    /// The buffer itself.
    pub(crate) fn into_array(self) -> (a: [u8; N])
        ensures
            a@ == self@,
    {
        self.data
    }

    /// Returns all `N` bytes of the buffer in order, including those behind
    /// the first null byte.
    pub fn byte_iter(&self) -> (v: Vec<u8>)
        ensures
            v@ == self@,
    {
        vstd::slice::slice_to_vec(&self.data)
    }

    /// Converts the `FixedStr` to an owned `String`. The content must be
    /// valid UTF-8.
    pub fn into_string(self) -> (s: String)
        requires
            self.valid(),
        ensures
            s@ == self.text(),
    {
        self.as_str().to_owned()
    }

    /// Attempts to convert the `FixedStr` to an owned `String`.
    pub fn try_into_string(self) -> (r: Result<String, FixedStrError>)
        ensures
            match r {
                Ok(s) => self.valid() && s@ == self.text(),
                Err(e) => !self.valid() && e == FixedStrError::InvalidUtf8,
            },
    {
        match self.try_as_str() {
            Ok(s) => Ok(s.to_owned()),
            Err(e) => Err(e),
        }
    }
}

} // verus!
