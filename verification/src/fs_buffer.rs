//! A builder that fills a fixed-capacity string piece by piece.

use vstd::prelude::*;
use vstd::slice::slice_subrange;
use vstd::string::StringSliceAdditionalSpecFns;
use vstd::utf8::*;
use crate::fs_core::FixedStr;
use crate::fs_error::FixedStrError;
use crate::string_helpers::{
    effective, find_first_null, find_valid_utf8_len, first_null, is_first_null,
    lemma_effective_text_valid, lemma_first_null, lemma_padded_effective, padded,
    panic_on_zero, truncated, valid_utf8_len,
};
use crate::trusted::encode_char;
use crate::utf8_prefix::lemma_longest_valid_prefix;

verus! {

/// What sealing a builder with the given content gives in `n` bytes: the
/// padded content, cut back to its longest valid UTF-8 prefix before the
/// first null byte.
pub open spec fn sealed(content: Seq<u8>, n: nat) -> Seq<u8> {
    truncated(padded(content, n), n)
}

/// Sealing leaves content alone that is valid UTF-8 without null bytes: the
/// result is that content and zeros behind it.
pub proof fn lemma_sealed_clean(content: Seq<u8>, n: nat)
    requires
        content.len() <= n,
        valid_utf8(content),
        forall|i: int| 0 <= i < content.len() ==> content[i] != 0,
    ensures
        sealed(content, n) == padded(content, n),
        effective(sealed(content, n)) == content,
{
    let p = padded(content, n);
    lemma_padded_effective(content, n);
    lemma_longest_valid_prefix(p, content.len() as int);
    assert(p.subrange(0, content.len() as int) =~= content);
}

/// A builder for incrementally constructing a `FixedStr` with a fixed
/// capacity. It keeps a byte buffer and the number of bytes written so far;
/// the bytes behind those are always zero.
#[derive(Clone, Copy, Debug)]
pub struct FixedStrBuf<const N: usize> {
    buffer: [u8; N],
    len: usize,
}

impl<const N: usize> View for FixedStrBuf<N> {
    type V = Seq<u8>;

    /// The bytes written so far.
    closed spec fn view(&self) -> Seq<u8> {
        self.buffer@.subrange(0, self.len as int)
    }
}

impl<const N: usize> FixedStrBuf<N> {
    /// The written length stays within the capacity, and every byte behind
    /// the written ones is zero.
    #[verifier::type_invariant]
    spec fn well_formed(&self) -> bool {
        &&& self.len <= N
        &&& forall|i: int| self.len <= i < N ==> self.buffer@[i] == 0
    }

    /// Returns the total capacity of the buffer.
    pub fn capacity(&self) -> (n: usize)
        ensures
            n == N,
    {
        N
    }

    /// Returns the number of bytes remaining in the buffer.
    pub fn remaining(&self) -> (n: usize)
        ensures
            n == N - self@.len(),
    {
        proof {
            use_type_invariant(self);
        }
        N - self.len
    }

    /// Returns the number of bytes currently written to the buffer.
    pub fn len(&self) -> (n: usize)
        ensures
            n == self@.len(),
            n <= N,
    {
        proof {
            use_type_invariant(self);
        }
        self.len
    }

    /// Returns `true` if no bytes have been written.
    pub fn is_empty(&self) -> (r: bool)
        ensures
            r == (self@.len() == 0),
    {
        proof {
            use_type_invariant(self);
        }
        self.len == 0
    }

    /// Creates a new, empty `FixedStrBuf`.
    pub fn new() -> (r: Self)
        requires
            N > 0,
        ensures
            r@ == Seq::<u8>::empty(),
    {
        panic_on_zero(N);
        Self { buffer: [0u8; N], len: 0 }
    }

    /// The builder to which the given bytes were written.
    pub closed spec fn with_content(content: Seq<u8>) -> Self {
        FixedStrBuf {
            buffer: choose|a: [u8; N]| a@ == padded(content, N as nat),
            len: content.len() as usize,
        }
    }

    /// A builder that holds the first `len` bytes of `buffer`; the bytes
    /// behind them must be zero.
    pub(crate) fn from_raw_parts(buffer: [u8; N], len: usize) -> (r: Self)
        requires
            len <= N,
            forall|i: int| len <= i < N ==> buffer@[i] == 0,
        ensures
            r@ == buffer@.subrange(0, len as int),
            r == Self::with_content(buffer@.subrange(0, len as int)),
    {
        proof {
            let content = buffer@.subrange(0, len as int);
            let a = choose|a: [u8; N]| a@ == padded(content, N as nat);
            assert(buffer@ =~= padded(content, N as nat));
            assert(a =~= buffer);
        }
        Self { buffer, len }
    }

    /// Appends the first `k` bytes of `bytes`, which must fit.
    fn push_bytes(&mut self, bytes: &[u8], k: usize)
        requires
            k <= bytes@.len(),
            k <= N - old(self)@.len(),
        ensures
            final(self)@ == old(self)@ + bytes@.subrange(0, k as int),
    {
        proof {
            use_type_invariant(&*self);
        }
        let start = self.len;
        let ghost before = self@;
        self.len = start + k;
        let mut i: usize = 0;
        while i < k
            invariant
                i <= k <= bytes@.len(),
                self.len == start + k,
                start + k <= N,
                before.len() == start,
                forall|j: int| 0 <= j < start ==> self.buffer@[j] == before[j],
                forall|j: int| 0 <= j < i ==> self.buffer@[start + j] == bytes@[j],
                forall|j: int| start + k <= j < N ==> self.buffer@[j] == 0,
            decreases k - i,
        {
            self.buffer[start + i] = bytes[i];
            i += 1;
        }
        assert(self@ =~= before + bytes@.subrange(0, k as int));
    }

    /// Attempts to append the visible part of `bytes`, up to its first null
    /// byte.
    fn try_push_visible(&mut self, bytes: &[u8]) -> (r: Result<(), FixedStrError>)
        ensures
            match r {
                Ok(_) => {
                    &&& effective(bytes@).len() <= N - old(self)@.len()
                    &&& final(self)@ == old(self)@ + effective(bytes@)
                    &&& valid_utf8(old(self)@) && valid_utf8(bytes@) ==> valid_utf8(final(self)@)
                },
                Err(FixedStrError::Overflow { available, found }) => {
                    &&& effective(bytes@).len() > N - old(self)@.len()
                    &&& available == N - old(self)@.len()
                    &&& found == effective(bytes@).len()
                    &&& *final(self) == *old(self)
                },
                Err(FixedStrError::InvalidUtf8) => false,
            },
    {
        let end = find_first_null(bytes);
        if end > self.remaining() {
            return Err(FixedStrError::Overflow { available: self.remaining(), found: end });
        }
        proof {
            if valid_utf8(self@) && valid_utf8(bytes@) {
                lemma_effective_text_valid(bytes@);
                valid_utf8_concat(self@, effective(bytes@));
            }
        }
        self.push_bytes(bytes, end);
        Ok(())
    }

    /// Attempts to interpret the visible content, up to the first null byte,
    /// as a UTF-8 string.
    pub fn try_as_str(&self) -> (r: Result<&str, FixedStrError>)
        ensures
            match r {
                Ok(s) => {
                    &&& valid_utf8(effective(self@))
                    &&& s.spec_bytes() == effective(self@)
                    &&& s@ == decode_utf8(effective(self@))
                },
                Err(e) => !valid_utf8(effective(self@)) && e == FixedStrError::InvalidUtf8,
            },
    {
        let visible = self.effective_slice();
        match core::str::from_utf8(visible) {
            Ok(s) => {
                proof {
                    encode_utf8_decode_utf8(s@);
                }
                Ok(s)
            },
            Err(_) => Err(FixedStrError::InvalidUtf8),
        }
    }

    /// The written bytes before the first null byte.
    pub(crate) fn effective_slice(&self) -> (b: &[u8])
        ensures
            b@ == effective(self@),
    {
        proof {
            use_type_invariant(self);
            lemma_first_null(self.buffer@);
            lemma_first_null(self@);
        }
        let end = find_first_null(&self.buffer);
        proof {
            if self.len < N {
                assert(self.buffer@[self.len as int] == 0);
            }
            assert(is_first_null(self@, end as int));
        }
        let b = slice_subrange(&self.buffer, 0, end);
        assert(b@ =~= effective(self@));
        b
    }

    /// Attempts to append the entire input string to the buffer.
    ///
    /// The input counts up to its first null byte. If that does not fit into
    /// the remaining capacity, nothing is appended and an error is returned.
    pub fn try_push_str(&mut self, s: &str) -> (r: Result<(), FixedStrError>)
        ensures
            match r {
                Ok(_) => {
                    &&& effective(s.spec_bytes()).len() <= N - old(self)@.len()
                    &&& final(self)@ == old(self)@ + effective(s.spec_bytes())
                    &&& valid_utf8(old(self)@) ==> valid_utf8(final(self)@)
                },
                Err(FixedStrError::Overflow { available, found }) => {
                    &&& effective(s.spec_bytes()).len() > N - old(self)@.len()
                    &&& available == N - old(self)@.len()
                    &&& found == effective(s.spec_bytes()).len()
                    &&& *final(self) == *old(self)
                },
                Err(FixedStrError::InvalidUtf8) => false,
            },
    {
        proof {
            encode_utf8_valid_utf8(s@);
        }
        self.try_push_visible(s.as_bytes())
    }

    /// Attempts to append a single character to the buffer, encoded in
    /// UTF-8. The null character appends nothing.
    pub fn try_push_char(&mut self, c: char) -> (r: Result<(), FixedStrError>)
        ensures
            match r {
                Ok(_) => {
                    &&& effective(encode_scalar(c as u32)).len() <= N - old(self)@.len()
                    &&& final(self)@ == old(self)@ + effective(encode_scalar(c as u32))
                    &&& valid_utf8(old(self)@) ==> valid_utf8(final(self)@)
                },
                Err(FixedStrError::Overflow { available, found }) => {
                    &&& effective(encode_scalar(c as u32)).len() > N - old(self)@.len()
                    &&& available == N - old(self)@.len()
                    &&& found == effective(encode_scalar(c as u32)).len()
                    &&& *final(self) == *old(self)
                },
                Err(FixedStrError::InvalidUtf8) => false,
            },
    {
        let (buf, n) = encode_char(c);
        proof {
            reveal_with_fuel(encode_utf8, 2);
            assert(seq![c].drop_first() =~= Seq::<char>::empty());
            assert(encode_utf8(seq![c]) =~= encode_scalar(c as u32));
            encode_utf8_valid_utf8(seq![c]);
        }
        self.try_push_visible(slice_subrange(&buf, 0, n))
    }

    /// Appends as many complete characters from the input string as fit.
    ///
    /// If the whole string fits, it is appended and `true` is returned.
    /// Otherwise its longest prefix that fits, ends on a character boundary
    /// and holds no null byte is appended, and `false` is returned.
    pub fn push_str_lossy(&mut self, s: &str) -> (r: bool)
        ensures
            s.spec_bytes().len() <= N - old(self)@.len() ==> r && final(self)@ == old(self)@
                + s.spec_bytes(),
            s.spec_bytes().len() > N - old(self)@.len() ==> !r && final(self)@ == old(self)@
                + s.spec_bytes().subrange(
                0,
                valid_utf8_len(s.spec_bytes(), N - old(self)@.len()),
            ),
            valid_utf8(old(self)@) ==> valid_utf8(final(self)@),
    {
        let remaining = self.remaining();
        let bytes = s.as_bytes();
        proof {
            encode_utf8_valid_utf8(s@);
            assert(bytes@.subrange(0, bytes@.len() as int) =~= bytes@);
        }
        let k = if bytes.len() > remaining {
            find_valid_utf8_len(bytes, remaining)
        } else {
            bytes.len()
        };
        proof {
            if valid_utf8(self@) {
                valid_utf8_concat(self@, bytes@.subrange(0, k as int));
            }
        }
        if k > 0 {
            self.push_bytes(bytes, k);
        } else {
            assert(self@ + bytes@.subrange(0, 0) =~= self@);
        }
        assert(bytes@.subrange(0, bytes@.len() as int) =~= bytes@);
        k == bytes.len()
    }

    /// Finalizes the builder into a `FixedStr`: the written bytes, cut back
    /// to their longest valid UTF-8 prefix before the first null byte, and
    /// zeros behind them.
    pub fn finalize(self) -> (r: FixedStr<N>)
        requires
            N > 0,
        ensures
            r@ == sealed(self@, N as nat),
            r.valid(),
            valid_utf8(self@) && first_null(self@) == self@.len() ==> r@ == padded(
                self@,
                N as nat,
            ) && r.effective() == self@,
    {
        proof {
            use_type_invariant(&self);
            assert(self.buffer@ =~= padded(self@, N as nat));
            if valid_utf8(self@) && first_null(self@) == self@.len() {
                lemma_first_null(self@);
                lemma_sealed_clean(self@, N as nat);
            }
        }
        FixedStr::from_bytes(self.buffer)
    }

    /// Finalizes the builder into a `FixedStr` without looking at the bytes:
    /// the written bytes and zeros behind them.
    pub fn finalize_unsafe(self) -> (r: FixedStr<N>)
        requires
            N > 0,
        ensures
            r@ == padded(self@, N as nat),
    {
        proof {
            use_type_invariant(&self);
            assert(self.buffer@ =~= padded(self@, N as nat));
        }
        FixedStr::from_bytes_unsafe(self.buffer)
    }

    /// Clears the builder: nothing is written, and the buffer is zero.
    pub fn clear(&mut self)
        ensures
            final(self)@ == Seq::<u8>::empty(),
    {
        *self = Self { buffer: [0u8; N], len: 0 };
    }

    /// Truncates the written content to `new_len` bytes.
    ///
    /// If `new_len` is less than the current length, the bytes behind it are
    /// set to zero and the length becomes `new_len`. Otherwise nothing
    /// changes.
    pub fn truncate(&mut self, new_len: usize)
        ensures
            new_len >= old(self)@.len() ==> *final(self) == *old(self),
            new_len < old(self)@.len() ==> final(self)@ == old(self)@.subrange(0, new_len as int),
    {
        proof {
            use_type_invariant(&*self);
        }
        if new_len < self.len {
            let ghost before = self@;
            let end = self.len;
            let mut i: usize = new_len;
            while i < end
                invariant
                    new_len <= i <= end <= N,
                    self.len == end,
                    before.len() == end,
                    forall|j: int| 0 <= j < new_len ==> self.buffer@[j] == before[j],
                    forall|j: int| new_len <= j < i ==> self.buffer@[j] == 0,
                    forall|j: int| end <= j < N ==> self.buffer@[j] == 0,
                decreases end - i,
            {
                self.buffer[i] = 0;
                i += 1;
            }
            self.len = new_len;
            assert(self@ =~= before.subrange(0, new_len as int));
        }
    }

    /// The bytes written so far.
    pub(crate) fn content_slice(&self) -> (b: &[u8])
        ensures
            b@ == self@,
    {
        proof {
            use_type_invariant(self);
        }
        slice_subrange(&self.buffer, 0, self.len)
    }

    /// Returns all `N` bytes of the buffer in order: the written bytes and
    /// zeros behind them.
    pub fn into_iter(self) -> (v: Vec<u8>)
        ensures
            v@ == padded(self@, N as nat),
    {
        vstd::slice::slice_to_vec(self.raw_slice())
    }

    /// The whole buffer: the written bytes and zeros behind them.
    pub(crate) fn raw_slice(&self) -> (b: &[u8])
        ensures
            b@ == padded(self@, N as nat),
    {
        proof {
            use_type_invariant(self);
            assert(self.buffer@ =~= padded(self@, N as nat));
        }
        &self.buffer
    }
}

} // verus!
