//! Standard traits of `FixedStrBuf`: conversion, comparison and hashing.

use std::cmp::Ordering;
use std::hash::{Hash, Hasher};
use std::ops::Deref;
use vstd::prelude::*;
use vstd::std_specs::cmp::{PartialEqSpecImpl, PartialOrdSpecImpl};
use vstd::std_specs::convert::{FromSpecImpl, TryFromSpecImpl};
use crate::byte_order::{bytes_equal, compare_bytes, lex_order, ByteOrder};
use crate::effective_bytes::EffectiveBytes;
use crate::fs_buffer::FixedStrBuf;
use crate::fs_core::FixedStr;
use crate::fs_error::FixedStrError;
use crate::fs_impl::ordering_of;
use crate::string_helpers::{copy_prefix, effective, lemma_first_null, padded};

verus! {

/// A default builder is empty.
impl<const N: usize> Default for FixedStrBuf<N> {
    fn default() -> (r: Self)
        ensures
            r@ == Seq::<u8>::empty(),
    {
        let r = FixedStrBuf::from_raw_parts([0u8; N], 0);
        assert(r@ =~= Seq::<u8>::empty());
        r
    }
}

/// A builder dereferences to its whole buffer: the written bytes and zeros
/// behind them.
impl<const N: usize> Deref for FixedStrBuf<N> {
    type Target = [u8];

    fn deref(&self) -> (b: &[u8])
        ensures
            b@ == padded(self@, N as nat),
    {
        self.raw_slice()
    }
}

/// The whole buffer as a byte slice: the written bytes and zeros behind
/// them.
impl<const N: usize> AsRef<[u8]> for FixedStrBuf<N> {
    fn as_ref(&self) -> (b: &[u8])
        ensures
            b@ == padded(self@, N as nat),
    {
        self.raw_slice()
    }
}

/// Creates a builder from a `FixedStr`: what is written is the visible
/// content of the string.
impl<const N: usize> From<FixedStr<N>> for FixedStrBuf<N> {
    fn from(fixed: FixedStr<N>) -> (r: Self)
        ensures
            r@ == fixed.effective(),
    {
        let bytes = fixed.as_bytes();
        let len = fixed.len();
        let buffer = copy_prefix(bytes, len);
        let r = FixedStrBuf::from_raw_parts(buffer, len);
        assert(r@ =~= fixed.effective());
        r
    }
}

impl<const N: usize> FromSpecImpl<FixedStr<N>> for FixedStrBuf<N> {
    open spec fn obeys_from_spec() -> bool {
        true
    }

    open spec fn from_spec(fixed: FixedStr<N>) -> Self {
        Self::with_content(fixed.effective())
    }
}

/// Attempts to create a builder from the visible part of a byte slice. The
/// slice is refused when that part is longer than `N`.
impl<const N: usize> TryFrom<&[u8]> for FixedStrBuf<N> {
    type Error = FixedStrError;

    fn try_from(slice: &[u8]) -> (r: Result<Self, FixedStrError>)
        ensures
            match r {
                Ok(buf) => effective(slice@).len() <= N && buf@ == effective(slice@),
                Err(FixedStrError::Overflow { available, found }) => {
                    &&& effective(slice@).len() > N
                    &&& available == N
                    &&& found == effective(slice@).len()
                },
                Err(FixedStrError::InvalidUtf8) => false,
            },
    {
        let visible = slice.effective_bytes();
        let len = visible.len();
        if len > N {
            return Err(FixedStrError::Overflow { available: N, found: len });
        }
        proof {
            lemma_first_null(slice@);
        }
        let buffer = copy_prefix(visible, len);
        let r = FixedStrBuf::from_raw_parts(buffer, len);
        assert(r@ =~= effective(slice@));
        Ok(r)
    }
}

impl<const N: usize> TryFromSpecImpl<&[u8]> for FixedStrBuf<N> {
    open spec fn obeys_try_from_spec() -> bool {
        true
    }

    open spec fn try_from_spec(slice: &[u8]) -> Result<Self, FixedStrError> {
        if effective(slice@).len() > N {
            Err(
                FixedStrError::Overflow {
                    available: N,
                    found: effective(slice@).len() as usize,
                },
            )
        } else {
            Ok(Self::with_content(effective(slice@)))
        }
    }
}

/// Hashes the visible bytes only.
impl<const N: usize> Hash for FixedStrBuf<N> {
    fn hash<H: Hasher>(&self, state: &mut H) {
        self.effective_bytes().hash(state);
    }
}

/// Two builders are equal when the same bytes were written to them.
impl<const N: usize> PartialEq for FixedStrBuf<N> {
    fn eq(&self, other: &Self) -> (r: bool) {
        bytes_equal(self.content_slice(), other.content_slice())
    }
}

impl<const N: usize> PartialEqSpecImpl for FixedStrBuf<N> {
    open spec fn obeys_eq_spec() -> bool {
        true
    }

    open spec fn eq_spec(&self, other: &Self) -> bool {
        self@ == other@
    }
}

impl<const N: usize> Eq for FixedStrBuf<N> {

}

/// Builders are ordered by their visible bytes, lexicographically.
impl<const N: usize> PartialOrd for FixedStrBuf<N> {
    fn partial_cmp(&self, other: &Self) -> (r: Option<Ordering>) {
        match compare_bytes(self.effective_bytes(), other.effective_bytes()) {
            ByteOrder::Less => Some(Ordering::Less),
            ByteOrder::Equal => Some(Ordering::Equal),
            ByteOrder::Greater => Some(Ordering::Greater),
        }
    }
}

impl<const N: usize> PartialOrdSpecImpl for FixedStrBuf<N> {
    open spec fn obeys_partial_cmp_spec() -> bool {
        true
    }

    open spec fn partial_cmp_spec(&self, other: &Self) -> Option<Ordering> {
        Some(ordering_of(lex_order(effective(self@), effective(other@))))
    }
}

/// Compares a builder with a byte slice by their visible bytes.
impl<const N: usize> PartialEq<[u8]> for FixedStrBuf<N> {
    fn eq(&self, other: &[u8]) -> (r: bool) {
        bytes_equal(self.effective_bytes(), other.effective_bytes())
    }
}

impl<const N: usize> PartialEqSpecImpl<[u8]> for FixedStrBuf<N> {
    open spec fn obeys_eq_spec() -> bool {
        true
    }

    open spec fn eq_spec(&self, other: &[u8]) -> bool {
        effective(self@) == effective(other@)
    }
}

/// Compares a byte slice with a builder by their visible bytes.
impl<const N: usize> PartialEq<FixedStrBuf<N>> for [u8] {
    fn eq(&self, other: &FixedStrBuf<N>) -> (r: bool) {
        bytes_equal(self.effective_bytes(), other.effective_bytes())
    }
}

impl<const N: usize> PartialEqSpecImpl<FixedStrBuf<N>> for [u8] {
    open spec fn obeys_eq_spec() -> bool {
        true
    }

    open spec fn eq_spec(&self, other: &FixedStrBuf<N>) -> bool {
        effective(self@) == effective(other@)
    }
}

/// Compares a builder with a reference to a byte slice.
impl<const N: usize> PartialEq<&[u8]> for FixedStrBuf<N> {
    fn eq(&self, other: &&[u8]) -> (r: bool) {
        bytes_equal(self.effective_bytes(), (*other).effective_bytes())
    }
}

impl<const N: usize> PartialEqSpecImpl<&[u8]> for FixedStrBuf<N> {
    open spec fn obeys_eq_spec() -> bool {
        true
    }

    open spec fn eq_spec(&self, other: &&[u8]) -> bool {
        effective(self@) == effective(other@)
    }
}

/// Compares a reference to a byte slice with a builder.
impl<const N: usize> PartialEq<FixedStrBuf<N>> for &[u8] {
    fn eq(&self, other: &FixedStrBuf<N>) -> (r: bool) {
        bytes_equal((*self).effective_bytes(), other.effective_bytes())
    }
}

impl<const N: usize> PartialEqSpecImpl<FixedStrBuf<N>> for &[u8] {
    open spec fn obeys_eq_spec() -> bool {
        true
    }

    open spec fn eq_spec(&self, other: &FixedStrBuf<N>) -> bool {
        effective(self@) == effective(other@)
    }
}

/// Compares a builder with a byte array of its size.
impl<const N: usize> PartialEq<[u8; N]> for FixedStrBuf<N> {
    fn eq(&self, other: &[u8; N]) -> (r: bool) {
        bytes_equal(self.effective_bytes(), other.effective_bytes())
    }
}

impl<const N: usize> PartialEqSpecImpl<[u8; N]> for FixedStrBuf<N> {
    open spec fn obeys_eq_spec() -> bool {
        true
    }

    open spec fn eq_spec(&self, other: &[u8; N]) -> bool {
        effective(self@) == effective(other@)
    }
}

/// Compares a byte array with a builder of its size.
impl<const N: usize> PartialEq<FixedStrBuf<N>> for [u8; N] {
    fn eq(&self, other: &FixedStrBuf<N>) -> (r: bool) {
        bytes_equal(self.effective_bytes(), other.effective_bytes())
    }
}

impl<const N: usize> PartialEqSpecImpl<FixedStrBuf<N>> for [u8; N] {
    open spec fn obeys_eq_spec() -> bool {
        true
    }

    open spec fn eq_spec(&self, other: &FixedStrBuf<N>) -> bool {
        effective(self@) == effective(other@)
    }
}

/// Compares a builder with a `FixedStr` by their visible bytes.
impl<const N: usize> PartialEq<FixedStr<N>> for FixedStrBuf<N> {
    fn eq(&self, other: &FixedStr<N>) -> (r: bool) {
        bytes_equal(self.effective_bytes(), other.effective_bytes())
    }
}

impl<const N: usize> PartialEqSpecImpl<FixedStr<N>> for FixedStrBuf<N> {
    open spec fn obeys_eq_spec() -> bool {
        true
    }

    open spec fn eq_spec(&self, other: &FixedStr<N>) -> bool {
        effective(self@) == other.effective()
    }
}

/// Compares a `FixedStr` with a builder by their visible bytes.
impl<const N: usize> PartialEq<FixedStrBuf<N>> for FixedStr<N> {
    fn eq(&self, other: &FixedStrBuf<N>) -> (r: bool) {
        bytes_equal(self.effective_bytes(), other.effective_bytes())
    }
}

impl<const N: usize> PartialEqSpecImpl<FixedStrBuf<N>> for FixedStr<N> {
    open spec fn obeys_eq_spec() -> bool {
        true
    }

    open spec fn eq_spec(&self, other: &FixedStrBuf<N>) -> bool {
        self.effective() == effective(other@)
    }
}

/// Compares a builder with a byte vector by their visible bytes.
impl<const N: usize> PartialEq<Vec<u8>> for FixedStrBuf<N> {
    fn eq(&self, other: &Vec<u8>) -> (r: bool) {
        bytes_equal(self.effective_bytes(), other.as_slice().effective_bytes())
    }
}

impl<const N: usize> PartialEqSpecImpl<Vec<u8>> for FixedStrBuf<N> {
    open spec fn obeys_eq_spec() -> bool {
        true
    }

    open spec fn eq_spec(&self, other: &Vec<u8>) -> bool {
        effective(self@) == effective(other@)
    }
}

/// Compares a byte vector with a builder by their visible bytes.
impl<const N: usize> PartialEq<FixedStrBuf<N>> for Vec<u8> {
    fn eq(&self, other: &FixedStrBuf<N>) -> (r: bool) {
        bytes_equal(self.as_slice().effective_bytes(), other.effective_bytes())
    }
}

impl<const N: usize> PartialEqSpecImpl<FixedStrBuf<N>> for Vec<u8> {
    open spec fn obeys_eq_spec() -> bool {
        true
    }

    open spec fn eq_spec(&self, other: &FixedStrBuf<N>) -> bool {
        effective(self@) == effective(other@)
    }
}

} // verus!
