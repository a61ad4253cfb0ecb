//! Standard traits of `FixedStr`: conversion, comparison and hashing. All of
//! them look at the visible content, the bytes up to the first null byte.

use std::borrow::Borrow;
use std::cmp::Ordering;
use std::hash::{Hash, Hasher};
use std::ops::{Deref, DerefMut};
use vstd::prelude::*;
use vstd::std_specs::cmp::{PartialEqSpecImpl, PartialOrdSpecImpl};
use vstd::std_specs::convert::{FromSpecImpl, TryFromSpecImpl};
use vstd::string::StringSliceAdditionalSpecFns;
use vstd::utf8::{decode_utf8, encode_utf8, valid_utf8};
use crate::byte_order::{bytes_equal, compare_bytes, lex_order, ByteOrder};
use crate::effective_bytes::{EffectiveBytes, EffectiveBytesIter};
use crate::fs_core::FixedStr;
use crate::fs_error::FixedStrError;
use crate::string_helpers::{
    copy_prefix, effective, lemma_first_null, lemma_padded_effective, padded, truncated,
    valid_utf8_len,
};

verus! {

/// The standard ordering value for a byte order.
pub open spec fn ordering_of(o: ByteOrder) -> Ordering {
    match o {
        ByteOrder::Less => Ordering::Less,
        ByteOrder::Equal => Ordering::Equal,
        ByteOrder::Greater => Ordering::Greater,
    }
}

impl<const N: usize> FixedStr<N> {
    /// Returns a cursor over the visible bytes, which stops at the first null
    /// byte.
    pub fn into_iter(self) -> (it: EffectiveBytesIter<N>)
        ensures
            it.remaining() == self.effective(),
    {
        EffectiveBytesIter::start(self)
    }
}

/// A default `FixedStr` holds nothing but zeros.
impl<const N: usize> Default for FixedStr<N> {
    fn default() -> (r: Self)
        ensures
            r@ == padded(Seq::<u8>::empty(), N as nat),
            r.effective().len() == 0,
    {
        let mut r = FixedStr::from_array([0u8; N]);
        r.clear();
        r
    }
}

/// A `FixedStr` dereferences to its whole buffer.
impl<const N: usize> Deref for FixedStr<N> {
    type Target = [u8];

    fn deref(&self) -> (b: &[u8])
        ensures
            b@ == self@,
    {
        self.as_bytes()
    }
}

/// A `FixedStr` dereferences mutably to its whole buffer.
impl<const N: usize> DerefMut for FixedStr<N> {
    fn deref_mut(&mut self) -> (b: &mut [u8])
        ensures
            b@ == old(self)@,
            final(self)@ == final(b)@,
    {
        self.as_mut_bytes()
    }
}

/// The text that a string slice holds.
pub open spec fn text_of(s: &str) -> Seq<char> {
    s@
}

/// The bytes that a byte slice holds.
pub open spec fn bytes_of(b: &[u8]) -> Seq<u8> {
    b@
}

/// The whole buffer as a byte slice.
impl<const N: usize> AsRef<[u8]> for FixedStr<N> {
    fn as_ref(&self) -> (b: &[u8])
        ensures
            bytes_of(b) == self@,
    {
        self.as_bytes()
    }
}

/// The visible content as text, cut back to its longest valid UTF-8 prefix.
impl<const N: usize> AsRef<str> for FixedStr<N> {
    fn as_ref(&self) -> (s: &str)
        ensures
            text_of(s) == decode_utf8(self@.subrange(0, valid_utf8_len(self@, N as int))),
            self.valid() ==> text_of(s) == self.text(),
    {
        self.visible_text()
    }
}

/// The visible content as text, cut back to its longest valid UTF-8 prefix.
impl<const N: usize> Borrow<str> for FixedStr<N> {
    fn borrow(&self) -> (s: &str)
        ensures
            text_of(s) == decode_utf8(self@.subrange(0, valid_utf8_len(self@, N as int))),
            self.valid() ==> text_of(s) == self.text(),
    {
        self.visible_text()
    }
}

/// Constructs a `FixedStr` from a `&str` as `new` does.
impl<const N: usize> From<&str> for FixedStr<N> {
    fn from(s: &str) -> (r: Self)
        ensures
            N > 0 ==> r@ == truncated(s.spec_bytes(), N as nat),
    {
        if N > 0 {
            let r = Self::new(s);
            proof {
                r.lemma_with_bytes();
            }
            r
        } else {
            FixedStr::from_array([0u8; N])
        }
    }
}

impl<const N: usize> FromSpecImpl<&str> for FixedStr<N> {
    open spec fn obeys_from_spec() -> bool {
        N > 0
    }

    open spec fn from_spec(s: &str) -> Self {
        Self::with_bytes(truncated(s.spec_bytes(), N as nat))
    }
}

/// Hashes the visible bytes only.
impl<const N: usize> Hash for FixedStr<N> {
    fn hash<H: Hasher>(&self, state: &mut H) {
        self.effective_bytes().hash(state);
    }
}

/// Two `FixedStr` values are equal when their visible bytes are.
impl<const N: usize> PartialEq for FixedStr<N> {
    fn eq(&self, other: &Self) -> (r: bool) {
        bytes_equal(self.effective_bytes(), other.effective_bytes())
    }
}

impl<const N: usize> PartialEqSpecImpl for FixedStr<N> {
    open spec fn obeys_eq_spec() -> bool {
        true
    }

    open spec fn eq_spec(&self, other: &Self) -> bool {
        self.effective() == other.effective()
    }
}

impl<const N: usize> Eq for FixedStr<N> {

}

/// `FixedStr` values are ordered by their visible bytes, lexicographically.
impl<const N: usize> PartialOrd for FixedStr<N> {
    fn partial_cmp(&self, other: &Self) -> (r: Option<Ordering>) {
        match compare_bytes(self.effective_bytes(), other.effective_bytes()) {
            ByteOrder::Less => Some(Ordering::Less),
            ByteOrder::Equal => Some(Ordering::Equal),
            ByteOrder::Greater => Some(Ordering::Greater),
        }
    }
}

impl<const N: usize> PartialOrdSpecImpl for FixedStr<N> {
    open spec fn obeys_partial_cmp_spec() -> bool {
        true
    }

    open spec fn partial_cmp_spec(&self, other: &Self) -> Option<Ordering> {
        Some(ordering_of(lex_order(self.effective(), other.effective())))
    }
}

/// Compares a `FixedStr` with a `&str` by their visible bytes.
impl<const N: usize> PartialEq<&str> for FixedStr<N> {
    fn eq(&self, other: &&str) -> (r: bool) {
        bytes_equal(self.effective_bytes(), other.effective_bytes())
    }
}

impl<const N: usize> PartialEqSpecImpl<&str> for FixedStr<N> {
    open spec fn obeys_eq_spec() -> bool {
        true
    }

    open spec fn eq_spec(&self, other: &&str) -> bool {
        self.effective() == effective(other.spec_bytes())
    }
}

/// Compares a `&str` with a `FixedStr` by their visible bytes.
impl<const N: usize> PartialEq<FixedStr<N>> for &str {
    fn eq(&self, other: &FixedStr<N>) -> (r: bool) {
        bytes_equal(self.effective_bytes(), other.effective_bytes())
    }
}

impl<const N: usize> PartialEqSpecImpl<FixedStr<N>> for &str {
    open spec fn obeys_eq_spec() -> bool {
        true
    }

    open spec fn eq_spec(&self, other: &FixedStr<N>) -> bool {
        effective(self.spec_bytes()) == other.effective()
    }
}

/// Compares a `FixedStr` with a byte slice by their visible bytes.
impl<const N: usize> PartialEq<[u8]> for FixedStr<N> {
    fn eq(&self, other: &[u8]) -> (r: bool) {
        bytes_equal(self.effective_bytes(), other.effective_bytes())
    }
}

impl<const N: usize> PartialEqSpecImpl<[u8]> for FixedStr<N> {
    open spec fn obeys_eq_spec() -> bool {
        true
    }

    open spec fn eq_spec(&self, other: &[u8]) -> bool {
        self.effective() == effective(other@)
    }
}

/// Compares a byte slice with a `FixedStr` by their visible bytes.
impl<const N: usize> PartialEq<FixedStr<N>> for [u8] {
    fn eq(&self, other: &FixedStr<N>) -> (r: bool) {
        bytes_equal(self.effective_bytes(), other.effective_bytes())
    }
}

impl<const N: usize> PartialEqSpecImpl<FixedStr<N>> for [u8] {
    open spec fn obeys_eq_spec() -> bool {
        true
    }

    open spec fn eq_spec(&self, other: &FixedStr<N>) -> bool {
        effective(self@) == other.effective()
    }
}

/// Compares a `FixedStr` with a reference to a byte slice.
impl<const N: usize> PartialEq<&[u8]> for FixedStr<N> {
    fn eq(&self, other: &&[u8]) -> (r: bool) {
        bytes_equal(self.effective_bytes(), (*other).effective_bytes())
    }
}

impl<const N: usize> PartialEqSpecImpl<&[u8]> for FixedStr<N> {
    open spec fn obeys_eq_spec() -> bool {
        true
    }

    open spec fn eq_spec(&self, other: &&[u8]) -> bool {
        self.effective() == effective(other@)
    }
}

/// Compares a reference to a byte slice with a `FixedStr`.
impl<const N: usize> PartialEq<FixedStr<N>> for &[u8] {
    fn eq(&self, other: &FixedStr<N>) -> (r: bool) {
        bytes_equal((*self).effective_bytes(), other.effective_bytes())
    }
}

impl<const N: usize> PartialEqSpecImpl<FixedStr<N>> for &[u8] {
    open spec fn obeys_eq_spec() -> bool {
        true
    }

    open spec fn eq_spec(&self, other: &FixedStr<N>) -> bool {
        effective(self@) == other.effective()
    }
}

/// Compares a `FixedStr` with a byte array of its size.
impl<const N: usize> PartialEq<[u8; N]> for FixedStr<N> {
    fn eq(&self, other: &[u8; N]) -> (r: bool) {
        bytes_equal(self.effective_bytes(), other.effective_bytes())
    }
}

impl<const N: usize> PartialEqSpecImpl<[u8; N]> for FixedStr<N> {
    open spec fn obeys_eq_spec() -> bool {
        true
    }

    open spec fn eq_spec(&self, other: &[u8; N]) -> bool {
        self.effective() == effective(other@)
    }
}

/// Compares a byte array with a `FixedStr` of its size.
impl<const N: usize> PartialEq<FixedStr<N>> for [u8; N] {
    fn eq(&self, other: &FixedStr<N>) -> (r: bool) {
        bytes_equal(self.effective_bytes(), other.effective_bytes())
    }
}

impl<const N: usize> PartialEqSpecImpl<FixedStr<N>> for [u8; N] {
    open spec fn obeys_eq_spec() -> bool {
        true
    }

    open spec fn eq_spec(&self, other: &FixedStr<N>) -> bool {
        effective(self@) == other.effective()
    }
}

/// Compares a `FixedStr` with a byte vector.
impl<const N: usize> PartialEq<Vec<u8>> for FixedStr<N> {
    fn eq(&self, other: &Vec<u8>) -> (r: bool) {
        bytes_equal(self.effective_bytes(), other.as_slice().effective_bytes())
    }
}

impl<const N: usize> PartialEqSpecImpl<Vec<u8>> for FixedStr<N> {
    open spec fn obeys_eq_spec() -> bool {
        true
    }

    open spec fn eq_spec(&self, other: &Vec<u8>) -> bool {
        self.effective() == effective(other@)
    }
}

/// Compares a byte vector with a `FixedStr`.
impl<const N: usize> PartialEq<FixedStr<N>> for Vec<u8> {
    fn eq(&self, other: &FixedStr<N>) -> (r: bool) {
        bytes_equal(self.as_slice().effective_bytes(), other.effective_bytes())
    }
}

impl<const N: usize> PartialEqSpecImpl<FixedStr<N>> for Vec<u8> {
    open spec fn obeys_eq_spec() -> bool {
        true
    }

    open spec fn eq_spec(&self, other: &FixedStr<N>) -> bool {
        effective(self@) == other.effective()
    }
}

/// Compares a `FixedStr` with a `String`.
impl<const N: usize> PartialEq<String> for FixedStr<N> {
    fn eq(&self, other: &String) -> (r: bool) {
        bytes_equal(self.effective_bytes(), other.effective_bytes())
    }
}

impl<const N: usize> PartialEqSpecImpl<String> for FixedStr<N> {
    open spec fn obeys_eq_spec() -> bool {
        true
    }

    open spec fn eq_spec(&self, other: &String) -> bool {
        self.effective() == effective(encode_utf8(other@))
    }
}

/// Compares a `String` with a `FixedStr`.
impl<const N: usize> PartialEq<FixedStr<N>> for String {
    fn eq(&self, other: &FixedStr<N>) -> (r: bool) {
        bytes_equal(self.effective_bytes(), other.effective_bytes())
    }
}

impl<const N: usize> PartialEqSpecImpl<FixedStr<N>> for String {
    open spec fn obeys_eq_spec() -> bool {
        true
    }

    open spec fn eq_spec(&self, other: &FixedStr<N>) -> bool {
        effective(encode_utf8(self@)) == other.effective()
    }
}

/// Attempts to construct a `FixedStr` from the visible part of a byte slice,
/// copied as it is.
///
/// The slice is refused when its visible part is longer than `N`, and when
/// that part is not valid UTF-8.
impl<const N: usize> TryFrom<&[u8]> for FixedStr<N> {
    type Error = FixedStrError;

    fn try_from(slice: &[u8]) -> (r: Result<Self, FixedStrError>)
        ensures
            match r {
                Ok(fixed) => {
                    &&& effective(slice@).len() <= N
                    &&& valid_utf8(effective(slice@))
                    &&& fixed@ == padded(effective(slice@), N as nat)
                    &&& fixed.effective() == effective(slice@)
                },
                Err(FixedStrError::Overflow { available, found }) => {
                    &&& effective(slice@).len() > N
                    &&& available == N
                    &&& found == effective(slice@).len()
                },
                Err(FixedStrError::InvalidUtf8) => {
                    &&& effective(slice@).len() <= N
                    &&& !valid_utf8(effective(slice@))
                },
            },
    {
        let visible = slice.effective_bytes();
        if visible.len() > N {
            return Err(FixedStrError::Overflow { available: N, found: visible.len() });
        }
        proof {
            lemma_first_null(slice@);
            lemma_padded_effective(visible@, N as nat);
            assert(visible@.subrange(0, visible@.len() as int) =~= visible@);
        }
        let result = FixedStr::from_array(copy_prefix(visible, visible.len()));
        proof {
            result.lemma_with_bytes();
        }
        if result.is_valid() {
            Ok(result)
        } else {
            Err(FixedStrError::InvalidUtf8)
        }
    }
}

impl<const N: usize> TryFromSpecImpl<&[u8]> for FixedStr<N> {
    open spec fn obeys_try_from_spec() -> bool {
        true
    }

    open spec fn try_from_spec(slice: &[u8]) -> Result<Self, FixedStrError> {
        if effective(slice@).len() > N {
            Err(
                FixedStrError::Overflow {
                    available: N,
                    found: effective(slice@).len() as usize,
                },
            )
        } else if !valid_utf8(effective(slice@)) {
            Err(FixedStrError::InvalidUtf8)
        } else {
            Ok(Self::with_bytes(padded(effective(slice@), N as nat)))
        }
    }
}

/// Constructs a `FixedStr` from a `String` as `new` does.
impl<const N: usize> From<String> for FixedStr<N> {
    fn from(s: String) -> (r: Self)
        ensures
            N > 0 ==> r@ == truncated(encode_utf8(s@), N as nat),
    {
        if N > 0 {
            let r = Self::new(s.as_str());
            proof {
                r.lemma_with_bytes();
            }
            r
        } else {
            FixedStr::from_array([0u8; N])
        }
    }
}

impl<const N: usize> FromSpecImpl<String> for FixedStr<N> {
    open spec fn obeys_from_spec() -> bool {
        N > 0
    }

    open spec fn from_spec(s: String) -> Self {
        Self::with_bytes(truncated(encode_utf8(s@), N as nat))
    }
}

/// The visible content as an owned `String`, cut back to its longest valid
/// UTF-8 prefix.
impl<const N: usize> From<FixedStr<N>> for String {
    fn from(fs: FixedStr<N>) -> (s: String)
        ensures
            s@ == decode_utf8(fs@.subrange(0, valid_utf8_len(fs@, N as int))),
            fs.valid() ==> s@ == fs.text(),
    {
        fs.visible_text().to_owned()
    }
}

impl<const N: usize> FromSpecImpl<FixedStr<N>> for String {
    open spec fn obeys_from_spec() -> bool {
        false
    }

    open spec fn from_spec(fs: FixedStr<N>) -> Self {
        arbitrary()
    }
}

/// The visible content as an owned `String`, cut back to its longest valid
/// UTF-8 prefix.
impl<const N: usize> From<&FixedStr<N>> for String {
    fn from(fs: &FixedStr<N>) -> (s: String)
        ensures
            s@ == decode_utf8(fs@.subrange(0, valid_utf8_len(fs@, N as int))),
            fs.valid() ==> s@ == fs.text(),
    {
        fs.visible_text().to_owned()
    }
}

impl<const N: usize> FromSpecImpl<&FixedStr<N>> for String {
    open spec fn obeys_from_spec() -> bool {
        false
    }

    open spec fn from_spec(fs: &FixedStr<N>) -> Self {
        arbitrary()
    }
}

} // verus!
