//! The visible bytes of a value: those before its first null byte.

use vstd::prelude::*;
use vstd::slice::slice_subrange;
use vstd::string::StringSliceAdditionalSpecFns;
use vstd::utf8::encode_utf8;
use crate::fs_buffer::FixedStrBuf;
use crate::fs_core::FixedStr;
use crate::string_helpers::{effective, find_first_null};

verus! {

/// A trait that extracts the effective bytes of a value, that is its bytes
/// up to the first null byte.
pub trait EffectiveBytes {
    /// The bytes that `effective_bytes` returns.
    spec fn effective_view(&self) -> Seq<u8>;

    /// Returns the effective bytes up to the first null byte.
    fn effective_bytes(&self) -> (b: &[u8])
        ensures
            b@ == self.effective_view(),
    ;
}

impl<const N: usize> EffectiveBytes for FixedStr<N> {
    open spec fn effective_view(&self) -> Seq<u8> {
        self.effective()
    }

    fn effective_bytes(&self) -> (b: &[u8]) {
        let bytes = self.as_bytes();
        slice_subrange(bytes, 0, find_first_null(bytes))
    }
}

impl<const N: usize> EffectiveBytes for &FixedStr<N> {
    open spec fn effective_view(&self) -> Seq<u8> {
        self.effective()
    }

    fn effective_bytes(&self) -> (b: &[u8]) {
        (*self).effective_bytes()
    }
}

impl EffectiveBytes for [u8] {
    open spec fn effective_view(&self) -> Seq<u8> {
        effective(self@)
    }

    fn effective_bytes(&self) -> (b: &[u8]) {
        let end = find_first_null(self);
        slice_subrange(self, 0, end)
    }
}

impl<const N: usize> EffectiveBytes for [u8; N] {
    open spec fn effective_view(&self) -> Seq<u8> {
        effective(self@)
    }

    fn effective_bytes(&self) -> (b: &[u8]) {
        let end = find_first_null(self);
        slice_subrange(self, 0, end)
    }
}

impl EffectiveBytes for &str {
    open spec fn effective_view(&self) -> Seq<u8> {
        effective(self.spec_bytes())
    }

    fn effective_bytes(&self) -> (b: &[u8]) {
        self.as_bytes().effective_bytes()
    }
}

impl EffectiveBytes for String {
    open spec fn effective_view(&self) -> Seq<u8> {
        effective(encode_utf8(self@))
    }

    fn effective_bytes(&self) -> (b: &[u8]) {
        self.as_str().as_bytes().effective_bytes()
    }
}

impl<const N: usize> EffectiveBytes for FixedStrBuf<N> {
    open spec fn effective_view(&self) -> Seq<u8> {
        effective(self@)
    }

    fn effective_bytes(&self) -> (b: &[u8]) {
        self.effective_slice()
    }
}

/// An iterator-like cursor over the effective bytes of a `FixedStr`: it
/// stops at the first null byte.
pub struct EffectiveBytesIter<const N: usize> {
    data: [u8; N],
    index: usize,
    len: usize,
}

impl<const N: usize> EffectiveBytesIter<N> {
    /// The cursor stays within the effective bytes.
    #[verifier::type_invariant]
    spec fn well_formed(&self) -> bool {
        self.index <= self.len <= N
    }

    /// The bytes that are still to come.
    pub closed spec fn remaining(&self) -> Seq<u8> {
        self.data@.subrange(self.index as int, self.len as int)
    }

    /// A cursor at the start of the effective bytes of `fixed`.
    pub(crate) fn start(fixed: FixedStr<N>) -> (r: Self)
        ensures
            r.remaining() == fixed.effective(),
    {
        let len = fixed.len();
        let data = fixed.into_array();
        Self { data, index: 0, len }
    }

    /// Returns the next effective byte, or `None` when all were returned.
    pub fn next(&mut self) -> (r: Option<u8>)
        ensures
            match r {
                Some(b) => old(self).remaining().len() > 0 && b == old(self).remaining()[0]
                    && final(self).remaining() == old(self).remaining().drop_first(),
                None => old(self).remaining().len() == 0 && final(self).remaining()
                    == old(self).remaining(),
            },
    {
        proof {
            use_type_invariant(&*self);
        }
        if self.index < self.len {
            let byte = self.data[self.index];
            self.index += 1;
            assert(self.remaining() =~= old(self).remaining().drop_first());
            Some(byte)
        } else {
            None
        }
    }
}

} // verus!
