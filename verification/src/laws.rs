//! Laws that relate several operations of the library.

use std::cmp::Ordering;
use vstd::prelude::*;
use vstd::std_specs::cmp::{PartialEqSpec, PartialOrdSpec};
use vstd::utf8::*;
use crate::byte_order::lemma_lex_equal;
use crate::effective_bytes::EffectiveBytes;
use crate::fs_buffer::{lemma_sealed_clean, sealed};
use crate::fs_core::FixedStr;
use crate::string_helpers::{
    effective, first_null, is_first_null, lemma_effective_has_no_null,
    lemma_effective_text_valid, lemma_first_null, lemma_padded_keeps_effective,
    lemma_scan_boundary_on_valid, lemma_truncated, padded, scan_boundary, truncated,
};
use crate::utf8_prefix::lemma_longest_valid_prefix;

verus! {

/// Two strings whose buffers agree up to and including the first null byte
/// of one of them are equal, are ordered as equal and show the same bytes to
/// a hasher, whatever lies behind that null byte.
pub proof fn lemma_equal_by_visible_content<const N: usize>(a: FixedStr<N>, b: FixedStr<N>)
    requires
        forall|i: int| 0 <= i < N && i <= first_null(a@) ==> a@[i] == b@[i],
    ensures
        a.effective() == b.effective(),
        a.eq_spec(&b),
        a.partial_cmp_spec(&b) == Some(Ordering::Equal),
        a.effective_view() == b.effective_view(),
{
    a.lemma_capacity();
    b.lemma_capacity();
    lemma_first_null(a@);
    lemma_first_null(b@);
    assert(is_first_null(b@, first_null(a@)));
    assert(a.effective() =~= b.effective());
    lemma_lex_equal(a.effective(), b.effective());
}

/// Text that is pushed into an empty builder and fits comes back from the
/// sealed string as it went in, up to its first null byte: nothing is lost.
pub proof fn lemma_push_then_seal(s: Seq<char>, n: nat)
    requires
        effective(encode_utf8(s)).len() <= n,
    ensures
        effective(sealed(Seq::<u8>::empty() + effective(encode_utf8(s)), n)) == effective(
            encode_utf8(s),
        ),
        sealed(Seq::<u8>::empty() + effective(encode_utf8(s)), n) == padded(
            effective(encode_utf8(s)),
            n,
        ),
        first_null(encode_utf8(s)) == encode_utf8(s).len() ==> decode_utf8(
            effective(sealed(Seq::<u8>::empty() + effective(encode_utf8(s)), n)),
        ) == s,
{
    let b = encode_utf8(s);
    let e = effective(b);
    encode_utf8_valid_utf8(s);
    encode_utf8_decode_utf8(s);
    lemma_effective_text_valid(b);
    lemma_effective_has_no_null(b);
    assert(Seq::<u8>::empty() + e =~= e);
    lemma_sealed_clean(e, n);
    if first_null(b) == b.len() {
        assert(e =~= b);
    }
}

/// The two ways to build a string from text show the same content: the
/// search for the longest valid prefix and the forward scan over whole
/// characters cut the text at the same place, and a null byte in the text
/// ends what is shown either way.
pub proof fn lemma_constructors_agree(s: Seq<char>, n: nat)
    ensures
        effective(truncated(encode_utf8(s), n)) == effective(
            padded(encode_utf8(s).subrange(0, scan_boundary(encode_utf8(s), 0, n as int)), n),
        ),
{
    let b = encode_utf8(s);
    let limit = if n <= b.len() {
        n as int
    } else {
        b.len() as int
    };
    let k = first_null(b);
    let v = scan_boundary(b, 0, n as int);
    encode_utf8_valid_utf8(s);
    assert(b.subrange(0, 0).len() == 0);
    lemma_scan_boundary_on_valid(b, 0, n as int);
    lemma_longest_valid_prefix(b, limit);
    lemma_truncated(b, n);
    lemma_first_null(b);
    let kept = b.subrange(0, v);
    lemma_padded_keeps_effective(kept, n);
    lemma_first_null(kept);
    if k >= limit {
        assert(is_first_null(kept, v));
        assert(kept.subrange(0, v) =~= kept);
    } else {
        lemma_effective_text_valid(b);
        lemma_longest_valid_prefix(b, k);
        assert(is_first_null(kept, k));
        assert(kept.subrange(0, k) =~= b.subrange(0, k));
    }
}

} // verus!
