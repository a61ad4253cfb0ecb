//! The mathematics of valid UTF-8 prefixes: which prefixes of a byte sequence
//! are well-formed text, and how far apart they can lie.

use vstd::prelude::*;
use vstd::utf8::*;

verus! {

/// The largest `k` in `0..=limit` such that the first `k` bytes of `s` are
/// valid UTF-8. The empty prefix always qualifies.
pub open spec fn longest_valid_prefix(s: Seq<u8>, limit: int) -> int
    decreases limit,
{
    if limit <= 0 {
        0
    } else if partial_valid_utf8(s, limit) {
        limit
    } else {
        longest_valid_prefix(s, limit - 1)
    }
}

/// True when `r` is the largest valid UTF-8 prefix length of `s` not above
/// `limit`.
pub open spec fn is_longest_valid_prefix(s: Seq<u8>, limit: int, r: int) -> bool {
    &&& 0 <= r <= limit
    &&& partial_valid_utf8(s, r)
    &&& forall|k: int| r < k <= limit ==> !partial_valid_utf8(s, k)
}

/// `longest_valid_prefix` is the one length that `is_longest_valid_prefix`
/// accepts.
pub proof fn lemma_longest_valid_prefix(s: Seq<u8>, limit: int)
    requires
        0 <= limit,
    ensures
        is_longest_valid_prefix(s, limit, longest_valid_prefix(s, limit)),
        forall|r: int|
            is_longest_valid_prefix(s, limit, r) ==> r == longest_valid_prefix(s, limit),
    decreases limit,
{
    if limit <= 0 {
        assert(s.subrange(0, 0).len() == 0);
    } else if partial_valid_utf8(s, limit) {
    } else {
        lemma_longest_valid_prefix(s, limit - 1);
    }
}

/// The first scalar of a valid sequence is itself valid UTF-8.
proof fn lemma_first_scalar_valid(t: Seq<u8>)
    requires
        valid_utf8(t),
        t.len() > 0,
    ensures
        1 <= length_of_first_scalar(t) <= 4,
        length_of_first_scalar(t) <= t.len(),
        valid_utf8(take_first_scalar(t)),
        valid_utf8(pop_first_scalar(t)),
{
    reveal_with_fuel(valid_utf8, 2);
}

/// Prepending the first scalar of `t` to a valid prefix of the rest of `t`
/// gives a valid prefix of `t`.
proof fn lemma_prefix_after_first_scalar(t: Seq<u8>, b: int)
    requires
        valid_utf8(t),
        t.len() > 0,
        partial_valid_utf8(pop_first_scalar(t), b),
    ensures
        partial_valid_utf8(t, b + length_of_first_scalar(t)),
{
    lemma_first_scalar_valid(t);
    let n = length_of_first_scalar(t);
    let rest = pop_first_scalar(t);
    valid_utf8_concat(take_first_scalar(t), rest.subrange(0, b));
    assert(take_first_scalar(t) + rest.subrange(0, b) =~= t.subrange(0, b + n));
}

/// In valid UTF-8 every position has a valid prefix at most three bytes
/// before it: no character is longer than four bytes.
pub proof fn lemma_valid_prefix_nearby(t: Seq<u8>, k: int) -> (b: int)
    requires
        valid_utf8(t),
        0 <= k <= t.len(),
    ensures
        0 <= b,
        k - 3 <= b <= k,
        partial_valid_utf8(t, b),
    decreases t.len(),
{
    if k == 0 {
        assert(t.subrange(0, 0).len() == 0);
        0
    } else {
        lemma_first_scalar_valid(t);
        let n = length_of_first_scalar(t);
        if k < n {
            assert(t.subrange(0, 0).len() == 0);
            0
        } else {
            let rest = pop_first_scalar(t);
            let b1 = lemma_valid_prefix_nearby(rest, k - n);
            lemma_prefix_after_first_scalar(t, b1);
            b1 + n
        }
    }
}

/// True when some prefix of `s` of length `k - 3 ..= k` is valid UTF-8, that
/// is when `s` is well-formed up to `k` but for a character cut short.
pub open spec fn near_valid(s: Seq<u8>, k: int) -> bool {
    exists|j: int| 0 <= j && k - 3 <= j <= k && #[trigger] partial_valid_utf8(s, j)
}

/// `near_valid` is downward closed: it holds of every length below one of
/// which it holds.
pub proof fn lemma_near_valid_downward(s: Seq<u8>, k: int, k1: int)
    requires
        near_valid(s, k),
        0 <= k1 <= k,
    ensures
        near_valid(s, k1),
{
    let j = choose|j: int| 0 <= j && k - 3 <= j <= k && #[trigger] partial_valid_utf8(s, j);
    if k1 >= j {
        assert(partial_valid_utf8(s, j));
    } else {
        let t = s.subrange(0, j);
        let b = lemma_valid_prefix_nearby(t, k1);
        assert(t.subrange(0, b) =~= s.subrange(0, b));
        assert(partial_valid_utf8(s, b));
    }
}

/// A valid prefix of valid UTF-8 ends on a character boundary.
pub proof fn lemma_valid_prefix_is_boundary(s: Seq<u8>, k: int)
    requires
        valid_utf8(s),
        partial_valid_utf8(s, k),
    ensures
        is_char_boundary(s, k),
    decreases s.len(),
{
    if k != 0 {
        let p = s.subrange(0, k);
        lemma_first_scalar_valid(s);
        lemma_first_scalar_valid(p);
        let n = length_of_first_scalar(s);
        assert(length_of_first_scalar(p) == n);
        assert(pop_first_scalar(p) =~= pop_first_scalar(s).subrange(0, k - n));
        lemma_valid_prefix_is_boundary(pop_first_scalar(s), k - n);
    }
}

/// In valid UTF-8 the valid prefixes are exactly the character boundaries.
pub proof fn lemma_boundary_iff_valid_prefix(s: Seq<u8>, k: int)
    requires
        valid_utf8(s),
    ensures
        is_char_boundary(s, k) <==> partial_valid_utf8(s, k),
{
    if partial_valid_utf8(s, k) {
        lemma_valid_prefix_is_boundary(s, k);
    }
    if is_char_boundary(s, k) {
        lemma_boundary_in_range(s, k);
        valid_utf8_split(s, k);
    }
}

/// A character boundary lies within the sequence.
pub proof fn lemma_boundary_in_range(s: Seq<u8>, k: int)
    requires
        valid_utf8(s),
        is_char_boundary(s, k),
    ensures
        0 <= k <= s.len(),
    decreases s.len(),
{
    if k != 0 {
        lemma_first_scalar_valid(s);
        lemma_boundary_in_range(pop_first_scalar(s), k - length_of_first_scalar(s));
    }
}

/// Bytes below 128 are valid UTF-8: each is a character of its own.
pub proof fn lemma_ascii_valid(s: Seq<u8>)
    requires
        forall|i: int| 0 <= i < s.len() ==> s[i] < 128,
    ensures
        valid_utf8(s),
    decreases s.len(),
{
    if s.len() > 0 {
        let rest = pop_first_scalar(s);
        assert(is_leading_byte_width_1(s[0]));
        assert(rest =~= s.subrange(1, s.len() as int));
        lemma_ascii_valid(rest);
    }
}

} // verus!
