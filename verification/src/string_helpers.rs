//! Byte-boundary helpers: terminator search, UTF-8 prefix search and copying
//! into a fixed buffer.

use vstd::prelude::*;
use vstd::slice::slice_subrange;
use vstd::string::StringSliceAdditionalSpecFns;
use vstd::utf8::*;
use crate::fs_error::FixedStrError;
use crate::trusted::memchr_first;
use crate::utf8_prefix::{
    is_longest_valid_prefix, lemma_boundary_iff_valid_prefix, lemma_longest_valid_prefix,
    lemma_near_valid_downward, lemma_valid_prefix_is_boundary, longest_valid_prefix, near_valid,
};

verus! {

/// True when `n` is the index of the first null byte of `s`, or its length
/// when `s` holds none.
pub open spec fn is_first_null(s: Seq<u8>, n: int) -> bool {
    &&& 0 <= n <= s.len()
    &&& forall|i: int| 0 <= i < n ==> s[i] != 0
    &&& n < s.len() ==> s[n] == 0
}

/// Index of the first null byte of `s`, or `s.len()` when there is none.
pub open spec fn first_null(s: Seq<u8>) -> int
    decreases s.len(),
{
    if s.len() == 0 || s[0] == 0 {
        0
    } else {
        1 + first_null(s.drop_first())
    }
}

/// The bytes of `s` before its first null byte: its visible content.
pub open spec fn effective(s: Seq<u8>) -> Seq<u8> {
    s.subrange(0, first_null(s))
}

/// `first_null` is the one index that `is_first_null` accepts.
pub proof fn lemma_first_null(s: Seq<u8>)
    ensures
        is_first_null(s, first_null(s)),
        forall|n: int| is_first_null(s, n) ==> n == first_null(s),
    decreases s.len(),
{
    if s.len() == 0 || s[0] == 0 {
    } else {
        let t = s.drop_first();
        lemma_first_null(t);
        let m = first_null(t);
        assert forall|i: int| 0 <= i < m + 1 implies s[i] != 0 by {
            if i > 0 {
                assert(s[i] == t[i - 1]);
            }
        }
        if m + 1 < s.len() {
            assert(s[m + 1] == t[m]);
        }
        assert forall|n: int| is_first_null(s, n) implies n == m + 1 by {
            assert(n > 0);
            assert forall|i: int| 0 <= i < n - 1 implies t[i] != 0 by {
                assert(t[i] == s[i + 1]);
            }
            if n - 1 < t.len() {
                assert(t[n - 1] == s[n]);
            }
            assert(is_first_null(t, n - 1));
        }
    }
}

/// The length of the longest valid UTF-8 prefix of `s` that ends at or before
/// both `max_len` and the first null byte of `s`.
pub open spec fn valid_utf8_len(s: Seq<u8>, max_len: int) -> int {
    longest_valid_prefix(
        s,
        if max_len <= first_null(s) {
            max_len
        } else {
            first_null(s)
        },
    )
}

/// Ensures that the provided capacity is greater than zero. A zero capacity
/// is a programming error, so the check is a precondition.
pub fn panic_on_zero(n: usize)
    requires
        n > 0,
{
}

/// Finds the index of the first null byte in `bytes`, or the length of the
/// slice if it holds none.
pub fn find_first_null(bytes: &[u8]) -> (n: usize)
    ensures
        n == first_null(bytes@),
        is_first_null(bytes@, n as int),
{
    proof {
        lemma_first_null(bytes@);
    }
    match memchr_first(0, bytes) {
        Some(i) => i,
        None => bytes.len(),
    }
}

/// Whether the first `k` bytes of `bytes` are valid UTF-8.
fn is_valid_prefix(bytes: &[u8], k: usize) -> (r: bool)
    requires
        k <= bytes@.len(),
    ensures
        r == partial_valid_utf8(bytes@, k as int),
{
    core::str::from_utf8(slice_subrange(bytes, 0, k)).is_ok()
}

/// Whether one of the prefixes of `bytes` of length `k - 3 ..= k` is valid
/// UTF-8.
fn is_near_valid_prefix(bytes: &[u8], k: usize) -> (r: bool)
    requires
        k <= bytes@.len(),
    ensures
        r == near_valid(bytes@, k as int),
{
    let mut j: usize = k;
    let mut steps: u8 = 0;
    loop
        invariant
            j <= k <= bytes@.len(),
            steps <= 3,
            j + steps == k,
            forall|i: int| j < i <= k ==> !partial_valid_utf8(bytes@, i),
        decreases j,
    {
        if is_valid_prefix(bytes, j) {
            return true;
        }
        if j == 0 || steps == 3 {
            return false;
        }
        j -= 1;
        steps += 1;
    }
}

/// Finds the largest index, up to `max_len` and not beyond the first null
/// byte, such that `bytes[..index]` is valid UTF-8.
///
/// If the whole candidate range is valid, its length is the answer. Else a
/// binary search narrows the candidates. Whether a prefix is valid says
/// nothing of the shorter ones, since a prefix that ends inside a character
/// is not valid; so a probe asks whether one of the four prefixes of length
/// `k - 3 ..= k` is valid, which holds of every length below one of which it
/// holds. The answer is the longest valid prefix among the four that the
/// search ends on.
pub fn find_valid_utf8_len(bytes: &[u8], max_len: usize) -> (len: usize)
    ensures
        len == valid_utf8_len(bytes@, max_len as int),
        is_longest_valid_prefix(
            bytes@,
            if max_len <= first_null(bytes@) {
                max_len as int
            } else {
                first_null(bytes@)
            },
            len as int,
        ),
{
    let effective = find_first_null(bytes);
    let upper = if max_len <= effective {
        max_len
    } else {
        effective
    };
    proof {
        lemma_longest_valid_prefix(bytes@, upper as int);
    }
    if is_valid_prefix(bytes, upper) {
        return upper;
    }
    let mut low: usize = 0;
    let mut high: usize = upper;
    proof {
        assert(bytes@.subrange(0, 0).len() == 0);
        assert(partial_valid_utf8(bytes@, 0));
    }
    while low < high
        invariant
            low <= high <= upper <= bytes@.len(),
            near_valid(bytes@, low as int),
            forall|k: int| high < k <= upper ==> !near_valid(bytes@, k),
        decreases high - low,
    {
        let mid = high - (high - low) / 2;
        if is_near_valid_prefix(bytes, mid) {
            low = mid;
        } else {
            proof {
                assert forall|k: int| mid <= k <= upper implies !near_valid(bytes@, k) by {
                    if near_valid(bytes@, k) {
                        lemma_near_valid_downward(bytes@, k, mid as int);
                    }
                }
            }
            high = mid - 1;
        }
    }
    let mut len: usize = low;
    proof {
        assert forall|k: int| low < k <= upper implies !partial_valid_utf8(bytes@, k) by {
            if partial_valid_utf8(bytes@, k) {
                assert(near_valid(bytes@, k));
            }
        }
    }
    while len > 0 && !is_valid_prefix(bytes, len)
        invariant
            len <= low <= upper <= bytes@.len(),
            forall|k: int| len < k <= upper ==> !partial_valid_utf8(bytes@, k),
        decreases len,
    {
        len -= 1;
    }
    proof {
        assert(bytes@.subrange(0, 0).len() == 0);
    }
    len
}

/// Truncates a byte slice to a valid UTF-8 string within a specified maximum
/// length: the text of its longest valid prefix that ends at or before
/// `max_len` and the first null byte.
pub fn truncate_utf8_lossy(bytes: &[u8], max_len: usize) -> (s: &str)
    ensures
        s.spec_bytes() == bytes@.subrange(0, valid_utf8_len(bytes@, max_len as int)),
        s@ == decode_utf8(bytes@.subrange(0, valid_utf8_len(bytes@, max_len as int))),
{
    let valid_len = find_valid_utf8_len(bytes, max_len);
    match core::str::from_utf8(slice_subrange(bytes, 0, valid_len)) {
        Ok(s) => {
            proof {
                encode_utf8_decode_utf8(s@);
            }
            s
        },
        Err(_) => "",
    }
}

/// Where a forward scan over whole code points ends: starting at `from`, a
/// code point is taken while its lead byte announces a width of 1 to 4, all
/// its continuation bytes are present and it ends at or before `max_len`.
///
/// Only the shape of each code point is looked at, not the value it encodes.
pub open spec fn scan_boundary(s: Seq<u8>, from: int, max_len: int) -> int
    decreases s.len() - from,
{
    let rest = s.subrange(from, s.len() as int);
    if 0 <= from < s.len() && valid_leading_and_continuation_bytes_first_codepoint(rest) && from
        + length_of_first_codepoint(rest) <= max_len {
        scan_boundary(s, from + length_of_first_codepoint(rest), max_len)
    } else {
        from
    }
}

/// The scan never leaves the sequence, and never passes `max_len` once it is
/// below it.
pub proof fn lemma_scan_boundary_bounds(s: Seq<u8>, from: int, max_len: int)
    requires
        0 <= from <= s.len(),
    ensures
        from <= scan_boundary(s, from, max_len) <= s.len(),
        from <= max_len ==> scan_boundary(s, from, max_len) <= max_len,
    decreases s.len() - from,
{
    let rest = s.subrange(from, s.len() as int);
    if 0 <= from < s.len() && valid_leading_and_continuation_bytes_first_codepoint(rest) && from
        + length_of_first_codepoint(rest) <= max_len {
        lemma_scan_boundary_bounds(s, from + length_of_first_codepoint(rest), max_len);
    }
}

/// On valid UTF-8 the forward scan ends on the last character boundary at or
/// before `max_len`: it agrees with the search for the longest valid prefix.
pub proof fn lemma_scan_boundary_on_valid(s: Seq<u8>, from: int, max_len: int)
    requires
        valid_utf8(s),
        partial_valid_utf8(s, from),
        from <= max_len,
    ensures
        scan_boundary(s, from, max_len) == longest_valid_prefix(
            s,
            if max_len <= s.len() {
                max_len
            } else {
                s.len() as int
            },
        ),
        is_char_boundary(s, scan_boundary(s, from, max_len)),
    decreases s.len() - from,
{
    let limit = if max_len <= s.len() {
        max_len
    } else {
        s.len() as int
    };
    let rest = s.subrange(from, s.len() as int);
    lemma_longest_valid_prefix(s, limit);
    lemma_valid_prefix_is_boundary(s, from);
    valid_utf8_split(s, from);
    if from == s.len() {
        assert(s.subrange(0, s.len() as int) =~= s);
    } else {
        let n = length_of_first_codepoint(rest);
        assert(valid_first_scalar(rest));
        if from + n <= max_len {
            partial_valid_utf8_extend(s, from);
            lemma_scan_boundary_on_valid(s, from + n, max_len);
        } else {
            assert forall|k: int| from < k <= limit implies !partial_valid_utf8(s, k) by {
                if partial_valid_utf8(s, k) {
                    let p = s.subrange(0, k);
                    assert(p.subrange(0, from) =~= s.subrange(0, from));
                    lemma_valid_prefix_is_boundary(p, from);
                    valid_utf8_split(p, from);
                    let q = p.subrange(from, k);
                    assert(q.len() > 0);
                    assert(q[0] == rest[0]);
                    assert(valid_first_scalar(q));
                    assert(length_of_first_codepoint(q) == n);
                }
            }
        }
    }
}

/// The bit patterns of UTF-8 lead and continuation bytes, as byte ranges.
proof fn lemma_byte_classes(b: u8)
    by (bit_vector)
    ensures
        0x00 <= b <= 0x7f <==> b & 0x80 == 0,
        0xc0 <= b <= 0xdf <==> b & 0xe0 == 0xc0,
        0xe0 <= b <= 0xef <==> b & 0xf0 == 0xe0,
        0xf0 <= b <= 0xf7 <==> b & 0xf8 == 0xf0,
        0x80 <= b <= 0xbf <==> b & 0xc0 == 0x80,
{
}

/// The width in bytes that a lead byte announces, or 0 for a byte that
/// cannot start a code point.
fn lead_byte_width(first: u8) -> (width: usize)
    ensures
        width <= 4,
        width == 1 <==> is_leading_byte_width_1(first),
        width == 2 <==> is_leading_byte_width_2(first),
        width == 3 <==> is_leading_byte_width_3(first),
        width == 4 <==> is_leading_byte_width_4(first),
{
    proof {
        lemma_byte_classes(first);
    }
    if first & 0x80 == 0 {
        1
    } else if (first & 0xE0) == 0xC0 {
        2
    } else if (first & 0xF0) == 0xE0 {
        3
    } else if (first & 0xF8) == 0xF0 {
        4
    } else {
        0
    }
}

/// Whether `b` has the bit pattern of a continuation byte.
fn is_continuation(b: u8) -> (r: bool)
    ensures
        r == is_continuation_byte(b),
{
    proof {
        lemma_byte_classes(b);
    }
    (b & 0xC0) == 0x80
}

/// Finds the largest boundary in `bytes` at or before `max_len` by scanning
/// forward over whole code points. A code point counts when its lead byte
/// announces a width of 1 to 4 and that many bytes follow as continuation
/// bytes; the scan stops at the first one that is malformed, cut short or
/// would end beyond `max_len`.
pub fn find_valid_boundary(bytes: &[u8], max_len: usize) -> (last_valid: usize)
    ensures
        last_valid == scan_boundary(bytes@, 0, max_len as int),
        last_valid <= bytes@.len(),
        last_valid <= max_len,
{
    proof {
        lemma_scan_boundary_bounds(bytes@, 0, max_len as int);
    }
    let mut i: usize = 0;
    let mut last_valid: usize = 0;
    let n = bytes.len();
    while i < n
        invariant
            i <= n == bytes@.len(),
            last_valid == i,
            scan_boundary(bytes@, i as int, max_len as int) == scan_boundary(
                bytes@,
                0,
                max_len as int,
            ),
        ensures
            last_valid <= bytes@.len(),
            last_valid == scan_boundary(bytes@, 0, max_len as int),
        decreases bytes@.len() - i,
    {
        let ghost rest = bytes@.subrange(i as int, bytes@.len() as int);
        assert(rest[0] == bytes@[i as int]);
        let width = lead_byte_width(bytes[i]);
        if width == 0 || width > n - i {
            break ;
        }
        assert(width == length_of_first_codepoint(rest));
        let mut j: usize = i + 1;
        while j < i + width
            invariant
                i < j <= i + width <= n == bytes@.len(),
                forall|t: int| i < t < j ==> is_continuation_byte(bytes@[t]),
            ensures
                i < j <= i + width,
                forall|t: int| i < t < j ==> is_continuation_byte(bytes@[t]),
                j < i + width ==> !is_continuation_byte(bytes@[j as int]),
            decreases i + width - j,
        {
            if !is_continuation(bytes[j]) {
                break ;
            }
            j += 1;
        }
        proof {
            if width >= 2 {
                assert(rest[1] == bytes@[i + 1]);
            }
            if width >= 3 {
                assert(rest[2] == bytes@[i + 2]);
            }
            if width >= 4 {
                assert(rest[3] == bytes@[i + 3]);
            }
        }
        if j < i + width {
            assert(rest[j - i] == bytes@[j as int]);
            break ;
        }
        if width > max_len || i > max_len - width {
            break ;
        }
        last_valid = i + width;
        i += width;
    }
    last_valid
}

/// Computes the number of bytes of `input` that can be copied into a buffer
/// of `capacity` bytes without splitting a character: the whole length when
/// it fits, else the last character boundary at or before `capacity`.
pub fn compute_valid_len(input: &str, capacity: usize) -> (len: usize)
    ensures
        len == longest_valid_prefix(
            input.spec_bytes(),
            if capacity <= input.spec_bytes().len() {
                capacity as int
            } else {
                input.spec_bytes().len() as int
            },
        ),
        is_char_boundary(input.spec_bytes(), len as int),
        input.spec_bytes().len() <= capacity ==> len == input.spec_bytes().len(),
{
    let ghost b = input.spec_bytes();
    proof {
        encode_utf8_valid_utf8(input@);
        assert(b.subrange(0, b.len() as int) =~= b);
        assert(b.subrange(0, 0).len() == 0);
        lemma_longest_valid_prefix(
            b,
            if capacity <= b.len() {
                capacity as int
            } else {
                b.len() as int
            },
        );
        lemma_boundary_iff_valid_prefix(b, b.len() as int);
    }
    let n = input.as_bytes().len();
    if n > capacity {
        let mut i: usize = capacity;
        while i > 0 && !input.is_char_boundary(i)
            invariant
                i <= capacity < b.len(),
                b == input.spec_bytes(),
                valid_utf8(b),
                forall|k: int| i < k <= capacity ==> !partial_valid_utf8(b, k),
            decreases i,
        {
            proof {
                lemma_boundary_iff_valid_prefix(b, i as int);
            }
            i -= 1;
        }
        proof {
            lemma_boundary_iff_valid_prefix(b, i as int);
        }
        i
    } else {
        n
    }
}

/// Specifies how bytes are copied from a source slice into a fixed-size
/// buffer.
#[derive(Debug, Clone, Copy, PartialEq, Eq, Structural)]
pub enum BufferCopyMode {
    /// The source must fit entirely into the buffer; otherwise the copy is
    /// refused.
    Exact,
    /// Copies up to the capacity and discards the rest. UTF-8 validity is not
    /// checked.
    Slice,
    /// Copies the longest valid UTF-8 prefix that fits and ends before the
    /// first null byte.
    Truncate,
}

/// `content` followed by null bytes up to a total length of `n`.
pub open spec fn padded(content: Seq<u8>, n: nat) -> Seq<u8> {
    Seq::new(
        n,
        |i: int|
            if i < content.len() {
                content[i]
            } else {
                0u8
            },
    )
}

/// How many bytes of `src` a copy into `n` bytes takes under `mode`.
pub open spec fn copy_len(src: Seq<u8>, n: nat, mode: BufferCopyMode) -> int {
    match mode {
        BufferCopyMode::Exact => src.len() as int,
        BufferCopyMode::Slice => if src.len() <= n {
            src.len() as int
        } else {
            n as int
        },
        BufferCopyMode::Truncate => valid_utf8_len(src, n as int),
    }
}

/// What `new` and the other truncating constructors store for `src` in `n`
/// bytes: the longest valid UTF-8 prefix of `src` that fits and ends before
/// the first null byte, padded with null bytes.
pub open spec fn truncated(src: Seq<u8>, n: nat) -> Seq<u8> {
    padded(src.subrange(0, valid_utf8_len(src, n as int)), n)
}

/// A buffer of `N` bytes that holds the first `len` bytes of `src`, followed
/// by null bytes.
pub(crate) fn copy_prefix<const N: usize>(src: &[u8], len: usize) -> (buf: [u8; N])
    requires
        len <= N,
        len <= src@.len(),
    ensures
        buf@ == padded(src@.subrange(0, len as int), N as nat),
{
    let mut buf = [0u8; N];
    let mut i: usize = 0;
    while i < len
        invariant
            i <= len <= N,
            len <= src@.len(),
            forall|k: int| 0 <= k < i ==> buf@[k] == src@[k],
            forall|k: int| i <= k < N ==> buf@[k] == 0,
        decreases len - i,
    {
        buf[i] = src[i];
        i += 1;
    }
    assert(buf@ =~= padded(src@.subrange(0, len as int), N as nat));
    buf
}

/// Copies bytes from a source slice into a fixed-size array of length `N`,
/// padding with null bytes.
///
/// - `Exact`: the whole source, or an overflow error if it is longer than `N`.
/// - `Slice`: the first `N` bytes of the source at most.
/// - `Truncate`: the longest valid UTF-8 prefix of at most `N` bytes that ends
///   before the first null byte.
pub fn copy_into_buffer<const N: usize>(src: &[u8], mode: BufferCopyMode) -> (r: Result<
    [u8; N],
    FixedStrError,
>)
    requires
        N > 0,
    ensures
        match r {
            Ok(buf) => {
                &&& !(mode == BufferCopyMode::Exact && src@.len() > N)
                &&& buf@ == padded(src@.subrange(0, copy_len(src@, N as nat, mode)), N as nat)
            },
            Err(FixedStrError::Overflow { available, found }) => {
                &&& mode == BufferCopyMode::Exact
                &&& src@.len() > N
                &&& available == N
                &&& found == src@.len()
            },
            Err(FixedStrError::InvalidUtf8) => false,
        },
{
    panic_on_zero(N);
    let len = match mode {
        BufferCopyMode::Exact => {
            if src.len() > N {
                return Err(FixedStrError::Overflow { available: N, found: src.len() });
            }
            src.len()
        },
        BufferCopyMode::Slice => if src.len() <= N {
            src.len()
        } else {
            N
        },
        BufferCopyMode::Truncate => find_valid_utf8_len(src, N),
    };
    Ok(copy_prefix(src, len))
}

/// Padding keeps the content and adds only null bytes: the visible content of
/// a padded sequence without null bytes is that sequence.
pub proof fn lemma_padded_effective(content: Seq<u8>, n: nat)
    requires
        content.len() <= n,
        forall|i: int| 0 <= i < content.len() ==> content[i] != 0,
    ensures
        padded(content, n).len() == n,
        first_null(padded(content, n)) == content.len(),
        effective(padded(content, n)) == content,
        forall|i: int| content.len() <= i < n ==> padded(content, n)[i] == 0,
{
    let p = padded(content, n);
    lemma_first_null(p);
    assert(is_first_null(p, content.len() as int));
    assert(p.subrange(0, content.len() as int) =~= content);
}

/// What a truncating copy keeps: a valid UTF-8 prefix of the source without
/// null bytes, no longer than the capacity, and nothing but null bytes after
/// it.
pub proof fn lemma_truncated(src: Seq<u8>, n: nat)
    ensures
        0 <= valid_utf8_len(src, n as int) <= n,
        valid_utf8_len(src, n as int) <= first_null(src) <= src.len(),
        truncated(src, n).len() == n,
        first_null(truncated(src, n)) == valid_utf8_len(src, n as int),
        effective(truncated(src, n)) == src.subrange(0, valid_utf8_len(src, n as int)),
        valid_utf8(effective(truncated(src, n))),
        forall|i: int| valid_utf8_len(src, n as int) <= i < n ==> truncated(src, n)[i] == 0,
{
    let limit = if n <= first_null(src) {
        n as int
    } else {
        first_null(src)
    };
    lemma_first_null(src);
    lemma_longest_valid_prefix(src, limit);
    let v = valid_utf8_len(src, n as int);
    lemma_padded_effective(src.subrange(0, v), n);
}

/// A truncating copy of valid UTF-8 cuts on a character boundary, and takes
/// everything up to the first null byte when that much fits.
pub proof fn lemma_truncated_text(src: Seq<u8>, n: nat)
    requires
        valid_utf8(src),
    ensures
        is_char_boundary(src, valid_utf8_len(src, n as int)),
        first_null(src) <= n ==> valid_utf8_len(src, n as int) == first_null(src) && effective(
            truncated(src, n),
        ) == effective(src),
{
    let limit = if n <= first_null(src) {
        n as int
    } else {
        first_null(src)
    };
    lemma_first_null(src);
    lemma_longest_valid_prefix(src, limit);
    lemma_truncated(src, n);
    lemma_valid_prefix_is_boundary(src, valid_utf8_len(src, n as int));
    if first_null(src) <= n {
        lemma_effective_text_valid(src);
    }
}

/// The bytes after the first null byte have no part in a truncating copy.
pub proof fn lemma_truncated_of_effective(src: Seq<u8>, n: nat)
    ensures
        truncated(effective(src), n) == truncated(src, n),
{
    let e = effective(src);
    lemma_first_null(src);
    lemma_first_null(e);
    assert(is_first_null(e, e.len() as int));
    let limit = if n <= first_null(src) {
        n as int
    } else {
        first_null(src)
    };
    lemma_longest_valid_prefix(src, limit);
    lemma_longest_valid_prefix(e, limit);
    let v = longest_valid_prefix(src, limit);
    assert forall|k: int| 0 <= k <= limit implies partial_valid_utf8(e, k) == partial_valid_utf8(
        src,
        k,
    ) by {
        assert(e.subrange(0, k) =~= src.subrange(0, k));
    }
    assert(is_longest_valid_prefix(e, limit, v));
    assert(e.subrange(0, v) =~= src.subrange(0, v));
}

/// Text cut at its first null byte is still valid UTF-8: a null byte is a
/// character of its own, so the cut falls on a character boundary.
pub proof fn lemma_effective_text_valid(b: Seq<u8>)
    requires
        valid_utf8(b),
    ensures
        valid_utf8(effective(b)),
        is_char_boundary(b, first_null(b)),
{
    lemma_first_null(b);
    let k = first_null(b);
    if k < b.len() {
        is_char_boundary_iff_not_is_continuation_byte(b, k);
        valid_utf8_split(b, k);
    } else {
        is_char_boundary_start_end_of_seq(b);
        assert(b.subrange(0, k) =~= b);
    }
}

/// The visible content of any sequence holds no null byte.
pub proof fn lemma_effective_has_no_null(b: Seq<u8>)
    ensures
        effective(b).len() == first_null(b),
        forall|i: int| 0 <= i < effective(b).len() ==> effective(b)[i] != 0,
        first_null(effective(b)) == effective(b).len(),
        effective(effective(b)) == effective(b),
{
    lemma_first_null(b);
    let e = effective(b);
    lemma_first_null(e);
    assert(is_first_null(e, e.len() as int));
    assert(e.subrange(0, e.len() as int) =~= e);
}

/// Padding does not move the first null byte of the content, so the visible
/// content stays what it was.
pub proof fn lemma_padded_keeps_effective(content: Seq<u8>, n: nat)
    requires
        content.len() <= n,
    ensures
        first_null(padded(content, n)) == first_null(content),
        effective(padded(content, n)) == effective(content),
{
    let p = padded(content, n);
    lemma_first_null(content);
    lemma_first_null(p);
    assert(is_first_null(p, first_null(content)));
    assert(p.subrange(0, first_null(content)) =~= content.subrange(0, first_null(content)));
}

} // verus!
