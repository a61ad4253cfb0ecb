//! Byte-wise comparison of byte sequences: equality and lexicographic order.

use vstd::prelude::*;

verus! {

/// How one byte sequence stands to another in lexicographic order.
#[derive(Clone, Copy, Debug, PartialEq, Eq, Structural)]
pub enum ByteOrder {
    /// The first comes before the second.
    Less,
    /// The two are the same.
    Equal,
    /// The first comes after the second.
    Greater,
}

/// The order of `a` and `b` from index `i` on, given that they agree before
/// it: the first byte that differs decides, and a sequence that ends first
/// comes first.
pub open spec fn lex_order_from(a: Seq<u8>, b: Seq<u8>, i: int) -> ByteOrder
    decreases a.len() - i,
{
    if i >= a.len() {
        if i >= b.len() {
            ByteOrder::Equal
        } else {
            ByteOrder::Less
        }
    } else if i >= b.len() {
        ByteOrder::Greater
    } else if a[i] < b[i] {
        ByteOrder::Less
    } else if a[i] > b[i] {
        ByteOrder::Greater
    } else {
        lex_order_from(a, b, i + 1)
    }
}

/// The lexicographic order of `a` and `b`.
pub open spec fn lex_order(a: Seq<u8>, b: Seq<u8>) -> ByteOrder {
    lex_order_from(a, b, 0)
}

/// Two sequences that agree before `i` are ordered as equal from `i` on
/// exactly when they are the same sequence.
pub proof fn lemma_lex_equal_from(a: Seq<u8>, b: Seq<u8>, i: int)
    requires
        0 <= i,
        i <= a.len(),
        i <= b.len(),
        forall|j: int| 0 <= j < i ==> a[j] == b[j],
    ensures
        lex_order_from(a, b, i) == ByteOrder::Equal <==> a == b,
    decreases a.len() - i,
{
    if i >= a.len() || i >= b.len() {
        if a.len() == b.len() {
            assert(a =~= b);
        }
    } else if a[i] == b[i] {
        lemma_lex_equal_from(a, b, i + 1);
    }
}

/// The order is `Equal` exactly for equal sequences.
pub proof fn lemma_lex_equal(a: Seq<u8>, b: Seq<u8>)
    ensures
        lex_order(a, b) == ByteOrder::Equal <==> a == b,
{
    lemma_lex_equal_from(a, b, 0);
}

/// Swapping the two sequences swaps `Less` and `Greater`.
pub proof fn lemma_lex_swap_from(a: Seq<u8>, b: Seq<u8>, i: int)
    requires
        0 <= i,
    ensures
        lex_order_from(a, b, i) == ByteOrder::Less <==> lex_order_from(b, a, i)
            == ByteOrder::Greater,
        lex_order_from(a, b, i) == ByteOrder::Equal <==> lex_order_from(b, a, i)
            == ByteOrder::Equal,
    decreases a.len() - i,
{
    if i < a.len() && i < b.len() && a[i] == b[i] {
        lemma_lex_swap_from(a, b, i + 1);
    }
}

/// Whether two byte slices hold the same bytes.
pub fn bytes_equal(a: &[u8], b: &[u8]) -> (r: bool)
    ensures
        r == (a@ == b@),
{
    let n = a.len();
    if n != b.len() {
        return false;
    }
    let mut i: usize = 0;
    while i < n
        invariant
            i <= n,
            n == a@.len(),
            n == b@.len(),
            forall|j: int| 0 <= j < i ==> a@[j] == b@[j],
        decreases n - i,
    {
        if a[i] != b[i] {
            return false;
        }
        i += 1;
    }
    assert(a@ =~= b@);
    true
}

/// Compares two byte slices byte by byte.
pub fn compare_bytes(a: &[u8], b: &[u8]) -> (r: ByteOrder)
    ensures
        r == lex_order(a@, b@),
{
    let n = a.len();
    let m = b.len();
    let mut i: usize = 0;
    while i < n && i < m
        invariant
            i <= n,
            i <= m,
            n == a@.len(),
            m == b@.len(),
            lex_order_from(a@, b@, i as int) == lex_order(a@, b@),
        decreases n - i,
    {
        if a[i] < b[i] {
            return ByteOrder::Less;
        }
        if a[i] > b[i] {
            return ByteOrder::Greater;
        }
        i += 1;
    }
    if n < m {
        ByteOrder::Less
    } else if n > m {
        ByteOrder::Greater
    } else {
        ByteOrder::Equal
    }
}

} // verus!
