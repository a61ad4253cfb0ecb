//! Owned text from ASCII bytes, and decimal numbers as text.

use vstd::prelude::*;
use vstd::utf8::*;
use crate::utf8_prefix::lemma_ascii_valid;

verus! {

/// The text whose characters are the given ASCII bytes, one for one.
pub open spec fn ascii_text(bytes: Seq<u8>) -> Seq<char> {
    Seq::new(bytes.len(), |i: int| bytes[i] as char)
}

/// The decimal digits of `n` as ASCII bytes, without leading zeros.
pub open spec fn decimal_digits(n: nat) -> Seq<u8>
    decreases n,
{
    if n < 10 {
        seq![(48 + n) as u8]
    } else {
        decimal_digits(n / 10).push((48 + n % 10) as u8)
    }
}

/// Text that encodes to ASCII bytes is those bytes read as characters.
pub proof fn lemma_ascii_text(bytes: Seq<u8>, s: Seq<char>)
    requires
        forall|i: int| 0 <= i < bytes.len() ==> bytes[i] < 128,
        encode_utf8(s) == bytes,
    ensures
        s == ascii_text(bytes),
        valid_utf8(bytes),
        decode_utf8(bytes) == ascii_text(bytes),
{
    let c = ascii_text(bytes);
    assert(is_ascii_chars(c));
    is_ascii_chars_encode_utf8(c);
    assert forall|i: int| 0 <= i < bytes.len() implies encode_utf8(c)[i] == bytes[i] by {
        assert(c[i] as u8 == bytes[i]);
    }
    assert(encode_utf8(c) =~= bytes);
    encode_utf8_decode_utf8(c);
    encode_utf8_decode_utf8(s);
    lemma_ascii_valid(bytes);
}

/// Decimal digits are ASCII digits.
pub proof fn lemma_decimal_digits_ascii(n: nat)
    ensures
        decimal_digits(n).len() >= 1,
        forall|i: int|
            0 <= i < decimal_digits(n).len() ==> 48 <= #[trigger] decimal_digits(n)[i] <= 57,
    decreases n,
{
    if n >= 10 {
        lemma_decimal_digits_ascii(n / 10);
    }
}

/// The owned string of the given ASCII bytes.
pub fn ascii_string(bytes: &[u8]) -> (s: String)
    requires
        forall|i: int| 0 <= i < bytes@.len() ==> bytes@[i] < 128,
    ensures
        s@ == ascii_text(bytes@),
{
    proof {
        lemma_ascii_valid(bytes@);
    }
    match core::str::from_utf8(bytes) {
        Ok(s) => {
            proof {
                lemma_ascii_text(bytes@, s@);
            }
            s.to_owned()
        },
        Err(_) => String::new(),
    }
}

/// Appends the decimal digits of `n` to `out`.
fn push_decimal(n: usize, out: &mut Vec<u8>)
    ensures
        final(out)@ == old(out)@ + decimal_digits(n as nat),
    decreases n,
{
    if n >= 10 {
        push_decimal(n / 10, out);
    }
    let digit = (n % 10) as u8;
    out.push(48 + digit);
    assert(out@ =~= old(out)@ + decimal_digits(n as nat));
}

/// The decimal notation of `n`.
pub fn decimal_string(n: usize) -> (s: String)
    ensures
        s@ == ascii_text(decimal_digits(n as nat)),
{
    let mut digits: Vec<u8> = Vec::new();
    push_decimal(n, &mut digits);
    proof {
        lemma_decimal_digits_ascii(n as nat);
        assert(digits@ =~= decimal_digits(n as nat));
    }
    ascii_string(digits.as_slice())
}

} // verus!
