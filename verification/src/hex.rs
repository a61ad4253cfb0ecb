//! Hex dumps of byte slices: upper-case digit pairs, separated by spaces and
//! broken into lines, written in full or into a bounded buffer.

use vstd::prelude::*;
use vstd::arithmetic::div_mod::lemma_fundamental_div_mod_converse;
use crate::fs_buffer::{lemma_sealed_clean, FixedStrBuf};
use crate::fs_core::FixedStr;
use crate::string_helpers::padded;
use crate::utf8_prefix::lemma_ascii_valid;

verus! {

/// The ASCII code of the upper-case hex digit for a value below 16.
pub open spec fn hex_digit(n: int) -> u8 {
    if n < 10 {
        (48 + n) as u8
    } else {
        (55 + n) as u8
    }
}

/// How many bytes a dump shows: all of them, or those of the first
/// `max_lines` lines of `group` bytes each. A limit of zero lines counts as
/// one: the first line is always shown.
pub open spec fn shown_count(len: nat, group: nat, max_lines: Option<usize>) -> nat {
    match max_lines {
        None => len,
        Some(m) => {
            let lines = if m == 0 {
                1
            } else {
                m as nat
            };
            if lines * group < len {
                lines * group
            } else {
                len
            }
        },
    }
}

/// The length of the dump of `count` bytes: two digits each and a separator
/// between neighbours.
pub open spec fn hex_text_len(count: nat) -> nat {
    if count == 0 {
        0
    } else {
        (3 * count - 1) as nat
    }
}

/// The character at position `j` of the dump of `bytes`: the high digit, the
/// low digit, or the separator before the next byte, which is a line feed
/// where that byte starts a new group and a space elsewhere.
pub open spec fn hex_text_at(bytes: Seq<u8>, group: nat, j: int) -> u8 {
    if j % 3 == 0 {
        hex_digit(bytes[j / 3] as int / 16)
    } else if j % 3 == 1 {
        hex_digit(bytes[j / 3] as int % 16)
    } else if ((j + 1) / 3) % (group as int) == 0 {
        10u8
    } else {
        32u8
    }
}

/// The dump of the first `count` bytes of `bytes` in groups of `group`.
pub open spec fn hex_text(bytes: Seq<u8>, group: nat, count: nat) -> Seq<u8> {
    Seq::new(hex_text_len(count), |j: int| hex_text_at(bytes, group, j))
}

/// The dump of `bytes` in lines of `group` bytes, at most `max_lines` of them.
pub open spec fn hex_dump(bytes: Seq<u8>, group: nat, max_lines: Option<usize>) -> Seq<u8> {
    hex_text(bytes, group, shown_count(bytes.len(), group, max_lines))
}

/// What of a dump goes into `n` bytes: all of it when it fits. Otherwise it
/// is cut where the next digit pair or separator would pass `n`, and the
/// last three bytes that were written give way to three dots; with fewer
/// than three bytes written no dots are set.
pub open spec fn hex_fit(full: Seq<u8>, n: nat) -> Seq<u8> {
    if full.len() <= n {
        full
    } else {
        let written = if n % 3 == 1 {
            n - 1
        } else {
            n as int
        };
        if written >= 3 {
            full.subrange(0, written - 3) + seq![46u8, 46u8, 46u8]
        } else {
            full.subrange(0, written)
        }
    }
}

/// Every character of a dump is an ASCII character other than null.
pub proof fn lemma_hex_text_ascii(bytes: Seq<u8>, group: nat, j: int)
    requires
        0 <= j,
        j / 3 < bytes.len(),
    ensures
        0 < hex_text_at(bytes, group, j) < 128,
{
}

/// Where byte `i` stands on its line: with `i == (line - 1) * group + col`
/// and `col` in `0..=group`, a line is full exactly when `group` divides `i`.
proof fn lemma_line_position(i: int, group: int, line: int, col: int)
    requires
        group > 0,
        line >= 1,
        0 <= col <= group,
        i == (line - 1) * group + col,
    ensures
        (col == group || col == 0) <==> i % group == 0,
        col == group ==> i == line * group && line <= i,
        line - 1 <= i,
        i <= line * group,
{
    assert((line - 1) * group + group == line * group) by (nonlinear_arith);
    assert(line <= line * group) by (nonlinear_arith)
        requires
            group > 0,
            line >= 1,
    ;
    assert(line - 1 <= (line - 1) * group) by (nonlinear_arith)
        requires
            group > 0,
            line >= 1,
    ;
    if col == group {
        lemma_fundamental_div_mod_converse(i, group, line, 0);
    } else {
        lemma_fundamental_div_mod_converse(i, group, line - 1, col);
    }
}

/// The upper-case hex digit for a value below 16.
fn hex_char(n: u8) -> (c: u8)
    requires
        n < 16,
    ensures
        c == hex_digit(n as int),
{
    if n < 10 {
        48 + n
    } else {
        55 + n
    }
}

/// Returns the full hexadecimal representation of `bytes`: two upper-case
/// digits per byte, a space between the bytes of a group and a line feed
/// between groups of `group` bytes. With a limit, the output ends after that
/// many lines.
pub fn dump_as_hex(bytes: &[u8], group: usize, max_lines: Option<usize>) -> (out: Vec<u8>)
    requires
        group > 0,
    ensures
        out@ == hex_dump(bytes@, group as nat, max_lines),
{
    let mut out: Vec<u8> = Vec::new();
    let mut count_in_line: usize = 0;
    let mut line_count: usize = 1;
    let n = bytes.len();
    let ghost lines: int = match max_lines {
        None => n as int + 1,
        Some(m) => if m == 0 {
            1
        } else {
            m as int
        },
    };
    let mut i: usize = 0;
    while i < n
        invariant
            group > 0,
            i <= n == bytes@.len(),
            1 <= line_count <= lines,
            count_in_line <= group,
            i > 0 ==> count_in_line > 0,
            i == (line_count - 1) * group + count_in_line,
            i <= lines * group,
            lines == match max_lines {
                None => n as int + 1,
                Some(m) => if m == 0 {
                    1
                } else {
                    m as int
                },
            },
            out@ == hex_text(bytes@, group as nat, i as nat),
        ensures
            i <= n,
            i <= lines * group,
            i < n ==> i == lines * group,
            out@ == hex_text(bytes@, group as nat, i as nat),
        decreases n - i,
    {
        proof {
            lemma_line_position(i as int, group as int, line_count as int, count_in_line as int);
            assert(line_count * group <= lines * group) by (nonlinear_arith)
                requires
                    line_count <= lines,
                    group > 0,
            ;
        }
        let ghost before = out@;
        if i > 0 {
            if count_in_line == group {
                if let Some(max) = max_lines {
                    if line_count >= max {
                        break ;
                    }
                }
                out.push(10);
                count_in_line = 0;
                line_count += 1;
            } else {
                out.push(32);
            }
        }
        let b = bytes[i];
        out.push(hex_char(b / 16));
        out.push(hex_char(b % 16));
        count_in_line += 1;
        proof {
            assert((line_count - 1) * group + count_in_line == i + 1) by (nonlinear_arith)
                requires
                    i == (line_count - 1) * group + (count_in_line - 1) || (count_in_line == 1
                        && i == (line_count - 2) * group + group),
            ;
            assert(out@ =~= hex_text(bytes@, group as nat, (i + 1) as nat));
            lemma_line_position(
                i as int + 1,
                group as int,
                line_count as int,
                count_in_line as int,
            );
            assert(line_count * group <= lines * group) by (nonlinear_arith)
                requires
                    line_count <= lines,
                    group > 0,
            ;
        }
        i += 1;
    }
    proof {
        if max_lines is None {
            assert(n < lines * group) by (nonlinear_arith)
                requires
                    lines == n + 1,
                    group > 0,
            ;
        }
    }
    out
}

/// A byte of the dump is written while the dump is not complete: position
/// `j` of the first `count` bytes' dump reads a byte below `count`.
proof fn lemma_hex_text_index(count: nat, j: int)
    requires
        0 <= j < hex_text_len(count),
    ensures
        0 <= j / 3 < count,
{
}

/// Formats the given byte slice as upper-case hexadecimal text like
/// `dump_as_hex` and returns it in a `FixedStr` of `N` bytes, padded with
/// zeros.
///
/// Output that does not fit is cut off where the next digit pair or separator
/// would pass the capacity, and the last three bytes written are replaced by
/// three dots.
pub fn fast_format_hex<const N: usize>(
    bytes: &[u8],
    group: usize,
    max_lines: Option<usize>,
) -> (r: FixedStr<N>)
    requires
        group > 0,
        N > 0,
    ensures
        r@ == padded(hex_fit(hex_dump(bytes@, group as nat, max_lines), N as nat), N as nat),
        r.effective() == hex_fit(hex_dump(bytes@, group as nat, max_lines), N as nat),
        r.valid(),
{
    let mut buffer = [0u8; N];
    let mut pos: usize = 0;
    let mut count_in_line: usize = 0;
    let mut truncated = false;
    let mut line_count: usize = 1;
    let n = bytes.len();
    let ghost lines: int = match max_lines {
        None => n as int + 1,
        Some(m) => if m == 0 {
            1
        } else {
            m as int
        },
    };
    let ghost shown = shown_count(bytes@.len(), group as nat, max_lines);
    let ghost full = hex_dump(bytes@, group as nat, max_lines);
    let mut i: usize = 0;
    while i < n
        invariant_except_break
            i <= n,
            1 <= line_count <= lines,
            count_in_line <= group,
            i > 0 ==> count_in_line > 0,
            i == (line_count - 1) * group + count_in_line,
            i <= lines * group,
            !truncated,
            pos == hex_text_len(i as nat) <= N,
            forall|j: int| 0 <= j < pos ==> buffer@[j] == hex_text_at(bytes@, group as nat, j),
            forall|j: int| pos <= j < N ==> buffer@[j] == 0,
        invariant
            group > 0,
            N > 0,
            n == bytes@.len(),
            lines == match max_lines {
                None => n as int + 1,
                Some(m) => if m == 0 {
                    1
                } else {
                    m as int
                },
            },
            shown == shown_count(bytes@.len(), group as nat, max_lines),
            full == hex_text(bytes@, group as nat, shown),
        ensures
            pos <= N,
            forall|j: int| 0 <= j < pos ==> buffer@[j] == hex_text_at(bytes@, group as nat, j),
            forall|j: int| pos <= j < N ==> buffer@[j] == 0,
            !truncated ==> pos == full.len(),
            truncated ==> full.len() > N && pos == if N % 3 == 1 {
                N - 1
            } else {
                N as int
            },
        decreases n - i,
    {
        proof {
            lemma_line_position(i as int, group as int, line_count as int, count_in_line as int);
            assert(line_count * group <= lines * group) by (nonlinear_arith)
                requires
                    line_count <= lines,
                    group > 0,
            ;
        }
        if i > 0 {
            if count_in_line == group {
                if let Some(max) = max_lines {
                    if line_count >= max {
                        assert(i == shown);
                        break ;
                    }
                }
                proof {
                    assert((line_count + 1) * group <= lines * group) by (nonlinear_arith)
                        requires
                            line_count + 1 <= lines,
                            group > 0,
                    ;
                    assert(line_count * group < (line_count + 1) * group) by (nonlinear_arith)
                        requires
                            group > 0,
                    ;
                    assert(i < shown);
                }
                if pos < N {
                    buffer[pos] = 10;
                    pos += 1;
                } else {
                    truncated = true;
                    break ;
                }
                count_in_line = 0;
                line_count += 1;
            } else if pos < N {
                buffer[pos] = 32;
                pos += 1;
            } else {
                assert(i < line_count * group) by (nonlinear_arith)
                    requires
                        i == (line_count - 1) * group + count_in_line,
                        count_in_line < group,
                ;
                assert(i < shown);
                truncated = true;
                break ;
            }
        }
        assert(i < lines * group) by (nonlinear_arith)
            requires
                i == (line_count - 1) * group + count_in_line || i == (line_count - 2) * group
                    + group,
                count_in_line < group,
                line_count * group <= lines * group || (count_in_line == 0 && line_count
                    <= lines),
                group > 0,
                line_count <= lines,
        ;
        assert(i < shown);
        assert(pos == 3 * i);
        if N - pos >= 2 {
            let b = bytes[i];
            buffer[pos] = hex_char(b / 16);
            buffer[pos + 1] = hex_char(b % 16);
            pos += 2;
        } else {
            truncated = true;
            break ;
        }
        count_in_line += 1;
        proof {
            assert((line_count - 1) * group + count_in_line == i + 1) by (nonlinear_arith)
                requires
                    i == (line_count - 1) * group + (count_in_line - 1) || (count_in_line == 1
                        && i == (line_count - 2) * group + group),
            ;
            lemma_line_position(
                i as int + 1,
                group as int,
                line_count as int,
                count_in_line as int,
            );
            assert(line_count * group <= lines * group) by (nonlinear_arith)
                requires
                    line_count <= lines,
                    group > 0,
            ;
        }
        i += 1;
    }
    let ghost written = pos;
    if truncated && pos >= 3 {
        pos = pos - 3;
        if N - pos >= 3 {
            buffer[pos] = 46;
            buffer[pos + 1] = 46;
            buffer[pos + 2] = 46;
            pos += 3;
        }
    }
    let ghost filled = buffer@;
    proof {
        assert(pos == written);
        if truncated && written >= 3 {
            assert(buffer@[written - 3] == 46);
            assert(buffer@[written - 2] == 46);
            assert(buffer@[written - 1] == 46);
            assert(forall|j: int|
                0 <= j < written - 3 ==> buffer@[j] == hex_text_at(bytes@, group as nat, j));
        }
    }
    let mut k: usize = pos;
    while k < N
        invariant
            pos <= k <= N,
            filled.len() == N,
            forall|j: int| 0 <= j < pos ==> buffer@[j] == filled[j],
            forall|j: int| pos <= j < N ==> buffer@[j] == 0,
        decreases N - k,
    {
        buffer[k] = 0;
        k += 1;
    }
    let ghost content = buffer@.subrange(0, pos as int);
    proof {
        if !truncated {
            assert(content =~= full);
        } else if written >= 3 {
            let kept = full.subrange(0, written - 3);
            let dots = seq![46u8, 46u8, 46u8];
            assert(dots[0] == 46 && dots[1] == 46 && dots[2] == 46);
            assert(content.len() == written);
            assert forall|j: int| 0 <= j < content.len() implies content[j] == (kept + dots)[j] by {
                if j < written - 3 {
                    assert(kept[j] == full[j]);
                    assert(content[j] == hex_text_at(bytes@, group as nat, j));
                } else {
                    assert(content[j] == 46);
                    assert((kept + dots)[j] == dots[j - (written - 3)]);
                }
            }
            assert(content =~= kept + dots);
        } else {
            assert(content =~= full.subrange(0, written as int));
        }
        assert(content == hex_fit(full, N as nat));
        assert forall|j: int| 0 <= j < content.len() implies 0 < #[trigger] content[j] < 128 by {
            if truncated && written >= 3 && j >= written - 3 {
            } else {
                lemma_hex_text_index(shown_count(bytes@.len(), group as nat, max_lines), j);
                lemma_hex_text_ascii(bytes@, group as nat, j);
            }
        }
        lemma_ascii_valid(content);
        lemma_sealed_clean(content, N as nat);
    }
    FixedStrBuf::from_raw_parts(buffer, pos).finalize()
}

} // verus!
