//! Text renderings: what the error, the string and the builder show to a
//! reader, and hex dumps as owned strings.

use vstd::prelude::*;
use vstd::string::{StringExecFns, StringSliceAdditionalSpecFns};
use vstd::utf8::{decode_utf8, valid_utf8};
use crate::effective_bytes::EffectiveBytes;
use crate::fs_buffer::FixedStrBuf;
use crate::fs_core::FixedStr;
use crate::fs_error::FixedStrError;
use crate::hex::{dump_as_hex, fast_format_hex, hex_dump, hex_fit, lemma_hex_text_ascii};
use crate::string_helpers::{effective, valid_utf8_len};
use crate::text::{ascii_string, ascii_text, decimal_digits, decimal_string};
use crate::trusted::{debug_text, str_debug, string_from_utf8_lossy, utf8_lossy_text};

verus! {

impl FixedStrError {
    /// The message for a reader.
    pub open spec fn message(&self) -> Seq<char> {
        match *self {
            FixedStrError::Overflow { available, found } => "Overflow: tried to add "@
                + ascii_text(decimal_digits(found as nat)) + " bytes with only "@ + ascii_text(
                decimal_digits(available as nat),
            ) + " bytes available"@,
            FixedStrError::InvalidUtf8 => "Invalid UTF-8"@,
        }
    }

    /// The short form of the error, for diagnostics.
    pub open spec fn debug_message(&self) -> Seq<char> {
        match *self {
            FixedStrError::Overflow { available, found } => "Overflow: available "@ + ascii_text(
                decimal_digits(available as nat),
            ) + ", found "@ + ascii_text(decimal_digits(found as nat)),
            FixedStrError::InvalidUtf8 => "InvalidUtf8"@,
        }
    }

    /// Returns the message for a reader.
    pub fn to_string(&self) -> (s: String)
        ensures
            s@ == self.message(),
    {
        match *self {
            FixedStrError::Overflow { available, found } => {
                let mut s = String::from_str("Overflow: tried to add ");
                s.append(decimal_string(found).as_str());
                s.append(" bytes with only ");
                s.append(decimal_string(available).as_str());
                s.append(" bytes available");
                s
            },
            FixedStrError::InvalidUtf8 => String::from_str("Invalid UTF-8"),
        }
    }

    /// Returns the short form of the error, for diagnostics.
    pub fn debug_string(&self) -> (s: String)
        ensures
            s@ == self.debug_message(),
    {
        match *self {
            FixedStrError::Overflow { available, found } => {
                let mut s = String::from_str("Overflow: available ");
                s.append(decimal_string(available).as_str());
                s.append(", found ");
                s.append(decimal_string(found).as_str());
                s
            },
            FixedStrError::InvalidUtf8 => String::from_str("InvalidUtf8"),
        }
    }
}

/// The capacity of the dump that a diagnostic rendering shows of a buffer
/// with invalid content.
pub const DEBUG_HEX_CAPACITY: usize = 384;

/// The number of bytes on each line of that dump.
pub const DEBUG_HEX_GROUP: usize = 16;

/// The number of lines that the dump shows at most.
pub const DEBUG_HEX_LINES: usize = 8;

/// The dump that a diagnostic rendering shows of a buffer with invalid
/// content, quoted and escaped as the text of a string is.
pub open spec fn debug_hex_text(buffer: Seq<u8>) -> Seq<char> {
    debug_text(
        decode_utf8(
            hex_fit(
                hex_dump(buffer, DEBUG_HEX_GROUP as nat, Some(DEBUG_HEX_LINES)),
                DEBUG_HEX_CAPACITY as nat,
            ),
        ),
    )
}

/// The diagnostic rendering of content that is not valid UTF-8: the marker
/// `<invalid UTF-8>`, a line feed and the quoted dump of the buffer.
pub fn invalid_rendering(quoted_dump: &str) -> (s: String)
    ensures
        s@ == "<invalid UTF-8>\n"@ + quoted_dump@,
{
    let mut s = String::from_str("<invalid UTF-8>\n");
    s.append(quoted_dump);
    s
}

/// The diagnostic rendering of a builder of the given capacity: the quoted
/// text in brackets when the written bytes are valid, else the marker
/// `<invalid UTF-8>` in brackets and the quoted dump of the buffer.
pub fn builder_rendering(capacity: usize, valid: bool, quoted: &str) -> (s: String)
    ensures
        s@ == if valid {
            "FixedStrBuf<"@ + ascii_text(decimal_digits(capacity as nat)) + ">("@ + quoted@
                + ")"@
        } else {
            "FixedStrBuf<"@ + ascii_text(decimal_digits(capacity as nat))
                + ">(<invalid UTF-8>) "@ + quoted@
        },
{
    let mut s = String::from_str("FixedStrBuf<");
    s.append(decimal_string(capacity).as_str());
    if valid {
        s.append(">(");
        s.append(quoted);
        s.append(")");
    } else {
        s.append(">(<invalid UTF-8>) ");
        s.append(quoted);
    }
    s
}

/// Formats `bytes` as a hex dump in an owned string: upper-case digit pairs,
/// separated by spaces, in lines of `group` bytes.
pub fn format_hex_string(bytes: &[u8], group: usize) -> (s: String)
    requires
        group > 0,
    ensures
        s@ == ascii_text(hex_dump(bytes@, group as nat, None)),
{
    let dump = dump_as_hex(bytes, group, None);
    proof {
        assert forall|j: int| 0 <= j < dump@.len() implies dump@[j] < 128 by {
            lemma_hex_text_ascii(bytes@, group as nat, j);
        }
    }
    ascii_string(dump.as_slice())
}

impl<const N: usize> FixedStr<N> {
    /// What `debug_string` shows: the quoted text when the content is valid,
    /// else a marker and a dump of the whole buffer.
    pub open spec fn debug_rendering(&self) -> Seq<char> {
        if self.valid() {
            debug_text(self.text())
        } else {
            "<invalid UTF-8>\n"@ + debug_hex_text(self@)
        }
    }

    /// Returns the visible content as an owned string, cut back to its
    /// longest valid UTF-8 prefix: this is what a reader is shown.
    pub fn to_string(&self) -> (s: String)
        ensures
            s@ == decode_utf8(self@.subrange(0, valid_utf8_len(self@, N as int))),
            self.valid() ==> s@ == self.text(),
    {
        self.visible_text().to_owned()
    }

    /// Returns the diagnostic rendering: the visible content in quotes if it
    /// is valid UTF-8, else the marker `<invalid UTF-8>` and a hex dump of
    /// the whole buffer.
    pub fn debug_string(&self) -> (s: String)
        ensures
            s@ == self.debug_rendering(),
    {
        match self.try_as_str() {
            Ok(text) => str_debug(text),
            Err(_) => {
                let hex = fast_format_hex::<DEBUG_HEX_CAPACITY>(
                    self.as_bytes(),
                    DEBUG_HEX_GROUP,
                    Some(DEBUG_HEX_LINES),
                );
                invalid_rendering(str_debug(hex.as_str()).as_str())
            },
        }
    }

    /// Converts the visible content to an owned string in a lossy manner:
    /// each ill-formed part is replaced by U+FFFD.
    pub fn to_string_lossy(&self) -> (s: String)
        ensures
            s@ == utf8_lossy_text(self.effective()),
            self.valid() ==> s@ == self.text(),
    {
        string_from_utf8_lossy(self.effective_bytes())
    }

    /// Formats a byte slice as hex in chunks of `group` bytes, one chunk per
    /// line.
    pub fn format_hex(bytes: &[u8], group: usize) -> (s: String)
        requires
            group > 0,
        ensures
            s@ == ascii_text(hex_dump(bytes@, group as nat, None)),
    {
        format_hex_string(bytes, group)
    }

    /// Returns a hex-encoded string of the entire buffer on one line.
    pub fn as_hex(&self) -> (s: String)
        requires
            N > 0,
        ensures
            s@ == ascii_text(hex_dump(self@, N as nat, None)),
    {
        format_hex_string(self.as_bytes(), N)
    }

    /// Returns a hex dump of the entire buffer in lines of eight bytes.
    pub fn as_hex_dump(&self) -> (s: String)
        ensures
            s@ == ascii_text(hex_dump(self@, 8, None)),
    {
        format_hex_string(self.as_bytes(), 8)
    }
}

impl<const N: usize> FixedStrBuf<N> {
    /// What `to_string` shows: the written text, or a marker when the
    /// written bytes are not valid UTF-8.
    pub open spec fn rendering(&self) -> Seq<char> {
        if valid_utf8(self@) {
            decode_utf8(self@)
        } else {
            "<invalid UTF-8>"@
        }
    }

    /// Returns the written bytes as an owned string, or the marker
    /// `<invalid UTF-8>` when they are not valid UTF-8.
    pub fn to_string(&self) -> (s: String)
        ensures
            s@ == self.rendering(),
    {
        match core::str::from_utf8(self.content_slice()) {
            Ok(text) => {
                proof {
                    vstd::utf8::encode_utf8_decode_utf8(text@);
                }
                text.to_owned()
            },
            Err(_) => String::from_str("<invalid UTF-8>"),
        }
    }

    /// What `debug_string` shows: the type with its capacity, and the
    /// written text in quotes or a marker and a dump of the whole buffer.
    pub open spec fn debug_rendering(&self) -> Seq<char> {
        if valid_utf8(self@) {
            "FixedStrBuf<"@ + ascii_text(decimal_digits(N as nat)) + ">("@ + debug_text(
                decode_utf8(self@),
            ) + ")"@
        } else {
            "FixedStrBuf<"@ + ascii_text(decimal_digits(N as nat)) + ">(<invalid UTF-8>) "@
                + debug_hex_text(crate::string_helpers::padded(self@, N as nat))
        }
    }

    /// Returns the diagnostic rendering of the builder.
    pub fn debug_string(&self) -> (s: String)
        ensures
            s@ == self.debug_rendering(),
    {
        match core::str::from_utf8(self.content_slice()) {
            Ok(text) => {
                proof {
                    vstd::utf8::encode_utf8_decode_utf8(text@);
                }
                builder_rendering(N, true, str_debug(text).as_str())
            },
            Err(_) => {
                let hex = fast_format_hex::<DEBUG_HEX_CAPACITY>(
                    self.raw_slice(),
                    DEBUG_HEX_GROUP,
                    Some(DEBUG_HEX_LINES),
                );
                builder_rendering(N, false, str_debug(hex.as_str()).as_str())
            },
        }
    }

    /// Converts the visible bytes to an owned string in a lossy manner: each
    /// ill-formed part is replaced by U+FFFD.
    pub fn to_string_lossy(&self) -> (s: String)
        ensures
            s@ == utf8_lossy_text(effective(self@)),
            valid_utf8(effective(self@)) ==> s@ == decode_utf8(effective(self@)),
    {
        string_from_utf8_lossy(self.effective_bytes())
    }
}

} // verus!
