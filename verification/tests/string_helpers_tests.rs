// Tests of the byte-boundary helpers and the hex formatter.

use fixed_str::{
    copy_into_buffer, dump_as_hex, fast_format_hex, truncate_utf8_lossy, BufferCopyMode,
};

/// Collects the dump into a `Vec<u8>`.
fn collect_output(bytes: &[u8], group: usize, max_lines: Option<usize>) -> Vec<u8> {
    let mut output = Vec::new();
    for b in dump_as_hex(bytes, group, max_lines) {
        output.push(b);
    }
    output
}

#[test]
fn string_helpers_test_truncate_utf8_lossy() {
    // A multi-byte emoji such that max_len truncates before the complete character.
    let s = "d😊b"; // "d" (1 byte), "😊" (4 bytes), "b" (1 byte)
    let bytes = s.as_bytes();
    // With max_len = 4, only "d" is valid.
    let truncated = truncate_utf8_lossy(bytes, 4);
    assert_eq!(truncated, "d");
}

#[test]
fn test_exact_success() {
    let src = b"Hello";
    // "Hello" is 5 bytes and the capacity is 10, so this succeeds.
    let buf: [u8; 10] = copy_into_buffer::<10>(src, BufferCopyMode::Exact).unwrap();
    // The first 5 bytes match; the remainder is zero.
    assert_eq!(&buf[..5], src);
    assert_eq!(&buf[5..], &[0; 5]);
}

#[test]
fn test_exact_overflow() {
    let src = b"Hello, world!";
    let res = copy_into_buffer::<5>(src, BufferCopyMode::Exact);
    assert!(res.is_err());
}

#[test]
fn test_truncate() {
    let src = b"Hello, world!";
    // In Truncate mode, only the first 5 valid bytes are copied.
    let buf: [u8; 5] = copy_into_buffer::<5>(src, BufferCopyMode::Truncate).unwrap();
    assert_eq!(&buf, b"Hello");
}

#[test]
fn test_fast_format_hex_full_output() {
    // [0x12, 0xAB, 0x00, 0xFF] with a group size of 2 and no line limit.
    let bytes = [0x12, 0xAB, 0x00, 0xFF];
    let hex = fast_format_hex::<32>(&bytes, 2, None);
    assert_eq!(hex, "12 AB\n00 FF");
}

#[test]
fn test_fast_format_hex_line_limit() {
    // 10 bytes of 0xFF in groups of 3, limited to 2 lines.
    let bytes = [0xFF; 10];
    let hex = fast_format_hex::<64>(&bytes, 3, Some(2));
    assert_eq!(hex, "FF FF FF\nFF FF FF");
}

#[test]
fn test_buffer_copy_mode_slice() {
    let input = b"Hello, world!";
    // In Slice mode only the first N bytes are copied.
    let buf = copy_into_buffer::<5>(input, BufferCopyMode::Slice).unwrap();
    assert_eq!(&buf, b"Hello");
}

#[test]
fn test_debug_format_hex_full_output() {
    let bytes = [0x12, 0xAB, 0x00, 0xFF];
    let result = collect_output(&bytes, 2, None);
    let s = std::str::from_utf8(&result).unwrap();
    assert_eq!(s, "12 AB\n00 FF");
}

#[test]
fn test_debug_format_hex_line_limit() {
    // 10 bytes of 0xFF; group by 3 and limit to 2 lines.
    let bytes = [0xFF; 10];
    let result = collect_output(&bytes, 3, Some(2));
    let s = std::str::from_utf8(&result).unwrap();
    assert_eq!(s, "FF FF FF\nFF FF FF");
}
