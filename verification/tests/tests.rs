// Tests across the library: the string, the builder and the helpers.

use fixed_str::{truncate_utf8_lossy, EffectiveBytes, FixedStr, FixedStrBuf};

#[test]
fn tests_test_new_exact() {
    const N: usize = 5;
    let input = "Hello";
    let fixed = FixedStr::<N>::new(input);
    assert_eq!(fixed.len(), 5);
    assert_eq!(fixed.as_str(), "Hello");
}

#[test]
fn tests_test_new_shorter() {
    const N: usize = 10;
    let input = "Hi";
    let fixed = FixedStr::<N>::new(input);
    assert_eq!(fixed.len(), 2);
    assert_eq!(fixed.as_str(), "Hi");
    let mut expected = [0u8; N];
    expected[..2].copy_from_slice(b"Hi");
    assert_eq!(fixed.as_bytes(), &expected);
}

#[test]
fn tests_test_new_truncation() {
    // "a😊b" is 6 bytes total: "a" (1 byte), "😊" (4 bytes), "b" (1 byte).
    // With N = 4, the input is truncated safely to "a".
    const N: usize = 4;
    let input = "a😊b";
    let fixed = FixedStr::<N>::new(input);
    assert_eq!(fixed.as_str(), "a");
}

#[test]
fn tests_test_from_slice_truncate_invalid_utf8() {
    const N: usize = 4;
    let input = "a😊b".as_bytes(); // 6 bytes total.
    let fixed = FixedStr::<N>::from_slice(input);
    // Only the valid prefix "a" is preserved.
    assert_eq!(fixed.as_str(), "a");
}

#[test]
fn tests_test_new_const_valid() {
    const N: usize = 5;
    let fixed: FixedStr<N> = FixedStr::new_const("Hello");
    assert_eq!(fixed.as_str(), "Hello");
}

#[test]
fn tests_test_new_const_invalid_utf8() {
    // "é" is 2 bytes in UTF-8. With N = 1, new_const discards the partial character.
    const N: usize = 1;
    let fixed = FixedStr::<N>::new_const("é");
    assert!(fixed.try_as_str().is_ok());
}

#[test]
fn tests_test_from_slice() {
    const N: usize = 5;
    let slice = b"Hello, world!";
    let fixed = FixedStr::<N>::from_slice_unsafe(slice);
    // The first 5 bytes ("Hello") are used.
    assert_eq!(fixed.as_str(), "Hello");
}

#[test]
fn tests_test_try_from_slice_valid() {
    const N: usize = 5;
    let bytes = b"Hello";
    let fixed = FixedStr::<N>::try_from(&bytes[..]).unwrap();
    assert_eq!(fixed.as_str(), "Hello");
}

#[should_panic]
#[test]
fn tests_test_try_from_slice_overflow() {
    const N: usize = 5;
    let bytes = b"Hello!";
    let fixed = FixedStr::<N>::try_from(&bytes[..]).unwrap();
    assert_eq!(fixed.as_str(), "Hello");
}

#[test]
fn tests_test_from_bytes_valid() {
    let bytes = *b"Hi\0\0\0";
    let fixed = FixedStr::<5>::from_bytes(bytes);
    assert_eq!(fixed.as_str(), "Hi");
}

#[test]
fn tests_test_from_bytes_invalid_utf8() {
    let bytes = [0xFF, 0xFF, 0, 0, 0];
    let fixed = FixedStr::<5>::from_bytes(bytes);
    assert!(fixed.try_as_str().is_ok());
}

#[test]
fn tests_test_default() {
    const N: usize = 5;
    let fixed: FixedStr<N> = Default::default();
    // default produces a string with all zeros so length is 0.
    assert_eq!(fixed.len(), 0);
    assert_eq!(fixed.as_str(), "");
}

#[test]
fn tests_test_debug_format_valid() {
    const N: usize = 5;
    let fixed = FixedStr::<N>::new("Hello");
    let debug_str = fixed.debug_string();
    // The diagnostic rendering of valid UTF-8 is a quoted string.
    assert_eq!(debug_str, "\"Hello\"");
}

#[test]
fn tests_test_display() {
    const N: usize = 5;
    let fixed = FixedStr::<N>::new("Hello");
    let display_str = fixed.to_string();
    assert_eq!(display_str, "Hello");
}

#[test]
fn tests_test_into_iter() {
    const N: usize = 5;
    let fixed = FixedStr::<N>::new("Hello");
    let mut collected: Vec<u8> = Vec::new();
    let mut iter = fixed.into_iter();
    while let Some(b) = iter.next() {
        collected.push(b);
    }
    assert_eq!(collected, b"Hello");
}

#[test]
fn tests_test_equality() {
    const N: usize = 5;
    let fixed = FixedStr::<N>::new("Hello");
    assert_eq!(fixed, "Hello");
    assert_eq!("Hello", fixed);
}

#[test]
fn tests_test_truncation_exact_boundary() {
    let smile = "😊"; // 4 bytes.
    let prefix = "ab"; // 2 bytes.
    let input = format!("{}{}", prefix, smile); // 6 bytes total.
    let fixed = FixedStr::<5>::new(&input);
    // Truncation before the emoji, resulting in "ab".
    assert_eq!(fixed.as_str(), "ab");
}

#[test]
fn tests_test_zero_termination() {
    let bytes = *b"Hello\0World";
    let fixed = FixedStr::<11>::from_slice_unsafe(&bytes);
    assert_eq!(fixed.len(), 5); // terminates at first \0
    assert_eq!(fixed.as_str(), "Hello");
}

#[test]
fn tests_test_clear_zeroes_data() {
    let mut fixed = FixedStr::<5>::new("abc");
    fixed.clear();
    assert_eq!(fixed.as_bytes(), &[0, 0, 0, 0, 0]);
}

#[test]
fn tests_test_capacity() {
    let fixed = FixedStr::<8>::new("abc");
    assert_eq!(fixed.capacity(), 8);
}

#[test]
fn tests_test_transparency() {
    // The string holds an array of bytes as it is: nothing is added.
    let arr: [u8; 5] = *b"Hey\0\0";
    let fixed: FixedStr<5> = FixedStr::from_bytes_unsafe(arr);
    assert_eq!(fixed.as_str(), "Hey");
    assert_eq!(std::mem::size_of::<FixedStr<5>>(), std::mem::size_of::<[u8; 5]>());
}

#[test]
fn tests_test_truncate_utf8_lossy() {
    let s = "d😊b"; // "d" (1 byte), "😊" (4 bytes), "b" (1 byte)
    let bytes = s.as_bytes();
    // With max_len = 4, only "d" is valid.
    let truncated = truncate_utf8_lossy(bytes, 4);
    assert_eq!(truncated, "d");
}

#[test]
fn tests_test_try_push_str_success() {
    let mut buf = FixedStrBuf::<10>::new();
    assert!(buf.try_push_str("Hello").is_ok());
    assert_eq!(buf.len(), 5);
}

#[test]
fn tests_test_try_push_str_fail() {
    let mut buf = FixedStrBuf::<5>::new();
    let result = buf.try_push_str("Hello, world!");
    assert!(result.is_err());
    // The buffer remains unchanged on failure.
    assert_eq!(buf.len(), 0);
}

#[test]
fn tests_test_try_push_char_success() {
    let mut buf = FixedStrBuf::<5>::new();
    assert!(buf.try_push_char('A').is_ok());
    assert_eq!(buf.len(), 1);
}

#[test]
fn tests_test_push_str_lossy() {
    let mut buf = FixedStrBuf::<5>::new();
    assert!(buf.push_str_lossy("Hello"));
    let result = buf.push_str_lossy(", world!");
    assert!(!result);
    let fixed: FixedStr<5> = buf.finalize();
    assert_eq!(fixed.as_str(), "Hello");
}

#[test]
fn test_effective_bytes() {
    let fixed = FixedStr::<10>::new("Hi");
    let bytes = fixed.effective_bytes();
    assert_eq!(bytes, b"Hi");
}

#[test]
fn test_as_hex() {
    const N: usize = 5;
    let fixed = FixedStr::<N>::new("Hello");
    let hex = fixed.as_hex();
    // "Hello" is [0x48, 0x65, 0x6C, 0x6C, 0x6F]
    let expected = "48 65 6C 6C 6F";
    assert_eq!(hex, expected);
}

#[test]
fn test_as_hex_dump() {
    const N: usize = 16;
    let fixed = FixedStr::<N>::new("Hello");
    // With group size 8, the first line holds the bytes of "Hello" and three
    // zeros; the second line is all zeros.
    let expected = "48 65 6C 6C 6F 00 00 00\n00 00 00 00 00 00 00 00";
    assert_eq!(fixed.as_hex_dump(), expected);
}
