// Tests of the builder through its basic operations.

use fixed_str::{FixedStr, FixedStrBuf};

#[test]
fn fx_buf_test_try_push_str_success() {
    let mut buf = FixedStrBuf::<10>::new();
    assert!(buf.try_push_str("Hello").is_ok());
    assert_eq!(buf.len(), 5);
}

#[test]
fn fx_buf_test_try_push_str_fail() {
    let mut buf = FixedStrBuf::<5>::new();
    // "Hello, world!" is too long to push entirely.
    let result = buf.try_push_str("Hello, world!");
    assert!(result.is_err());
    // The buffer remains unchanged on failure.
    assert_eq!(buf.len(), 0);
}

#[test]
fn fx_buf_test_try_push_char_success() {
    let mut buf = FixedStrBuf::<5>::new();
    assert!(buf.try_push_char('A').is_ok());
    assert_eq!(buf.len(), 1);
}

#[test]
fn fx_buf_test_push_str_lossy() {
    let mut buf = FixedStrBuf::<5>::new();
    // "Hello" fits exactly, so push_str_lossy returns true.
    assert!(buf.push_str_lossy("Hello"));
    // Any additional push will result in truncation.
    let result = buf.push_str_lossy(", world!");
    assert!(!result);
    let fixed: FixedStr<5> = buf.finalize();
    assert_eq!(fixed.as_str(), "Hello");
}

#[test]
fn fx_buf_test_finalize_trailing_zeros() {
    let mut buf = FixedStrBuf::<10>::new();
    buf.try_push_str("Hi").unwrap();
    let fixed: FixedStr<10> = buf.finalize();
    // The effective string is "Hi" and the rest are zeros.
    assert_eq!(fixed.len(), 2);
    assert_eq!(fixed.as_str(), "Hi");
    assert_eq!(fixed.as_bytes()[2], 0);
}

#[test]
fn fx_buf_test_fixed_str_buf_clear() {
    let mut buf = FixedStrBuf::<10>::new();
    buf.try_push_str("Hello").unwrap();
    assert_eq!(buf.len(), 5);

    buf.clear();
    assert_eq!(buf.len(), 0);
    assert_eq!(&buf, &[0u8; 10]);

    // Can reuse safely
    buf.try_push_str("Rust").unwrap();
    assert_eq!(buf.len(), 4);
    assert_eq!(&buf[..4], b"Rust");
}

#[test]
fn fx_buf_test_fixed_str_buf_into_iter() {
    let mut buf = FixedStrBuf::<5>::new();
    buf.try_push_str("Hey").unwrap();
    let bytes: Vec<u8> = buf.into_iter();
    assert_eq!(bytes[..3], *b"Hey");
    assert_eq!(bytes[3..], [0u8; 2]);
}
