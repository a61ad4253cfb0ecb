// Tests of the error messages.

use fixed_str::FixedStrError;

#[test]
fn fs_error_test_error_display() {
    let overflow_error = FixedStrError::Overflow {
        available: 2,
        found: 5,
    };
    assert_eq!(
        overflow_error.to_string(),
        "Overflow: tried to add 5 bytes with only 2 bytes available"
    );
    let invalid_utf8_error = FixedStrError::InvalidUtf8;
    assert_eq!(invalid_utf8_error.to_string(), "Invalid UTF-8");
}
