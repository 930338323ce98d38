use rlms::isbn::{is_valid_isbn, is_valid_isbn10, is_valid_isbn13};

#[test]
fn isbn10_with_hyphens_is_valid() {
    assert!(is_valid_isbn("0-306-40615-2"));
}

#[test]
fn isbn13_with_hyphens_is_valid() {
    assert!(is_valid_isbn("978-0-306-40615-7"));
}

#[test]
fn nine_digits_is_invalid() {
    assert!(!is_valid_isbn("123456789"));
}

#[test]
fn eleven_and_twelve_digits_are_invalid() {
    assert!(!is_valid_isbn("03064061520"));
    assert!(!is_valid_isbn("978030640615"));
}

#[test]
fn wrong_check_digit_is_invalid() {
    assert!(!is_valid_isbn("0-306-40615-3"));
    assert!(!is_valid_isbn("978-0-306-40615-8"));
}

#[test]
fn empty_and_non_ascii_are_invalid() {
    assert!(!is_valid_isbn(""));
    assert!(!is_valid_isbn("ISBN: ünïcödé"));
}

#[test]
fn checksum_letter_x_is_not_a_digit() {
    // 0-8044-2957-X has check value 10, written as X; the X is dropped and
    // nine digits remain.
    assert!(!is_valid_isbn("0-8044-2957-X"));
}

#[test]
fn separators_of_any_kind_are_ignored() {
    assert!(is_valid_isbn(" ISBN 0 306 40615 2 "));
    assert!(is_valid_isbn("978.0.306.40615.7"));
}

#[test]
fn isbn10_validation_needs_ten_digits() {
    assert!(is_valid_isbn10("0306406152"));
    assert!(!is_valid_isbn10("0-306-40615-2"));
    assert!(!is_valid_isbn10("030640615"));
    assert!(!is_valid_isbn10("0306406153"));
}

#[test]
fn isbn13_validation_needs_thirteen_digits() {
    assert!(is_valid_isbn13("9780306406157"));
    assert!(!is_valid_isbn13("978-0306406157"));
    assert!(!is_valid_isbn13("9780306406158"));
}

#[test]
fn all_zero_digits_have_sum_zero() {
    assert!(is_valid_isbn("0000000000"));
    assert!(is_valid_isbn("0000000000000"));
}
