use chat_core::text::{last_segment_of, same_text};
use chat_core::utils::{i64_from_string, IntegerTextError};

#[test]
fn reads_plain_numbers() {
    assert_eq!(i64_from_string("0"), Ok(0));
    assert_eq!(i64_from_string("7"), Ok(7));
    assert_eq!(i64_from_string("42"), Ok(42));
    assert_eq!(i64_from_string("007"), Ok(7));
    assert_eq!(i64_from_string("1234567890"), Ok(1234567890));
}

#[test]
fn reads_signed_numbers() {
    assert_eq!(i64_from_string("+5"), Ok(5));
    assert_eq!(i64_from_string("-5"), Ok(-5));
    assert_eq!(i64_from_string("-0"), Ok(0));
    assert_eq!(i64_from_string("+0"), Ok(0));
}

#[test]
fn reads_the_limits() {
    assert_eq!(i64_from_string("9223372036854775807"), Ok(i64::MAX));
    assert_eq!(i64_from_string("-9223372036854775808"), Ok(i64::MIN));
    assert_eq!(i64_from_string("+9223372036854775807"), Ok(i64::MAX));
}

#[test]
fn rejects_what_is_out_of_range() {
    assert_eq!(i64_from_string("9223372036854775808"), Err(IntegerTextError::OutOfRange));
    assert_eq!(i64_from_string("-9223372036854775809"), Err(IntegerTextError::OutOfRange));
    assert_eq!(
        i64_from_string("99999999999999999999999999999999"),
        Err(IntegerTextError::OutOfRange)
    );
    assert_eq!(
        i64_from_string("-99999999999999999999999999999999"),
        Err(IntegerTextError::OutOfRange)
    );
}

#[test]
fn rejects_the_empty_text() {
    assert_eq!(i64_from_string(""), Err(IntegerTextError::Empty));
}

#[test]
fn rejects_what_is_no_number() {
    for text in ["+", "-", "abc", "12a", "a12", " 1", "1 ", "1.5", "--1", "+-1", "1_000", "0x10", "١٢"] {
        assert_eq!(i64_from_string(text), Err(IntegerTextError::InvalidDigit), "{}", text);
    }
}

#[test]
fn invalid_digit_wins_over_range() {
    assert_eq!(
        i64_from_string("99999999999999999999999999999999x"),
        Err(IntegerTextError::InvalidDigit)
    );
}

#[test]
fn agrees_with_the_standard_parser() {
    let samples = [
        "", "0", "-", "+", "1", "-1", "+1", "00", "-00", "10", "9223372036854775807",
        "9223372036854775808", "-9223372036854775808", "-9223372036854775809", "1e3", "٣", "12 ",
        "18446744073709551616", "+18446744073709551616", "3000000000",
    ];
    for text in samples {
        assert_eq!(i64_from_string(text).ok(), text.parse::<i64>().ok(), "{}", text);
    }
}

#[test]
fn last_segment_follows_the_last_separator() {
    assert_eq!(last_segment_of("a/b/c", '/'), "c");
    assert_eq!(last_segment_of("abc", '/'), "abc");
    assert_eq!(last_segment_of("abc/", '/'), "");
    assert_eq!(last_segment_of("/abc", '/'), "abc");
    assert_eq!(last_segment_of("", '/'), "");
    assert_eq!(last_segment_of("//", '/'), "");
    assert_eq!(last_segment_of("é/ü", '/'), "ü");
}

#[test]
fn last_segment_agrees_with_split() {
    for text in ["photo.png", "archive.tar.gz", "noext", ".hidden", "dot.", "a.b.c.d", ""] {
        assert_eq!(last_segment_of(text, '.'), text.split('.').last().unwrap(), "{}", text);
    }
}

#[test]
fn same_text_compares_characters() {
    assert!(same_text("abc", "abc"));
    assert!(same_text("", ""));
    assert!(!same_text("abc", "abd"));
    assert!(!same_text("abc", "ab"));
    assert!(!same_text("abc", "ABC"));
}
