use sixsevenstudio::text::{contains, format_decimal, format_seconds, join, magnitude, to_chars};

#[test]
fn whole_seconds_have_no_point() {
    assert_eq!(format_seconds(0), "0");
    assert_eq!(format_seconds(4_000_000), "4");
    assert_eq!(format_seconds(10_000_000), "10");
    assert_eq!(format_seconds(-2_000_000), "-2");
}

#[test]
fn fractions_of_a_second_drop_trailing_zeros() {
    assert_eq!(format_seconds(1_500_000), "1.5");
    assert_eq!(format_seconds(250_000), "0.25");
    assert_eq!(format_seconds(100_000), "0.1");
    assert_eq!(format_seconds(1), "0.000001");
    assert_eq!(format_seconds(1_000_001), "1.000001");
    assert_eq!(format_seconds(123_456_789), "123.456789");
    assert_eq!(format_seconds(7_050_000), "7.05");
    assert_eq!(format_seconds(-500_000), "-0.5");
    assert_eq!(format_seconds(-1_000_010), "-1.00001");
}

#[test]
fn seconds_cover_every_difference_of_two_times() {
    let span = i64::MAX as i128 - i64::MIN as i128;
    assert_eq!(format_seconds(span), "18446744073709.551615");
    assert_eq!(format_seconds(i64::MIN as i128), "-9223372036854.775808");
    assert_eq!(
        format_seconds(i128::MIN),
        "-170141183460469231731687303715884.105728"
    );
}

#[test]
fn decimal_notation() {
    assert_eq!(format_decimal(0), "0");
    assert_eq!(format_decimal(7), "7");
    assert_eq!(format_decimal(10), "10");
    assert_eq!(format_decimal(1_234_567_890), "1234567890");
    assert_eq!(format_decimal(u128::MAX), "340282366920938463463374607431768211455");
}

#[test]
fn magnitude_of_the_least_integer() {
    assert_eq!(magnitude(-5), 5);
    assert_eq!(magnitude(5), 5);
    assert_eq!(magnitude(0), 0);
    assert_eq!(magnitude(i128::MIN), 1u128 << 127);
}

#[test]
fn characters_of_a_string() {
    assert_eq!(to_chars("héllo"), vec!['h', 'é', 'l', 'l', 'o']);
    assert_eq!(to_chars(""), Vec::<char>::new());
}

#[test]
fn substring_search() {
    assert!(contains("Stream specifier ':a' matches no streams.", "matches no streams"));
    assert!(contains("abc", ""));
    assert!(contains("", ""));
    assert!(contains("abc", "abc"));
    assert!(contains("aab", "ab"));
    assert!(!contains("abc", "abcd"));
    assert!(!contains("", "a"));
    assert!(!contains("matches no stream", "matches no streams"));
}

#[test]
fn joining_with_a_separator() {
    assert_eq!(join(&vec![], "; "), "");
    assert_eq!(join(&vec!["a".to_string()], "; "), "a");
    assert_eq!(join(&vec!["a".to_string(), "b".to_string(), "".to_string()], "; "), "a; b; ");
}
