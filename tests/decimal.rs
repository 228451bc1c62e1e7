use chrome_history::decimal::{int_text, parse_positive};

#[test]
fn parse_positive_reads_digits() {
    assert_eq!(parse_positive("5"), Some(5));
    assert_eq!(parse_positive("0010"), Some(10));
    assert_eq!(parse_positive("9223372036854775807"), Some(9_223_372_036_854_775_807));
}

#[test]
fn parse_positive_refuses_other_texts() {
    assert_eq!(parse_positive(""), None);
    assert_eq!(parse_positive("0"), None);
    assert_eq!(parse_positive("1; DROP TABLE urls"), None);
    assert_eq!(parse_positive("9223372036854775808"), None);
    assert_eq!(parse_positive("18446744073709551616"), None);
    assert_eq!(parse_positive("٣"), None);
}

#[test]
fn int_text_writes_decimal() {
    assert_eq!(int_text(0), "0");
    assert_eq!(int_text(42), "42");
    assert_eq!(int_text(-7), "-7");
    assert_eq!(int_text(i32::MAX), "2147483647");
    assert_eq!(int_text(i32::MIN), "-2147483648");
}
