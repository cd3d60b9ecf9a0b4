use ftkit::{parse_i32, read_number, ReadOutcome};

#[test]
fn plain_number_is_read() {
    assert_eq!(read_number("42\n"), ReadOutcome::Value(42));
}

#[test]
fn empty_line_means_end_of_input() {
    assert_eq!(read_number(""), ReadOutcome::Eof);
}

#[test]
fn non_number_asks_for_another_line() {
    assert_eq!(read_number("hello\n"), ReadOutcome::Retry);
}

#[test]
fn whitespace_is_trimmed_before_parsing() {
    assert_eq!(read_number("  -17 \t\r\n"), ReadOutcome::Value(-17));
    assert_eq!(read_number("\u{a0}\u{2003}5\u{3000}\n"), ReadOutcome::Value(5));
    assert_eq!(read_number("   \n"), ReadOutcome::Retry);
}

#[test]
fn inner_whitespace_is_rejected() {
    assert_eq!(read_number("4 2\n"), ReadOutcome::Retry);
}

#[test]
fn parses_signs_and_leading_zeros() {
    assert_eq!(parse_i32("+5"), Some(5));
    assert_eq!(parse_i32("-0"), Some(0));
    assert_eq!(parse_i32("0042"), Some(42));
    assert_eq!(parse_i32("+"), None);
    assert_eq!(parse_i32("-"), None);
    assert_eq!(parse_i32(""), None);
    assert_eq!(parse_i32("12a"), None);
}

#[test]
fn parses_the_full_i32_range_and_nothing_more() {
    assert_eq!(parse_i32("2147483647"), Some(i32::MAX));
    assert_eq!(parse_i32("-2147483648"), Some(i32::MIN));
    assert_eq!(parse_i32("2147483648"), None);
    assert_eq!(parse_i32("-2147483649"), None);
    assert_eq!(parse_i32("99999999999999999999"), None);
}

#[test]
fn matches_standard_trim_and_parse_on_lines() {
    let lines = [
        " 42 \n",
        "\t-7\r\n",
        "\u{2009}8\u{2009}",
        "1 2",
        " +003 ",
        "\u{1680}\u{205f}-2147483648\u{85}",
        "x",
        " \n",
    ];
    for l in lines {
        let expected = match l.trim().parse::<i32>() {
            Ok(v) => ReadOutcome::Value(v),
            Err(_) => ReadOutcome::Retry,
        };
        assert_eq!(read_number(l), expected, "mismatch on {l:?}");
    }
}

#[test]
fn matches_the_standard_parser_on_samples() {
    let samples = [
        "42", "-42", "+0", "007", "2147483647", "-2147483648", "2147483648", "-2147483649", "",
        "+", "-", "4 2", "0x10", "1e3", "--5", "+-5", "ten",
    ];
    for s in samples {
        assert_eq!(parse_i32(s), s.parse::<i32>().ok(), "mismatch on {s:?}");
    }
}
