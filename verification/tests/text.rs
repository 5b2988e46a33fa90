use sir::text::{chars_of, join_line_breaks, parse_i32, text_lt, write_decimal};

#[test]
fn chars_are_read_in_order() {
    assert_eq!(chars_of("a\u{e4}z"), vec!['a', '\u{e4}', 'z']);
    assert_eq!(chars_of(""), Vec::<char>::new());
}

#[test]
fn plain_digits_parse() {
    assert_eq!(parse_i32("5"), Some(5));
    assert_eq!(parse_i32("0"), Some(0));
    assert_eq!(parse_i32("1204"), Some(1204));
    assert_eq!(parse_i32("007"), Some(7));
}

#[test]
fn signs_parse() {
    assert_eq!(parse_i32("-17"), Some(-17));
    assert_eq!(parse_i32("+17"), Some(17));
    assert_eq!(parse_i32("-0"), Some(0));
}

#[test]
fn parsing_agrees_with_the_standard_library() {
    let samples = [
        "", "+", "-", "5", "-5", "+5", "05", " 5", "5 ", "5.0", "5e3", "1_000", "--5", "+-5",
        "2147483647", "2147483648", "-2147483648", "-2147483649", "99999999999999999999",
        "00000000000000000000000012", "\u{665}", "12a", "a12",
    ];
    for sample in samples {
        assert_eq!(parse_i32(sample), sample.parse::<i32>().ok(), "on {:?}", sample);
    }
}

#[test]
fn limits_of_the_range_parse() {
    assert_eq!(parse_i32("2147483647"), Some(i32::MAX));
    assert_eq!(parse_i32("-2147483648"), Some(i32::MIN));
    assert_eq!(parse_i32("2147483648"), None);
    assert_eq!(parse_i32("-2147483649"), None);
}

#[test]
fn text_that_is_no_number_does_not_parse() {
    assert_eq!(parse_i32(""), None);
    assert_eq!(parse_i32("-"), None);
    assert_eq!(parse_i32("abc"), None);
    assert_eq!(parse_i32("5.5"), None);
    assert_eq!(parse_i32(" 5"), None);
}

#[test]
fn line_breaks_become_semicolons() {
    assert_eq!(join_line_breaks("123\r\n456"), "123;456");
    assert_eq!(join_line_breaks("1\r\n2\r\n3"), "1;2;3");
    assert_eq!(join_line_breaks("\r\n"), ";");
    assert_eq!(join_line_breaks("no break"), "no break");
    assert_eq!(join_line_breaks(""), "");
}

#[test]
fn lone_returns_and_feeds_stay() {
    assert_eq!(join_line_breaks("a\rb"), "a\rb");
    assert_eq!(join_line_breaks("a\nb"), "a\nb");
    assert_eq!(join_line_breaks("a\n\rb"), "a\n\rb");
    assert_eq!(join_line_breaks("a\r\r\nb"), "a\r;b");
    assert_eq!(join_line_breaks("a\r"), "a\r");
}

#[test]
fn joining_agrees_with_replace() {
    let samples = ["", "\r", "\n", "\r\n", "\r\r\n\n", "x\r\ny\r\n", "\n\r\n\r", "ab;cd"];
    for sample in samples {
        assert_eq!(join_line_breaks(sample), sample.replace("\r\n", ";"));
    }
}

#[test]
fn texts_are_ordered_like_a_dictionary() {
    assert!(text_lt("Abel", "Bauer"));
    assert!(!text_lt("Bauer", "Abel"));
    assert!(text_lt("Bauer", "Bauers"));
    assert!(!text_lt("Bauers", "Bauer"));
    assert!(text_lt("", "a"));
    assert!(!text_lt("a", ""));
    assert!(!text_lt("same", "same"));
    assert!(!text_lt("", ""));
}

#[test]
fn order_goes_by_code_point() {
    assert!(text_lt("Z", "a"));
    assert!(text_lt("z", "\u{e4}"));
    assert!(text_lt("\u{e4}", "\u{1f600}"));
}

#[test]
fn order_agrees_with_the_standard_library() {
    let samples = ["", "a", "A", "ab", "abc", "b", "\u{e4}", "\u{1f600}", "Bauer", "Abel", "z\u{e4}"];
    for a in samples {
        for b in samples {
            assert_eq!(text_lt(a, b), a < b, "on {:?} and {:?}", a, b);
        }
    }
}

#[test]
fn integers_are_written_in_base_ten() {
    assert_eq!(write_decimal(0), "0");
    assert_eq!(write_decimal(5), "5");
    assert_eq!(write_decimal(10), "10");
    assert_eq!(write_decimal(1204), "1204");
    assert_eq!(write_decimal(-17), "-17");
    assert_eq!(write_decimal(i64::MAX), "9223372036854775807");
    assert_eq!(write_decimal(i64::MIN), "-9223372036854775808");
}

#[test]
fn what_is_written_parses_back() {
    for n in [0, 1, -1, 9, 10, 99, 100, -100, 2147483647, -2147483648] {
        let written = write_decimal(n as i64);
        assert_eq!(parse_i32(&written), Some(n));
    }
}
