use rpsls::utils::{decimal_text, num_parse, same_text, try_num_parse};

#[test]
fn num_parse_reads_plain_numbers() {
    assert_eq!(num_parse("0"), 0);
    assert_eq!(num_parse("6"), 6);
    assert_eq!(num_parse("25"), 25);
    assert_eq!(num_parse("007"), 7);
    assert_eq!(num_parse("1234567890"), 1234567890);
}

#[test]
fn num_parse_ignores_surrounding_white_space() {
    assert_eq!(num_parse("25\n"), 25);
    assert_eq!(num_parse("  25\r\n"), 25);
    assert_eq!(num_parse("\t3 "), 3);
    assert_eq!(num_parse("\u{a0}\u{2003}41\u{3000}"), 41);
}

#[test]
fn num_parse_accepts_a_plus_sign() {
    assert_eq!(num_parse("+5"), 5);
    assert_eq!(num_parse(" +12 "), 12);
}

#[test]
fn try_num_parse_reaches_the_largest_value() {
    assert_eq!(try_num_parse("18446744073709551615"), Some(u64::MAX));
    assert_eq!(try_num_parse("018446744073709551615"), Some(u64::MAX));
}

#[test]
fn try_num_parse_refuses_what_does_not_fit() {
    assert_eq!(try_num_parse("18446744073709551616"), None);
    assert_eq!(try_num_parse("18446744073709551620"), None);
    assert_eq!(try_num_parse("99999999999999999999"), None);
    assert_eq!(try_num_parse("184467440737095516150"), None);
}

#[test]
fn try_num_parse_refuses_what_is_no_number() {
    for text in ["", " ", "+", "-", "-1", "++1", "+ 1", "1 2", "12a", "a12", "1_000", "1.5", "0x10",
        "\u{ff11}", "\u{200b}1", "1+"]
    {
        assert_eq!(try_num_parse(text), None, "{:?}", text);
    }
}

#[test]
fn try_num_parse_agrees_with_the_standard_parser() {
    let samples = [
        "", "0", "1", "10", "0010", "+0", "+", "-0", " 5", "5 ", "\n5\n", "\u{85}5", "\u{1680}5",
        "\u{2028}5\u{2029}", "\u{202f}5\u{205f}", "\u{200b}5", "\u{feff}5", "5\u{0b}\u{0c}", "٣",
        "18446744073709551615", "18446744073709551616", "1e3", "١٢", " + 5", "+ 5", "5+", "  ",
        "4294967296", "9223372036854775808",
    ];
    for text in samples {
        assert_eq!(try_num_parse(text), text.trim().parse::<u64>().ok(), "{:?}", text);
    }
}

#[test]
fn decimal_text_writes_exact_digits() {
    assert_eq!(decimal_text(0), "0");
    assert_eq!(decimal_text(7), "7");
    assert_eq!(decimal_text(10), "10");
    assert_eq!(decimal_text(12), "12");
    assert_eq!(decimal_text(100), "100");
    assert_eq!(decimal_text(9876543210), "9876543210");
    assert_eq!(decimal_text(u64::MAX), "18446744073709551615");
}

#[test]
fn decimal_text_agrees_with_the_standard_formatter() {
    let mut n: u64 = 1;
    for _ in 0..64 {
        for value in [n - 1, n, n + 1] {
            assert_eq!(decimal_text(value), format!("{}", value));
        }
        n = n.wrapping_mul(2);
    }
}

#[test]
fn decimal_text_is_read_back_by_try_num_parse() {
    for value in [0u64, 1, 9, 10, 99, 100, 12345, u64::MAX - 1, u64::MAX] {
        assert_eq!(try_num_parse(&decimal_text(value)), Some(value));
    }
}

#[test]
fn same_text_compares_character_by_character() {
    assert!(same_text("", ""));
    assert!(same_text("Spock", "Spock"));
    assert!(!same_text("Spock", "Spoc"));
    assert!(!same_text("Spock", "spock"));
    assert!(!same_text("Spock", "Spocks"));
    assert!(same_text("Spöck", "Spöck"));
    assert!(!same_text("Spöck", "Spock"));
}
