use trimbot::seconds::Seconds;

fn secs(text: &str) -> Seconds {
    Seconds::parse(text).unwrap()
}

#[test]
fn parses_whole_seconds() {
    assert_eq!(Seconds::parse("5"), Some(Seconds { micros: 5_000_000 }));
    assert_eq!(Seconds::parse("0"), Some(Seconds { micros: 0 }));
    assert_eq!(Seconds::parse("007"), Some(Seconds { micros: 7_000_000 }));
}

#[test]
fn parses_fractions_to_the_microsecond() {
    assert_eq!(Seconds::parse("5.005000"), Some(Seconds { micros: 5_005_000 }));
    assert_eq!(Seconds::parse("0.2"), Some(Seconds { micros: 200_000 }));
    assert_eq!(Seconds::parse("12.000001"), Some(Seconds { micros: 12_000_001 }));
    assert_eq!(Seconds::parse(".5"), Some(Seconds { micros: 500_000 }));
    assert_eq!(Seconds::parse("5."), Some(Seconds { micros: 5_000_000 }));
}

#[test]
fn drops_digits_below_a_microsecond() {
    assert_eq!(Seconds::parse("1.0000019"), Some(Seconds { micros: 1_000_001 }));
    assert_eq!(Seconds::parse("0.00000099"), Some(Seconds { micros: 0 }));
}

#[test]
fn parses_signs() {
    assert_eq!(Seconds::parse("-3.25"), Some(Seconds { micros: -3_250_000 }));
    assert_eq!(Seconds::parse("+3.25"), Some(Seconds { micros: 3_250_000 }));
    assert_eq!(Seconds::parse("-0"), Some(Seconds { micros: 0 }));
}

#[test]
fn rejects_what_is_no_decimal() {
    assert_eq!(Seconds::parse(""), None);
    assert_eq!(Seconds::parse("."), None);
    assert_eq!(Seconds::parse("-"), None);
    assert_eq!(Seconds::parse("+."), None);
    assert_eq!(Seconds::parse("1.2.3"), None);
    assert_eq!(Seconds::parse("1e3"), None);
    assert_eq!(Seconds::parse("abc"), None);
    assert_eq!(Seconds::parse(" 1"), None);
    assert_eq!(Seconds::parse("1 "), None);
    assert_eq!(Seconds::parse("--1"), None);
    assert_eq!(Seconds::parse("N/A"), None);
    assert_eq!(Seconds::parse("５"), None);
}

#[test]
fn parses_up_to_the_ends_of_the_range() {
    assert_eq!(
        Seconds::parse("9223372036854.775807"),
        Some(Seconds { micros: i64::MAX })
    );
    assert_eq!(Seconds::parse("9223372036854.775808"), None);
    assert_eq!(
        Seconds::parse("-9223372036854.775808"),
        Some(Seconds { micros: i64::MIN })
    );
    assert_eq!(Seconds::parse("-9223372036854.775809"), None);
    assert_eq!(Seconds::parse("9223372036855"), None);
    assert_eq!(Seconds::parse("99999999999999999999999999999999"), None);
    assert_eq!(
        Seconds::parse("00000000000000000000000000000001"),
        Some(Seconds { micros: 1_000_000 })
    );
}

#[test]
fn writes_whole_seconds_without_a_point() {
    assert_eq!(Seconds { micros: 4_000_000 }.to_text(), "4");
    assert_eq!(Seconds { micros: 0 }.to_text(), "0");
    assert_eq!(Seconds { micros: 120_000_000 }.to_text(), "120");
}

#[test]
fn writes_fractions_without_zeros_at_the_end() {
    assert_eq!(Seconds { micros: 500_000 }.to_text(), "0.5");
    assert_eq!(Seconds { micros: 5_005_000 }.to_text(), "5.005");
    assert_eq!(Seconds { micros: 12_000_001 }.to_text(), "12.000001");
    assert_eq!(Seconds { micros: 1_230_000 }.to_text(), "1.23");
    assert_eq!(Seconds { micros: 10 }.to_text(), "0.00001");
}

#[test]
fn writes_negative_times() {
    assert_eq!(Seconds { micros: -3_250_000 }.to_text(), "-3.25");
    assert_eq!(Seconds { micros: -1 }.to_text(), "-0.000001");
    assert_eq!(Seconds { micros: i64::MIN }.to_text(), "-9223372036854.775808");
    assert_eq!(Seconds { micros: i64::MAX }.to_text(), "9223372036854.775807");
}

#[test]
fn text_reads_back_as_the_same_time() {
    for micros in [0, 1, -1, 999_999, 1_000_000, 4_000_000, -7_654_321, i64::MAX, i64::MIN] {
        let t = Seconds::from_micros(micros);
        assert_eq!(Seconds::parse(&t.to_text()), Some(t));
    }
    assert_eq!(secs("5.0").micros, 5_000_000);
}

#[test]
fn numbers_without_an_exponent_read_as_decimals() {
    for text in ["5", "5.005000", ".5", "5.", "-3.25", "+0.2", "9223372036854.775807"] {
        assert_eq!(Seconds::parse_number(text), Seconds::parse(text));
        assert!(Seconds::parse_number(text).is_some());
    }
    for text in ["", ".", "-", "1.2.3", "abc", "9223372036854.775808"] {
        assert_eq!(Seconds::parse_number(text), None);
    }
}

#[test]
fn exponent_moves_the_point() {
    assert_eq!(Seconds::parse_number("1e0"), Some(Seconds { micros: 1_000_000 }));
    assert_eq!(Seconds::parse_number("1e3"), Some(Seconds { micros: 1_000_000_000 }));
    assert_eq!(Seconds::parse_number("1E3"), Some(Seconds { micros: 1_000_000_000 }));
    assert_eq!(Seconds::parse_number("1e+3"), Some(Seconds { micros: 1_000_000_000 }));
    assert_eq!(Seconds::parse_number("1.5e-5"), Some(Seconds { micros: 15 }));
    assert_eq!(Seconds::parse_number("2.5e-6"), Some(Seconds { micros: 2 }));
    assert_eq!(Seconds::parse_number("9.99e-7"), Some(Seconds { micros: 0 }));
    assert_eq!(Seconds::parse_number("1e-7"), Some(Seconds { micros: 0 }));
    assert_eq!(Seconds::parse_number("123.456e1"), Some(Seconds { micros: 1_234_560_000 }));
    assert_eq!(Seconds::parse_number("123.456e-1"), Some(Seconds { micros: 12_345_600 }));
    assert_eq!(Seconds::parse_number("123.456e-2"), Some(Seconds { micros: 1_234_560 }));
    assert_eq!(Seconds::parse_number("123456789e-9"), Some(Seconds { micros: 123_456 }));
    assert_eq!(Seconds::parse_number("-1.5e1"), Some(Seconds { micros: -15_000_000 }));
    assert_eq!(Seconds::parse_number(".5e1"), Some(Seconds { micros: 5_000_000 }));
    assert_eq!(Seconds::parse_number("5.e-1"), Some(Seconds { micros: 500_000 }));
    assert_eq!(Seconds::parse_number("1e-0"), Some(Seconds { micros: 1_000_000 }));
}

#[test]
fn exponents_out_of_all_proportion() {
    assert_eq!(Seconds::parse_number("1e-99999999999999999999999999"), Some(Seconds { micros: 0 }));
    assert_eq!(Seconds::parse_number("0e99999999999999999999999999"), Some(Seconds { micros: 0 }));
    assert_eq!(Seconds::parse_number("0.000e400"), Some(Seconds { micros: 0 }));
    assert_eq!(Seconds::parse_number("1e99999999999999999999999999"), None);
    assert_eq!(Seconds::parse_number("1e300"), None);
    assert_eq!(Seconds::parse_number("1e13"), None);
    assert_eq!(Seconds::parse_number("9.223372036854775807e12"), Some(Seconds { micros: i64::MAX }));
    assert_eq!(Seconds::parse_number("9.223372036854775808e12"), None);
    assert_eq!(Seconds::parse_number("-9.223372036854775808e12"), Some(Seconds { micros: i64::MIN }));
    assert_eq!(Seconds::parse_number("-9.223372036854775809e12"), None);
    assert_eq!(Seconds::parse_number("-1e-9"), Some(Seconds { micros: 0 }));
}

#[test]
fn what_is_no_number_in_scientific_notation() {
    for text in ["e", "e5", "1e", "1e+", "1e-", "1e5.0", "1e5e5", ".e5", "-e5", "1e 5", "1ee5", "1e--5", "1.2.3e1", "e-", "+e1", "1x2e3"] {
        assert_eq!(Seconds::parse_number(text), None, "{}", text);
    }
}
