use django_rs::text::{chars_of, i64_to_decimal, is_valid_float, join_strings, parse_i64, u64_to_decimal};

#[test]
fn decimal_rendering() {
    assert_eq!(i64_to_decimal(0), "0");
    assert_eq!(i64_to_decimal(1337), "1337");
    assert_eq!(i64_to_decimal(-42), "-42");
    assert_eq!(i64_to_decimal(i64::MIN), "-9223372036854775808");
    assert_eq!(i64_to_decimal(i64::MAX), "9223372036854775807");
    assert_eq!(u64_to_decimal(u64::MAX), "18446744073709551615");
    assert_eq!(u64_to_decimal(10), "10");
}

#[test]
fn integer_parsing_matches_std() {
    let cases = [
        "0", "42", "+5", "-17", "007", "", "-", "+", "1a", " 1", "1 ", "--1", "+-1",
        "9223372036854775807", "9223372036854775808", "-9223372036854775808",
        "-9223372036854775809", "99999999999999999999999",
    ];
    for c in cases {
        assert_eq!(parse_i64(c), c.parse::<i64>().ok(), "case {c:?}");
    }
}

#[test]
fn decimal_text_parses_back() {
    for i in [0i64, 1, -1, 9, 10, -10, 123456789, i64::MIN, i64::MAX] {
        assert_eq!(parse_i64(&i64_to_decimal(i)), Some(i));
    }
}

#[test]
fn float_grammar_matches_std() {
    let cases = [
        "1.5", ".5", "5.", "5", "1e10", "1E-3", "2.5e+7", "inf", "-Infinity", "NaN", "+nan",
        "INF", "", ".", "e5", "1e", "1e+", "1.2.3", "abc", "-", "+.e1", "1_0", " 1", "infinit",
        "1.e3", ".e3", "0x10",
    ];
    for c in cases {
        assert_eq!(is_valid_float(c), c.parse::<f64>().is_ok(), "case {c:?}");
    }
}

#[test]
fn joining() {
    let parts = vec!["a".to_string(), "bc".to_string(), "".to_string()];
    assert_eq!(join_strings(&parts, ", "), "a, bc, ");
    assert_eq!(join_strings(&vec![], ", "), "");
    assert_eq!(join_strings(&vec!["x".to_string()], ", "), "x");
}

#[test]
fn characters_of_text() {
    assert_eq!(chars_of("añb"), vec!['a', 'ñ', 'b']);
    assert_eq!(chars_of(""), Vec::<char>::new());
}
