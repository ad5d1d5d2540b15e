use expense_resolver::request::header_value_test;
use expense_resolver::text::{chars_of, contains_infix, find_infix, render_amount, render_int, splice_out, string_of, text_le_exec};

#[test]
fn int_text_renders_decimal() {
    assert_eq!(render_int(0), "0");
    assert_eq!(render_int(7), "7");
    assert_eq!(render_int(42), "42");
    assert_eq!(render_int(-42), "-42");
    assert_eq!(render_int(1000), "1000");
    assert_eq!(render_int(i64::MAX), "9223372036854775807");
    assert_eq!(render_int(i64::MIN), "-9223372036854775808");
}

#[test]
fn int_text_matches_std_formatting() {
    for n in [-1234567i64, -10, -9, -1, 0, 1, 9, 10, 99, 100, 123456789] {
        assert_eq!(render_int(n), n.to_string());
    }
}

#[test]
fn amount_text_renders_currency_units() {
    assert_eq!(render_amount(-12340), "-12.34");
    assert_eq!(render_amount(12340), "12.34");
    assert_eq!(render_amount(5000), "5");
    assert_eq!(render_amount(1), "0.001");
    assert_eq!(render_amount(10), "0.01");
    assert_eq!(render_amount(-1005), "-1.005");
    assert_eq!(render_amount(0), "0");
    assert_eq!(render_amount(-999), "-0.999");
}

#[test]
fn amount_text_matches_float_display() {
    for n in [1i64, 5, 10, 100, 999, 1000, 1001, 12340, 45678, 100000, 123456789, 999999999999999] {
        assert_eq!(render_amount(n), format!("{}", n as f64 / 1000.0));
        assert_eq!(render_amount(n), format!("{}", (-n) as f64 / -1000.0));
    }
}

#[test]
fn chars_round_trip() {
    let s = "déjà vu ✓";
    let v = chars_of(s);
    assert_eq!(v.len(), 9);
    assert_eq!(string_of(&v), s);
}

#[test]
fn infix_search() {
    let hay = chars_of("dinner ALSHARED split");
    assert!(contains_infix(&hay, &chars_of("ALSHARED")));
    assert!(contains_infix(&hay, &chars_of("")));
    assert!(!contains_infix(&hay, &chars_of("ALSHAREDX")));
    assert!(!contains_infix(&chars_of("ALSHARE"), &chars_of("ALSHARED")));
    assert!(contains_infix(&chars_of("ALSHARED"), &chars_of("ALSHARED")));
}

#[test]
fn lexicographic_order_of_strings() {
    let cases = [
        ("", ""),
        ("", "a"),
        ("a", ""),
        ("abc", "abd"),
        ("abd", "abc"),
        ("ab", "abc"),
        ("2022-03-07T03:28:24.521Z", "2022-03-07T03:28:24.522Z"),
        ("é", "z"),
        ("z", "é"),
        ("\u{ffff}", "\u{10000}"),
        ("\u{10000}", "\u{ffff}"),
        ("a\u{7f}", "a\u{80}"),
    ];
    for (a, b) in cases {
        assert_eq!(text_le_exec(a, b), a.to_string() <= b.to_string(), "{} <= {}", a, b);
    }
}

#[test]
fn infix_positions_and_splicing() {
    assert_eq!(find_infix(&chars_of("abcabc"), &chars_of("bc")), Some(1));
    assert_eq!(find_infix(&chars_of("abc"), &chars_of("x")), None);
    assert_eq!(find_infix(&chars_of("ab"), &chars_of("abc")), None);
    assert_eq!(string_of(&splice_out(&chars_of("abcdef"), 2, 3)), "abf");
    assert_eq!(string_of(&splice_out(&chars_of("abc"), 0, 3)), "");
}

#[test]
fn header_values() {
    assert!(header_value_test("Bearer abc"));
    assert!(header_value_test("a\tb"));
    assert!(header_value_test("é"));
    assert!(!header_value_test("a\nb"));
    assert!(!header_value_test("\u{7f}"));
}
