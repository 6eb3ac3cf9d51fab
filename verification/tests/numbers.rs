use pg_cdc::float_text::is_finite_float_literal_chars;
use pg_cdc::numeric_text::{
    all_digits_in, char_is_digit, is_float_literal_chars, is_float_word_chars, parse_i64,
    parse_i64_chars, range_eq_ignore_case, scan_decimal_number, skip_sign, to_ascii_lower,
};
use pg_cdc::text::find_first;

fn chars(s: &str) -> Vec<char> {
    s.chars().collect()
}

const INTEGERS: [&str; 30] = [
    "",
    "0",
    "-0",
    "+0",
    "7",
    "+7",
    "-7",
    "42",
    "0042",
    "-0042",
    "9223372036854775807",
    "9223372036854775808",
    "+9223372036854775807",
    "-9223372036854775808",
    "-9223372036854775809",
    "00000000000000000000000000000000009223372036854775807",
    "99999999999999999999999999999999999999999999",
    "-99999999999999999999999999999999999999999999",
    "+",
    "-",
    "--1",
    "+-1",
    "1-",
    " 1",
    "1 ",
    "1_000",
    "1.0",
    "0x10",
    "１２",
    "12a",
];

#[test]
fn integers_parse_as_in_the_standard_library() {
    for s in INTEGERS {
        assert_eq!(parse_i64(s), s.parse::<i64>().ok(), "{:?}", s);
        assert_eq!(parse_i64_chars(&chars(s)), s.parse::<i64>().ok(), "{:?}", s);
    }
    assert_eq!(parse_i64("9223372036854775807"), Some(i64::MAX));
    assert_eq!(parse_i64("-9223372036854775808"), Some(i64::MIN));
    assert_eq!(parse_i64("9223372036854775808"), None);
}

const FLOATS: [&str; 75] = [
    "",
    "0",
    "1",
    "-1",
    "+1",
    "1.",
    ".5",
    ".",
    "-.",
    "+.5",
    "-.5e3",
    "1.5",
    "3.0",
    "1e5",
    "1E5",
    "1e+5",
    "1e-5",
    "1e",
    "1e+",
    "e5",
    ".e5",
    "1.e5",
    "1e5.0",
    "1e5e5",
    "1.2.3",
    "--1",
    "+-1",
    "1-",
    " 1",
    "1 ",
    "1_0",
    "0x10",
    "1f",
    "inf",
    "-inf",
    "+inf",
    "Inf",
    "INF",
    "infinity",
    "Infinity",
    "-Infinity",
    "+INFINITY",
    "infinit",
    "infinityy",
    "in",
    "nan",
    "NaN",
    "-NaN",
    "+nan",
    "NAN",
    "nanx",
    "1e308",
    "1e309",
    "-1e309",
    "1.7976931348623157e308",
    "1.7976931348623158e308",
    "1.7976931348623159e308",
    "-1.7976931348623159e308",
    "17976931348623157e292",
    "17976931348623159e292",
    "0.00017976931348623157e312",
    "0.00017976931348623159e312",
    "0e999999999999999999999999999999",
    "0.000e99999",
    "1e-999999999999999999999999999999",
    "1e999999999999999999999999999999",
    "1e0000000000000000000000000000000000000308",
    "1e0000000000000000000000000000000000000309",
    "000000000000000000000000000000001e308",
    "5e-324",
    "1e-400",
    "４２",
    "1e５",
    "1,5",
    "1e1_0",
];

#[test]
fn float_literals_are_those_of_the_standard_library() {
    for s in FLOATS {
        assert_eq!(
            is_float_literal_chars(&chars(s)),
            s.parse::<f64>().is_ok(),
            "{:?}",
            s
        );
    }
}

#[test]
fn finite_floats_are_those_of_the_standard_library() {
    for s in FLOATS {
        let expected = match s.parse::<f64>() {
            Ok(f) => f.is_finite(),
            Err(_) => false,
        };
        assert_eq!(is_finite_float_literal_chars(&chars(s)), expected, "{:?}", s);
    }
}

// The decimal digits of 2^1024 - 2^970, the least number that rounds to an
// infinity.
const THRESHOLD: &str = "179769313486231580793728971405303415079934132710037826936173778980444968292764750946649017977587207096330286416692887910946555547851940402630657488671505820681908902000708383676273854845817711531764475730270069855571366959622842914819860834936475292719074168444365510704342711559699508093042880177904174497792";

const BELOW_THRESHOLD: &str = "179769313486231580793728971405303415079934132710037826936173778980444968292764750946649017977587207096330286416692887910946555547851940402630657488671505820681908902000708383676273854845817711531764475730270069855571366959622842914819860834936475292719074168444365510704342711559699508093042880177904174497791";

fn check_finite(s: &str) {
    let expected = s.parse::<f64>().unwrap().is_finite();
    assert_eq!(is_finite_float_literal_chars(&chars(s)), expected, "{:?}", s);
}

#[test]
fn overflow_threshold_is_exact() {
    assert!(THRESHOLD.parse::<f64>().unwrap().is_infinite());
    assert!(BELOW_THRESHOLD.parse::<f64>().unwrap().is_finite());
    assert!(!is_finite_float_literal_chars(&chars(THRESHOLD)));
    assert!(is_finite_float_literal_chars(&chars(BELOW_THRESHOLD)));

    // The same two numbers, written in other ways.
    for digits in [THRESHOLD, BELOW_THRESHOLD] {
        check_finite(&format!("-{}", digits));
        check_finite(&format!("{}.", digits));
        check_finite(&format!("{}.000", digits));
        check_finite(&format!("000{}e0", digits));
        check_finite(&format!("{}0e-1", digits));
        check_finite(&format!("{}000e-3", digits));
        check_finite(&format!("{}.{}e308", &digits[..1], &digits[1..]));
        check_finite(&format!("0.{}e309", digits));
        check_finite(&format!("0.000{}e312", digits));
        check_finite(&format!("{}.{}e9", &digits[..300], &digits[300..]));
        check_finite(&format!("{}1e-1", digits));
        check_finite(&format!("{}.0000000001", digits));
    }
    // Just above the largest finite float but below the threshold.
    check_finite("179769313486231570814527423731704356798070567525844996598917476803157260780028538760589558632766878171540458953514382464234321326889464182768467546703537516986049910576551282076245490090389328944075868508455133942304583236903222948165808559332123348274797826204144723168738177180919299881250404026184124858369");
}

#[test]
fn finite_floats_agree_on_generated_literals() {
    let mantissas = ["1", "9", "17", "18", "179", "180", "1797693134862315", "1797693134862316", "0.17", "0.18", "00.0017", "17976.9", "18000.0"];
    for m in mantissas {
        for e in 295i32..=315 {
            check_finite(&format!("{}e{}", m, e));
            check_finite(&format!("{}E+{}", m, e));
        }
        for e in [-400, -5, 0, 5] {
            check_finite(&format!("{}e{}", m, e));
        }
    }
}

#[test]
fn parts_of_numbers_are_found() {
    assert_eq!(find_first(&chars("12.5e3"), 6, 'e', 'E'), 4);
    assert_eq!(find_first(&chars("12.5e3"), 4, '.', '.'), 2);
    assert_eq!(find_first(&chars("125"), 3, '.', '.'), 3);
    assert_eq!(find_first(&chars(""), 0, '.', '.'), 0);
    assert!(all_digits_in(&chars("a123b"), 1, 4));
    assert!(!all_digits_in(&chars("a123b"), 0, 4));
    assert!(all_digits_in(&chars("abc"), 1, 1));
    assert_eq!(skip_sign(&chars("-1")), 1);
    assert_eq!(skip_sign(&chars("+1")), 1);
    assert_eq!(skip_sign(&chars("1")), 0);
    assert_eq!(skip_sign(&chars("")), 0);
    let spans = scan_decimal_number(&chars("12.5e-3")).unwrap();
    assert_eq!((spans.dot, spans.e), (2, 4));
    let spans = scan_decimal_number(&chars("125")).unwrap();
    assert_eq!((spans.dot, spans.e), (3, 3));
    assert!(scan_decimal_number(&chars("-125")).is_none());
    assert!(scan_decimal_number(&chars("inf")).is_none());
}

#[test]
fn letters_compare_without_case() {
    assert!(char_is_digit('0') && char_is_digit('9'));
    assert!(!char_is_digit('/') && !char_is_digit(':') && !char_is_digit('٣'));
    for code in 0..=0x10FFFFu32 {
        if let Some(c) = char::from_u32(code) {
            assert_eq!(to_ascii_lower(c), c.to_ascii_lowercase());
        }
    }
    assert!(range_eq_ignore_case(&chars("xNuLly"), 1, 5, &chars("NULL")));
    assert!(!range_eq_ignore_case(&chars("xNuLly"), 1, 4, &chars("NULL")));
    assert!(!range_eq_ignore_case(&chars("nul1"), 0, 4, &chars("NULL")));
    assert!(is_float_word_chars(&chars("iNfInItY")));
    assert!(!is_float_word_chars(&chars("-inf")));
}
