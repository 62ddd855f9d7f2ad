use cruise_pid::codec::{decode_decimal_milli, decode_engage, decode_engage_text, encode_decimal_milli};

#[test]
fn plain_integers_scale_to_thousandths() {
    assert_eq!(decode_decimal_milli(b"0"), Some(0));
    assert_eq!(decode_decimal_milli(b"10"), Some(10_000));
    assert_eq!(decode_decimal_milli(b"007"), Some(7_000));
    assert_eq!(decode_decimal_milli(b"-3"), Some(-3_000));
    assert_eq!(decode_decimal_milli(b"+42"), Some(42_000));
}

#[test]
fn fractions_are_kept_to_the_third_digit() {
    assert_eq!(decode_decimal_milli(b"10.5"), Some(10_500));
    assert_eq!(decode_decimal_milli(b"0.1"), Some(100));
    assert_eq!(decode_decimal_milli(b"-0.5"), Some(-500));
    assert_eq!(decode_decimal_milli(b"+3.25"), Some(3_250));
    assert_eq!(decode_decimal_milli(b"1.2345"), Some(1_234));
    assert_eq!(decode_decimal_milli(b"2.999999"), Some(2_999));
    assert_eq!(decode_decimal_milli(b"5."), Some(5_000));
}

#[test]
fn malformed_decimals_are_refused() {
    assert_eq!(decode_decimal_milli(b""), None);
    assert_eq!(decode_decimal_milli(b"-"), None);
    assert_eq!(decode_decimal_milli(b"."), None);
    assert_eq!(decode_decimal_milli(b".5"), None);
    assert_eq!(decode_decimal_milli(b"abc"), None);
    assert_eq!(decode_decimal_milli(b"1.2.3"), None);
    assert_eq!(decode_decimal_milli(b"1,5"), None);
    assert_eq!(decode_decimal_milli(b" 1"), None);
    assert_eq!(decode_decimal_milli(b"99999999999999999999"), None);
}

#[test]
fn engage_text_values() {
    assert_eq!(decode_engage_text(b"0"), Some(0));
    assert_eq!(decode_engage_text(b"1"), Some(1));
    assert_eq!(decode_engage_text(b"255"), Some(255));
    assert_eq!(decode_engage_text(b"+7"), Some(7));
    assert_eq!(decode_engage_text(b"256"), None);
    assert_eq!(decode_engage_text(b"999"), None);
    assert_eq!(decode_engage_text(b"-1"), None);
    assert_eq!(decode_engage_text(b""), None);
    assert_eq!(decode_engage_text(b"one"), None);
}

#[test]
fn engage_json_fallback_parses_the_object() {
    assert_eq!(decode_engage(b"{\"engaged\": 1}"), Some(1));
    assert_eq!(decode_engage(b"{\"engaged\":0}"), Some(0));
    assert_eq!(decode_engage(b"{\"engaged\": 255}"), Some(255));
    // Out of the flag's range, the wrong member, or not JSON at all.
    assert_eq!(decode_engage(b"{\"engaged\": 300}"), None);
    assert_eq!(decode_engage(b"{\"on\": 1}"), None);
    assert_eq!(decode_engage(b"engaged"), None);
}

#[test]
fn engage_prefers_the_plain_text_form() {
    assert_eq!(decode_engage(b"1"), Some(1));
    assert_eq!(decode_engage(b"0"), Some(0));
}

#[test]
fn encoding_renders_canonical_decimal_text() {
    assert_eq!(encode_decimal_milli(0), b"0");
    assert_eq!(encode_decimal_milli(10_500), b"10.5");
    assert_eq!(encode_decimal_milli(-500), b"-0.5");
    assert_eq!(encode_decimal_milli(50), b"0.05");
    assert_eq!(encode_decimal_milli(3_250), b"3.25");
    assert_eq!(encode_decimal_milli(1_234), b"1.234");
    assert_eq!(encode_decimal_milli(-42_000), b"-42");
}

#[test]
fn encoded_values_decode_back_exactly() {
    for v in [0, 1, -1, 999, -999, 10_500, -10_500, 123_456_789, -5, 1_000_000_000] {
        assert_eq!(decode_decimal_milli(&encode_decimal_milli(v)), Some(v));
    }
}
