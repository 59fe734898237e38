use tracing_stackdriver::decimal::{i64_text, u64_text};
use tracing_stackdriver::error::FormatError;
use tracing_stackdriver::json::json_number;
use tracing_stackdriver::value::{Double, FieldValue};

#[test]
fn decimal_text_of_unsigned() {
    assert_eq!(u64_text(0), "0");
    assert_eq!(u64_text(7), "7");
    assert_eq!(u64_text(10), "10");
    assert_eq!(u64_text(503), "503");
    assert_eq!(u64_text(u64::MAX), "18446744073709551615");
}

#[test]
fn decimal_text_of_signed() {
    assert_eq!(i64_text(0), "0");
    assert_eq!(i64_text(-1), "-1");
    assert_eq!(i64_text(42), "42");
    assert_eq!(i64_text(-1200), "-1200");
    assert_eq!(i64_text(i64::MAX), "9223372036854775807");
    assert_eq!(i64_text(i64::MIN), "-9223372036854775808");
}

#[test]
fn json_text_of_integers_and_booleans() {
    assert_eq!(FieldValue::Int(-5).to_json().unwrap(), "-5");
    assert_eq!(FieldValue::Uint(5).to_json().unwrap(), "5");
    assert_eq!(FieldValue::Bool(true).to_json().unwrap(), "true");
    assert_eq!(FieldValue::Bool(false).to_json().unwrap(), "false");
}

#[test]
fn json_text_of_plain_string() {
    assert_eq!(FieldValue::Str("disk full".to_string()).to_json().unwrap(), "\"disk full\"");
    assert_eq!(FieldValue::Str(String::new()).to_json().unwrap(), "\"\"");
}

#[test]
fn json_text_escapes_quote_and_backslash() {
    let value = FieldValue::Str("say \"hi\" \\ bye".to_string());
    assert_eq!(value.to_json().unwrap(), "\"say \\\"hi\\\" \\\\ bye\"");
}

#[test]
fn json_text_escapes_control_characters() {
    let value = FieldValue::Str("\u{8}\t\n\u{c}\r".to_string());
    assert_eq!(value.to_json().unwrap(), "\"\\b\\t\\n\\f\\r\"");
    let value = FieldValue::Str("\u{0}\u{1}\u{b}\u{1f}".to_string());
    assert_eq!(value.to_json().unwrap(), "\"\\u0000\\u0001\\u000b\\u001f\"");
}

#[test]
fn json_text_keeps_other_characters() {
    let value = FieldValue::Str(" /\u{7f}\u{e9}\u{4e16}\u{1f600}".to_string());
    assert_eq!(value.to_json().unwrap(), "\" /\u{7f}\u{e9}\u{4e16}\u{1f600}\"");
}

fn escaped(c: char) -> String {
    match c {
        '"' => "\\\"".to_string(),
        '\\' => "\\\\".to_string(),
        '\u{8}' => "\\b".to_string(),
        '\u{c}' => "\\f".to_string(),
        '\n' => "\\n".to_string(),
        '\r' => "\\r".to_string(),
        '\t' => "\\t".to_string(),
        c if c < ' ' => format!("\\u00{:02x}", c as u32),
        c => c.to_string(),
    }
}

#[test]
fn json_text_of_every_low_character() {
    for code in 0u32..0x180 {
        let c = char::from_u32(code).unwrap();
        let text = format!("a{}b", c);
        let expected = format!("\"a{}b\"", escaped(c));
        assert_eq!(FieldValue::Str(text).to_json().unwrap(), expected);
    }
}

#[test]
fn finite_double_keeps_its_text() {
    let value = FieldValue::from_f64_bits(1.5f64.to_bits(), "1.5");
    assert!(matches!(&value, FieldValue::Float(d) if d.bits() == 1.5f64.to_bits() && d.text() == "1.5"));
    assert_eq!(value.to_json().unwrap(), "1.5");
    assert_eq!(value.stringify(), "1.5");
    let value = FieldValue::from_f64_bits((-0.0f64).to_bits(), "-0.0");
    assert_eq!(value.to_json().unwrap(), "-0.0");
    let value = FieldValue::from_f64_bits(f64::MAX.to_bits(), "1.7976931348623157e308");
    assert_eq!(value.to_json().unwrap(), "1.7976931348623157e308");
    let value = FieldValue::from_f64_bits(f64::MIN_POSITIVE.to_bits(), "2.2250738585072014e-308");
    assert_eq!(value.to_json().unwrap(), "2.2250738585072014e-308");
}

#[test]
fn no_double_for_bits_that_are_not_finite() {
    assert!(Double::new(f64::NAN.to_bits(), "NaN").is_none());
    assert!(Double::new(f64::INFINITY.to_bits(), "inf").is_none());
    assert!(Double::new(f64::NEG_INFINITY.to_bits(), "-inf").is_none());
    assert!(Double::new(0x7ff0_0000_0000_0001, "NaN").is_none());
    assert!(Double::new(0xffff_ffff_ffff_ffff, "NaN").is_none());
    let largest = Double::new(0x7fef_ffff_ffff_ffff, "1.7976931348623157e308").unwrap();
    assert_eq!(largest.bits(), f64::MAX.to_bits());
    assert_eq!(largest.text(), "1.7976931348623157e308");
    assert!(Double::new(0, "0.0").is_some());
    assert!(Double::new(0x8000_0000_0000_0000, "-0.0").is_some());
    assert_eq!(largest.clone().bits(), largest.bits());
}

#[test]
fn double_that_is_not_finite_becomes_zero() {
    for double in [f64::NAN, f64::INFINITY, f64::NEG_INFINITY, -f64::NAN] {
        let value = FieldValue::from_f64_bits(double.to_bits(), "ignored");
        assert!(matches!(value, FieldValue::Int(0)));
        assert_eq!(value.to_json().unwrap(), "0");
    }
    let signalling = FieldValue::from_f64_bits(0x7ff0_0000_0000_0001, "NaN");
    assert_eq!(signalling.to_json().unwrap(), "0");
}

#[test]
fn double_with_text_that_is_no_number_fails() {
    let value = FieldValue::from_f64_bits(1.0f64.to_bits(), "one");
    assert_eq!(value.to_json(), Err(FormatError::Serialization));
    let value = FieldValue::from_f64_bits(1.0f64.to_bits(), "");
    assert_eq!(value.to_json(), Err(FormatError::Serialization));
}

#[test]
fn number_grammar_accepts() {
    for text in [
        "0", "-0", "7", "10", "-12", "0.5", "-0.25", "1.0", "1e5", "1E5", "1e+5", "1e-5",
        "1.5e10", "1.7976931348623157e308", "5e-324", "123456789012345678901234567890",
    ] {
        assert!(json_number(text), "{}", text);
    }
}

#[test]
fn number_grammar_rejects() {
    for text in [
        "", "-", "+1", "01", "-01", "00", ".5", "1.", "1.e5", "1e", "1e+", "1e-", "e5", "1e5.0",
        "1 ", " 1", "1,0", "NaN", "inf", "Infinity", "0x10", "1.5.2", "1ee5", "--1", "1-",
        "\u{660}",
    ] {
        assert!(!json_number(text), "{}", text);
    }
}

#[test]
fn stringify_leaves_strings_bare() {
    assert_eq!(FieldValue::Str("a \"b\"".to_string()).stringify(), "a \"b\"");
    assert_eq!(FieldValue::Int(-3).stringify(), "-3");
    assert_eq!(FieldValue::Uint(3).stringify(), "3");
    assert_eq!(FieldValue::Bool(true).stringify(), "true");
    assert_eq!(FieldValue::Bool(false).stringify(), "false");
}

#[test]
fn clone_keeps_the_value() {
    let value = FieldValue::Str("x".to_string());
    assert!(matches!(value.clone(), FieldValue::Str(s) if s == "x"));
    assert!(matches!(FieldValue::Uint(9).clone(), FieldValue::Uint(9)));
}

#[test]
fn error_messages() {
    assert_eq!(FormatError::Formatting.message(), "formatting error");
    assert_eq!(FormatError::Serialization.message(), "JSON serialization error");
    assert_eq!(FormatError::Io.message(), "I/O error");
    assert_eq!(FormatError::Time.message(), "Time formatting error");
}
