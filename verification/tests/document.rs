use crosspoint_service::document::{
    as_i32, as_u8, as_usize, fractions_are_within_limit, narrow_to_i32, narrow_to_u8,
    narrow_to_usize, parse, FRACTION_LIMIT,
};

fn value(text: &str) -> json::JsonValue {
    json::parse(text).unwrap()
}

const NUMBERS: [&str; 22] = [
    "0", "-0", "1", "-1", "255", "256", "65536", "2147483647", "2147483648", "-2147483648",
    "-2147483649", "4294967295", "4294967296", "9223372036854775807", "18446744073709551615",
    "1.0", "1.5", "1e2", "100e-2", "0.0", "12e0", "-255",
];

#[test]
fn u8_agrees_with_the_json_crate() {
    for text in NUMBERS {
        assert_eq!(as_u8(&value(text)), value(text).as_u8(), "{}", text);
    }
    assert_eq!(as_u8(&value("255")), Some(255));
    assert_eq!(as_u8(&value("256")), None);
    assert_eq!(as_u8(&value("-1")), None);
}

#[test]
fn usize_agrees_with_the_json_crate() {
    for text in NUMBERS {
        assert_eq!(as_usize(&value(text)), value(text).as_usize(), "{}", text);
    }
    assert_eq!(as_usize(&value("65536")), Some(65536));
    assert_eq!(as_usize(&value("1.5")), None);
}

#[test]
fn i32_agrees_with_the_json_crate() {
    for text in NUMBERS {
        assert_eq!(as_i32(&value(text)), value(text).as_i32(), "{}", text);
    }
    assert_eq!(as_i32(&value("-2147483648")), Some(i32::MIN));
    assert_eq!(as_i32(&value("2147483648")), None);
    assert_eq!(as_i32(&value("-255")), Some(-255));
}

#[test]
fn i32_of_the_number_that_cannot_be_negated_is_none() {
    assert_eq!(as_i32(&value("-9223372036854775808")), None);
    assert_eq!(as_i32(&value("-9223372036854775807")), None);
    assert_eq!(as_i32(&value("-9223372036854775809")), None);
}

#[test]
fn what_is_no_number_is_no_integer() {
    for text in ["null", "true", "\"7\"", "[7]", "{\"7\": 7}", "\"\""] {
        assert_eq!(as_u8(&value(text)), None, "{}", text);
        assert_eq!(as_usize(&value(text)), None, "{}", text);
        assert_eq!(as_i32(&value(text)), None, "{}", text);
    }
}

#[test]
fn narrowing() {
    assert_eq!(narrow_to_u8(Some(255)), Some(255));
    assert_eq!(narrow_to_u8(Some(256)), None);
    assert_eq!(narrow_to_u8(None), None);
    assert_eq!(narrow_to_usize(Some(0)), Some(0));
    assert_eq!(narrow_to_usize(Some(u64::MAX)), usize::try_from(u64::MAX).ok());
    assert_eq!(narrow_to_usize(None), None);
    assert_eq!(narrow_to_i32(Some(2147483647)), Some(i32::MAX));
    assert_eq!(narrow_to_i32(Some(2147483648)), None);
    assert_eq!(narrow_to_i32(Some(-2147483648)), Some(i32::MIN));
    assert_eq!(narrow_to_i32(Some(-2147483649)), None);
    assert_eq!(narrow_to_i32(None), None);
}

#[test]
fn parse_reads_json_and_nothing_else() {
    assert_eq!(parse(r#"{"a": [1, "two", null]}"#), json::parse(r#"{"a": [1, "two", null]}"#).ok());
    assert_eq!(parse("7").and_then(|value| value.as_u8()), Some(7));
    assert_eq!(parse(""), None);
    assert_eq!(parse("{"), None);
    assert_eq!(parse("{'a': 1}"), None);
}

#[test]
fn fractions_up_to_the_limit_are_read() {
    assert_eq!(FRACTION_LIMIT, 32768);
    let fraction = format!("0.{}", "0".repeat(32768));
    assert!(fractions_are_within_limit(fraction.as_bytes()));
    assert!(parse(&fraction).is_some());
    let several = format!("[0.{}, 1.5, 2.{}]", "0".repeat(20000), "0".repeat(20000));
    assert!(fractions_are_within_limit(several.as_bytes()));
    assert!(parse(&several).is_some());
}

#[test]
fn fractions_beyond_the_limit_are_not_read() {
    let fraction = format!("0.{}", "0".repeat(32769));
    assert!(!fractions_are_within_limit(fraction.as_bytes()));
    assert_eq!(parse(&fraction), None);
    let nested = format!(r#"{{"a": ["x.", 0.{}5e3]}}"#, "0".repeat(40000));
    assert!(!fractions_are_within_limit(nested.as_bytes()));
    assert_eq!(parse(&nested), None);
    let after_an_escape = format!(r#"["\\", 0.{}]"#, "0".repeat(40000));
    assert!(!fractions_are_within_limit(after_an_escape.as_bytes()));
    assert_eq!(parse(&after_an_escape), None);
}

#[test]
fn digits_in_strings_and_integers_are_not_counted() {
    let text = format!(r#"{{"name": "{}"}}"#, "7".repeat(40000));
    assert!(fractions_are_within_limit(text.as_bytes()));
    assert_eq!(parse(&text).map(|value| value["name"].as_str().map(str::len)), Some(Some(40000)));
    let text = format!(r#"["0.{}", "a\"b.{}"]"#, "0".repeat(40000), "1".repeat(40000));
    assert!(fractions_are_within_limit(text.as_bytes()));
    assert_eq!(parse(&text).map(|value| value.len()), Some(2));
    let integer = "9".repeat(32768);
    assert!(fractions_are_within_limit(integer.as_bytes()));
    assert!(parse(&integer).is_some());
    let integer = "9".repeat(40000);
    assert!(fractions_are_within_limit(integer.as_bytes()));
    assert_eq!(parse(&integer), json::parse(&integer).ok());
    assert!(fractions_are_within_limit(b""));
    assert!(fractions_are_within_limit(b"no digits at all"));
    assert!(fractions_are_within_limit(b"..."));
}
