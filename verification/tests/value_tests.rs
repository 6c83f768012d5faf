use relox::error::format_error;
use relox::value::{is_equal, Value};

fn number(value: f64) -> Value {
    Value::Number(value.to_bits())
}

#[test]
fn value_display_forms() {
    assert_eq!("nil", Value::Nil.display_string());
    assert_eq!("true", Value::Boolean(true).display_string());
    assert_eq!("false", Value::Boolean(false).display_string());
    assert_eq!("2", number(2.0).display_string());
    assert_eq!("2.4", number(2.4).display_string());
    assert_eq!("-0", number(-0.0).display_string());
    assert_eq!("100", number(100.0).display_string());
    assert_eq!("0.5", number(0.5).display_string());
    assert_eq!("NaN", number(f64::NAN).display_string());
    assert_eq!("inf", number(f64::INFINITY).display_string());
    assert_eq!("-inf", number(f64::NEG_INFINITY).display_string());
    assert_eq!("\"foo\"", Value::String("foo".to_owned()).display_string());
}

#[test]
fn value_predicates() {
    assert!(Value::Nil.is_nil());
    assert!(Value::Boolean(false).is_boolean());
    assert!(number(1.0).is_number());
    assert!(Value::String(String::new()).is_string());
    assert!(!Value::Nil.is_number());
}

#[test]
fn value_unwrappers() {
    assert_eq!(true, Value::Boolean(true).unwrap_boolean());
    assert_eq!(2.0f64.to_bits(), number(2.0).unwrap_number());
    assert_eq!("foo", Value::String("foo".to_owned()).unwrap_string());
}

#[test]
fn ieee_equality_on_values() {
    // +0 and -0 are equal by IEEE comparison though their bits differ
    assert!(is_equal(&number(0.0), &number(-0.0)));
    // NaN equals nothing, itself included
    assert!(!is_equal(&number(f64::NAN), &number(f64::NAN)));
    assert!(is_equal(&number(2.0), &number(2.0)));
    assert!(!is_equal(&number(2.0), &Value::String("2".to_owned())));
}

#[test]
fn format_error_renders_line_and_message() {
    assert_eq!("[line 7] Error: boom", format_error(7, "boom"));
    assert_eq!("[line 1207] Error: x", format_error(1207, "x"));
}
