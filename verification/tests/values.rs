use dcz::ast::DataType;
use dcz::data_section::DataSection;
use dcz::escape::fmt_escape;
use dcz::message::MessageType;
use dcz::value::{Value, ValueError};

#[test]
fn integer_arithmetic() {
    assert!(matches!(
        Value::Number(2).add(Value::Number(3)).unwrap(),
        Value::Number(5)
    ));
    assert!(matches!(
        Value::Number(2).sub(Value::Number(3)).unwrap(),
        Value::Number(-1)
    ));
    assert!(matches!(
        Value::Number(6).mul(Value::Number(7)).unwrap(),
        Value::Number(42)
    ));
    assert!(matches!(
        Value::Number(7).div(Value::Number(2)).unwrap(),
        Value::Number(3)
    ));
    assert!(matches!(Value::Number(5).neg().unwrap(), Value::Number(-5)));
}

#[test]
fn integer_arithmetic_wraps() {
    assert!(matches!(
        Value::Number(i64::MAX).add(Value::Number(1)).unwrap(),
        Value::Number(i64::MIN)
    ));
}

#[test]
fn string_addition_concatenates() {
    let r = Value::Str("foo".to_string())
        .add(Value::Str("bar".to_string()))
        .unwrap();
    assert!(matches!(r, Value::Str(s) if s == "foobar"));
}

#[test]
fn division_by_zero_and_kind_mismatch_fail() {
    assert_eq!(
        Value::Number(1).div(Value::Number(0)).unwrap_err(),
        ValueError::DivisionByZero
    );
    assert_eq!(
        Value::Number(1).add(Value::Boolean(true)).unwrap_err(),
        ValueError::TypeMismatch
    );
    assert_eq!(
        Value::Str("a".to_string()).sub(Value::Str("b".to_string())).unwrap_err(),
        ValueError::TypeMismatch
    );
}

#[test]
fn not_flips_booleans_encoded_as_integers() {
    assert!(matches!(Value::Number(0).not().unwrap(), Value::Number(1)));
    assert!(matches!(Value::Number(1).not().unwrap(), Value::Number(0)));
    assert!(matches!(Value::Number(4).not().unwrap(), Value::Number(-5)));
}

#[test]
fn shifts_require_non_negative_operands() {
    assert!(matches!(
        Value::Number(1).shl(Value::Number(4)).unwrap(),
        Value::Number(16)
    ));
    assert!(matches!(
        Value::Number(16).shr(Value::Number(4)).unwrap(),
        Value::Number(1)
    ));
    assert_eq!(
        Value::Number(-1).shl(Value::Number(1)).unwrap_err(),
        ValueError::TypeMismatch
    );
    assert_eq!(
        Value::Number(1).shr(Value::Number(64)).unwrap_err(),
        ValueError::TypeMismatch
    );
}

#[test]
fn comparisons_yield_booleans() {
    assert!(matches!(
        Value::Number(2).lt(Value::Number(3)).unwrap(),
        Value::Boolean(true)
    ));
    assert!(matches!(
        Value::Number(3).ge(Value::Number(3)).unwrap(),
        Value::Boolean(true)
    ));
    assert!(matches!(
        Value::Str("x".to_string()).eq_value(Value::Str("x".to_string())).unwrap(),
        Value::Boolean(true)
    ));
    assert!(matches!(
        Value::Number(1).ne_value(Value::Number(2)).unwrap(),
        Value::Boolean(true)
    ));
}

#[test]
fn matching_kind_ordering_covers_strings_chars_and_booleans() {
    assert!(matches!(
        Value::Str("abc".to_string()).lt(Value::Str("abd".to_string())).unwrap(),
        Value::Boolean(true)
    ));
    assert!(matches!(
        Value::Str("ab".to_string()).lt(Value::Str("abc".to_string())).unwrap(),
        Value::Boolean(true)
    ));
    assert!(matches!(
        Value::Str("b".to_string()).lt(Value::Str("abc".to_string())).unwrap(),
        Value::Boolean(false)
    ));
    assert!(matches!(
        Value::Str("same".to_string()).le(Value::Str("same".to_string())).unwrap(),
        Value::Boolean(true)
    ));
    assert!(matches!(
        Value::Str("zz".to_string()).gt(Value::Str("za".to_string())).unwrap(),
        Value::Boolean(true)
    ));
    assert!(matches!(
        Value::Char('a').lt(Value::Char('b')).unwrap(),
        Value::Boolean(true)
    ));
    assert!(matches!(
        Value::Char('b').ge(Value::Char('b')).unwrap(),
        Value::Boolean(true)
    ));
    assert!(matches!(
        Value::Boolean(false).lt(Value::Boolean(true)).unwrap(),
        Value::Boolean(true)
    ));
    assert!(matches!(
        Value::Boolean(true).le(Value::Boolean(false)).unwrap(),
        Value::Boolean(false)
    ));
    // Floats carry opaque bit patterns and stay outside the order.
    assert_eq!(
        Value::FloatBits(1).lt(Value::FloatBits(2)).unwrap_err(),
        ValueError::TypeMismatch
    );
}

#[test]
fn boolean_from_integer() {
    assert!(matches!(Value::new_boolean_from(0), Value::Boolean(false)));
    assert!(matches!(Value::new_boolean_from(7), Value::Boolean(true)));
}

#[test]
fn escape_sequences_are_replaced() {
    assert_eq!(fmt_escape("a\\nb".to_string()), "a\nb");
    assert_eq!(fmt_escape("tab\\there".to_string()), "tab\there");
    assert_eq!(fmt_escape("back\\\\slash".to_string()), "back\\slash");
    // An unrecognized escape keeps the backslash and drops the letter.
    assert_eq!(fmt_escape("\\q".to_string()), "\\");
    assert_eq!(fmt_escape("plain".to_string()), "plain");
    assert_eq!(fmt_escape("".to_string()), "");
}

#[test]
fn data_section_names_entries_in_order() {
    let mut ds = DataSection::new();
    ds.append_string("hello".to_string());
    ds.append_string("world".to_string());
    let data = ds.return_data();
    assert_eq!(data.len(), 2);
    assert_eq!(data[0].0, "str0");
    assert_eq!(data[1].0, "str1");
    assert!(matches!(&data[0].1, Value::Str(s) if s == "hello"));
    assert!(matches!(&data[1].1, Value::Str(s) if s == "world"));
}

#[test]
fn message_labels() {
    assert_eq!(MessageType::Info.text(), "Info");
    assert_eq!(MessageType::Warning.text(), "Warning");
    assert_eq!(MessageType::Error.text(), "Error");
}

#[test]
fn data_type_sizes() {
    assert_eq!(DataType::Char.size(), 1);
    assert_eq!(DataType::Short.size(), 2);
    assert_eq!(DataType::Int.size(), 4);
    assert_eq!(DataType::Float.size(), 4);
    assert_eq!(DataType::Long.size(), 8);
    assert_eq!(DataType::Suu.size(), 8);
    assert_eq!(DataType::Void.size(), 0);
}
