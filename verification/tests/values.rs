use store_validate::values::{DataType, Value};

fn read(raw: &str, data_type: DataType) -> Result<Value, String> {
    Value::new(&raw.to_string(), &data_type)
}

fn integer(raw: &str) -> Option<i64> {
    match read(raw, DataType::Integer) {
        Ok(Value::Integer(number)) => Some(number),
        Ok(other) => panic!("an integer was read as {:?}", other),
        Err(message) => {
            assert_eq!(message, "Not a valid Integer");
            None
        }
    }
}

#[test]
fn any_text_is_a_string() {
    assert!(matches!(read("", DataType::String), Ok(Value::String(s)) if s.is_empty()));
    assert!(matches!(read("a\nb", DataType::String), Ok(Value::String(s)) if s == "a\nb"));
    assert!(matches!(read("42", DataType::String), Ok(Value::String(s)) if s == "42"));
}

#[test]
fn integers_are_read_in_base_ten() {
    assert_eq!(integer("0"), Some(0));
    assert_eq!(integer("7"), Some(7));
    assert_eq!(integer("42"), Some(42));
    assert_eq!(integer("-42"), Some(-42));
    assert_eq!(integer("-0"), Some(0));
    assert_eq!(integer("007"), Some(7));
    assert_eq!(integer("1234567890"), Some(1234567890));
}

#[test]
fn integers_reach_both_ends_of_the_range() {
    assert_eq!(integer("9223372036854775807"), Some(i64::MAX));
    assert_eq!(integer("-9223372036854775808"), Some(i64::MIN));
    assert_eq!(integer("9223372036854775808"), None);
    assert_eq!(integer("-9223372036854775809"), None);
    assert_eq!(integer("9223372036854775810"), None);
    assert_eq!(integer("92233720368547758070"), None);
    assert_eq!(integer("00000000000000000000000000042"), Some(42));
    assert_eq!(integer("18446744073709551616"), None);
}

#[test]
fn other_texts_are_no_integers() {
    assert_eq!(integer(""), None);
    assert_eq!(integer("-"), None);
    assert_eq!(integer("+5"), None);
    assert_eq!(integer("12a"), None);
    assert_eq!(integer("a12"), None);
    assert_eq!(integer("1 2"), None);
    assert_eq!(integer(" 12"), None);
    assert_eq!(integer("--1"), None);
    assert_eq!(integer("1-"), None);
    assert_eq!(integer("1.5"), None);
    assert_eq!(integer("١٢"), None);
}

#[test]
fn booleans_are_true_or_false() {
    assert!(matches!(read("true", DataType::Boolean), Ok(Value::Boolean(true))));
    assert!(matches!(read("false", DataType::Boolean), Ok(Value::Boolean(false))));
    for raw in ["", "True", "FALSE", "1", "0", "yes", "true ", "tru", "falsey"] {
        match read(raw, DataType::Boolean) {
            Err(message) => assert_eq!(message, "Not a valid Boolean"),
            Ok(value) => panic!("{:?} was read as {:?}", raw, value),
        }
    }
}
