use assert_json::validators;
use assert_json::{Error, Number, Validator, Value};

fn number(n: u64) -> Value {
    Value::Number(Number::PosInt(n))
}

fn text(s: &str) -> Value {
    Value::String(String::from(s))
}

fn entry(key: &str, value: Value) -> (String, Value) {
    (String::from(key), value)
}

#[test]
fn validators_any() {
    let validator = validators::any();

    assert_eq!(Ok(()), validator.validate(&Value::Null));
}

#[test]
fn validators_string() {
    let validator = validators::string(Box::new(|_: &String| Ok(())));

    assert_eq!(Ok(()), validator.validate(&Value::String("ok".to_string())));
}

#[test]
fn validators_string_invalid_value() {
    let _error_msg = String::from("error message");
    let validator = validators::string(Box::new(move |_: &String| Err(_error_msg.clone())));

    assert!(matches!(
        validator.validate(&Value::String("".to_string())),
        Err(Error::InvalidValue(_, _error_msg))
    ));
}

#[test]
fn validators_string_invalid_type() {
    let validator = validators::string(Box::new(|_: &String| Ok(())));

    let _expected_type = String::from("string");
    assert!(matches!(
        validator.validate(&Value::Null),
        Err(Error::InvalidType(_, _expected_type))
    ));
}

#[test]
fn validators_null() {
    let validator = validators::null();

    assert_eq!(Ok(()), validator.validate(&Value::Null));
}

#[test]
fn mod_any() {
    let validator = validators::any();

    assert_eq!(Ok(()), validator.validate(&Value::Null));
}

#[test]
fn eq_string() {
    let validator = validators::eq("test");

    assert_eq!(Ok(()), validator.validate(&text("test")))
}

#[test]
fn eq_string_fail() {
    let validator = validators::eq(String::from("test"));

    assert!(matches!(
        validator.validate(&text("not expected")),
        Err(Error::InvalidValue(_, _))
    ));
}

#[test]
fn primitive_string() {
    let validator = validators::string(|_| Ok(()));

    assert_eq!(Ok(()), validator.validate(&Value::String("ok".to_string())));
}

#[test]
fn primitive_string_invalid_value() {
    let validator = validators::string(|_| Err(String::from("error message")));

    assert!(matches!(
        validator.validate(&Value::String("".to_string())),
        Err(Error::InvalidValue(_, _))
    ));
}

#[test]
fn primitive_string_invalid_type() {
    let validator = validators::string(|_| Ok(()));

    assert!(matches!(
        validator.validate(&Value::Null),
        Err(Error::InvalidType(_, _))
    ));
}

#[test]
fn primitive_null() {
    let validator = validators::null();

    assert_eq!(Ok(()), validator.validate(&Value::Null));
}

#[test]
fn i64() {
    let validator = validators::i64(|_| Ok(()));

    assert_eq!(Ok(()), validator.validate(&number(4)));
}

#[test]
fn non_array() {
    let validator = validators::array(vec![]);

    assert!(matches!(
        validator.validate(&Value::Null),
        Err(Error::InvalidType(_, _))
    ));
}

#[test]
fn empty() {
    let validator = validators::array(vec![]);

    assert_eq!(Ok(()), validator.validate(&Value::Array(vec![])));
}

#[test]
fn with_different_value() {
    let validator = validators::array(vec![
        Box::new(validators::eq(5)),
        Box::new(validators::null()),
    ]);

    assert_eq!(
        Ok(()),
        validator.validate(&Value::Array(vec![number(5), Value::Null]))
    )
}

#[test]
fn different_size() {
    let validator = validators::array(vec![]);

    assert!(matches!(
        validator.validate(&Value::Array(vec![Value::Null])),
        Err(Error::InvalidValue(_, _))
    ));
}

#[test]
fn non_matching_array_value() {
    let validator = validators::array(vec![Box::new(validators::null())]);

    assert!(matches!(
        validator.validate(&Value::Array(vec![number(5)])),
        Err(Error::InvalidType(_, _))
    ));
}

#[test]
fn array_size() {
    let validator = validators::array_size(3);

    assert_eq!(
        Ok(()),
        validator.validate(&Value::Array(vec![
            number(4),
            text("test"),
            Value::Number(Number::Float(String::from("3.4"))),
        ]))
    );
}

#[test]
fn array_contains() {
    let validator = validators::array_contains(vec![
        Box::new(validators::eq(1)),
        Box::new(validators::eq(2)),
    ]);

    assert_eq!(
        Ok(()),
        validator.validate(&Value::Array(vec![number(3), number(2), number(1)]))
    );
}

#[test]
fn array_contains_repetition() {
    let validator = validators::array_contains(vec![
        Box::new(validators::eq(1)),
        Box::new(validators::eq(1)),
    ]);

    assert!(matches!(
        validator.validate(&Value::Array(vec![number(3), number(1)])),
        Err(Error::UnmatchedValidator(_, _)),
    ));
}

#[test]
fn array_does_not_contain() {
    let validator = validators::array_contains(vec![
        Box::new(validators::eq(1)),
        Box::new(validators::eq(2)),
    ]);

    assert!(matches!(
        validator.validate(&Value::Array(vec![number(3), number(1)])),
        Err(Error::UnmatchedValidator(_, _)),
    ));
}

#[test]
fn for_each() {
    let validator = validators::array_for_each(validators::eq(String::from("test")));

    assert_eq!(
        Ok(()),
        validator.validate(&Value::Array(vec![text("test"), text("test"), text("test")]))
    );
}

#[test]
fn valid() {
    let mut key_validators: Vec<(String, Box<dyn Validator>)> = Vec::new();
    key_validators.push((
        String::from("key"),
        Box::new(validators::string(|_| Ok(()))),
    ));
    key_validators.push((String::from("key1"), Box::new(validators::any())));

    let validator = validators::object(key_validators);
    assert_eq!(
        Ok(()),
        validator.validate(&Value::Object(vec![
            entry("key", text("val")),
            entry("key1", Value::Null),
        ]))
    );
}

#[test]
fn missing_key() {
    let mut key_validators: Vec<(String, Box<dyn Validator>)> = Vec::new();
    key_validators.push((
        String::from("key"),
        Box::new(validators::string(|_| Ok(()))),
    ));

    let validator = validators::object(key_validators);
    assert!(matches!(
        validator.validate(&Value::Object(vec![])),
        Err(Error::MissingObjectKey(_, _))
    ));
}
