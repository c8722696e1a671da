use assert_json::validators;
use assert_json::{format_error, Chain, Error, Kind, Number, Validator, Value};

fn number(n: u64) -> Value {
    Value::Number(Number::PosInt(n))
}

fn text(s: &str) -> Value {
    Value::String(String::from(s))
}

fn entry(key: &str, value: Value) -> (String, Value) {
    (String::from(key), value)
}

fn pair<V: Validator + 'static>(key: &str, validator: V) -> (String, Box<dyn Validator>) {
    (String::from(key), Box::new(validator))
}

fn samples() -> Vec<Value> {
    vec![
        Value::Null,
        Value::Bool(true),
        Value::Bool(false),
        number(1),
        Value::Number(Number::NegInt(-1)),
        Value::Number(Number::Float(String::from("1.5"))),
        text(""),
        text("1"),
        Value::Array(vec![]),
        Value::Array(vec![number(1)]),
        Value::Object(vec![]),
        Value::Object(vec![entry("k", number(1))]),
    ]
}

struct OptionalString {
    expected: Option<String>,
}

impl Validator for OptionalString {
    fn validate(&self, value: &Value) -> Result<(), Error> {
        match (&self.expected, value) {
            (Some(expected), Value::String(found)) => {
                if expected == found {
                    Ok(())
                } else {
                    Err(Error::InvalidValue(vec![], expected.clone()))
                }
            }
            (Some(_), _) => Err(Error::InvalidType(vec![], String::from("string"))),
            (None, Value::Null) => Ok(()),
            (None, _) => Err(Error::InvalidType(vec![], String::from("null"))),
        }
    }
}

#[test]
fn eq_accepts_the_equal_node_and_tells_kind_from_value() {
    for expected in samples() {
        for node in samples() {
            let validator = validators::EqValidator {
                expected: samples()
                    .into_iter()
                    .find(|v| *v == expected)
                    .expect("a sample"),
            };
            let result = validator.validate(&node);
            if node == expected {
                assert_eq!(Ok(()), result);
            } else if node.kind() != expected.kind() {
                assert_eq!(
                    Err(Error::InvalidType(
                        vec![],
                        String::from(expected.kind_name())
                    )),
                    result
                );
            } else {
                assert!(matches!(result, Err(Error::InvalidValue(_, _))));
            }
        }
    }
}

#[test]
fn eq_compares_integers_by_value_not_by_width() {
    let node = number(5);
    assert_eq!(Ok(()), validators::eq(5u8).validate(&node));
    assert_eq!(Ok(()), validators::eq(5u16).validate(&node));
    assert_eq!(Ok(()), validators::eq(5u32).validate(&node));
    assert_eq!(Ok(()), validators::eq(5u64).validate(&node));
    assert_eq!(Ok(()), validators::eq(5usize).validate(&node));
    assert_eq!(Ok(()), validators::eq(5i8).validate(&node));
    assert_eq!(Ok(()), validators::eq(5i16).validate(&node));
    assert_eq!(Ok(()), validators::eq(5i32).validate(&node));
    assert_eq!(Ok(()), validators::eq(5i64).validate(&node));
    assert_eq!(Ok(()), validators::eq(5isize).validate(&node));
    assert_eq!(
        Ok(()),
        validators::eq(5).validate(&Value::Number(Number::NegInt(5)))
    );
    assert_eq!(
        Ok(()),
        validators::eq(-5).validate(&Value::Number(Number::NegInt(-5)))
    );
    assert!(validators::eq(5).validate(&number(6)).is_err());
}

#[test]
fn eq_describes_what_it_expected() {
    assert_eq!(
        Err(Error::InvalidValue(vec![], String::from("\"te\\\"st\""))),
        validators::eq("te\"st").validate(&text("other"))
    );
    assert_eq!(
        Err(Error::InvalidValue(vec![], String::from("5"))),
        validators::eq(5).validate(&number(6))
    );
    assert_eq!(
        Err(Error::InvalidValue(vec![], String::from("-5"))),
        validators::eq(-5).validate(&number(6))
    );
    assert_eq!(
        Err(Error::InvalidValue(vec![], String::from("true"))),
        validators::eq(true).validate(&Value::Bool(false))
    );
    assert_eq!(
        Err(Error::InvalidValue(vec![], String::from("[1,{\"k\":null}]"))),
        validators::eq(Value::Array(vec![
            number(1),
            Value::Object(vec![entry("k", Value::Null)])
        ]))
        .validate(&Value::Array(vec![]))
    );
}

#[test]
fn validating_twice_gives_the_same_result() {
    let validators: Vec<Box<dyn Validator>> = vec![
        Box::new(validators::any()),
        Box::new(validators::null()),
        Box::new(validators::eq(1)),
        Box::new(validators::bool_true()),
        Box::new(validators::array_size(1)),
        Box::new(validators::array_for_each(validators::eq(1))),
        Box::new(validators::array_contains(vec![Box::new(validators::eq(1))])),
        Box::new(validators::object_strict(vec![pair("k", validators::eq(2))])),
        Box::new(validators::string(|s: &String| {
            if s.is_empty() {
                Ok(())
            } else {
                Err(String::from("not empty"))
            }
        })),
    ];
    for validator in &validators {
        for node in samples() {
            assert_eq!(validator.validate(&node), validator.validate(&node));
        }
    }
}

#[test]
fn empty_array_validators_accept_only_the_empty_array() {
    for node in samples() {
        for result in [
            validators::array(vec![]).validate(&node),
            validators::array_empty().validate(&node),
        ] {
            match &node {
                Value::Array(items) if items.is_empty() => assert_eq!(Ok(()), result),
                Value::Array(_) => assert_eq!(
                    Err(Error::InvalidValue(
                        vec![],
                        String::from("expected 0 elements got 1")
                    )),
                    result
                ),
                _ => assert_eq!(
                    Err(Error::InvalidType(vec![], String::from("array"))),
                    result
                ),
            }
        }
    }
}

#[test]
fn strict_object_without_keys_accepts_only_the_empty_object() {
    for node in samples() {
        for result in [
            validators::object_strict(vec![]).validate(&node),
            validators::object_empty().validate(&node),
        ] {
            match &node {
                Value::Object(entries) if entries.is_empty() => assert_eq!(Ok(()), result),
                Value::Object(_) => assert_eq!(
                    Err(Error::UnexpectedObjectKey(vec![0], String::from("k"))),
                    result
                ),
                _ => assert_eq!(
                    Err(Error::InvalidType(vec![], String::from("object"))),
                    result
                ),
            }
        }
    }
}

#[test]
fn two_validators_cannot_share_one_element() {
    let validator = validators::array_contains(vec![
        Box::new(validators::eq(1)),
        Box::new(validators::eq(1)),
    ]);
    assert_eq!(
        Err(Error::UnmatchedValidator(vec![], 1)),
        validator.validate(&Value::Array(vec![number(1)]))
    );
}

#[test]
fn unordered_matching_is_greedy() {
    // The first validator takes the first element it accepts, although the
    // second validator accepts no other.
    let validator = validators::array_contains(vec![
        Box::new(validators::any()),
        Box::new(validators::eq(1)),
    ]);
    assert_eq!(
        Err(Error::UnmatchedValidator(vec![], 1)),
        validator.validate(&Value::Array(vec![number(1), number(2)]))
    );
    assert_eq!(
        Ok(()),
        validator.validate(&Value::Array(vec![number(2), number(1)]))
    );
}

#[test]
fn unordered_matching_of_nothing_accepts_every_array() {
    let validator = validators::array_contains(vec![]);
    assert_eq!(Ok(()), validator.validate(&Value::Array(vec![])));
    assert_eq!(Ok(()), validator.validate(&Value::Array(vec![number(1)])));
    assert_eq!(
        Err(Error::InvalidType(vec![], String::from("array"))),
        validator.validate(&Value::Null)
    );
}

#[test]
fn missing_key_end_to_end() {
    let input = Value::Object(vec![entry("key", text("val"))]);
    let validator = validators::object(vec![
        pair("key", validators::any()),
        pair("missing_key", validators::null()),
    ]);
    let error = validator.validate(&input).unwrap_err();
    assert_eq!(
        Error::MissingObjectKey(vec![], String::from("missing_key")),
        error
    );
    assert_eq!(
        "Missing key 'missing_key' in object",
        error.message(&input)
    );
    let rendered = format_error(&input, &error, false);
    assert!(rendered
        .trim_end()
        .ends_with("Missing key 'missing_key' in object"));
    assert!(rendered.contains(
        "1 │ ╭ {\n2 │ │     \"key\": \"val\"\n3 │ │ }\n  │ ╰─^ Missing key 'missing_key' in object"
    ));
}

#[test]
fn invalid_type_end_to_end() {
    let input = Value::Bool(true);
    let error = validators::eq(5).validate(&input).unwrap_err();
    assert_eq!(Error::InvalidType(vec![], String::from("number")), error);
    assert_eq!(
        "Invalid type. Expected number but got bool.",
        error.message(&input)
    );
    let rendered = format_error(&input, &error, false);
    assert!(rendered.contains("1 │ true\n  │ ^^^^ Invalid type. Expected number but got bool."));
}

#[test]
fn every_kind_has_its_name() {
    let names: Vec<&str> = samples().iter().map(|v| v.kind_name()).collect();
    assert_eq!(
        vec![
            "null", "bool", "bool", "number", "number", "number", "string", "string", "array",
            "array", "object", "object"
        ],
        names
    );
    assert_eq!("string", Kind::String.label());
}

#[test]
fn each_error_has_its_sentence() {
    let root = Value::Array(vec![text("a\n\"b\""), Value::Object(vec![])]);
    assert_eq!(
        "Invalid type. Expected number but got string.",
        Error::InvalidType(vec![0], String::from("number")).message(&root)
    );
    assert_eq!(
        "Invalid type. Expected number but got array.",
        Error::InvalidType(vec![], String::from("number")).message(&root)
    );
    assert_eq!(
        "Invalid value. Expected 5 but got \"a\\n\\\"b\\\"\".",
        Error::InvalidValue(vec![0], String::from("5")).message(&root)
    );
    assert_eq!(
        "Invalid value. Expected 5 but got [\"a\\n\\\"b\\\"\",{}].",
        Error::InvalidValue(vec![], String::from("5")).message(&root)
    );
    assert_eq!(
        "Missing key 'k' in object",
        Error::MissingObjectKey(vec![1], String::from("k")).message(&root)
    );
    assert_eq!(
        "Key 'k' is not expected in object",
        Error::UnexpectedObjectKey(vec![0], String::from("k")).message(&root)
    );
    assert_eq!(
        "No match for expected array element 12",
        Error::UnmatchedValidator(vec![], 12).message(&root)
    );
}

#[test]
fn compact_text_escapes_as_json_does() {
    assert_eq!(
        "\"\\u0000\\u0001\\b\\t\\n\\u000b\\f\\r\\u001f \\\"\\\\/\u{7f}é\"",
        text("\u{0}\u{1}\u{8}\t\n\u{b}\u{c}\r\u{1f} \"\\/\u{7f}é").compact_text()
    );
    assert_eq!(
        "{\"a b\":[null,true,false,-3,2.5,\"x\"],\"\":{}}",
        Value::Object(vec![
            entry(
                "a b",
                Value::Array(vec![
                    Value::Null,
                    Value::Bool(true),
                    Value::Bool(false),
                    Value::Number(Number::NegInt(-3)),
                    Value::Number(Number::Float(String::from("2.5"))),
                    text("x"),
                ])
            ),
            entry("", Value::Object(vec![])),
        ])
        .compact_text()
    );
    assert_eq!("[]", Value::Array(vec![]).compact_text());
}

#[test]
fn errors_point_at_the_offending_node() {
    let input = Value::Object(vec![
        entry("a", number(1)),
        entry(
            "b",
            Value::Array(vec![number(1), Value::Object(vec![entry("c", Value::Null)])]),
        ),
    ]);
    let validator = validators::object(vec![pair(
        "b",
        validators::array(vec![
            Box::new(validators::any()),
            Box::new(validators::object(vec![pair("c", validators::eq(3))])),
        ]),
    )]);
    let error = validator.validate(&input).unwrap_err();
    assert_eq!(Error::InvalidType(vec![1, 1, 0], String::from("number")), error);
    assert_eq!(&vec![1, 1, 0], error.location());
    assert_eq!(Some(&Value::Null), input.at(error.location()));
    let rendered = format_error(&input, &error, false);
    assert!(rendered.contains("\"c\": null\n"));
    assert!(rendered.contains("^^^^ Invalid type. Expected number but got null."));
}

#[test]
fn array_reports_the_first_failing_element() {
    let validator = validators::array(vec![
        Box::new(validators::eq(1)),
        Box::new(validators::eq(2)),
        Box::new(validators::eq(3)),
    ]);
    assert_eq!(
        Err(Error::InvalidValue(vec![1], String::from("2"))),
        validator.validate(&Value::Array(vec![number(1), number(0), text("x")]))
    );
    assert_eq!(
        Err(Error::InvalidValue(
            vec![],
            String::from("expected 3 elements got 12")
        )),
        validator.validate(&Value::Array((0..12).map(number).collect()))
    );
}

#[test]
fn array_size_checks_the_length_only() {
    let validator = validators::array_size(2);
    assert_eq!(
        Ok(()),
        validator.validate(&Value::Array(vec![Value::Null, text("x")]))
    );
    assert_eq!(
        Err(Error::InvalidValue(
            vec![],
            String::from("expected 2 elements got 0")
        )),
        validator.validate(&Value::Array(vec![]))
    );
    assert_eq!(
        Err(Error::InvalidType(vec![], String::from("array"))),
        validator.validate(&Value::Object(vec![]))
    );
}

#[test]
fn for_each_reports_the_first_failing_element() {
    let validator = validators::array_for_each(validators::eq(1));
    assert_eq!(Ok(()), validator.validate(&Value::Array(vec![])));
    assert_eq!(
        Err(Error::InvalidValue(vec![2], String::from("1"))),
        validator.validate(&Value::Array(vec![
            number(1),
            number(1),
            number(2),
            text("x")
        ]))
    );
    assert_eq!(
        Err(Error::InvalidType(vec![], String::from("array"))),
        validator.validate(&number(1))
    );
}

#[test]
fn object_passes_over_keys_it_does_not_know() {
    let input = Value::Object(vec![entry("a", number(1)), entry("b", number(2))]);
    assert_eq!(
        Ok(()),
        validators::object(vec![pair("b", validators::eq(2))]).validate(&input)
    );
    assert_eq!(
        Err(Error::UnexpectedObjectKey(vec![0], String::from("a"))),
        validators::object_strict(vec![pair("b", validators::eq(2))]).validate(&input)
    );
    assert_eq!(
        Err(Error::InvalidValue(vec![1], String::from("3"))),
        validators::object_strict(vec![pair("b", validators::eq(3))]).validate(&input)
    );
    assert_eq!(
        Err(Error::InvalidType(vec![], String::from("object"))),
        validators::object(vec![]).validate(&Value::Array(vec![]))
    );
}

#[test]
fn object_reports_the_first_pair_that_fails() {
    let input = Value::Object(vec![entry("a", number(1))]);
    let validator = validators::object(vec![
        pair("x", validators::any()),
        pair("a", validators::eq(2)),
    ]);
    assert_eq!(
        Err(Error::MissingObjectKey(vec![], String::from("x"))),
        validator.validate(&input)
    );
}

#[test]
fn and_asks_the_second_only_where_the_first_accepts() {
    let node = number(1);
    assert_eq!(
        Ok(()),
        validators::any().and(validators::eq(1)).validate(&node)
    );
    assert_eq!(
        Err(Error::InvalidType(vec![], String::from("null"))),
        validators::null().and(validators::eq(2)).validate(&node)
    );
    assert_eq!(
        Err(Error::InvalidValue(vec![], String::from("2"))),
        validators::any().and(validators::eq(2)).validate(&node)
    );
}

#[test]
fn typed_validators_name_their_type() {
    assert_eq!(
        Err(Error::InvalidType(vec![], String::from("string"))),
        validators::string(|_| Ok(())).validate(&Value::Null)
    );
    assert_eq!(
        Err(Error::InvalidType(vec![], String::from("bool"))),
        validators::bool(|_| Ok(())).validate(&Value::Null)
    );
    assert_eq!(
        Err(Error::InvalidType(vec![], String::from("i64"))),
        validators::i64(|_| Ok(())).validate(&Value::Null)
    );
    assert_eq!(
        Err(Error::InvalidType(vec![], String::from("u64"))),
        validators::u64(|_| Ok(())).validate(&Value::Null)
    );
    assert_eq!(
        Err(Error::InvalidType(vec![], String::from("null"))),
        validators::null().validate(&number(0))
    );
}

#[test]
fn integer_validators_take_what_fits() {
    let big = number(u64::MAX);
    let negative = Value::Number(Number::NegInt(-1));
    let float = Value::Number(Number::Float(String::from("1.0")));
    assert_eq!(Ok(()), validators::u64(|_| Ok(())).validate(&big));
    assert!(validators::i64(|_| Ok(())).validate(&big).is_err());
    assert_eq!(Ok(()), validators::i64(|_| Ok(())).validate(&negative));
    assert!(validators::u64(|_| Ok(())).validate(&negative).is_err());
    assert!(validators::i64(|_| Ok(())).validate(&float).is_err());
    assert!(validators::u64(|_| Ok(())).validate(&float).is_err());
    assert_eq!(
        Err(Error::InvalidValue(vec![], String::from("got 7"))),
        validators::u64(|v| Err(format!("got {}", v))).validate(&number(7))
    );
    assert_eq!(
        Err(Error::InvalidValue(vec![], String::from("got -7"))),
        validators::i64(|v| Err(format!("got {}", v)))
            .validate(&Value::Number(Number::NegInt(-7)))
    );
}

#[test]
fn bool_true_and_bool_false() {
    assert_eq!(Ok(()), validators::bool_true().validate(&Value::Bool(true)));
    assert_eq!(
        Err(Error::InvalidValue(vec![], String::from("value not true"))),
        validators::bool_true().validate(&Value::Bool(false))
    );
    assert_eq!(
        Ok(()),
        validators::bool_false().validate(&Value::Bool(false))
    );
    assert_eq!(
        Err(Error::InvalidValue(vec![], String::from("value not false"))),
        validators::bool_false().validate(&Value::Bool(true))
    );
    assert_eq!(
        Err(Error::InvalidType(vec![], String::from("bool"))),
        validators::bool_true().validate(&Value::Null)
    );
}

#[test]
fn a_validator_of_ones_own() {
    let some = OptionalString {
        expected: Some(String::from("value")),
    };
    let none = OptionalString { expected: None };
    let input = Value::Object(vec![entry("key", text("value")), entry("none", Value::Null)]);
    let validator = validators::object(vec![pair("key", some), pair("none", none)]);
    assert_eq!(Ok(()), validator.validate(&input));
}

#[test]
fn paths_lead_to_nodes() {
    let input = Value::Array(vec![Value::Object(vec![entry("k", number(9))])]);
    assert_eq!(Some(&input), input.at(&vec![]));
    assert_eq!(Some(&number(9)), input.at(&vec![0, 0]));
    assert_eq!(None, input.at(&vec![1]));
    assert_eq!(None, input.at(&vec![0, 0, 0]));
    assert_eq!(Some(&number(9)), input.at(&vec![0]).and_then(|v| v.child(0)));
}

#[test]
fn same_compares_documents() {
    for a in samples() {
        for b in samples() {
            assert_eq!(a == b, a.same(&b));
        }
    }
    assert!(number(5).same(&Value::Number(Number::NegInt(5))));
    assert!(!Value::Object(vec![entry("a", number(1)), entry("b", number(2))])
        .same(&Value::Object(vec![entry("b", number(2)), entry("a", number(1))])));
}

#[test]
fn a_copy_is_the_same_document() {
    for value in samples() {
        let copy = value.clone();
        assert!(copy.same(&value));
        assert_eq!(value, copy);
        assert_eq!(value.compact_text(), copy.compact_text());
    }
}

#[test]
fn an_error_seen_from_the_parent_has_one_step_more() {
    assert_eq!(
        Error::InvalidType(vec![3, 1, 2], String::from("null")),
        Error::InvalidType(vec![1, 2], String::from("null")).under(3)
    );
    assert_eq!(
        Error::UnmatchedValidator(vec![0], 4),
        Error::UnmatchedValidator(vec![], 4).under(0)
    );
    assert_eq!(
        Error::MissingObjectKey(vec![7], String::from("k")),
        Error::MissingObjectKey(vec![], String::from("k")).under(7)
    );
}

#[test]
fn plain_values_become_documents() {
    assert_eq!(Value::Bool(true), Value::from(true));
    assert_eq!(text("a"), Value::from("a"));
    assert_eq!(text("a"), Value::from(String::from("a")));
    assert_eq!(number(7), Value::from(7u8));
    assert_eq!(number(7), Value::from(7i64));
    assert_eq!(Value::Number(Number::NegInt(-7)), Value::from(-7i8));
    assert_eq!(Value::Number(Number::NegInt(-7)), Value::from(-7isize));
    assert_eq!(number(u64::MAX), Value::from(u64::MAX));
}

fn float(literal: &str) -> Value {
    Value::Number(Number::Float(String::from(literal)))
}

#[test]
fn well_formed_numbers() {
    for literal in [
        "2.3", "-0.0", "0.5", "10.25", "1e300", "1E3", "1e+3", "1.5e-7", "-12.0e10", "0e0",
    ] {
        assert!(float(literal).is_valid(), "{literal}");
    }
    for literal in [
        "", "-", "1", "-1", "01.5", "00.5", "1.", ".5", "1e", "1e+", "1.5e", "1.5x", "1.5 ",
        " 1.5", "+1.5", "1..5", "1.5.5", "1e5e5", "1.5é", "NaN", "inf",
    ] {
        assert!(!float(literal).is_valid(), "{literal}");
    }
    assert!(number(0).is_valid());
    assert!(Value::Number(Number::NegInt(5)).is_valid());
}

#[test]
fn well_formed_documents() {
    for value in samples() {
        assert!(value.is_valid());
    }
    assert!(!Value::Object(vec![entry("a", number(1)), entry("a", number(2))]).is_valid());
    assert!(Value::Object(vec![entry("a", number(1)), entry("b", number(1))]).is_valid());
    assert!(!Value::Array(vec![number(1), float("1")]).is_valid());
    assert!(!Value::Array(vec![Value::Object(vec![
        entry("a", Value::Null),
        entry("b", Value::Object(vec![entry("c", float(""))])),
    ])])
    .is_valid());
    assert!(!Value::Object(vec![
        entry("x", Value::Null),
        entry("y", Value::Array(vec![Value::Object(vec![
            entry("k", Value::Null),
            entry("l", Value::Null),
            entry("k", Value::Null),
        ])])),
    ])
    .is_valid());
}

#[test]
fn two_pairs_with_one_key_are_both_asked() {
    let input = Value::Object(vec![entry("a", number(1))]);
    assert_eq!(
        Ok(()),
        validators::object(vec![
            pair("a", validators::eq(1)),
            pair("a", validators::u64(|_| Ok(()))),
        ])
        .validate(&input)
    );
    assert_eq!(
        Err(Error::InvalidType(vec![0], String::from("null"))),
        validators::object(vec![
            pair("a", validators::eq(1)),
            pair("a", validators::null()),
        ])
        .validate(&input)
    );
    assert_eq!(
        Err(Error::InvalidType(vec![0], String::from("null"))),
        validators::object_strict(vec![
            pair("a", validators::null()),
            pair("a", validators::eq(1)),
        ])
        .validate(&input)
    );
}

#[test]
fn of_a_key_that_stands_twice_the_first_entry_is_checked() {
    let input = Value::Object(vec![entry("a", number(1)), entry("a", Value::Null)]);
    assert_eq!(
        Ok(()),
        validators::object_strict(vec![pair("a", validators::eq(1))]).validate(&input)
    );
    assert_eq!(
        Err(Error::InvalidType(vec![0], String::from("null"))),
        validators::object(vec![pair("a", validators::null())]).validate(&input)
    );
}
