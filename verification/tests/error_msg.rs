use assert_json::validators;
use assert_json::{format_error, Number, Validator, Value};

fn convert(value: &serde_json::Value) -> Value {
    match value {
        serde_json::Value::Null => Value::Null,
        serde_json::Value::Bool(b) => Value::Bool(*b),
        serde_json::Value::Number(n) => Value::Number(if let Some(u) = n.as_u64() {
            Number::PosInt(u)
        } else if let Some(i) = n.as_i64() {
            Number::NegInt(i)
        } else {
            Number::Float(n.to_string())
        }),
        serde_json::Value::String(s) => Value::String(s.clone()),
        serde_json::Value::Array(items) => Value::Array(items.iter().map(convert).collect()),
        serde_json::Value::Object(map) => {
            Value::Object(map.iter().map(|(k, v)| (k.clone(), convert(v))).collect())
        }
    }
}

fn parse(text: &str) -> Value {
    let value: serde_json::Value = serde_json::from_str(text).expect("failed to parse JSON");
    convert(&value)
}

fn pair<V: Validator + 'static>(key: &str, validator: V) -> (String, Box<dyn Validator>) {
    (String::from(key), Box::new(validator))
}

fn failure_output<V: Validator>(input: &Value, validator: V) -> String {
    let error = validator
        .validate(input)
        .expect_err("the validation should fail");
    format_error(input, &error, false)
}

fn assert_output(expected_output: &str, err: String) {
    let expected_output = expected_output.trim();
    assert!(
        err.contains(expected_output),
        "\n\texpected:\n{expected_output}\n\tgot:\n{err}"
    )
}

#[test]
fn primitive_invalid_type() {
    let expected_output = "  │\n1 │ true\n  │ ^^^^ Invalid type. Expected number but got bool.\n";

    assert_output(
        expected_output,
        failure_output(&parse("true"), validators::eq(5)),
    );
}

#[test]
fn missing_object_key() {
    let expected_output = "1 │ ╭ {\n2 │ │     \"key\": \"val\"\n3 │ │ }\n  │ ╰─^ Missing key 'missing_key' in object\n";

    assert_output(
        expected_output,
        failure_output(
            &parse(r#"{ "key": "val" }"#),
            validators::object(vec![
                pair("key", validators::eq("val")),
                pair("missing_key", validators::null()),
            ]),
        ),
    );
}

#[test]
fn test_readme_example() {
    let expected_output = "  │\n4 │         \"name\": \"incorrect name\"\n  │                 ^^^^^^^^^^^^^^^^ Invalid value. Expected \"charlesvdv\" but got \"incorrect name\".\n";
    let json = r#"
        {
            "status": "success",
            "result": {
                "id": 5,
                "name": "incorrect name"
            }
        }
    "#;
    assert_output(
        expected_output,
        failure_output(
            &parse(json),
            validators::object(vec![
                pair("status", validators::eq("success")),
                pair(
                    "result",
                    validators::object(vec![
                        pair(
                            "id",
                            validators::u64(|&v| {
                                if v > 0 {
                                    Ok(())
                                } else {
                                    Err(String::from("id should be greater than 0"))
                                }
                            }),
                        ),
                        pair("name", validators::eq("charlesvdv")),
                    ]),
                ),
            ]),
        ),
    );
}

#[test]
fn colours_only_when_asked_for() {
    let input = parse("true");
    let error = validators::eq(5).validate(&input).unwrap_err();
    let plain = format_error(&input, &error, false);
    let coloured = format_error(&input, &error, true);
    assert!(!plain.contains('\u{1b}'));
    assert!(coloured.contains('\u{1b}'));
    assert!(plain.starts_with("error: Invalid JSON\n"));
}

fn without_colour(text: &str) -> String {
    let mut plain = String::new();
    let mut inside = false;
    for c in text.chars() {
        if inside {
            inside = c != 'm';
        } else if c == '\u{1b}' {
            inside = true;
        } else {
            plain.push(c);
        }
    }
    plain
}

#[test]
fn the_coloured_message_is_the_plain_one_with_colours() {
    let cases = vec![
        (parse("true"), pair("", validators::eq(5)).1),
        (
            parse(r#"{ "key": "val" }"#),
            pair(
                "",
                validators::object(vec![
                    pair("key", validators::eq("val")),
                    pair("missing_key", validators::null()),
                ]),
            )
            .1,
        ),
        (
            parse(r#"[1, {"name": "incorrect name"}, "mmm"]"#),
            pair(
                "",
                validators::array(vec![
                    pair("", validators::any()).1,
                    pair(
                        "",
                        validators::object(vec![pair("name", validators::eq("charlesvdv"))]),
                    )
                    .1,
                    pair("", validators::any()).1,
                ]),
            )
            .1,
        ),
    ];
    for (input, validator) in cases {
        let error = validator.validate(&input).unwrap_err();
        let plain = format_error(&input, &error, false);
        let coloured = format_error(&input, &error, true);
        assert_ne!(plain, coloured);
        assert_eq!(plain, without_colour(&coloured));
    }
}

#[test]
fn the_coloured_messages_show_the_same_lines() {
    let input = parse("true");
    let error = validators::eq(5).validate(&input).unwrap_err();
    let coloured = without_colour(&format_error(&input, &error, true));
    assert!(coloured.contains("1 │ true\n  │ ^^^^ Invalid type. Expected number but got bool."));

    let input = parse(r#"{ "key": "val" }"#);
    let validator = validators::object(vec![
        pair("key", validators::any()),
        pair("missing_key", validators::null()),
    ]);
    let error = validator.validate(&input).unwrap_err();
    let coloured = without_colour(&format_error(&input, &error, true));
    assert!(coloured.contains(
        "1 │ ╭ {\n2 │ │     \"key\": \"val\"\n3 │ │ }\n  │ ╰─^ Missing key 'missing_key' in object"
    ));
}
