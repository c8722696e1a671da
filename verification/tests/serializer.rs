use assert_json::{Number, SpanSerializer, Value};

fn entry(key: &str, value: Value) -> (String, Value) {
    (String::from(key), value)
}

#[test]
fn serializer_primitive() {
    let value = Value::Null;

    let serializer = SpanSerializer::serialize(&value);
    assert_eq!("null", serializer.serialized_json());
    assert_eq!(0..4, serializer.span(&vec![]));
}

#[test]
fn serialize_object() {
    let value = Value::Object(vec![
        entry("key", Value::String(String::from("value"))),
        entry("key_2", Value::Number(Number::Float(String::from("2.1")))),
    ]);
    let num_value = vec![1];

    let serializer = SpanSerializer::serialize(&value);
    assert_eq!(
        "{\n    \"key\": \"value\",\n    \"key_2\": 2.1\n}",
        serializer.serialized_json()
    );
    assert_eq!(35..38, serializer.span(&num_value));
}

#[test]
fn serialize_array() {
    let value = Value::Array(vec![
        Value::Null,
        Value::Bool(true),
        Value::Object(vec![entry("key", Value::Number(Number::NegInt(-5)))]),
    ]);

    let serializer = SpanSerializer::serialize(&value);
    assert_eq!(
        "[\n    null,\n    true,\n    {\n        \"key\": -5\n    }\n]",
        serializer.serialized_json()
    );
}

#[test]
fn empty_composites_keep_their_two_line_breaks() {
    let array = SpanSerializer::serialize(&Value::Array(vec![]));
    assert_eq!("[\n\n]", array.serialized_json());
    assert_eq!(0..4, array.span(&vec![]));

    let object = SpanSerializer::serialize(&Value::Object(vec![]));
    assert_eq!("{\n\n}", object.serialized_json());
}

#[test]
fn strings_are_printed_without_escaping() {
    let value = Value::String(String::from("a\"b\\c"));
    let serializer = SpanSerializer::serialize(&value);
    assert_eq!("\"a\"b\\c\"", serializer.serialized_json());
}

#[test]
fn integers_are_printed_in_decimal() {
    let value = Value::Array(vec![
        Value::Number(Number::PosInt(0)),
        Value::Number(Number::PosInt(18446744073709551615)),
        Value::Number(Number::NegInt(-9223372036854775808)),
        Value::Number(Number::NegInt(7)),
    ]);
    let serializer = SpanSerializer::serialize(&value);
    assert_eq!(
        "[\n    0,\n    18446744073709551615,\n    -9223372036854775808,\n    7\n]",
        serializer.serialized_json()
    );
}

#[test]
fn spans_count_bytes_not_characters() {
    let value = Value::Array(vec![
        Value::String(String::from("é")),
        Value::Number(Number::PosInt(1)),
    ]);
    let serializer = SpanSerializer::serialize(&value);
    let text = serializer.serialized_json();
    assert_eq!("[\n    \"é\",\n    1\n]", text);
    assert_eq!(0..text.len(), serializer.span(&vec![]));
    assert_eq!(6..10, serializer.span(&vec![0]));
    assert_eq!(16..17, serializer.span(&vec![1]));
    assert_eq!("\"é\"", &text[6..10]);
}

#[test]
fn root_span_is_the_whole_text() {
    let value = Value::Object(vec![
        entry("a", Value::Array(vec![Value::Null, Value::Bool(false)])),
        entry("b", Value::String(String::from("x"))),
    ]);
    let serializer = SpanSerializer::serialize(&value);
    assert_eq!(
        0..serializer.serialized_json().len(),
        serializer.span(&vec![])
    );
}

#[test]
fn descendant_spans_lie_within_ancestor_spans() {
    let value = Value::Object(vec![
        entry("a", Value::Array(vec![Value::Null, Value::Bool(false)])),
        entry("b", Value::String(String::from("x"))),
    ]);
    let serializer = SpanSerializer::serialize(&value);
    let text = serializer.serialized_json();
    let root = serializer.span(&vec![]);
    let a = serializer.span(&vec![0]);
    let a1 = serializer.span(&vec![0, 1]);
    let b = serializer.span(&vec![1]);
    assert!(root.start <= a.start && a.end <= root.end);
    assert!(a.start <= a1.start && a1.end <= a.end);
    assert!(root.start <= b.start && b.end <= root.end);
    assert_eq!("false", &text[a1]);
    assert_eq!("\"x\"", &text[b]);
    assert_eq!("[\n        null,\n        false\n    ]", &text[a]);
}

#[test]
fn equal_nodes_at_two_places_have_two_spans() {
    let value = Value::Array(vec![Value::Null, Value::Null]);
    let serializer = SpanSerializer::serialize(&value);
    assert_eq!(6..10, serializer.span(&vec![0]));
    assert_eq!(16..20, serializer.span(&vec![1]));
}

#[test]
fn a_path_that_leaves_the_document_has_no_span() {
    let value = Value::Array(vec![Value::Null]);
    let serializer = SpanSerializer::serialize(&value);
    assert_eq!(None, serializer.find_span(&vec![1]));
    assert_eq!(None, serializer.find_span(&vec![0, 0]));
    assert_eq!(Some(6..10), serializer.find_span(&vec![0]));
}

#[test]
fn spans_nest_strictly_and_siblings_do_not_meet() {
    let value = Value::Array(vec![
        Value::Array(vec![Value::Null]),
        Value::Object(vec![
            entry("a", Value::String(String::new())),
            entry("b", Value::Array(vec![])),
        ]),
    ]);
    let serializer = SpanSerializer::serialize(&value);
    let paths: Vec<Vec<usize>> = vec![
        vec![],
        vec![0],
        vec![0, 0],
        vec![1],
        vec![1, 0],
        vec![1, 1],
    ];
    for a in &paths {
        let outer = serializer.span(a);
        assert!(outer.start < outer.end);
        for b in &paths {
            let inner = serializer.span(b);
            if b.len() > a.len() && b[..a.len()] == a[..] {
                assert!(outer.start < inner.start && inner.end < outer.end);
            } else if a != b && !(a.len() > b.len() && a[..b.len()] == b[..]) {
                assert!(outer.end < inner.start || inner.end < outer.start);
            }
        }
    }
}
