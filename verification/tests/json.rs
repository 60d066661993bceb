use bluetooth_devices::json::{parse_json, JsonMember, JsonValue};

fn text(value: &str) -> JsonValue {
    JsonValue::Text(value.to_string())
}

fn member(key: &str, value: JsonValue) -> JsonMember {
    JsonMember { key: key.to_string(), value }
}

#[test]
fn parse_json_builds_the_tree_of_the_document() {
    let document = parse_json(r#"{"b": [1, -2, 1.5, "x", true, null], "a": {"k": "v"}}"#);
    let expected = JsonValue::Object(vec![
        member("a", JsonValue::Object(vec![member("k", text("v"))])),
        member(
            "b",
            JsonValue::Array(vec![
                JsonValue::Number("1".to_string()),
                JsonValue::Number("-2".to_string()),
                JsonValue::Number("1.5".to_string()),
                text("x"),
                JsonValue::Bool(true),
                JsonValue::Null,
            ]),
        ),
    ]);
    assert_eq!(document, Some(expected));
}

#[test]
fn parse_json_refuses_what_is_not_json() {
    assert_eq!(parse_json(""), None);
    assert_eq!(parse_json("{"), None);
    assert_eq!(parse_json("{\"a\": }"), None);
    assert_eq!(parse_json("Bluetooth:\n  Connected:\n"), None);
    assert_eq!(parse_json("[1, 2] trailing"), None);
}

#[test]
fn parse_json_refuses_too_deep_a_document_without_failing() {
    let deep = "[".repeat(100_000);
    assert_eq!(parse_json(&deep), None);
}

#[test]
fn parse_json_reads_plain_values() {
    assert_eq!(parse_json("null"), Some(JsonValue::Null));
    assert_eq!(parse_json(" \"85%\" "), Some(text("85%")));
    assert_eq!(parse_json("[]"), Some(JsonValue::Array(vec![])));
    assert_eq!(parse_json("{}"), Some(JsonValue::Object(vec![])));
}

#[test]
fn get_finds_the_first_member_with_the_key() {
    let object = JsonValue::Object(vec![
        member("a", text("1")),
        member("b", text("2")),
        member("a", text("3")),
    ]);
    assert_eq!(object.get("a"), Some(&text("1")));
    assert_eq!(object.get("b"), Some(&text("2")));
    assert_eq!(object.get("c"), None);
    assert_eq!(object.get(""), None);
    assert_eq!(JsonValue::Array(vec![text("a")]).get("a"), None);
    assert_eq!(JsonValue::Null.get("a"), None);
}

#[test]
fn at_indexes_arrays_only() {
    let array = JsonValue::Array(vec![text("x"), text("y")]);
    assert_eq!(array.at(0), Some(&text("x")));
    assert_eq!(array.at(1), Some(&text("y")));
    assert_eq!(array.at(2), None);
    assert_eq!(JsonValue::Object(vec![member("0", text("x"))]).at(0), None);
    assert_eq!(text("xy").at(0), None);
}

#[test]
fn as_array_and_as_text_tell_the_variants_apart() {
    let array = JsonValue::Array(vec![text("x")]);
    assert_eq!(array.as_array(), Some(&vec![text("x")]));
    assert_eq!(array.as_text(), None);
    assert_eq!(text("x").as_text(), Some("x"));
    assert_eq!(text("x").as_array(), None);
    assert_eq!(JsonValue::Number("5".to_string()).as_text(), None);
}

#[test]
fn first_member_is_the_first_listed() {
    let object = JsonValue::Object(vec![member("b", text("2")), member("a", text("1"))]);
    assert_eq!(object.first_member(), Some(&member("b", text("2"))));
    assert_eq!(JsonValue::Object(vec![]).first_member(), None);
    assert_eq!(JsonValue::Array(vec![text("a")]).first_member(), None);
}
