use sim8086::json::parse_json_from_str as parse;
use sim8086::json::{parse_json_from_iter, JsonValue};

#[test]
fn main() {
    let json_str = r#"
        {
            "name": "John Doe",
            "age": 30,
            "is_student": false,
            "grades": [95, 87, 92],
            "address": {
                "street": "123 Main St",
                "city": "Anytown",
                "state": "CA"
            }
        }
    "#;

    let result = parse(json_str);
    assert!(matches!(result, Some(_)));
    println!("{result:?}")
}

#[test]
fn raw_value() {
    let json_str = r#""raw""#;
    let result = parse(json_str);
    assert!(matches!(result, Some(JsonValue::String(_))));
}

#[test]
fn object_members_in_order() {
    let result = parse(r#"{"a": 1, "b": [true, null], "a": "x"}"#).unwrap();
    match result {
        JsonValue::Object(members) => {
            assert_eq!(members.len(), 2);
            assert_eq!(members[0].0, "a");
            assert!(matches!(&members[0].1, JsonValue::String(s) if s == "x"));
            assert_eq!(members[1].0, "b");
            match &members[1].1 {
                JsonValue::Array(items) => {
                    assert_eq!(items.len(), 2);
                    assert!(matches!(items[0], JsonValue::Boolean(true)));
                    assert!(matches!(items[1], JsonValue::Null));
                }
                _ => panic!("expected an array"),
            }
        }
        _ => panic!("expected an object"),
    }
}

#[test]
fn numbers_keep_their_text() {
    assert!(matches!(parse("-12.5e3"), Some(JsonValue::Number(t)) if t == "-12.5e3"));
    assert!(matches!(parse("1.2.3"), None));
    assert!(matches!(parse("-"), None));
}

#[test]
fn string_escapes() {
    assert!(matches!(parse(r#""a\n\"bA""#), Some(JsonValue::String(s)) if s == "a\n\"bA"));
    assert!(matches!(parse(r#""unterminated"#), None));
    assert!(matches!(parse(r#""\q""#), None));
}

#[test]
fn unbalanced_input_is_rejected() {
    assert!(matches!(parse("[1, 2"), None));
    assert!(matches!(parse("}"), None));
    assert!(matches!(parse(""), None));
    let chars: Vec<char> = "  true".chars().collect();
    assert!(matches!(parse_json_from_iter(&chars), Some(JsonValue::Boolean(true))));
}

#[test]
fn unicode_escapes() {
    assert!(matches!(parse(r#""\u0041\u00e9""#), Some(JsonValue::String(s)) if s == "A\u{e9}"));
    assert!(matches!(parse(r#""\ud800""#), None));
    assert!(matches!(parse(r#""\u00g1""#), None));
}
