use modelcards::json::JsonValue;
use modelcards::merge::from_strings;
use modelcards::merge::merge;

fn num(i: i64) -> JsonValue {
    JsonValue::Number(serde_json::Number::from(i))
}

fn text(t: &str) -> JsonValue {
    JsonValue::Text(t.to_string())
}

fn arr(items: Vec<JsonValue>) -> JsonValue {
    JsonValue::Array(items)
}

fn obj(entries: Vec<(&str, JsonValue)>) -> JsonValue {
    JsonValue::Object(entries.into_iter().map(|(k, v)| (k.to_string(), v)).collect())
}

#[test]
fn test_merge() {
    let mut a = obj(vec![
        ("a", num(1)),
        ("b", num(2)),
        ("c", arr(vec![num(1), num(2), num(3)])),
        ("d", obj(vec![("e", num(3)), ("f", num(4))])),
    ]);
    let b = obj(vec![
        ("b", num(3)),
        ("c", arr(vec![num(4), num(5), num(6)])),
        ("d", obj(vec![("f", num(5)), ("g", num(6))])),
    ]);
    merge(&mut a, b);
    let expected = obj(vec![
        ("a", num(1)),
        ("b", num(3)),
        ("c", arr(vec![num(4), num(5), num(6)])),
        ("d", obj(vec![("e", num(3)), ("f", num(5)), ("g", num(6))])),
    ]);
    assert_eq!(a, expected);
}

#[test]
fn test_merge_overwrite_primitive() {
    let mut a = obj(vec![("a", num(1)), ("b", num(2))]);
    let b = obj(vec![("b", num(3)), ("c", num(4))]);
    merge(&mut a, b);
    let expected = obj(vec![("a", num(1)), ("b", num(3)), ("c", num(4))]);
    assert_eq!(a, expected);
}

#[test]
fn test_merge_nested_object() {
    let mut a = obj(vec![("a", obj(vec![("b", num(1)), ("c", num(2))]))]);
    let b = obj(vec![("a", obj(vec![("c", num(3)), ("d", num(4))]))]);
    merge(&mut a, b);
    let expected = obj(vec![("a", obj(vec![("b", num(1)), ("c", num(3)), ("d", num(4))]))]);
    assert_eq!(a, expected);
}

#[test]
fn test_merge_with_array_replacement() {
    let mut a = obj(vec![("a", arr(vec![num(1), num(2), num(3)]))]);
    let b = obj(vec![("a", arr(vec![num(4), num(5), num(6)]))]);
    merge(&mut a, b);
    let expected = obj(vec![("a", arr(vec![num(4), num(5), num(6)]))]);
    assert_eq!(a, expected);
}

#[test]
fn test_merge_adds_new_elements() {
    let mut a = obj(vec![("a", num(1))]);
    let b = obj(vec![("b", num(2))]);
    merge(&mut a, b);
    let expected = obj(vec![("a", num(1)), ("b", num(2))]);
    assert_eq!(a, expected);
}

#[test]
fn test_merge_from_strings() {
    let strings = vec!["{\"a\": 1}".to_string(), "{\"b\": 2}".to_string()];
    let result = from_strings(strings).unwrap();
    let expected = obj(vec![("a", num(1)), ("b", num(2))]);
    assert_eq!(result, expected);
}

#[test]
fn test_merge_from_strings_with_error() {
    let strings = vec!["{\"a\": 1}".to_string(), "invalid json".to_string()];
    let result = from_strings(strings);
    assert!(result.is_err());
}

#[test]
fn merge_single_string_is_identity() {
    let strings = vec!["{\"x\": {\"y\": [1, 2]}, \"z\": \"s\"}".to_string()];
    let result = from_strings(strings).unwrap();
    let expected = obj(vec![
        ("x", obj(vec![("y", arr(vec![num(1), num(2)]))])),
        ("z", text("s")),
    ]);
    assert_eq!(result, expected);
}

#[test]
fn merge_no_strings_yields_empty_object() {
    let result = from_strings(vec![]).unwrap();
    assert_eq!(result, obj(vec![]));
}

#[test]
fn merge_keeps_key_order() {
    let strings = vec![
        "{\"a\": 1, \"b\": 2}".to_string(),
        "{\"b\": 3, \"c\": 4}".to_string(),
    ];
    let result = from_strings(strings).unwrap();
    let expected = obj(vec![("a", num(1)), ("b", num(3)), ("c", num(4))]);
    assert_eq!(result, expected);
}

#[test]
fn merge_scalar_overwrites_number_with_string() {
    let mut a = obj(vec![("a", num(1))]);
    let b = obj(vec![("a", text("s"))]);
    merge(&mut a, b);
    assert_eq!(a, obj(vec![("a", text("s"))]));
}

#[test]
fn merge_swapped_sources_differ() {
    let first = from_strings(vec!["{\"a\": 1}".to_string(), "{\"a\": 2}".to_string()]).unwrap();
    let second = from_strings(vec!["{\"a\": 2}".to_string(), "{\"a\": 1}".to_string()]).unwrap();
    assert_eq!(first, obj(vec![("a", num(2))]));
    assert_eq!(second, obj(vec![("a", num(1))]));
}
