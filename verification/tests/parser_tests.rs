//! Table-driven tests of the path extractor against hand-built JSON
//! values, covering every recognized path form and every leaf type.

use logparser::json::JsonValue;
use logparser::parser::extract_field;

fn sample_object() -> JsonValue {
    // {"a": {"b": "deep"}, "s": "text", "n": 5, "t": true,
    //  "z": null, "arr": [1,2], "obj": {"k": 1}}
    JsonValue::Obj(
        vec![
            (
                "a".to_string(),
                JsonValue::Obj(
                    vec![("b".to_string(), JsonValue::Text("deep".to_string()))],
                    "{\"b\":\"deep\"}".to_string(),
                ),
            ),
            ("s".to_string(), JsonValue::Text("text".to_string())),
            ("n".to_string(), JsonValue::Num("5".to_string())),
            ("t".to_string(), JsonValue::Bool(true)),
            ("z".to_string(), JsonValue::Null),
            ("arr".to_string(), JsonValue::Arr("[1,2]".to_string())),
            (
                "obj".to_string(),
                JsonValue::Obj(
                    vec![("k".to_string(), JsonValue::Num("1".to_string()))],
                    "{\"k\":1}".to_string(),
                ),
            ),
        ],
        "{}".to_string(),
    )
}

#[test]
fn lineno_path_renders_the_line_number() {
    let root = JsonValue::Null;
    assert_eq!(extract_field(&root, "$lineno", "raw", 42), "42");
    assert_eq!(extract_field(&root, "$lineno", "anything", 1), "1");
    assert_eq!(extract_field(&root, "$lineno", "", 1234567890), "1234567890");
}

#[test]
fn line_paths_return_the_raw_line() {
    let root = sample_object();
    assert_eq!(extract_field(&root, "$line", "the raw line", 7), "the raw line");
    assert_eq!(extract_field(&root, "$0", "the raw line", 7), "the raw line");
    // Independent of the parsed value, even for a failed parse.
    assert_eq!(extract_field(&JsonValue::Null, "$line", "not json", 7), "not json");
}

#[test]
fn dotted_paths_traverse_objects() {
    let root = sample_object();
    assert_eq!(extract_field(&root, "$line.s", "r", 1), "text");
    assert_eq!(extract_field(&root, "$0.s", "r", 1), "text");
    assert_eq!(extract_field(&root, "$line.a.b", "r", 1), "deep");
    assert_eq!(extract_field(&root, "$0.a.b", "r", 1), "deep");
}

#[test]
fn leaves_resolve_to_canonical_text() {
    let root = sample_object();
    assert_eq!(extract_field(&root, "$line.n", "r", 1), "5");
    assert_eq!(extract_field(&root, "$line.t", "r", 1), "true");
    assert_eq!(extract_field(&root, "$line.z", "r", 1), "");
    assert_eq!(extract_field(&root, "$line.arr", "r", 1), "[1,2]");
    assert_eq!(extract_field(&root, "$line.obj", "r", 1), "{\"k\":1}");
}

#[test]
fn absent_keys_and_bad_steps_yield_empty() {
    let root = sample_object();
    assert_eq!(extract_field(&root, "$line.missing", "r", 1), "");
    // Descending through a non-object stops with the empty string.
    assert_eq!(extract_field(&root, "$line.s.x", "r", 1), "");
    assert_eq!(extract_field(&root, "$line.a.b.c", "r", 1), "");
    // Traversal of a non-object root.
    assert_eq!(extract_field(&JsonValue::Null, "$line.a", "r", 1), "");
}

#[test]
fn unrecognized_paths_yield_empty() {
    let root = sample_object();
    assert_eq!(extract_field(&root, "", "r", 1), "");
    assert_eq!(extract_field(&root, "s", "r", 1), "");
    assert_eq!(extract_field(&root, "$linex", "r", 1), "");
    assert_eq!(extract_field(&root, "$1.a", "r", 1), "");
    assert_eq!(extract_field(&root, "lineno", "r", 1), "");
}
