//! The JSON value model used for field extraction.
//!
//! A parsed line is held as an explicit tagged union. Path expressions
//! descend only through objects, so composite values that are never
//! entered (arrays, and objects used as leaves) carry the canonical text
//! the parser rendered for them; that text is what leaf resolution
//! returns for any value that is neither a string nor null.

use vstd::prelude::*;

verus! {

/// One JSON value: the object structure needed for path traversal, plus
/// the canonical rendering of every composite value.
pub enum JsonValue {
    /// JSON `null` (also what a line that fails to parse is taken as).
    Null,
    /// A JSON boolean.
    Bool(bool),
    /// A JSON number, as its canonical text.
    Num(String),
    /// A JSON string, decoded.
    Text(String),
    /// A JSON array, as its canonical text.
    Arr(String),
    /// A JSON object: its entries in parse order, and its canonical text.
    Obj(Vec<(String, JsonValue)>, String),
}

/// What leaf resolution yields: a string's contents, nothing for null,
/// and the canonical text of every other value.
pub open spec fn leaf_text(v: JsonValue) -> Seq<char> {
    match v {
        JsonValue::Null => Seq::empty(),
        JsonValue::Bool(b) => if b {
            "true"@
        } else {
            "false"@
        },
        JsonValue::Num(s) => s@,
        JsonValue::Text(s) => s@,
        JsonValue::Arr(s) => s@,
        JsonValue::Obj(_, s) => s@,
    }
}

/// The value under `key` in an entry list, taking the first match.
pub open spec fn obj_lookup(entries: Seq<(String, JsonValue)>, key: Seq<char>) -> Option<JsonValue>
    decreases entries.len(),
{
    if entries.len() == 0 {
        None
    } else if entries[0].0@ == key {
        Some(entries[0].1)
    } else {
        obj_lookup(entries.skip(1), key)
    }
}

/// Resolves `v` leaf-wise when no segments remain, and otherwise descends
/// through object entries one key at a time; any step through a value
/// that is not an object, or through an absent key, yields the empty
/// string.
pub open spec fn traverse(v: JsonValue, segs: Seq<Seq<char>>) -> Seq<char>
    decreases segs.len(),
{
    if segs.len() == 0 {
        leaf_text(v)
    } else {
        match v {
            JsonValue::Obj(entries, _) => match obj_lookup(entries@, segs[0]) {
                Some(child) => traverse(child, segs.skip(1)),
                None => Seq::empty(),
            },
            _ => Seq::empty(),
        }
    }
}

/// Leaf resolution of one value.
pub fn leaf_string(v: &JsonValue) -> (r: String)
    ensures
        r@ == leaf_text(*v),
{
    match v {
        JsonValue::Null => String::new(),
        JsonValue::Bool(b) => {
            proof {
                reveal_strlit("true");
                reveal_strlit("false");
            }
            if *b {
                String::from_str("true")
            } else {
                String::from_str("false")
            }
        },
        JsonValue::Num(s) => s.clone(),
        JsonValue::Text(s) => s.clone(),
        JsonValue::Arr(s) => s.clone(),
        JsonValue::Obj(_, s) => s.clone(),
    }
}

/// The value that parsing one line of text yields. Parsing depends on the
/// text alone; a line that is not well-formed JSON parses to `Null`.
pub uninterp spec fn parsed_json(s: Seq<char>) -> JsonValue;

/// Relies on serde_json's `Value` type: the parsed form of one document,
/// carried only between `from_str` and the conversion below.
#[verifier::external_type_specification]
#[verifier::external_body]
pub struct ExSerdeValue(serde_json::Value);

/// Relies on serde_json's `Value` variants and its `Display` rendering:
/// rebuilds the document as the library's tagged union, keeping the
/// canonical text of numbers, arrays and objects.
#[verifier::external_body]
fn json_tree(v: &serde_json::Value) -> JsonValue {
    match v {
        serde_json::Value::Null => JsonValue::Null,
        serde_json::Value::Bool(b) => JsonValue::Bool(*b),
        serde_json::Value::Number(n) => JsonValue::Num(n.to_string()),
        serde_json::Value::String(s) => JsonValue::Text(s.clone()),
        serde_json::Value::Array(_) => JsonValue::Arr(v.to_string()),
        serde_json::Value::Object(m) => JsonValue::Obj(
            m.iter().map(|(k, x)| (k.clone(), json_tree(x))).collect(),
            v.to_string(),
        ),
    }
}

/// Relies on serde_json::from_str: what one line of text parses to is a
/// function of that text alone; a parse failure is absorbed as `Null`.
#[verifier::external_body]
pub(crate) fn parse_json_line(line: &str) -> (r: JsonValue)
    ensures
        r == parsed_json(line@),
{
    match serde_json::from_str::<serde_json::Value>(line) {
        Ok(v) => json_tree(&v),
        Err(_) => JsonValue::Null,
    }
}

} // verus!
