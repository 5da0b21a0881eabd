use vstd::prelude::*;

verus! {

/// The string under `key` in the JSON object that `text` encodes; `None` when
/// `text` is not valid JSON, is not an object, lacks the key, or the value
/// there is not a string.
pub uninterp spec fn json_str_field(text: Seq<char>, key: Seq<char>) -> Option<Seq<char>>;

/// The unsigned integer under `key` in the JSON object that `text` encodes;
/// `None` in every other case.
pub uninterp spec fn json_u64_field(text: Seq<char>, key: Seq<char>) -> Option<u64>;

/// The message of the error that parsing `text` as JSON gives, or `None`
/// when `text` is valid JSON.
pub uninterp spec fn json_parse_error(text: Seq<char>) -> Option<Seq<char>>;

/// `serde_json::from_str::<Value>(text)`, then `Value::get(key)` and
/// `Value::as_str`: the string field `key` of the JSON object in `text`.
/// Claimed: the result is `json_str_field` of the arguments; nothing more.
#[verifier::external_body]
pub(crate) fn json_string_field(text: &str, key: &str) -> (r: Option<String>)
    ensures
        match r {
            Some(v) => json_str_field(text@, key@) == Some(v@),
            None => json_str_field(text@, key@) is None,
        },
{
    match serde_json::from_str::<serde_json::Value>(text) {
        Ok(v) => v.get(key).and_then(|x| x.as_str()).map(|x| x.to_string()),
        Err(_) => None,
    }
}

/// `serde_json::from_str::<Value>(text)`, then `Value::get(key)` and
/// `Value::as_u64`: the unsigned integer field `key` of the JSON object in
/// `text`. Claimed: the result is `json_u64_field` of the arguments.
#[verifier::external_body]
pub(crate) fn json_unsigned_field(text: &str, key: &str) -> (r: Option<u64>)
    ensures
        r == json_u64_field(text@, key@),
{
    match serde_json::from_str::<serde_json::Value>(text) {
        Ok(v) => v.get(key).and_then(|x| x.as_u64()),
        Err(_) => None,
    }
}

/// `serde_json::from_str::<Value>(text)`: `None` when it parses, else the
/// error's `Display` text. Claimed: the result is `json_parse_error` of `text`.
#[verifier::external_body]
pub(crate) fn json_check(text: &str) -> (r: Option<String>)
    ensures
        match r {
            Some(m) => json_parse_error(text@) == Some(m@),
            None => json_parse_error(text@) is None,
        },
{
    match serde_json::from_str::<serde_json::Value>(text) {
        Ok(_) => None,
        Err(e) => Some(e.to_string()),
    }
}

/// The compact JSON text of the value that `text` encodes (`None` when
/// `text` is not valid JSON).
pub uninterp spec fn json_compact(text: Seq<char>) -> Option<Seq<char>>;

/// The compact JSON text of the object `{"path": path, "count": count}`.
pub uninterp spec fn json_path_count_text(path: Seq<char>, count: nat) -> Seq<char>;

/// `serde_json::from_str::<Value>(text)` then `Value`'s `Display` (compact
/// JSON). Claimed: the result is `json_compact(text)`, and it is `None`
/// exactly when parsing fails, as for `json_check`.
#[verifier::external_body]
pub(crate) fn render_json(text: &str) -> (r: Option<String>)
    ensures
        match r {
            Some(c) => json_compact(text@) == Some(c@),
            None => json_compact(text@) is None,
        },
        r is None <==> json_parse_error(text@) is Some,
{
    match serde_json::from_str::<serde_json::Value>(text) {
        Ok(v) => Some(v.to_string()),
        Err(_) => None,
    }
}

/// `serde_json::to_string` of the object with a string `path` and a number
/// `count`. Claimed: the result is `json_path_count_text` of the arguments.
#[verifier::external_body]
pub(crate) fn json_path_count(path: &str, count: usize) -> (r: String)
    ensures
        r@ == json_path_count_text(path@, count as nat),
{
    let mut m = serde_json::Map::new();
    m.insert("path".to_string(), serde_json::Value::String(path.to_string()));
    m.insert("count".to_string(), serde_json::Value::from(count));
    serde_json::Value::Object(m).to_string()
}

/// The compact JSON text of the value under `key` in the JSON object that
/// `text` encodes; `None` when there is no such value.
pub uninterp spec fn json_field_text(text: Seq<char>, key: Seq<char>) -> Option<Seq<char>>;

/// The compact JSON texts of the elements of the array that `text`
/// encodes; `None` when `text` is not a JSON array.
pub uninterp spec fn json_items(text: Seq<char>) -> Option<Seq<Seq<char>>>;

/// The boolean under `key` in the JSON object that `text` encodes.
pub uninterp spec fn json_bool_field(text: Seq<char>, key: Seq<char>) -> Option<bool>;

/// The pretty-printed JSON text of the value that `text` encodes.
pub uninterp spec fn json_pretty(text: Seq<char>) -> Option<Seq<char>>;

/// `serde_json::from_str::<Value>(text)`, `Value::get(key)`, then the
/// value's `Display` (compact JSON). Claimed: the result is
/// `json_field_text` of the arguments.
#[verifier::external_body]
pub(crate) fn json_field(text: &str, key: &str) -> (r: Option<String>)
    ensures
        match r {
            Some(v) => json_field_text(text@, key@) == Some(v@),
            None => json_field_text(text@, key@) is None,
        },
{
    match serde_json::from_str::<serde_json::Value>(text) {
        Ok(v) => v.get(key).map(|x| x.to_string()),
        Err(_) => None,
    }
}

/// `serde_json::from_str::<Value>(text)`, `Value::as_array`, then each
/// element's `Display`. Claimed: the result is `json_items(text)`.
#[verifier::external_body]
pub(crate) fn json_array_items(text: &str) -> (r: Option<Vec<String>>)
    ensures
        match r {
            Some(v) => json_items(text@) == Some(v@.map_values(|x: String| x@)),
            None => json_items(text@) is None,
        },
{
    match serde_json::from_str::<serde_json::Value>(text) {
        Ok(v) => v.as_array().map(|a| a.iter().map(|x| x.to_string()).collect()),
        Err(_) => None,
    }
}

/// `serde_json::from_str::<Value>(text)`, `Value::get(key)`, then
/// `Value::as_bool`. Claimed: the result is `json_bool_field` of the arguments.
#[verifier::external_body]
pub(crate) fn json_boolean_field(text: &str, key: &str) -> (r: Option<bool>)
    ensures
        r == json_bool_field(text@, key@),
{
    match serde_json::from_str::<serde_json::Value>(text) {
        Ok(v) => v.get(key).and_then(|x| x.as_bool()),
        Err(_) => None,
    }
}

/// `serde_json::from_str::<Value>(text)`, then `serde_json::to_string_pretty`.
/// Claimed: the result is `json_pretty(text)`.
#[verifier::external_body]
pub(crate) fn render_json_pretty(text: &str) -> (r: Option<String>)
    ensures
        match r {
            Some(v) => json_pretty(text@) == Some(v@),
            None => json_pretty(text@) is None,
        },
{
    match serde_json::from_str::<serde_json::Value>(text) {
        Ok(v) => serde_json::to_string_pretty(&v).ok(),
        Err(_) => None,
    }
}

} // verus!
