use vstd::prelude::*;

verus! {

/// The view of an optional string.
pub open spec fn opt_view(o: Option<String>) -> Option<Seq<char>> {
    match o {
        Some(s) => Some(s@),
        None => None,
    }
}

/// The string member `key` of the JSON object that `text` holds, if the text
/// is JSON, the value an object, and that member a string.
pub uninterp spec fn json_str_member(text: Seq<char>, key: Seq<char>) -> Option<Seq<char>>;

/// Whether `text` holds a JSON array with at least one element.
pub uninterp spec fn json_first_item_exists(text: Seq<char>) -> bool;

/// The string member `key` of the first element of the JSON array in `text`.
pub uninterp spec fn json_first_item_str(text: Seq<char>, key: Seq<char>) -> Option<Seq<char>>;

/// The decimal text of the number member `key` of the first element of the
/// JSON array in `text`.
pub uninterp spec fn json_first_item_number(text: Seq<char>, key: Seq<char>) -> Option<Seq<char>>;

/// The number member `key` of the first element of the JSON array in `text`,
/// as the nearest `f64` printed with one fractional digit.
pub uninterp spec fn json_first_item_tenths(text: Seq<char>, key: Seq<char>) -> Option<Seq<char>>;

/// The integer member `key`, when it fits in `i64`, of the first element of
/// the JSON array in `text`.
pub uninterp spec fn json_first_item_i64(text: Seq<char>, key: Seq<char>) -> Option<int>;

/// Relies on serde_json::from_str, Value::get and Value::as_str: the string
/// member `key` of the JSON object in `text`.
#[verifier::external_body]
pub(crate) fn str_member(text: &str, key: &str) -> (r: Option<String>)
    ensures
        opt_view(r) == json_str_member(text@, key@),
{
    let v: serde_json::Value = serde_json::from_str(text).ok()?;
    v.get(key)?.as_str().map(|s| s.to_string())
}

/// Relies on serde_json::from_str and Value::as_array: whether `text` is a
/// JSON array with a first element.
#[verifier::external_body]
pub(crate) fn first_item_exists(text: &str) -> (r: bool)
    ensures
        r == json_first_item_exists(text@),
{
    match serde_json::from_str::<serde_json::Value>(text) {
        Ok(v) => v.as_array().map_or(false, |a| !a.is_empty()),
        Err(_) => false,
    }
}

/// Relies on serde_json::from_str, Value::as_array, Value::get and
/// Value::as_str: a string member of the first array element.
#[verifier::external_body]
pub(crate) fn first_item_str(text: &str, key: &str) -> (r: Option<String>)
    ensures
        opt_view(r) == json_first_item_str(text@, key@),
{
    let v: serde_json::Value = serde_json::from_str(text).ok()?;
    v.as_array()?.first()?.get(key)?.as_str().map(|s| s.to_string())
}

/// Relies on serde_json::from_str, Value::as_array, Value::get,
/// Value::as_number and `Display` for `Number`: a number member of the first
/// array element, as its decimal text.
#[verifier::external_body]
pub(crate) fn first_item_number(text: &str, key: &str) -> (r: Option<String>)
    ensures
        opt_view(r) == json_first_item_number(text@, key@),
{
    let v: serde_json::Value = serde_json::from_str(text).ok()?;
    v.as_array()?.first()?.get(key)?.as_number().map(|n| n.to_string())
}

/// Relies on serde_json::from_str, Value::as_array, Value::get,
/// Value::as_f64 and std's `{:.1}` formatting: a number member of the first
/// array element with one fractional digit.
#[verifier::external_body]
pub(crate) fn first_item_tenths(text: &str, key: &str) -> (r: Option<String>)
    ensures
        opt_view(r) == json_first_item_tenths(text@, key@),
{
    let v: serde_json::Value = serde_json::from_str(text).ok()?;
    v.as_array()?.first()?.get(key)?.as_f64().map(|x| format!("{:.1}", x))
}

/// Relies on serde_json::from_str, Value::as_array, Value::get and
/// Value::as_i64: an integer member of the first array element.
#[verifier::external_body]
pub(crate) fn first_item_i64(text: &str, key: &str) -> (r: Option<i64>)
    ensures
        match r {
            Some(n) => json_first_item_i64(text@, key@) == Some(n as int),
            None => json_first_item_i64(text@, key@) is None,
        },
{
    let v: serde_json::Value = serde_json::from_str(text).ok()?;
    v.as_array()?.first()?.get(key)?.as_i64()
}

} // verus!
