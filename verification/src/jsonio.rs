//! Trusted access to JSON argument text through serde_json.
//!
//! Tool arguments travel through the engine as raw serialized-object
//! strings. What such a string parses to is serde_json's business; these
//! wrappers name the results so that verified code can reason about them.

use vstd::prelude::*;

verus! {

/// Whether serde_json parses `s` as a JSON document.
pub uninterp spec fn json_value_ok(s: Seq<char>) -> bool;

/// The message serde_json renders for the parse failure on `s`.
pub uninterp spec fn json_parse_err(s: Seq<char>) -> Seq<char>;

/// The string value at `key` of the document `s`, when `s` parses to an
/// object holding a string there.
pub uninterp spec fn json_str_field(s: Seq<char>, key: Seq<char>) -> Option<Seq<char>>;

/// Whether the document `s` parses to an object or array holding `key`.
pub uninterp spec fn json_has_field(s: Seq<char>, key: Seq<char>) -> bool;

/// The compact serialization of the value at `key` of the document `s`.
pub uninterp spec fn json_field_text(s: Seq<char>, key: Seq<char>) -> Option<Seq<char>>;

/// The pretty-printed serialization of the value at `key` of the document
/// `s`.
pub uninterp spec fn json_field_text_pretty(s: Seq<char>, key: Seq<char>) -> Option<Seq<char>>;

/// The number of elements of the array at `key` of the document `s`.
pub uninterp spec fn json_array_len(s: Seq<char>, key: Seq<char>) -> Option<int>;

/// The entry list of the array at `list_key` of the document `s`: for each
/// element, its string at `name_key` and the compact serialization of its
/// value at `params_key`.
pub uninterp spec fn json_entry_list(
    s: Seq<char>,
    list_key: Seq<char>,
    name_key: Seq<char>,
    params_key: Seq<char>,
) -> Option<Seq<(Option<Seq<char>>, Option<Seq<char>>)>>;

/// Relies on serde_json::from_str::<Value>: `Ok` exactly when `s` is valid
/// JSON, and the error case renders serde_json's own message.
#[verifier::external_body]
pub fn json_check(s: &str) -> (r: Result<(), String>)
    ensures
        r is Ok <==> json_value_ok(s@),
        r matches Err(e) ==> e@ == json_parse_err(s@),
{
    match serde_json::from_str::<serde_json::Value>(s) {
        Ok(_) => Ok(()),
        Err(e) => Err(e.to_string()),
    }
}

/// Relies on serde_json::from_str::<Value>, Value::get and Value::as_str:
/// the string value at `key`, when the document parses and holds one.
#[verifier::external_body]
pub fn json_get_str(s: &str, key: &str) -> (r: Option<String>)
    ensures
        r.deep_view() == json_str_field(s@, key@),
        !json_value_ok(s@) ==> r is None,
{
    match serde_json::from_str::<serde_json::Value>(s) {
        Ok(v) => v.get(key).and_then(|f| f.as_str()).map(|t| t.to_string()),
        Err(_) => None,
    }
}

/// Relies on serde_json::from_str::<Value> and Value::get: whether the
/// parsed document holds `key`.
#[verifier::external_body]
pub fn json_has_key(s: &str, key: &str) -> (r: bool)
    ensures
        r == json_has_field(s@, key@),
        !json_value_ok(s@) ==> !r,
{
    match serde_json::from_str::<serde_json::Value>(s) {
        Ok(v) => v.get(key).is_some(),
        Err(_) => false,
    }
}

/// Relies on serde_json::from_str::<Value>, Value::get and
/// serde_json::to_string: the compact text of the value at `key`.
#[verifier::external_body]
pub fn json_get_field_text(s: &str, key: &str) -> (r: Option<String>)
    ensures
        r.deep_view() == json_field_text(s@, key@),
        !json_value_ok(s@) ==> r is None,
{
    match serde_json::from_str::<serde_json::Value>(s) {
        Ok(v) => v.get(key).and_then(|f| serde_json::to_string(f).ok()),
        Err(_) => None,
    }
}

/// Relies on serde_json::from_str::<Value>, Value::get and
/// serde_json::to_string_pretty: the pretty-printed text of the value at
/// `key`.
#[verifier::external_body]
pub fn json_get_field_text_pretty(s: &str, key: &str) -> (r: Option<String>)
    ensures
        r.deep_view() == json_field_text_pretty(s@, key@),
        !json_value_ok(s@) ==> r is None,
{
    match serde_json::from_str::<serde_json::Value>(s) {
        Ok(v) => v.get(key).and_then(|f| serde_json::to_string_pretty(f).ok()),
        Err(_) => None,
    }
}

/// Relies on serde_json::from_str::<Value>, Value::get and Value::as_array:
/// the length of the array at `key`, when the document parses and holds one.
#[verifier::external_body]
pub fn json_get_array_len(s: &str, key: &str) -> (r: Option<usize>)
    ensures
        match r {
            Option::Some(n) => json_array_len(s@, key@) == Option::Some(n as int),
            Option::None => json_array_len(s@, key@) is None,
        },
        !json_value_ok(s@) ==> r is None,
{
    match serde_json::from_str::<serde_json::Value>(s) {
        Ok(v) => v.get(key).and_then(|f| f.as_array()).map(|a| a.len()),
        Err(_) => None,
    }
}

/// Relies on serde_json::from_str::<Value>, Value::get, Value::as_array,
/// Value::as_str and serde_json::to_string: the entries of the array at
/// `list_key`, each reduced to its string at `name_key` and the compact
/// text of its value at `params_key`.
#[verifier::external_body]
pub fn json_get_entry_list(s: &str, list_key: &str, name_key: &str, params_key: &str) -> (r: Option<
    Vec<(Option<String>, Option<String>)>,
>)
    ensures
        r is Some <==> json_entry_list(s@, list_key@, name_key@, params_key@) is Some,
        r matches Some(v) ==> {
            let m = json_entry_list(s@, list_key@, name_key@, params_key@)->0;
            &&& v@.len() == m.len()
            &&& forall|i: int|
                0 <= i < m.len() ==> (#[trigger] v@[i]).0.deep_view() == m[i].0 && v@[i].1.deep_view()
                    == m[i].1
        },
        !json_value_ok(s@) ==> r is None,
{
    let v: serde_json::Value = serde_json::from_str(s).ok()?;
    let arr = v.get(list_key)?.as_array()?;
    Some(
        arr.iter().map(
            |e| (
                e.get(name_key).and_then(|t| t.as_str()).map(|t| t.to_string()),
                e.get(params_key).map(|p| serde_json::to_string(p).unwrap_or_default()),
            ),
        ).collect(),
    )
}

} // verus!
