use vstd::prelude::*;

verus! {

/// What a JSON value holds, as far as this library reads it: strings,
/// arrays and objects are kept, every other value is `Scalar`.
pub enum Json {
    Scalar,
    Str(Seq<char>),
    Array(Seq<Json>),
    Object(Map<Seq<char>, Json>),
}

#[verifier::external_type_specification]
#[verifier::external_body]
pub struct ExValue(serde_json::Value);

/// What a `serde_json::Value` holds.
pub uninterp spec fn json_view(v: serde_json::Value) -> Json;

/// The document that JSON text `text` denotes, or `None` where `text` is
/// not a JSON document.
pub uninterp spec fn json_parse(text: Seq<char>) -> Option<Json>;

/// Relies on `serde_json::from_str::<serde_json::Value>`: the document that
/// the text denotes, or an error where it is not JSON.
#[verifier::external_body]
pub(crate) fn parse_json(text: &str) -> (r: Option<serde_json::Value>)
    ensures
        match r {
            Some(v) => json_parse(text@) == Some(json_view(v)),
            None => json_parse(text@) is None,
        },
{
    serde_json::from_str::<serde_json::Value>(text).ok()
}

/// Relies on `serde_json::Value::get` with a `&str` key: the member under
/// `key` of an object, and `None` for a missing key or a value that is not
/// an object.
#[verifier::external_body]
pub(crate) fn json_member<'a>(v: &'a serde_json::Value, key: &str) -> (r: Option<
    &'a serde_json::Value,
>)
    ensures
        match json_view(*v) {
            Json::Object(m) => if m.contains_key(key@) {
                r matches Some(c) && json_view(*c) == m[key@]
            } else {
                r is None
            },
            _ => r is None,
        },
{
    v.get(key)
}

/// Relies on `serde_json::Value::as_array`: the elements of an array, and
/// `None` for any other value.
pub assume_specification<'a>[ serde_json::Value::as_array ](v: &'a serde_json::Value) -> (r:
    Option<&'a Vec<serde_json::Value>>)
    ensures
        match json_view(*v) {
            Json::Array(s) => r matches Some(a) && a@.len() == s.len() && forall|i: int|
                0 <= i < s.len() ==> json_view(#[trigger] a@[i]) == s[i],
            _ => r is None,
        },
;

/// Relies on `serde_json::Value::as_str`: the text of a string, and `None`
/// for any other value.
pub assume_specification<'a>[ serde_json::Value::as_str ](v: &'a serde_json::Value) -> (r: Option<
    &'a str,
>)
    ensures
        match json_view(*v) {
            Json::Str(s) => r matches Some(t) && t@ == s,
            _ => r is None,
        },
;

} // verus!
