//! Reading single fields of a hook's JSON payload, through `serde_json`.

use vstd::prelude::*;

verus! {

/// The unsigned integer that `serde_json` finds under `key` in the JSON text
/// `payload`: `None` when the text is not JSON, is not an object, has no such
/// key, or holds there something other than a non-negative integer that fits
/// in a `u64`.
pub uninterp spec fn json_u64_field(payload: Seq<char>, key: Seq<char>) -> Option<u64>;

/// The string that `serde_json` finds under `key` in the JSON text `payload`:
/// `None` when the text is not JSON, is not an object, has no such key, or
/// holds there something other than a string.
pub uninterp spec fn json_str_field(payload: Seq<char>, key: Seq<char>) -> Option<Seq<char>>;

/// The members of the JSON object in the text `payload`, as `serde_json`
/// parses it into a `Value::Object`: each key with the compact JSON text of
/// its value, in the order of `serde_json`'s map. `None` when the text is not
/// JSON or not an object.
pub uninterp spec fn json_object_members(payload: Seq<char>) -> Option<Seq<(Seq<char>, Seq<char>)>>;

/// The JSON text of the string `s` (quoted and escaped), as `serde_json`
/// writes a `Value::String`.
pub uninterp spec fn json_string_text(s: Seq<char>) -> Seq<char>;

/// The texts of a sequence of pairs of strings.
pub open spec fn pair_texts(v: Seq<(String, String)>) -> Seq<(Seq<char>, Seq<char>)> {
    v.map_values(|p: (String, String)| (p.0@, p.1@))
}

/// Parses `payload` with `serde_json::from_str` into a `serde_json::Value`
/// and, when it is an object, lists its members, each value written back
/// with `Value`'s `Display` (compact JSON). The contract only names the
/// result: it is a function of the text.
#[verifier::external_body]
pub(crate) fn payload_members(payload: &str) -> (r: Option<Vec<(String, String)>>)
    ensures
        match r {
            Some(v) => json_object_members(payload@) == Some(pair_texts(v@)),
            None => json_object_members(payload@) is None,
        },
{
    match serde_json::from_str::<serde_json::Value>(payload) {
        Ok(serde_json::Value::Object(m)) => {
            let mut out = Vec::new();
            for (k, v) in m {
                out.push((k, v.to_string()));
            }
            Some(out)
        },
        _ => None,
    }
}

/// Writes `s` as a JSON string with `Value::String`'s `Display`. The
/// contract only names the result: it is a function of the text.
#[verifier::external_body]
pub(crate) fn string_text(s: &str) -> (r: String)
    ensures
        r@ == json_string_text(s@),
{
    serde_json::Value::String(s.to_string()).to_string()
}

/// Parses `payload` with `serde_json::from_str` into a `serde_json::Value`,
/// then reads `key` with `Value::get` and `Value::as_u64`. The contract only
/// names the result: it is a function of the two texts.
#[verifier::external_body]
pub(crate) fn payload_u64(payload: &str, key: &str) -> (r: Option<u64>)
    ensures
        r == json_u64_field(payload@, key@),
{
    match serde_json::from_str::<serde_json::Value>(payload) {
        Ok(v) => match v.get(key) {
            Some(x) => x.as_u64(),
            None => None,
        },
        Err(_) => None,
    }
}

/// Parses `payload` with `serde_json::from_str` into a `serde_json::Value`,
/// then reads `key` with `Value::get` and `Value::as_str`. The contract only
/// names the result: it is a function of the two texts.
#[verifier::external_body]
pub(crate) fn payload_str(payload: &str, key: &str) -> (r: Option<String>)
    ensures
        match r {
            Some(s) => json_str_field(payload@, key@) == Some(s@),
            None => json_str_field(payload@, key@) is None,
        },
{
    match serde_json::from_str::<serde_json::Value>(payload) {
        Ok(v) => match v.get(key) {
            Some(x) => match x.as_str() {
                Some(s) => Some(s.to_string()),
                None => None,
            },
            None => None,
        },
        Err(_) => None,
    }
}

} // verus!
