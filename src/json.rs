//! The JSON values that log records carry, and what this library takes from
//! serde_json: parsing a record, reading a value as text, quoting a string.
use vstd::prelude::*;

verus! {

#[verifier::external_type_specification]
#[verifier::external_body]
pub struct ExValue(serde_json::Value);

/// The members of the JSON object that `s` holds, in key order, or `None`
/// where `s` is not a JSON object.
pub uninterp spec fn parsed_object(s: Seq<char>) -> Option<Seq<(Seq<char>, serde_json::Value)>>;

/// The text of a JSON string value, or `None` for any other kind of value.
pub uninterp spec fn value_str(v: serde_json::Value) -> Option<Seq<char>>;

/// The compact JSON text of a value.
pub uninterp spec fn value_json(v: serde_json::Value) -> Seq<char>;

/// The JSON string literal, quotes included, that stands for `s`.
pub uninterp spec fn json_quoted(s: Seq<char>) -> Seq<char>;

/// A member list with its keys as character sequences.
pub open spec fn fields_view(v: Seq<(String, serde_json::Value)>) -> Seq<(Seq<char>, serde_json::Value)> {
    v.map_values(|p: (String, serde_json::Value)| (p.0@, p.1))
}

/// Whether no two members share a key.
pub open spec fn keys_distinct(f: Seq<(Seq<char>, serde_json::Value)>) -> bool {
    forall|i: int, j: int| 0 <= i < j < f.len() ==> (#[trigger] f[i]).0 != (#[trigger] f[j]).0
}

/// The text of a value as a log line reads it: a string's own characters,
/// any other value's JSON text.
pub open spec fn scalar_text(v: serde_json::Value) -> Seq<char> {
    match value_str(v) {
        Some(s) => s,
        None => value_json(v),
    }
}

/// Relies on serde_json::from_str into a serde_json::Map, which (without the
/// `preserve_order` feature) is a BTreeMap: the members come out in key
/// order, each key once. A failure comes back as the error's Display text.
#[verifier::external_body]
pub(crate) fn parse_object(s: &str) -> (r: Result<Vec<(String, serde_json::Value)>, String>)
    ensures
        r is Ok <==> parsed_object(s@) is Some,
        r matches Ok(v) ==> fields_view(v@) == parsed_object(s@).unwrap(),
        r matches Ok(v) ==> keys_distinct(fields_view(v@)),
{
    serde_json::from_str::<serde_json::Map<String, serde_json::Value>>(s).map(
        |m| m.into_iter().collect(),
    ).map_err(|e| e.to_string())
}

/// Relies on serde_json::Value::as_str: the text of a string value.
#[verifier::external_body]
pub(crate) fn value_as_str(v: &serde_json::Value) -> (r: Option<String>)
    ensures
        r is Some <==> value_str(*v) is Some,
        r matches Some(t) ==> t@ == value_str(*v).unwrap(),
{
    v.as_str().map(|t| t.to_string())
}

/// Relies on serde_json::Value's Display: its compact JSON text.
#[verifier::external_body]
pub(crate) fn value_to_json(v: &serde_json::Value) -> (r: String)
    ensures
        r@ == value_json(*v),
{
    v.to_string()
}

/// Relies on serde_json::Value::from(&str) and its Display: the JSON string
/// literal for `s`.
#[verifier::external_body]
pub(crate) fn quote_json(s: &str) -> (r: String)
    ensures
        r@ == json_quoted(s@),
{
    serde_json::Value::from(s).to_string()
}

/// The text of a value as a log line reads it.
pub fn scalar_text_of(v: &serde_json::Value) -> (r: String)
    ensures
        r@ == scalar_text(*v),
{
    match value_as_str(v) {
        Some(s) => s,
        None => value_to_json(v),
    }
}

} // verus!
