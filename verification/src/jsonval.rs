//! The mathematical model of a parsed JSON document, and the trusted boundary
//! to the `serde_json` parser.
//!
//! Parsing bytes into a tree of JSON values is `serde_json`'s work; everything
//! this library decides about such a tree (which shapes are accepted, which
//! fields default) is verified code in the other modules, stated over the
//! model below.

use vstd::prelude::*;

verus! {

/// Model of one JSON value.
///
/// An object is modeled as the sequence of its entries with distinct keys, in
/// the order in which the parser hands them out. A number carries no value:
/// nothing in this library reads one, and a number only matters here by not
/// being one of the shapes the schema expects.
pub ghost enum JsonModel {
    Null,
    Bool(bool),
    Num,
    Str(Seq<char>),
    Arr(Seq<JsonModel>),
    Obj(Seq<(Seq<char>, JsonModel)>),
}

#[verifier::external_type_specification]
#[verifier::external_body]
pub struct ExJsonValue(serde_json::Value);

/// What a `serde_json::Value` holds, as a [`JsonModel`].
pub uninterp spec fn json_model(v: serde_json::Value) -> JsonModel;

/// What `serde_json::from_slice::<serde_json::Value>` makes of the given
/// bytes: the model of the parsed document, or `None` when the bytes are not
/// one well-formed JSON document. The outcome depends on the bytes alone.
pub uninterp spec fn parsed_json(bytes: Seq<u8>) -> Option<JsonModel>;

/// Relies on `serde_json::from_slice::<Value>`: it parses the bytes as one
/// JSON document and fails exactly on malformed input; on the same bytes it
/// always comes to the same outcome, here named [`parsed_json`]. The error's
/// text is taken over unchanged.
#[verifier::external_body]
pub(crate) fn parse_json(bytes: &[u8]) -> (r: Result<serde_json::Value, String>)
    ensures
        match r {
            Ok(v) => parsed_json(bytes@) == Some(json_model(v)),
            Err(_) => parsed_json(bytes@) is None,
        },
{
    serde_json::from_slice::<serde_json::Value>(bytes).map_err(|e| e.to_string())
}

/// Relies on `serde_json::Value::as_object` and `serde_json::Map::iter`:
/// `as_object` answers `Some` exactly on an object, and the map iterator
/// hands out each entry once, keys distinct.
#[verifier::external_body]
pub(crate) fn object_entries(v: &serde_json::Value) -> (r: Option<
    Vec<(String, serde_json::Value)>,
>)
    ensures
        match r {
            Some(es) => {
                &&& json_model(*v) matches JsonModel::Obj(m)
                &&& es@.len() == m.len()
                &&& forall|i: int|
                    0 <= i < m.len() ==> (#[trigger] es@[i]).0@ == m[i].0 && json_model(es@[i].1)
                        == m[i].1
                &&& forall|i: int, j: int| 0 <= i < j < m.len() ==> m[i].0 != m[j].0
            },
            None => !(json_model(*v) is Obj),
        },
{
    v.as_object().map(|m| m.iter().map(|(k, val)| (k.clone(), val.clone())).collect())
}

/// Relies on `serde_json::Value::as_str`: it answers `Some` exactly on a
/// JSON string, with the string itself.
#[verifier::external_body]
pub(crate) fn value_as_str(v: &serde_json::Value) -> (r: Option<String>)
    ensures
        match r {
            Some(s) => json_model(*v) == JsonModel::Str(s@),
            None => !(json_model(*v) is Str),
        },
{
    v.as_str().map(|s| s.to_owned())
}

/// Relies on `serde_json::Value::as_bool`: it answers `Some` exactly on a
/// JSON boolean, with its value.
#[verifier::external_body]
pub(crate) fn value_as_bool(v: &serde_json::Value) -> (r: Option<bool>)
    ensures
        match r {
            Some(b) => json_model(*v) == JsonModel::Bool(b),
            None => !(json_model(*v) is Bool),
        },
{
    v.as_bool()
}

/// Relies on `serde_json::Value::as_array`: it answers `Some` exactly on a
/// JSON array, with its items in order.
#[verifier::external_body]
pub(crate) fn array_items(v: &serde_json::Value) -> (r: Option<Vec<serde_json::Value>>)
    ensures
        match r {
            Some(items) => {
                &&& json_model(*v) matches JsonModel::Arr(s)
                &&& items@.len() == s.len()
                &&& forall|i: int| 0 <= i < s.len() ==> json_model(#[trigger] items@[i]) == s[i]
            },
            None => !(json_model(*v) is Arr),
        },
{
    v.as_array().map(|a| a.clone())
}

/// Relies on `serde_json::Value::is_null`: it answers true exactly on a JSON
/// null.
#[verifier::external_body]
pub(crate) fn value_is_null(v: &serde_json::Value) -> (r: bool)
    ensures
        r == (json_model(*v) is Null),
{
    v.is_null()
}

/// The value of the first entry with the given key, if any.
pub open spec fn field_of(entries: Seq<(Seq<char>, JsonModel)>, key: Seq<char>) -> Option<JsonModel>
    decreases entries.len(),
{
    if entries.len() == 0 {
        None
    } else if entries[0].0 == key {
        Some(entries[0].1)
    } else {
        field_of(entries.drop_first(), key)
    }
}

/// Where the entries hold the key at an index before which it does not occur,
/// `field_of` answers that entry's value.
pub proof fn lemma_field_of_found(entries: Seq<(Seq<char>, JsonModel)>, key: Seq<char>, i: int)
    requires
        0 <= i < entries.len(),
        entries[i].0 == key,
        forall|j: int| 0 <= j < i ==> (#[trigger] entries[j]).0 != key,
    ensures
        field_of(entries, key) == Some(entries[i].1),
    decreases i,
{
    if i > 0 {
        lemma_field_of_found(entries.drop_first(), key, i - 1);
    }
}

/// Where no entry holds the key, `field_of` answers `None`.
pub proof fn lemma_field_of_absent(entries: Seq<(Seq<char>, JsonModel)>, key: Seq<char>)
    requires
        forall|j: int| 0 <= j < entries.len() ==> (#[trigger] entries[j]).0 != key,
    ensures
        field_of(entries, key) is None,
    decreases entries.len(),
{
    if entries.len() > 0 {
        lemma_field_of_absent(entries.drop_first(), key);
    }
}

} // verus!
