//! Normalization of a raw JSON document into canonical records.
//!
//! The input is one JSON object mapping option names to raw records. A raw
//! record's `description` is a bare string, a `{text, _type}` object, or
//! absent; a malformed description falls back to empty text rather than
//! failing the record. `readOnly`, `loc` and `type` default when absent and
//! fail the whole document when present with the wrong shape.

use vstd::prelude::*;
use vstd::string::StringExecFns;
use crate::docs::{
    flatten_record, Description, DescriptionV, DocView, JsonOptionDocumentation, RawDocView,
};
use crate::errors::Errors;
use crate::docs::OptionDocumentation;
use crate::jsonval::{
    array_items, field_of, json_model, lemma_field_of_absent, lemma_field_of_found, object_entries,
    parse_json, parsed_json, value_as_bool, value_as_str, value_is_null, JsonModel,
};

verus! {

/// A `text` member may be absent or a string; any other shape makes the
/// whole description fall back to its default.
pub open spec fn text_member_ok(f: Option<JsonModel>) -> bool {
    match f {
        None => true,
        Some(JsonModel::Str(_)) => true,
        Some(_) => false,
    }
}

/// A `_type` member may be absent, null or a string; any other shape makes
/// the whole description fall back to its default.
pub open spec fn format_member_ok(f: Option<JsonModel>) -> bool {
    match f {
        None => true,
        Some(JsonModel::Null) => true,
        Some(JsonModel::Str(_)) => true,
        Some(_) => false,
    }
}

/// The format tag a well-shaped `_type` member carries, if any.
pub open spec fn format_member_value(f: Option<JsonModel>) -> Option<Seq<char>> {
    match f {
        Some(JsonModel::Str(s)) => Some(s),
        _ => None,
    }
}

/// What a `description` field normalizes to: a bare string is the text
/// itself; an object contributes its `text` member and its `_type` format
/// tag; everything else — the field absent, malformed, or an object whose
/// members have the wrong shape — falls back to empty text and no tag.
pub open spec fn description_value(field: Option<JsonModel>) -> DescriptionV {
    match field {
        Some(JsonModel::Str(s)) => DescriptionV { text: s, format: None },
        Some(JsonModel::Obj(o)) => {
            if text_member_ok(field_of(o, "text"@)) && format_member_ok(field_of(o, "_type"@)) {
                DescriptionV {
                    text: match field_of(o, "text"@) {
                        Some(JsonModel::Str(t)) => t,
                        _ => Seq::empty(),
                    },
                    format: format_member_value(field_of(o, "_type"@)),
                }
            } else {
                DescriptionV { text: Seq::empty(), format: None }
            }
        },
        _ => DescriptionV { text: Seq::empty(), format: None },
    }
}

/// The canonical text of a `description` field.
pub open spec fn description_text(field: Option<JsonModel>) -> Seq<char> {
    description_value(field).text
}

/// What a `readOnly` field normalizes to: absent defaults to false, a
/// boolean is taken as is, anything else fails.
pub open spec fn read_only_field(f: Option<JsonModel>) -> Option<bool> {
    match f {
        None => Some(false),
        Some(JsonModel::Bool(b)) => Some(b),
        Some(_) => None,
    }
}

/// Whether every item is a JSON string.
pub open spec fn all_strings(items: Seq<JsonModel>) -> bool {
    forall|i: int| 0 <= i < items.len() ==> (#[trigger] items[i]) is Str
}

/// The strings of a sequence of JSON string values.
pub open spec fn string_items(items: Seq<JsonModel>) -> Seq<Seq<char>> {
    items.map_values(|m: JsonModel| m->Str_0)
}

/// What a `loc` field normalizes to: absent defaults to the empty sequence,
/// an array of strings is taken as is, anything else fails.
pub open spec fn loc_field(f: Option<JsonModel>) -> Option<Seq<Seq<char>>> {
    match f {
        None => Some(Seq::empty()),
        Some(JsonModel::Arr(items)) => if all_strings(items) {
            Some(string_items(items))
        } else {
            None
        },
        Some(_) => None,
    }
}

/// What a `type` field normalizes to: absent defaults to the empty string, a
/// string is taken as is, anything else fails.
pub open spec fn type_field(f: Option<JsonModel>) -> Option<Seq<char>> {
    match f {
        None => Some(Seq::empty()),
        Some(JsonModel::Str(s)) => Some(s),
        Some(_) => None,
    }
}

/// What one raw record normalizes to, or `None` when the value is not an
/// object or one of its `readOnly`, `loc` or `type` fields has the wrong
/// shape.
pub open spec fn norm_raw_record(v: JsonModel) -> Option<RawDocView> {
    match v {
        JsonModel::Obj(o) => {
            let ro = read_only_field(field_of(o, "readOnly"@));
            let loc = loc_field(field_of(o, "loc"@));
            let ty = type_field(field_of(o, "type"@));
            if ro is Some && loc is Some && ty is Some {
                Some(
                    RawDocView {
                        description: description_value(field_of(o, "description"@)),
                        read_only: ro->0,
                        location: loc->0,
                        option_type: ty->0,
                    },
                )
            } else {
                None
            }
        },
        _ => None,
    }
}

/// The canonical record one raw record normalizes to, if any.
pub open spec fn norm_record(v: JsonModel) -> Option<DocView> {
    match norm_raw_record(v) {
        Some(d) => Some(flatten_record(d)),
        None => None,
    }
}

/// Whether every entry of the document normalizes.
pub open spec fn records_ok(es: Seq<(Seq<char>, JsonModel)>) -> bool {
    forall|i: int| 0 <= i < es.len() ==> norm_record((#[trigger] es[i]).1) is Some
}

/// What a whole document normalizes to: one canonical record per entry,
/// each under its original key; `None` when the document is not an object
/// or some record fails.
pub open spec fn norm_doc(v: JsonModel) -> Option<Seq<(Seq<char>, DocView)>> {
    match v {
        JsonModel::Obj(es) => if records_ok(es) {
            Some(es.map_values(|e: (Seq<char>, JsonModel)| (e.0, norm_record(e.1)->0)))
        } else {
            None
        },
        _ => None,
    }
}

/// The model of what an optional field holds.
pub open spec fn field_model(o: Option<&serde_json::Value>) -> Option<JsonModel> {
    match o {
        Some(v) => Some(json_model(*v)),
        None => None,
    }
}

/// The first entry with the given key, against the ghost model of the
/// entries.
fn find_field<'a>(
    entries: &'a Vec<(String, serde_json::Value)>,
    name: &str,
    Ghost(m): Ghost<Seq<(Seq<char>, JsonModel)>>,
) -> (r: Option<&'a serde_json::Value>)
    requires
        entries@.len() == m.len(),
        forall|i: int|
            0 <= i < m.len() ==> (#[trigger] entries@[i]).0@ == m[i].0 && json_model(entries@[i].1)
                == m[i].1,
    ensures
        field_model(r) == field_of(m, name@),
{
    let mut i: usize = 0;
    while i < entries.len()
        invariant
            0 <= i <= entries@.len(),
            entries@.len() == m.len(),
            forall|k: int|
                0 <= k < m.len() ==> (#[trigger] entries@[k]).0@ == m[k].0 && json_model(
                    entries@[k].1,
                ) == m[k].1,
            forall|j: int| 0 <= j < i ==> (#[trigger] m[j]).0 != name@,
        decreases entries@.len() - i,
    {
        if crate::strutil::str_eq(entries[i].0.as_str(), name) {
            proof {
                lemma_field_of_found(m, name@, i as int);
            }
            return Some(&entries[i].1);
        }
        i += 1;
    }
    proof {
        lemma_field_of_absent(m, name@);
    }
    None
}

/// The texts of an array of JSON strings, against the ghost model of the
/// items; `None` as soon as one item is not a string.
fn strings_of(items: &Vec<serde_json::Value>, Ghost(s): Ghost<Seq<JsonModel>>) -> (r: Option<
    Vec<String>,
>)
    requires
        items@.len() == s.len(),
        forall|i: int| 0 <= i < s.len() ==> json_model(#[trigger] items@[i]) == s[i],
    ensures
        match r {
            Some(out) => all_strings(s) && out.deep_view() == string_items(s),
            None => !all_strings(s),
        },
{
    let mut out: Vec<String> = Vec::new();
    let mut i: usize = 0;
    while i < items.len()
        invariant
            0 <= i <= items@.len(),
            items@.len() == s.len(),
            forall|k: int| 0 <= k < s.len() ==> json_model(#[trigger] items@[k]) == s[k],
            out@.len() == i,
            forall|j: int| 0 <= j < i ==> (#[trigger] s[j]) is Str,
            forall|j: int| 0 <= j < i ==> (#[trigger] out@[j])@ == s[j]->Str_0,
        decreases items@.len() - i,
    {
        match value_as_str(&items[i]) {
            Some(t) => out.push(t),
            None => {
                return None;
            },
        }
        i += 1;
    }
    proof {
        assert(out.deep_view() =~= string_items(s));
    }
    Some(out)
}

/// The description a record's `description` field normalizes to.
fn parse_description(field: Option<&serde_json::Value>) -> (r: Description)
    ensures
        r@ == description_value(field_model(field)),
{
    let v = match field {
        None => {
            return Description::default();
        },
        Some(v) => v,
    };
    if let Some(s) = value_as_str(v) {
        return Description { text: s, format: None };
    }
    let entries = match object_entries(v) {
        None => {
            return Description::default();
        },
        Some(entries) => entries,
    };
    let ghost o = json_model(*v)->Obj_0;
    let text_field = find_field(&entries, "text", Ghost(o));
    let format_field = find_field(&entries, "_type", Ghost(o));
    let format_ok: bool;
    let mut format_val: Option<String> = None;
    match format_field {
        None => {
            format_ok = true;
        },
        Some(f) => {
            if value_is_null(f) {
                format_ok = true;
            } else {
                match value_as_str(f) {
                    Some(s) => {
                        format_ok = true;
                        format_val = Some(s);
                    },
                    None => {
                        format_ok = false;
                    },
                }
            }
        },
    }
    match text_field {
        None => {
            if format_ok {
                Description { text: String::new(), format: format_val }
            } else {
                Description::default()
            }
        },
        Some(t) => {
            match value_as_str(t) {
                Some(s) => {
                    if format_ok {
                        Description { text: s, format: format_val }
                    } else {
                        Description::default()
                    }
                },
                None => Description::default(),
            }
        },
    }
}

/// The raw record one JSON value normalizes to, or `None` exactly where
/// [`norm_raw_record`] fails.
fn normalize_value(v: &serde_json::Value) -> (r: Option<JsonOptionDocumentation>)
    ensures
        match r {
            Some(d) => norm_raw_record(json_model(*v)) == Some(d@),
            None => norm_raw_record(json_model(*v)) is None,
        },
{
    let entries = match object_entries(v) {
        None => {
            return None;
        },
        Some(entries) => entries,
    };
    let ghost m = json_model(*v)->Obj_0;
    let description = parse_description(find_field(&entries, "description", Ghost(m)));
    let read_only = match find_field(&entries, "readOnly", Ghost(m)) {
        None => false,
        Some(b) => match value_as_bool(b) {
            Some(x) => x,
            None => {
                return None;
            },
        },
    };
    let location = match find_field(&entries, "loc", Ghost(m)) {
        None => Vec::new(),
        Some(l) => {
            match array_items(l) {
                None => {
                    return None;
                },
                Some(items) => {
                    let ghost s = json_model(*l)->Arr_0;
                    match strings_of(&items, Ghost(s)) {
                        Some(segs) => segs,
                        None => {
                            return None;
                        },
                    }
                },
            }
        },
    };
    let option_type = match find_field(&entries, "type", Ghost(m)) {
        None => String::new(),
        Some(t) => match value_as_str(t) {
            Some(s) => s,
            None => {
                return None;
            },
        },
    };
    let r = JsonOptionDocumentation { description, read_only, location, option_type };
    proof {
        assert(r@.location =~= norm_raw_record(json_model(*v))->0.location);
    }
    Some(r)
}

/// Parses the bytes as one JSON object of raw records and normalizes every
/// record; all or nothing — a malformed document or a malformed record
/// yields a `ParseError` and no partial result. Keys come out in the
/// parser's order, distinct.
pub fn try_from_slice(bytes: &[u8]) -> (r: Result<Vec<(String, OptionDocumentation)>, Errors>)
    ensures
        match r {
            Ok(out) => {
                &&& parsed_json(bytes@) matches Some(j)
                &&& norm_doc(j) matches Some(s)
                &&& out@.len() == s.len()
                &&& forall|i: int|
                    0 <= i < s.len() ==> (#[trigger] out@[i]).0@ == s[i].0 && out@[i].1@ == s[i].1
                &&& forall|i: int, j: int| 0 <= i < j < out@.len() ==> out@[i].0@ != out@[j].0@
            },
            Err(e) => {
                &&& e is ParseError
                &&& match parsed_json(bytes@) {
                    Some(j) => norm_doc(j) is None,
                    None => true,
                }
            },
        },
{
    let v = match parse_json(bytes) {
        Err(msg) => {
            return Err(Errors::ParseError(msg));
        },
        Ok(v) => v,
    };
    let entries = match object_entries(&v) {
        None => {
            return Err(Errors::ParseError(String::from_str("expected a JSON object")));
        },
        Some(entries) => entries,
    };
    let ghost m = json_model(v)->Obj_0;
    let mut out: Vec<(String, OptionDocumentation)> = Vec::new();
    let mut i: usize = 0;
    while i < entries.len()
        invariant
            0 <= i <= entries@.len(),
            entries@.len() == m.len(),
            parsed_json(bytes@) == Some(json_model(v)),
            json_model(v) == JsonModel::Obj(m),
            forall|k: int|
                0 <= k < m.len() ==> (#[trigger] entries@[k]).0@ == m[k].0 && json_model(
                    entries@[k].1,
                ) == m[k].1,
            forall|k: int, l: int| 0 <= k < l < m.len() ==> m[k].0 != m[l].0,
            out@.len() == i,
            forall|j: int| 0 <= j < i ==> norm_record((#[trigger] m[j]).1) is Some,
            forall|j: int|
                0 <= j < i ==> (#[trigger] out@[j]).0@ == m[j].0 && out@[j].1@ == norm_record(
                    m[j].1,
                )->0,
        decreases entries@.len() - i,
    {
        let raw = match normalize_value(&entries[i].1) {
            None => {
                proof {
                    assert(norm_record(m[i as int].1) is None);
                    assert(!records_ok(m));
                }
                return Err(Errors::ParseError(String::from_str("malformed option record")));
            },
            Some(raw) => raw,
        };
        let doc = raw.normalize();
        let key = entries[i].0.clone();
        out.push((key, doc));
        i += 1;
    }
    proof {
        assert(records_ok(m));
        let s = norm_doc(json_model(v))->0;
        assert(s.len() == m.len());
        assert forall|k: int| 0 <= k < s.len() implies (#[trigger] out@[k]).0@ == s[k].0
            && out@[k].1@ == s[k].1 by {
            assert(s[k] == (m[k].0, norm_record(m[k].1)->0));
        }
    }
    Ok(out)
}

/// A document that normalizes yields exactly one canonical record per entry
/// of the raw JSON object, each under its original key.
pub proof fn lemma_normalized_count(j: JsonModel)
    requires
        j is Obj,
        norm_doc(j) is Some,
    ensures
        norm_doc(j)->0.len() == j->Obj_0.len(),
        forall|i: int| 0 <= i < j->Obj_0.len() ==> (#[trigger] norm_doc(j)->0[i]).0 == j->Obj_0[i].0,
{
}

/// Description round-trip: a bare-string description keeps its text, and a
/// structured `{text, _type}` description keeps its text while the format
/// tag is discarded from the canonical text.
pub proof fn lemma_description_round_trip(d: Seq<char>, t: Seq<char>)
    ensures
        description_text(Some(JsonModel::Str(d))) == d,
        description_text(
            Some(
                JsonModel::Obj(
                    seq![("text"@, JsonModel::Str(d)), ("_type"@, JsonModel::Str(t))],
                ),
            ),
        ) == d,
{
    reveal_strlit("text");
    reveal_strlit("_type");
    assert("text"@.len() == 4);
    assert("_type"@.len() == 5);
    let o = seq![("text"@, JsonModel::Str(d)), ("_type"@, JsonModel::Str(t))];
    assert(field_of(o, "text"@) == Some(JsonModel::Str(d)));
    assert(o.drop_first() =~= seq![("_type"@, JsonModel::Str(t))]);
    assert(field_of(o.drop_first(), "_type"@) == Some(JsonModel::Str(t)));
    assert(field_of(o, "_type"@) == Some(JsonModel::Str(t)));
}

/// A raw record with every field absent normalizes to the canonical record
/// with empty description, `read_only` false, empty location and empty type.
pub proof fn lemma_missing_field_defaults()
    ensures
        norm_record(JsonModel::Obj(Seq::empty())) == Some(
            DocView {
                description: Seq::<char>::empty(),
                read_only: false,
                location: Seq::<Seq<char>>::empty(),
                option_type: Seq::<char>::empty(),
            },
        ),
{
    let o = Seq::<(Seq<char>, JsonModel)>::empty();
    assert(field_of(o, "description"@) is None);
    assert(field_of(o, "readOnly"@) is None);
    assert(field_of(o, "loc"@) is None);
    assert(field_of(o, "type"@) is None);
}

} // verus!
