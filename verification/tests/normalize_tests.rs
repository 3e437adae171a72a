use options_doc::{try_from_slice, Description, Errors, OptionDocumentation};

fn record_for<'a>(
    out: &'a [(String, OptionDocumentation)],
    key: &str,
) -> &'a OptionDocumentation {
    &out
        .iter()
        .find(|(k, _)| k == key)
        .unwrap_or_else(|| panic!("missing key {:?}", key))
        .1
}

#[test]
fn normalizes_one_record_per_entry() {
    let out = try_from_slice(
        br#"{
            "a.one": {"type": "int", "loc": ["a", "one"]},
            "a.two": {"type": "string", "loc": ["a", "two"]},
            "b": {"loc": ["b"]}
        }"#,
    )
    .unwrap();
    assert_eq!(out.len(), 3);
    for (_, doc) in &out {
        assert_eq!(doc.name(), doc.location.join("."));
    }
}

#[test]
fn bare_string_description_keeps_its_text() {
    let out = try_from_slice(br#"{"k": {"description": "D"}}"#).unwrap();
    assert_eq!(record_for(&out, "k").description, "D");
}

#[test]
fn structured_description_keeps_text_and_discards_format() {
    let out = try_from_slice(br#"{"k": {"description": {"text": "D", "_type": "T"}}}"#).unwrap();
    assert_eq!(record_for(&out, "k").description, "D");
}

#[test]
fn missing_fields_default() {
    let out = try_from_slice(br#"{"k": {}}"#).unwrap();
    let doc = record_for(&out, "k");
    assert_eq!(doc.description, "");
    assert!(!doc.read_only);
    assert!(doc.location.is_empty());
    assert_eq!(doc.option_type, "");
}

#[test]
fn malformed_description_defaults_to_empty_text() {
    let out = try_from_slice(
        br#"{
            "number": {"description": 5},
            "array": {"description": ["x"]},
            "bad_text": {"description": {"text": 5}},
            "bad_format": {"description": {"text": "D", "_type": 5}},
            "no_text": {"description": {"_type": "T"}},
            "null_format": {"description": {"text": "D", "_type": null}}
        }"#,
    )
    .unwrap();
    assert_eq!(record_for(&out, "number").description, "");
    assert_eq!(record_for(&out, "array").description, "");
    assert_eq!(record_for(&out, "bad_text").description, "");
    assert_eq!(record_for(&out, "bad_format").description, "");
    assert_eq!(record_for(&out, "no_text").description, "");
    assert_eq!(record_for(&out, "null_format").description, "D");
}

#[test]
fn fields_are_read_when_present() {
    let out = try_from_slice(
        br#"{"k": {"description": "docs", "readOnly": true, "loc": ["a", "b"], "type": "list of string"}}"#,
    )
    .unwrap();
    let doc = record_for(&out, "k");
    assert_eq!(doc.description, "docs");
    assert!(doc.read_only);
    assert_eq!(doc.location, vec!["a".to_string(), "b".to_string()]);
    assert_eq!(doc.option_type, "list of string");
    assert_eq!(doc.name(), "a.b");
}

#[test]
fn malformed_json_is_a_parse_error() {
    let err = try_from_slice(b"{ not json").unwrap_err();
    assert!(matches!(err, Errors::ParseError(_)));
}

#[test]
fn non_object_top_level_is_a_parse_error() {
    let err = try_from_slice(b"[1, 2]").unwrap_err();
    assert!(matches!(err, Errors::ParseError(_)));
    let err = try_from_slice(b"\"text\"").unwrap_err();
    assert!(matches!(err, Errors::ParseError(_)));
}

#[test]
fn non_object_record_is_a_parse_error() {
    let err = try_from_slice(br#"{"k": 3}"#).unwrap_err();
    assert!(matches!(err, Errors::ParseError(_)));
}

#[test]
fn wrong_shape_fields_are_parse_errors() {
    let err = try_from_slice(br#"{"k": {"readOnly": "yes"}}"#).unwrap_err();
    assert!(matches!(err, Errors::ParseError(_)));
    let err = try_from_slice(br#"{"k": {"loc": "a.b"}}"#).unwrap_err();
    assert!(matches!(err, Errors::ParseError(_)));
    let err = try_from_slice(br#"{"k": {"loc": ["a", 3]}}"#).unwrap_err();
    assert!(matches!(err, Errors::ParseError(_)));
    let err = try_from_slice(br#"{"k": {"type": 7}}"#).unwrap_err();
    assert!(matches!(err, Errors::ParseError(_)));
}

#[test]
fn empty_document_normalizes_to_nothing() {
    let out = try_from_slice(b"{}").unwrap();
    assert!(out.is_empty());
}

#[test]
fn name_joins_location_with_dots() {
    let out = try_from_slice(br#"{"k": {"loc": ["services", "nginx", "enable"]}}"#).unwrap();
    assert_eq!(record_for(&out, "k").name(), "services.nginx.enable");
    let out = try_from_slice(br#"{"k": {"loc": ["single"]}}"#).unwrap();
    assert_eq!(record_for(&out, "k").name(), "single");
    let out = try_from_slice(br#"{"k": {"loc": []}}"#).unwrap();
    assert_eq!(record_for(&out, "k").name(), "");
}

#[test]
fn pretty_printed_shows_description_and_type() {
    let out = try_from_slice(
        br#"{"k": {"description": "enables it", "loc": ["a", "b"], "type": "boolean"}}"#,
    )
    .unwrap();
    let printed = record_for(&out, "k").pretty_printed();
    assert!(printed.starts_with("# "));
    assert!(printed.contains("enables it"));
    assert!(printed.contains("type: boolean"));
    assert!(printed.ends_with("\n\n"));
}

#[test]
fn description_from_text_never_fails() {
    let d = Description::from_text("plain words");
    assert_eq!(d.text, "plain words");
    assert!(d.format.is_none());
    let empty = Description::default();
    assert_eq!(empty.text, "");
    assert!(empty.format.is_none());
}
