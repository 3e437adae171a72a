use options_doc::{DocEntry, Errors, OptionsDatabase, OptionsDatabaseType};

fn filled(typ: OptionsDatabaseType, bytes: &[u8]) -> OptionsDatabase {
    let mut db = OptionsDatabase::new(typ);
    db.refresh_from_slice(bytes).expect("well-formed source");
    db
}

#[test]
fn new_store_is_empty() {
    let db = OptionsDatabase::new(OptionsDatabaseType::NixOS);
    assert_eq!(db.typ, OptionsDatabaseType::NixOS);
    assert!(db.all_keys().is_empty());
    assert!(db.search("").is_empty());
}

#[test]
fn scenario_prefix_and_liberal_search() {
    let db = filled(
        OptionsDatabaseType::NixOS,
        br#"{"services.foo.enable": {"type": "boolean", "loc": ["services", "foo", "enable"]}}"#,
    );
    let hits = db.search("services.foo");
    assert_eq!(hits.len(), 1);
    let DocEntry::OptionDoc(kind, doc) = &hits[0];
    assert_eq!(*kind, OptionsDatabaseType::NixOS);
    assert_eq!(doc.option_type, "boolean");

    assert!(db.search("bar").is_empty());

    let liberal = db.search_liberal("foo.en");
    assert_eq!(liberal, hits);
}

#[test]
fn search_is_case_insensitive() {
    let db = filled(
        OptionsDatabaseType::HomeManager,
        br#"{"foobar": {"loc": ["foobar"]}, "other": {"loc": ["other"]}}"#,
    );
    let upper = db.search("FOO");
    let lower = db.search("foo");
    assert_eq!(upper, lower);
    assert_eq!(upper.len(), 1);
    let liberal_upper = db.search_liberal("OBA");
    let liberal_lower = db.search_liberal("oba");
    assert_eq!(liberal_upper, liberal_lower);
    assert_eq!(liberal_upper.len(), 1);
}

#[test]
fn prefix_results_are_subset_of_liberal() {
    let db = filled(
        OptionsDatabaseType::NixOS,
        br#"{"a.b": {"loc": ["a", "b"]}, "b.a": {"loc": ["b", "a"]}, "ab.c": {"loc": ["ab", "c"]}}"#,
    );
    for query in ["a", "b", "a.b", "", "A", "zzz"] {
        let strict = db.search(query);
        let liberal = db.search_liberal(query);
        for hit in &strict {
            assert!(liberal.contains(hit), "query {:?}", query);
        }
    }
}

#[test]
fn empty_query_matches_every_record() {
    let db = filled(
        OptionsDatabaseType::NixOS,
        br#"{"one": {"loc": ["one"]}, "two": {"loc": ["two"]}}"#,
    );
    assert_eq!(db.search("").len(), 2);
    assert_eq!(db.search_liberal("").len(), 2);
}

#[test]
fn refresh_reports_unchanged_key_set() {
    let mut db = filled(
        OptionsDatabaseType::NixOS,
        br#"{"a": {"type": "int"}, "b": {"type": "int"}}"#,
    );
    let same = db
        .refresh_from_slice(br#"{"b": {"type": "string"}, "a": {"description": "changed"}}"#)
        .unwrap();
    assert!(same);
}

#[test]
fn refresh_reports_changed_key_set() {
    let mut db = filled(
        OptionsDatabaseType::NixOS,
        br#"{"a": {"type": "int"}, "b": {"type": "int"}}"#,
    );
    let same = db
        .refresh_from_slice(br#"{"a": {"type": "int"}, "c": {"type": "int"}}"#)
        .unwrap();
    assert!(!same);
}

#[test]
fn failed_refresh_keeps_old_mapping() {
    let mut db = filled(
        OptionsDatabaseType::NixOS,
        br#"{"services.x": {"type": "boolean", "loc": ["services", "x"]}}"#,
    );
    let err = db.refresh_from_slice(b"{ not json").unwrap_err();
    assert!(matches!(err, Errors::ParseError(_)));
    let hits = db.search("services");
    assert_eq!(hits.len(), 1);
    let DocEntry::OptionDoc(_, doc) = &hits[0];
    assert_eq!(doc.option_type, "boolean");
}

#[test]
fn all_keys_lists_every_option() {
    let db = filled(
        OptionsDatabaseType::HomeManager,
        br#"{"x.y": {"loc": ["x", "y"]}, "z": {"loc": ["z"]}}"#,
    );
    let mut keys = db.all_keys();
    keys.sort();
    assert_eq!(keys, vec!["x.y".to_string(), "z".to_string()]);
}

#[test]
fn refresh_of_empty_store_with_empty_source_is_unchanged() {
    let mut db = OptionsDatabase::new(OptionsDatabaseType::NixOS);
    assert!(db.refresh_from_slice(b"{}").unwrap());
    assert!(!db.refresh_from_slice(br#"{"a": {}}"#).unwrap());
}

#[test]
fn search_folds_the_key_as_well_as_the_query() {
    let db = filled(
        OptionsDatabaseType::NixOS,
        br#"{"FooBar": {"loc": ["FooBar"], "type": "int"}}"#,
    );
    assert_eq!(db.search("foobar").len(), 1);
    assert_eq!(db.search_liberal("OOBA").len(), 1);
}

#[test]
fn io_error_variant_is_distinct() {
    let io = Errors::IoError("no such file".to_string());
    let parse = Errors::ParseError("bad json".to_string());
    assert!(matches!(io, Errors::IoError(_)));
    assert!(matches!(parse, Errors::ParseError(_)));
    assert_ne!(io, parse);
}
