use templar::context::Context;
use templar::error::Error;
use templar::format::FileFormat;
use templar::parse::deserialize;
use templar::value::CanonicalValue;

fn json(s: &str) -> (FileFormat, String) {
    (FileFormat::Json, s.to_string())
}

fn yaml(s: &str) -> (FileFormat, String) {
    (FileFormat::Yaml, s.to_string())
}

fn toml_src(s: &str) -> (FileFormat, String) {
    (FileFormat::Toml, s.to_string())
}

/// The canonical value a bare JSON literal denotes.
fn json_value(s: &str) -> CanonicalValue {
    deserialize(FileFormat::Json, s).unwrap()
}

#[test]
fn deserialize_json_mapping() {
    let v = deserialize(FileFormat::Json, "{\"a\": 1, \"b\": \"x\"}").unwrap();
    match v {
        CanonicalValue::Mapping(entries) => {
            assert_eq!(entries.len(), 2);
            assert_eq!(entries[0].0, "a");
            assert_eq!(entries[1].0, "b");
        }
        other => panic!("expected a mapping, got {:?}", other),
    }
}

#[test]
fn deserialize_scalars_and_nesting() {
    let v = json_value("{\"n\": null, \"t\": true, \"s\": \"hi\", \"arr\": [1, 2], \"m\": {\"z\": 3}}");
    match v {
        CanonicalValue::Mapping(entries) => {
            assert_eq!(entries[0].1, CanonicalValue::Null);
            assert_eq!(entries[1].1, CanonicalValue::Bool(true));
            assert_eq!(entries[2].1, CanonicalValue::Text("hi".to_string()));
            assert!(matches!(entries[3].1, CanonicalValue::Sequence(_)));
            assert!(matches!(entries[4].1, CanonicalValue::Mapping(_)));
        }
        other => panic!("expected a mapping, got {:?}", other),
    }
}

#[test]
fn deserialize_rejects_bad_json() {
    match deserialize(FileFormat::Json, "{\"a\": ") {
        Err(Error::Deserialization { format, message }) => {
            assert_eq!(format, FileFormat::Json);
            assert!(!message.is_empty());
        }
        other => panic!("expected Deserialization, got {:?}", other),
    }
}

#[test]
fn deserialize_rejects_bad_yaml() {
    match deserialize(FileFormat::Yaml, "a: [1, 2") {
        Err(Error::Deserialization { format, .. }) => assert_eq!(format, FileFormat::Yaml),
        other => panic!("expected Deserialization, got {:?}", other),
    }
}

#[test]
fn deserialize_rejects_bad_toml() {
    match deserialize(FileFormat::Toml, "a = ") {
        Err(Error::Deserialization { format, message }) => {
            assert_eq!(format, FileFormat::Toml);
            assert!(!message.is_empty());
        }
        other => panic!("expected Deserialization, got {:?}", other),
    }
}

#[test]
fn deserialization_error_message_keeps_parser_diagnostic() {
    let e = deserialize(FileFormat::Json, "{").unwrap_err();
    let line = e.message();
    assert!(line.starts_with("Failed JSON deserialization: "));
    assert!(line.len() > "Failed JSON deserialization: ".len());
}

#[test]
fn round_trip_preserves_keys_and_scalars_across_formats() {
    let from_json = deserialize(
        FileFormat::Json,
        "{\"i\": 1, \"f\": 2.5, \"s\": \"x\", \"b\": true, \"arr\": [1, 2], \"m\": {\"z\": 3}}",
    )
    .unwrap();
    let from_yaml = deserialize(
        FileFormat::Yaml,
        "i: 1\nf: 2.5\ns: x\nb: true\narr: [1, 2]\nm:\n  z: 3\n",
    )
    .unwrap();
    let from_toml = deserialize(
        FileFormat::Toml,
        "i = 1\nf = 2.5\ns = \"x\"\nb = true\narr = [1, 2]\n[m]\nz = 3\n",
    )
    .unwrap();
    assert_eq!(from_json, from_yaml);
    assert_eq!(from_json, from_toml);
}

#[test]
fn assemble_single_source() {
    let ctx = Context::assemble(&vec![json("{\"name\": \"Ada\"}")]).unwrap();
    assert_eq!(ctx.get("name"), Some(&CanonicalValue::Text("Ada".to_string())));
    assert!(!ctx.is_empty());
}

#[test]
fn assemble_last_writer_wins() {
    let ctx = Context::assemble(&vec![json("{\"k\": 1}"), json("{\"k\": 2}")]).unwrap();
    assert_eq!(ctx.get("k"), Some(&json_value("2")));
}

#[test]
fn assemble_yaml_overwrites_json() {
    let ctx = Context::assemble(&vec![json("{\"a\": 1}"), yaml("a: 2\n")]).unwrap();
    assert_eq!(ctx.get("a"), Some(&json_value("2")));
}

#[test]
fn assemble_disjoint_keys_union() {
    let ctx = Context::assemble(&vec![json("{\"a\": 1}"), toml_src("b = 2\n")]).unwrap();
    assert_eq!(ctx.get("a"), Some(&json_value("1")));
    assert_eq!(ctx.get("b"), Some(&json_value("2")));
    assert_eq!(ctx.get("c"), None);
}

#[test]
fn assemble_shallow_merge_replaces_nested_mapping_wholesale() {
    let ctx = Context::assemble(&vec![
        json("{\"m\": {\"a\": 1, \"b\": 2}}"),
        json("{\"m\": {\"c\": 3}}"),
    ])
    .unwrap();
    assert_eq!(ctx.get("m"), Some(&json_value("{\"c\": 3}")));
}

#[test]
fn assemble_empty_source_list_yields_empty_context() {
    let ctx = Context::assemble(&vec![]).unwrap();
    assert!(ctx.is_empty());
    assert_eq!(ctx.get("anything"), None);
}

#[test]
fn duplicate_keys_in_one_document_keep_the_last_value() {
    let ctx = Context::assemble(&vec![json("{\"k\": 1, \"k\": 2}")]).unwrap();
    assert_eq!(ctx.get("k"), Some(&json_value("2")));
}

#[test]
fn assemble_rejects_non_mapping_top_level() {
    match Context::assemble(&vec![json("{\"a\": 1}"), json("[1, 2]")]) {
        Err(Error::ContextShape { index }) => assert_eq!(index, 1),
        other => panic!("expected ContextShape, got {:?}", other),
    }
}

#[test]
fn assemble_fails_fast_on_first_bad_source() {
    match Context::assemble(&vec![json("not json"), json("[1]")]) {
        Err(Error::Deserialization { format, .. }) => assert_eq!(format, FileFormat::Json),
        other => panic!("expected Deserialization, got {:?}", other),
    }
}
