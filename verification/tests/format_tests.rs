use templar::error::Error;
use templar::format::{plan_sources, resolve_format, FileFormat, SourceDescriptor};

fn file(ext: &str) -> SourceDescriptor {
    SourceDescriptor::File { extension: ext.to_string() }
}

#[test]
fn from_ext_known_extensions() {
    assert_eq!(FileFormat::from_ext("json").unwrap(), FileFormat::Json);
    assert_eq!(FileFormat::from_ext("yaml").unwrap(), FileFormat::Yaml);
    assert_eq!(FileFormat::from_ext("yml").unwrap(), FileFormat::Yaml);
    assert_eq!(FileFormat::from_ext("toml").unwrap(), FileFormat::Toml);
}

#[test]
fn from_ext_is_case_insensitive() {
    assert_eq!(FileFormat::from_ext("JSON").unwrap(), FileFormat::Json);
    assert_eq!(FileFormat::from_ext("Yaml").unwrap(), FileFormat::Yaml);
    assert_eq!(FileFormat::from_ext("YML").unwrap(), FileFormat::Yaml);
    assert_eq!(FileFormat::from_ext("Toml").unwrap(), FileFormat::Toml);
}

#[test]
fn from_ext_trims_whitespace() {
    assert_eq!(FileFormat::from_ext(" toml ").unwrap(), FileFormat::Toml);
    assert_eq!(FileFormat::from_ext("\tjson\n").unwrap(), FileFormat::Json);
}

#[test]
fn from_ext_trims_unicode_whitespace() {
    assert_eq!(FileFormat::from_ext("\u{a0}json\u{a0}").unwrap(), FileFormat::Json);
    assert_eq!(FileFormat::from_ext("\u{2003}yml").unwrap(), FileFormat::Yaml);
}

#[test]
fn from_ext_rejects_unknown_extension() {
    match FileFormat::from_ext("ini") {
        Err(Error::UnsupportedExtension(e)) => assert_eq!(e, "ini"),
        other => panic!("expected UnsupportedExtension, got {:?}", other),
    }
}

#[test]
fn from_ext_rejects_empty_extension() {
    match FileFormat::from_ext("") {
        Err(Error::UnsupportedExtension(e)) => assert_eq!(e, ""),
        other => panic!("expected UnsupportedExtension, got {:?}", other),
    }
}

#[test]
fn explicit_format_wins_over_extension() {
    let r = resolve_format(Some(FileFormat::Toml), &file("json"));
    assert_eq!(r.unwrap(), FileFormat::Toml);
}

#[test]
fn stdin_without_format_fails() {
    match resolve_format(None, &SourceDescriptor::StandardInput) {
        Err(Error::FormatRequired) => {}
        other => panic!("expected FormatRequired, got {:?}", other),
    }
}

#[test]
fn stdin_with_explicit_format_resolves() {
    let r = resolve_format(Some(FileFormat::Yaml), &SourceDescriptor::StandardInput);
    assert_eq!(r.unwrap(), FileFormat::Yaml);
}

#[test]
fn file_resolves_by_extension() {
    assert_eq!(resolve_format(None, &file("yml")).unwrap(), FileFormat::Yaml);
}

#[test]
fn plan_sources_resolves_each_in_order() {
    let descriptors = vec![file("json"), file("toml"), file("yaml")];
    let formats = plan_sources(&descriptors, None).unwrap();
    assert_eq!(formats, vec![FileFormat::Json, FileFormat::Toml, FileFormat::Yaml]);
}

#[test]
fn plan_sources_fails_fast_on_stdin_without_format() {
    let descriptors = vec![file("json"), SourceDescriptor::StandardInput, file("bad")];
    match plan_sources(&descriptors, None) {
        Err(Error::FormatRequired) => {}
        other => panic!("expected FormatRequired, got {:?}", other),
    }
}

#[test]
fn plan_sources_reports_unsupported_extension() {
    let descriptors = vec![file("xml")];
    match plan_sources(&descriptors, None) {
        Err(Error::UnsupportedExtension(e)) => assert_eq!(e, "xml"),
        other => panic!("expected UnsupportedExtension, got {:?}", other),
    }
}

#[test]
fn error_messages_name_their_cause() {
    assert_eq!(
        Error::FormatRequired.message(),
        "Format required when reading from standard input"
    );
    assert_eq!(
        Error::UnsupportedExtension("xml".to_string()).message(),
        "Unsupported file extension: xml"
    );
    assert_eq!(
        Error::ContextShape { index: 12 }.message(),
        "Source 12 is not a mapping at the top level"
    );
    assert_eq!(
        Error::OutputDirRequired.message(),
        "Output directory required when rendering a template set"
    );
    assert_eq!(
        Error::Io { path: "out/a".to_string(), message: "denied".to_string() }.message(),
        "IO error at 'out/a': denied"
    );
    assert_eq!(
        Error::TemplateLoad { message: "no such file".to_string() }.message(),
        "Failed to load templates: no such file"
    );
    assert_eq!(
        Error::TemplateRender { template: "t.txt".to_string(), message: "boom".to_string() }
            .message(),
        "Failed to render template 't.txt': boom"
    );
    assert_eq!(
        Error::Deserialization { format: FileFormat::Json, message: "bad".to_string() }.message(),
        "Failed JSON deserialization: bad"
    );
}

#[test]
fn format_names() {
    assert_eq!(FileFormat::Json.name(), "JSON");
    assert_eq!(FileFormat::Yaml.name(), "YAML");
    assert_eq!(FileFormat::Toml.name(), "TOML");
}
