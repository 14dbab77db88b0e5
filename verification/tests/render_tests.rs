use templar::context::Context;
use templar::error::Error;
use templar::format::FileFormat;
use templar::render::render;
use templar::templates::{
    glob_fixed_prefix, has_glob_meta, output_path, plan_templates, relative_id, validate_matches,
    TemplatePlan,
};

fn context_of(format: FileFormat, doc: &str) -> Context {
    Context::assemble(&vec![(format, doc.to_string())]).unwrap()
}

#[test]
fn renders_hello_ada() {
    let ctx = context_of(FileFormat::Json, "{\"name\":\"Ada\"}");
    let out = render(&ctx, "greet.txt", "Hello, {{name}}!").unwrap();
    assert_eq!(out, "Hello, Ada!");
}

#[test]
fn renders_second_source_value() {
    let ctx = Context::assemble(&vec![
        (FileFormat::Json, "{\"a\":1}".to_string()),
        (FileFormat::Yaml, "a: 2".to_string()),
    ])
    .unwrap();
    let out = render(&ctx, "t.txt", "{{a}}").unwrap();
    assert_eq!(out, "2");
}

#[test]
fn template_without_variables_ignores_the_context() {
    let empty = Context::assemble(&vec![]).unwrap();
    let unrelated = context_of(FileFormat::Json, "{\"x\":1}");
    let a = render(&empty, "t.txt", "Hello.").unwrap();
    let b = render(&unrelated, "t.txt", "Hello.").unwrap();
    assert_eq!(a, b);
    assert_eq!(a, "Hello.");
}

#[test]
fn autoescaping_is_disabled_even_for_html_names() {
    let ctx = context_of(FileFormat::Json, "{\"v\":\"<b>&</b>\"}");
    let out = render(&ctx, "page.html", "{{v}}").unwrap();
    assert_eq!(out, "<b>&</b>");
}

#[test]
fn renders_loops_and_nested_fields() {
    let ctx = context_of(
        FileFormat::Toml,
        "title = \"list\"\nitems = [\"a\", \"b\"]\n[who]\nname = \"Bo\"\n",
    );
    let out = render(
        &ctx,
        "t.txt",
        "{{title}}:{% for i in items %}{{i}}{% endfor %}:{{who.name}}",
    )
    .unwrap();
    assert_eq!(out, "list:ab:Bo");
}

#[test]
fn numbers_keep_their_representation() {
    let ctx = context_of(FileFormat::Yaml, "i: 7\nf: 2.5");
    let out = render(&ctx, "t.txt", "{{i}} {{f}}").unwrap();
    assert_eq!(out, "7 2.5");
}

#[test]
fn missing_variable_fails_with_template_identifier() {
    let ctx = Context::assemble(&vec![]).unwrap();
    match render(&ctx, "t.txt", "{{missing}}") {
        Err(Error::TemplateRender { template, message }) => {
            assert_eq!(template, "t.txt");
            assert!(!message.is_empty());
        }
        other => panic!("expected TemplateRender, got {:?}", other),
    }
}

#[test]
fn template_syntax_error_surfaces_engine_diagnostic() {
    let ctx = Context::assemble(&vec![]).unwrap();
    match render(&ctx, "bad.txt", "{% if %}") {
        Err(Error::TemplateRender { template, message }) => {
            assert_eq!(template, "bad.txt");
            assert!(!message.is_empty());
        }
        other => panic!("expected TemplateRender, got {:?}", other),
    }
}

#[test]
fn glob_detection() {
    assert!(has_glob_meta("templates/*.txt"));
    assert!(has_glob_meta("a?b"));
    assert!(has_glob_meta("a[0-9]"));
    assert!(!has_glob_meta("templates/greet.txt"));
}

#[test]
fn literal_pattern_renders_to_stdout() {
    match plan_templates("greet.txt", &None).unwrap() {
        TemplatePlan::SingleToStdout { path } => assert_eq!(path, "greet.txt"),
        other => panic!("expected SingleToStdout, got {:?}", other),
    }
    match plan_templates("greet.txt", &Some("out".to_string())).unwrap() {
        TemplatePlan::SingleToStdout { path } => assert_eq!(path, "greet.txt"),
        other => panic!("expected SingleToStdout, got {:?}", other),
    }
}

#[test]
fn glob_pattern_requires_output_directory() {
    match plan_templates("templates/*.txt", &None) {
        Err(Error::OutputDirRequired) => {}
        other => panic!("expected OutputDirRequired, got {:?}", other),
    }
}

#[test]
fn glob_pattern_with_output_directory_renders_a_tree() {
    match plan_templates("templates/*.txt", &Some("out".to_string())).unwrap() {
        TemplatePlan::TreeToDirectory { pattern, out_dir } => {
            assert_eq!(pattern, "templates/*.txt");
            assert_eq!(out_dir, "out");
        }
        other => panic!("expected TreeToDirectory, got {:?}", other),
    }
}

#[test]
fn zero_glob_matches_fail_before_any_write() {
    match validate_matches("templates/*.txt", 0) {
        Err(Error::TemplateLoad { message }) => {
            assert_eq!(message, "glob pattern matched no template file: templates/*.txt");
        }
        other => panic!("expected TemplateLoad, got {:?}", other),
    }
    assert!(validate_matches("templates/*.txt", 1).is_ok());
}

#[test]
fn fixed_prefix_of_glob_patterns() {
    assert_eq!(glob_fixed_prefix("templates/*.txt"), "templates/");
    assert_eq!(glob_fixed_prefix("*.txt"), "");
    assert_eq!(glob_fixed_prefix("a/b/*/c.txt"), "a/b/");
    assert_eq!(glob_fixed_prefix("a/b?.txt"), "a/");
}

#[test]
fn identifiers_are_relative_to_the_prefix() {
    assert_eq!(relative_id("templates/greet.txt", "templates/"), "greet.txt");
    assert_eq!(relative_id("templates/sub/a.txt", "templates/"), "sub/a.txt");
    assert_eq!(relative_id("elsewhere/a.txt", "templates/"), "elsewhere/a.txt");
}

#[test]
fn output_paths_join_directory_and_identifier() {
    assert_eq!(output_path("out", "greet.txt"), "out/greet.txt");
    assert_eq!(output_path("out/", "greet.txt"), "out/greet.txt");
    assert_eq!(output_path("", "greet.txt"), "greet.txt");
    assert_eq!(output_path("out", "sub/a.txt"), "out/sub/a.txt");
}

#[test]
fn glob_mode_end_to_end_without_filesystem() {
    // A glob `templates/*.txt` that matched `templates/greet.txt`.
    let pattern = "templates/*.txt";
    let prefix = glob_fixed_prefix(pattern);
    let id = relative_id("templates/greet.txt", &prefix);
    validate_matches(pattern, 1).unwrap();
    let ctx = context_of(FileFormat::Json, "{\"name\":\"Bo\"}");
    let out = render(&ctx, &id, "Hi {{name}}").unwrap();
    assert_eq!(out, "Hi Bo");
    assert_eq!(output_path("out", &id), "out/greet.txt");
}
