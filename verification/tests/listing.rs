use pj::lists::{build_dep_report, exit_status, list_scripts, load_manifest, select_mode, ErrorKind, Mode};
use pj::render::{error_message, Span, Style};

fn text_of(spans: &[Span]) -> String {
    let mut s = String::new();
    for sp in spans {
        s.push_str(&sp.text);
    }
    s
}

#[test]
fn scripts_listing_sorted_with_commands() {
    let manifest = r#"{"name":"foo","version":"1.0.0","scripts":{"build":"tsc","test":"jest"}}"#;
    let spans = list_scripts(manifest).unwrap();
    assert_eq!(text_of(&spans), "foo 1.0.0\nbuild\n    tsc\ntest\n    jest\n");
}

#[test]
fn scripts_listing_sorts_unordered_entries() {
    let manifest = r#"{"name":"p","version":"0.1.0","scripts":{"c":"3","a":"1","b":"2"}}"#;
    let spans = list_scripts(manifest).unwrap();
    assert_eq!(text_of(&spans), "p 0.1.0\na\n    1\nb\n    2\nc\n    3\n");
}

#[test]
fn scripts_header_includes_description() {
    let manifest = r#"{"name":"foo","version":"2.0.0","description":"a tool"}"#;
    let spans = list_scripts(manifest).unwrap();
    assert_eq!(text_of(&spans), "foo 2.0.0 - a tool\n");
}

#[test]
fn scripts_header_styles() {
    let manifest = r#"{"name":"foo","version":"1.0.0","scripts":{"build":"tsc"}}"#;
    let spans = list_scripts(manifest).unwrap();
    assert_eq!(spans[0].style, Style::Emphasis);
    assert_eq!(spans[0].text, "foo");
    let name_span = spans.iter().find(|s| s.text == "build").unwrap();
    assert_eq!(name_span.style, Style::Accent);
    let cmd_span = spans.iter().find(|s| s.text == "tsc").unwrap();
    assert_eq!(cmd_span.style, Style::Neutral);
}

#[test]
fn listing_is_repeatable() {
    let manifest = r#"{"name":"foo","version":"1.0.0","scripts":{"x":"a","y":"b"}}"#;
    let first = text_of(&list_scripts(manifest).unwrap());
    let second = text_of(&list_scripts(manifest).unwrap());
    assert_eq!(first, second);
}

#[test]
fn missing_optional_fields_are_not_errors() {
    let manifest = r#"{"name":"bare","version":"0.0.1"}"#;
    let m = load_manifest(manifest).unwrap();
    assert_eq!(m.name, "bare");
    assert_eq!(m.version, "0.0.1");
    assert!(m.description.is_none());
    assert!(m.scripts.is_empty());
    assert!(m.dependencies.is_empty());
    assert!(m.dev_dependencies.is_empty());
    let spans = list_scripts(manifest).unwrap();
    assert_eq!(text_of(&spans), "bare 0.0.1\n");
}

#[test]
fn null_description_loads_as_absent() {
    let manifest = r#"{"name":"n","version":"1","description":null}"#;
    let m = load_manifest(manifest).unwrap();
    assert!(m.description.is_none());
}

#[test]
fn invalid_json_is_a_parse_error() {
    let r = list_scripts("{ not json");
    let e = r.err().unwrap();
    assert_eq!(e.kind, ErrorKind::ParseError);
    assert!(!e.cause.is_empty());
}

#[test]
fn wrong_shape_is_a_parse_error() {
    // a name that is not a string
    let e = list_scripts(r#"{"name":1,"version":"1.0.0"}"#).err().unwrap();
    assert_eq!(e.kind, ErrorKind::ParseError);
    // a missing version
    let e = list_scripts(r#"{"name":"x"}"#).err().unwrap();
    assert_eq!(e.kind, ErrorKind::ParseError);
    // a script whose command is not a string
    let e = list_scripts(r#"{"name":"x","version":"1","scripts":{"a":3}}"#).err().unwrap();
    assert_eq!(e.kind, ErrorKind::ParseError);
}

#[test]
fn escaped_json_strings_are_decoded() {
    let manifest = "{\"name\":\"f\\u006fo\",\"version\":\"1.0.0\"}";
    let m = load_manifest(manifest).unwrap();
    assert_eq!(m.name, "foo");
}

#[test]
fn unresolved_dependency_counts_zero_and_is_diagnosed() {
    let manifest = r#"{"name":"app","version":"1.0.0","dependencies":{"left-pad":"^1.0.0"}}"#;
    let m = load_manifest(manifest).unwrap();
    let dep_texts = vec![Err("No such file or directory (os error 2)".to_string())];
    let dev_texts = vec![];
    let report = build_dep_report(&m, &dep_texts, &dev_texts);
    let listing = text_of(&report.listing);
    assert_eq!(listing, "app 1.0.0\nDependencies: 0\nDev Dependencies: 0\n");
    assert_eq!(report.diagnostics.len(), 1);
    assert_eq!(
        report.diagnostics[0],
        "error reading node_modules/left-pad/package.json: No such file or directory (os error 2)"
    );
    // the overall listing still succeeded
    assert_eq!(exit_status(false), 0);
}

#[test]
fn resolved_dependency_uses_declared_range_and_resolved_description() {
    let manifest = r#"{"name":"app","version":"1.0.0","dependencies":{"bar":"^2.0.0"}}"#;
    let m = load_manifest(manifest).unwrap();
    let dep_texts = vec![Ok(r#"{"name":"bar","description":"does bar things"}"#.to_string())];
    let dev_texts = vec![];
    let report = build_dep_report(&m, &dep_texts, &dev_texts);
    let listing = text_of(&report.listing);
    assert_eq!(
        listing,
        "app 1.0.0\nDependencies: 1\nbar ^2.0.0\n    does bar things\nDev Dependencies: 0\n"
    );
    assert!(report.diagnostics.is_empty());
}

#[test]
fn dependency_sections_sort_and_count_resolved_only() {
    let manifest = r#"{"name":"app","version":"1.0.0","dependencies":{"zeta":"1","alpha":"2","gone":"3"},"devDependencies":{"tool":"4"}}"#;
    let m = load_manifest(manifest).unwrap();
    // declaration order is alphabetical by name: alpha, gone, zeta
    let dep_texts = vec![
        Ok(r#"{"name":"alpha"}"#.to_string()),
        Err("gone away".to_string()),
        Ok(r#"{"name":"zeta","description":"last"}"#.to_string()),
    ];
    let dev_texts = vec![Ok(r#"{"name":"tool"}"#.to_string())];
    let report = build_dep_report(&m, &dep_texts, &dev_texts);
    let listing = text_of(&report.listing);
    assert_eq!(
        listing,
        "app 1.0.0\nDependencies: 2\nalpha 2\nzeta 1\n    last\nDev Dependencies: 1\ntool 4\n"
    );
    assert_eq!(report.diagnostics.len(), 1);
    assert_eq!(report.diagnostics[0], "error reading node_modules/gone/package.json: gone away");
}

#[test]
fn dependency_styles() {
    let manifest = r#"{"name":"app","version":"1.0.0","dependencies":{"bar":"^2.0.0"}}"#;
    let m = load_manifest(manifest).unwrap();
    let dep_texts = vec![Ok(r#"{"name":"bar","description":"d"}"#.to_string())];
    let dev_texts = vec![];
    let report = build_dep_report(&m, &dep_texts, &dev_texts);
    let label = report.listing.iter().find(|s| s.text == "Dependencies: ").unwrap();
    assert_eq!(label.style, Style::Label);
    let name = report.listing.iter().find(|s| s.text == "bar").unwrap();
    assert_eq!(name.style, Style::Accent);
    let range = report.listing.iter().find(|s| s.text == "^2.0.0").unwrap();
    assert_eq!(range.style, Style::Muted);
}

#[test]
fn error_message_names_the_cause() {
    let msg = error_message("No such file or directory (os error 2)");
    assert_eq!(msg, "error occurred: No such file or directory (os error 2)");
    assert_eq!(exit_status(true), 1);
}

#[test]
fn mode_defaults_to_scripts() {
    assert_eq!(select_mode(false), Mode::Scripts);
    assert_eq!(select_mode(true), Mode::Dependencies);
}
