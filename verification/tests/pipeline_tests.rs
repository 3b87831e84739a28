use modelcards::error::CardError;
use modelcards::pipeline::build_project;
use modelcards::pipeline::merge_modelcards;
use modelcards::render::TemplateFile;
use modelcards::source::SourceFile;

fn readable(path: &str, body: &str) -> SourceFile {
    SourceFile { path: path.to_string(), body: Some(body.to_string()) }
}

fn missing(path: &str) -> SourceFile {
    SourceFile { path: path.to_string(), body: None }
}

#[test]
fn merge_modelcards_to_file() {
    let merged = merge_modelcards(vec![
        readable("modelcard1.json", "{\"name\": \"model1\"}"),
        readable("modelcard2.json", "{\"name\": \"model2\"}"),
    ])
    .expect("Could not merge modelcards");
    assert_eq!(merged, "{\n  \"name\": \"model2\"\n}");
}

#[test]
fn merge_modelcards_to_stdout() {
    let merged = merge_modelcards(vec![
        readable("modelcard1.json", "{\"name\": \"model1\"}"),
        readable("modelcard2.json", "{\"name\": \"model2\"}"),
    ])
    .expect("Could not merge modelcards");
    println!("{}", merged);
}

#[test]
fn merge_single_modelcard_to_file() {
    let merged = merge_modelcards(vec![readable("modelcard.json", "{\"name\": \"single_model\"}")])
        .expect("Could not merge single modelcard");
    assert_eq!(merged, "{\"name\": \"single_model\"}");
}

#[test]
fn merge_modelcards_empty_sources() {
    let result = merge_modelcards(vec![]);
    assert!(result.is_err());
}

#[test]
fn merge_modelcards_invalid_path() {
    let result = merge_modelcards(vec![missing("non_existent_modelcard.json")]);
    assert!(result.is_err());
}

#[test]
fn merge_single_source_passes_bytes_through_unparsed() {
    let merged = merge_modelcards(vec![readable("odd.json", "not json at all")])
        .expect("A single source is passed through without parsing");
    assert_eq!(merged, "not json at all");
}

#[test]
fn merge_two_sources_reports_first_parse_failure() {
    let result = merge_modelcards(vec![
        readable("good.json", "{\"a\": 1}"),
        readable("bad.json", "not json"),
    ]);
    match result {
        Err(CardError::ParseError { raw_text, .. }) => assert_eq!(raw_text, "not json"),
        other => panic!("expected a parse error, got {:?}", other),
    }
}

#[test]
fn merge_non_object_result_is_compact() {
    let merged = merge_modelcards(vec![
        readable("a.json", "[1, 2]"),
        readable("b.json", "[3]"),
    ])
    .expect("Could not merge arrays");
    assert_eq!(merged, "[3]");
}

#[test]
fn build_refuses_existing_target_without_force() {
    let data = readable("sample.json", "{\"name\": \"m\"}");
    let schema = readable("schema.json", "{\"type\": \"object\"}");
    let template = TemplateFile {
        path: "t.md.jinja".to_string(),
        name: Some("t.md.jinja".to_string()),
        body: Some("{{ name }}".to_string()),
    };
    let result = build_project(&data, &schema, &template, &"cards/sample.md".to_string(), true, false);
    match result {
        Err(CardError::TargetExists { path }) => assert_eq!(path, "cards/sample.md"),
        other => panic!("expected TargetExists, got {:?}", other),
    }
}

#[test]
fn build_overwrites_existing_target_with_force() {
    let data = readable("sample.json", "{\"name\": \"m\"}");
    let schema = readable("schema.json", "{\"type\": \"object\"}");
    let template = TemplateFile {
        path: "t.md.jinja".to_string(),
        name: Some("t.md.jinja".to_string()),
        body: Some("{{ name }}".to_string()),
    };
    let result = build_project(&data, &schema, &template, &"cards/sample.md".to_string(), true, true);
    assert_eq!(result.unwrap(), "m");
}

#[test]
fn build_renders_into_fresh_target() {
    let data = readable("sample.json", "{\"name\": \"m\"}");
    let schema = readable("schema.json", "{\"required\": [\"name\"]}");
    let template = TemplateFile {
        path: "t.md.jinja".to_string(),
        name: Some("t.md.jinja".to_string()),
        body: Some("name={{ name }}".to_string()),
    };
    let result = build_project(&data, &schema, &template, &"cards/sample.md".to_string(), false, false);
    assert_eq!(result.unwrap(), "name=m");
}

#[test]
fn build_aborts_on_validation_failure_before_rendering() {
    let data = readable("sample.json", "{\"name\": 5}");
    let schema = readable("schema.json", "{\"properties\": {\"name\": {\"type\": \"string\"}}}");
    let template = TemplateFile {
        path: "t.md.jinja".to_string(),
        name: Some("t.md.jinja".to_string()),
        body: Some("{{ name }}".to_string()),
    };
    let result = build_project(&data, &schema, &template, &"out.md".to_string(), false, false);
    assert!(matches!(result, Err(CardError::ValidationFailed { .. })));
}
