use modelcards::assets::schema;
use modelcards::error::CardError;
use modelcards::merge::from_strings;
use modelcards::pipeline::render_modelcard;
use modelcards::render::TemplateFile;
use modelcards::render::render_template;
use modelcards::render::render_template_valid;
use modelcards::render::render_value_to_template;
use modelcards::source::SourceFile;
use modelcards::validate::check_against_schema;

fn readable(path: &str, body: &str) -> SourceFile {
    SourceFile { path: path.to_string(), body: Some(body.to_string()) }
}

fn template(body: &str) -> TemplateFile {
    TemplateFile {
        path: "template.md.jinja".to_string(),
        name: Some("template.md.jinja".to_string()),
        body: Some(body.to_string()),
    }
}

fn missing_template(path: &str) -> TemplateFile {
    TemplateFile { path: path.to_string(), name: None, body: None }
}

#[test]
fn test_render_template_valid() {
    let result = render_template_valid(
        &template("Hello, {{ name }}!"),
        &readable("data.json", "{\"name\": \"World\"}"),
        &readable(
            "schema.json",
            "{\"type\": \"object\", \"properties\": {\"name\": {\"type\": \"string\"}}}",
        ),
    );
    assert!(result.is_ok());
    assert_eq!(result.unwrap(), "Hello, World!");
}

#[test]
fn test_render_template_with_missing_data() {
    let result = render_template_valid(
        &template("Hello, {{ name }}!"),
        &SourceFile { path: "nonexistent_data.json".to_string(), body: None },
        &readable(
            "schema.json",
            "{\"type\": \"object\", \"properties\": {\"name\": {\"type\": \"string\"}}}",
        ),
    );
    assert!(result.is_err());
}

#[test]
fn test_render_template_with_invalid_schema() {
    let result = render_template_valid(
        &template("Hello, {{ name }}!"),
        &readable("data.json", "{\"name\": \"World\"}"),
        &SourceFile { path: "invalid_schema.json".to_string(), body: None },
    );
    assert!(result.is_err());
}

#[test]
fn test_render_value_to_template_with_default_template() {
    let data = from_strings(vec![schema::get_sample()]).unwrap();
    let result = render_value_to_template(data, None);
    assert!(result.is_ok());
}

#[test]
fn test_render_value_to_template_with_custom_template() {
    let data = from_strings(vec!["{\"name\": \"World\"}".to_string()]).unwrap();
    let result = render_value_to_template(data, Some(&template("Goodbye, {{ name }}!")));
    assert!(result.is_ok());
    assert_eq!(result.unwrap(), "Goodbye, World!");
}

#[test]
fn render_missing_template_file_is_reported_not_a_panic() {
    let data = from_strings(vec!["{\"name\": \"World\"}".to_string()]).unwrap();
    let result = render_value_to_template(
        data,
        Some(&missing_template("templates/not_there.md.jinja")),
    );
    match result {
        Err(CardError::TemplateNotFound { path }) => {
            assert_eq!(path, "templates/not_there.md.jinja");
        }
        other => panic!("expected TemplateNotFound, got {:?}", other),
    }
}

#[test]
fn render_bad_template_body_is_a_render_error() {
    let data = from_strings(vec!["{\"name\": \"World\"}".to_string()]).unwrap();
    let result = render_value_to_template(data, Some(&template("{% for %}")));
    assert!(matches!(result, Err(CardError::RenderError { .. })));
}

#[test]
fn render_one_data_file_through_a_template() {
    let result = render_template(
        &template("Hi {{ name }}"),
        &readable("data.json", "{\"name\": \"A\"}"),
    );
    assert_eq!(result.unwrap(), "Hi A");
}

#[test]
fn render_command_merges_before_rendering() {
    let result = render_modelcard(
        vec![
            readable("a.json", "{\"name\": \"first\"}"),
            readable("b.json", "{\"name\": \"second\"}"),
        ],
        Some(&template("{{ name }}")),
    );
    assert_eq!(result.unwrap(), "second");
}

fn num_entry(key: &str, value: i64) -> (String, modelcards::json::JsonValue) {
    (
        key.to_string(),
        modelcards::json::JsonValue::Number(serde_json::Number::from(value)),
    )
}

#[test]
fn end_to_end_merge_validate_render() {
    let merged = from_strings(vec!["{\"a\":1}".to_string(), "{\"b\":2}".to_string()]).unwrap();
    let expected =
        modelcards::json::JsonValue::Object(vec![num_entry("a", 1), num_entry("b", 2)]);
    assert_eq!(merged, expected);

    let schema_v = from_strings(vec!["{\"required\":[\"a\",\"b\"]}".to_string()]).unwrap();
    let verdict = check_against_schema(&schema_v, &merged);
    assert_eq!(verdict.unwrap(), true);

    let rendered = render_value_to_template(merged, Some(&template("a={{a}} b={{b}}")));
    assert_eq!(rendered.unwrap(), "a=1 b=2");
}
