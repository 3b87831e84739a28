use modelcards::assets::schema;
use modelcards::error::CardError;
use modelcards::error::Violation;
use modelcards::merge::from_strings;
use modelcards::pipeline::check_project;
use modelcards::pipeline::error_message;
use modelcards::pipeline::validate_modelcard;
use modelcards::source::SourceFile;
use modelcards::validate::check_against_schema;
use modelcards::validate::validation_message;

fn readable(path: &str, body: &str) -> SourceFile {
    SourceFile { path: path.to_string(), body: Some(body.to_string()) }
}

fn missing(path: &str) -> SourceFile {
    SourceFile { path: path.to_string(), body: None }
}

#[test]
fn test_validate_modelcard_with_valid_data_and_no_schema() {
    let sources = vec![readable("modelcard.json", &schema::get_sample())];
    let result = validate_modelcard(sources, None).expect("sample should validate");
    assert!(result);
}

#[test]
fn test_validate_modelcard_with_invalid_data() {
    let sources = vec![readable("invalid_modelcard.json", "{{\"invalid\": \"data\"}}")];
    let result = validate_modelcard(sources, None);
    assert!(result.is_err());
}

#[test]
fn test_validate_modelcard_with_valid_data_and_custom_schema() {
    let sources = vec![readable(
        "modelcard.json",
        "{\"name\": \"Test Model\", \"description\": \"A test model for validation.\"}",
    )];
    let custom_schema = readable(
        "schema.json",
        "{\"type\": \"object\", \"properties\": {\"name\": {\"type\": \"string\"}, \"description\": {\"type\": \"string\"}}, \"required\": [\"name\", \"description\"]}",
    );
    let result = validate_modelcard(sources, Some(&custom_schema)).expect("data should validate");
    assert!(result);
}

#[test]
fn test_validate_modelcard_fails_with_nonexistent_source() {
    let sources = vec![missing("nonexistent_modelcard.json")];
    let result = validate_modelcard(sources, None);
    assert!(result.is_err());
}

#[test]
fn test_validate_modelcard_fails_with_nonexistent_schema() {
    let sources = vec![readable(
        "modelcard.json",
        "{\"name\": \"Test Model\", \"description\": \"A test model for validation.\"}",
    )];
    let result = validate_modelcard(sources, Some(&missing("nonexistent_schema.json")));
    assert!(result.is_err());
}

#[test]
fn check_check_valid_against_schema() {
    let schema_file = readable("schema/modelcard.schema.json", &schema::get_schema());
    let card_file = readable("sample.json", &schema::get_sample());
    assert!(check_project(&schema_file, &card_file).is_ok());
}

#[test]
fn validate_check_valid_against_schema() {
    let schema_v = from_strings(vec![schema::get_schema()]).unwrap();
    let card_v = from_strings(vec![schema::get_sample()]).unwrap();
    assert!(check_against_schema(&schema_v, &card_v).is_ok());
}

#[test]
fn check_valid_against_missing_schema() {
    let schema_file = readable("schema/modelcard.schema.json", &schema::get_schema());
    let card_file = missing("sample_2.json");
    assert!(!check_project(&schema_file, &card_file).is_ok());
}

#[test]
fn validation_reports_every_problem_at_once() {
    let schema_v = from_strings(vec![
        "{\"type\": \"object\", \"properties\": {\"a\": {\"type\": \"string\"}}, \"required\": [\"b\", \"c\"]}"
            .to_string(),
    ])
    .unwrap();
    let card_v = from_strings(vec!["{\"a\": 5}".to_string()]).unwrap();
    match check_against_schema(&schema_v, &card_v) {
        Err(CardError::ValidationFailed { violations, .. }) => {
            assert_eq!(violations.len(), 3);
            let required = violations.iter().filter(|v| v.code == "required").count();
            let wrong_type = violations.iter().filter(|v| v.code == "wrong_type").count();
            assert_eq!(required, 2);
            assert_eq!(wrong_type, 1);
        }
        other => panic!("expected ValidationFailed, got {:?}", other),
    }
}

#[test]
fn validation_twice_gives_identical_results() {
    let schema_v = from_strings(vec![
        "{\"type\": \"object\", \"required\": [\"name\"]}".to_string(),
    ])
    .unwrap();
    let card_v = from_strings(vec!["{\"other\": 1}".to_string()]).unwrap();
    let first = check_against_schema(&schema_v, &card_v);
    let second = check_against_schema(&schema_v, &card_v);
    assert_eq!(first, second);
    assert!(first.is_err());
}

#[test]
fn validation_twice_accepts_identically() {
    let schema_v = from_strings(vec![
        "{\"type\": \"object\", \"required\": [\"name\"]}".to_string(),
    ])
    .unwrap();
    let card_v = from_strings(vec!["{\"name\": \"m\"}".to_string()]).unwrap();
    let first = check_against_schema(&schema_v, &card_v);
    let second = check_against_schema(&schema_v, &card_v);
    assert_eq!(first, second);
    assert_eq!(first.unwrap(), true);
}

#[test]
fn schema_with_nested_id_is_rejected_not_a_panic() {
    // valico keys its compiled tree by percent-encoded property names but
    // stores nested-$id scope paths raw; resolving through "a b" would
    // panic inside valico, so the library refuses the schema up front.
    let schema_v = from_strings(vec![
        "{\"properties\": {\"a b\": {\"$id\": \"http://e.com/s\", \"properties\": {\"x\": {\"properties\": {\"y\": {\"type\": \"string\"}}}}}}}"
            .to_string(),
    ])
    .unwrap();
    let card_v = from_strings(vec!["{\"a b\": {\"x\": {\"y\": \"z\"}}}".to_string()]).unwrap();
    let result = check_against_schema(&schema_v, &card_v);
    assert!(matches!(result, Err(CardError::SchemaCompileError { .. })));
}

#[test]
fn schema_with_ref_is_rejected_not_a_hang() {
    // valico resolves $ref with no cycle check: a self-referential schema
    // would recurse forever inside validate, so the library refuses $ref
    // up front.
    let schema_v = from_strings(vec!["{\"$ref\": \"#\"}".to_string()]).unwrap();
    let card_v = from_strings(vec!["{}".to_string()]).unwrap();
    match check_against_schema(&schema_v, &card_v) {
        Err(CardError::SchemaCompileError { cause }) => {
            assert!(cause.contains("$ref"));
        }
        other => panic!("expected SchemaCompileError, got {:?}", other),
    }
}

#[test]
fn schema_with_nested_ref_is_rejected_too() {
    let schema_v = from_strings(vec![
        "{\"properties\": {\"a\": {\"$ref\": \"#/properties/a\"}}}".to_string(),
    ])
    .unwrap();
    let card_v = from_strings(vec!["{\"a\": 1}".to_string()]).unwrap();
    let result = check_against_schema(&schema_v, &card_v);
    assert!(matches!(result, Err(CardError::SchemaCompileError { .. })));
}

#[test]
fn violations_come_out_sorted_with_missing_fields_named() {
    // "required" sorts before "wrong_type", and among equal codes the paths
    // decide, whatever order valico produced them in; the missing list
    // holds the paths of the required-but-absent fields.
    let schema_v = from_strings(vec![
        "{\"type\": \"object\", \"properties\": {\"a\": {\"type\": \"string\"}}, \"required\": [\"c\", \"b\"]}"
            .to_string(),
    ])
    .unwrap();
    let card_v = from_strings(vec!["{\"a\": 5}".to_string()]).unwrap();
    match check_against_schema(&schema_v, &card_v) {
        Err(CardError::ValidationFailed { violations, missing }) => {
            let codes: Vec<&str> = violations.iter().map(|v| v.code.as_str()).collect();
            assert_eq!(codes, vec!["required", "required", "wrong_type"]);
            let paths: Vec<&str> = violations.iter().map(|v| v.path.as_str()).collect();
            assert_eq!(paths, vec!["/b", "/c", "/a"]);
            assert_eq!(missing, vec!["/b".to_string(), "/c".to_string()]);
            let message =
                error_message(&CardError::ValidationFailed { violations, missing });
            assert!(message.starts_with("Validation failed:\n"));
            assert!(message.ends_with("Missing fields:\n - /b\n - /c"));
        }
        other => panic!("expected ValidationFailed, got {:?}", other),
    }
}

#[test]
fn schema_with_top_level_id_is_accepted() {
    let schema_v = from_strings(vec![
        "{\"$id\": \"http://example.com/root\", \"type\": \"object\"}".to_string(),
    ])
    .unwrap();
    let card_v = from_strings(vec!["{}".to_string()]).unwrap();
    assert_eq!(check_against_schema(&schema_v, &card_v).unwrap(), true);
}

#[test]
fn malformed_schema_is_a_compile_error() {
    let schema_v = from_strings(vec!["{\"type\": 5}".to_string()]).unwrap();
    let card_v = from_strings(vec!["{}".to_string()]).unwrap();
    let result = check_against_schema(&schema_v, &card_v);
    assert!(matches!(result, Err(CardError::SchemaCompileError { .. })));
}

#[test]
fn message_formats_violations_and_missing_fields() {
    let violations = vec![
        Violation {
            code: "wrong_type".to_string(),
            path: "/a".to_string(),
            title: "Type of the value is wrong".to_string(),
            detail: Some("The value must be string".to_string()),
        },
        Violation {
            code: "required".to_string(),
            path: "/b".to_string(),
            title: "This property is required".to_string(),
            detail: None,
        },
    ];
    let missing_fields = vec!["x".to_string(), "y".to_string()];
    let message = validation_message(&violations, &missing_fields);
    let expected = "Validation failed:\n\
                    [wrong_type] /a: Type of the value is wrong\n    \
                    The value must be string\n\
                    [required] /b: This property is required\n\
                    Missing fields:\n - x\n - y";
    assert_eq!(message, expected);
}

#[test]
fn message_without_missing_fields_has_no_trailing_block() {
    let violations = vec![Violation {
        code: "required".to_string(),
        path: "/b".to_string(),
        title: "This property is required".to_string(),
        detail: None,
    }];
    let message = validation_message(&violations, &vec![]);
    assert_eq!(message, "Validation failed:\n[required] /b: This property is required");
}
