//! The pipeline orchestrator: one function per external command, each a
//! straight-line composition of loader outcomes, merge, optional validation
//! and rendering.  The caller reads the files, hands their outcomes in, and
//! persists whatever comes back.

use vstd::prelude::*;

use crate::codec::spec_compact;
use crate::codec::spec_parse;
use crate::codec::spec_pretty;
use crate::codec::to_compact;
use crate::codec::to_pretty;
use crate::error::CardError;
use crate::error::strings_model;
use crate::error::violations_model;
use crate::json::JsonModel;
use crate::merge::first_parse_failure;
use crate::merge::from_paths;
use crate::merge::parsed_models;
use crate::merge::spec_merge_all;
use crate::render::TemplateFile;
use crate::render::render_post;
use crate::render::render_valid_post;
use crate::source::SourceFile;
use crate::source::bodies_of;
use crate::source::first_unreadable;
use crate::validate::check_against_schema;
use crate::validate::check_post;
use crate::validate::spec_validation_message;
use crate::validate::validation_message;

verus! {

/// The serialized text the merge command prints for a merged value: pretty
/// for an object, compact for anything else.
pub open spec fn merged_text_of(m: JsonModel) -> Seq<char> {
    if m is Object {
        spec_pretty(m)
    } else {
        spec_compact(m)
    }
}

/// The outcome of the merge command.  One source is passed through verbatim,
/// unread and unparsed; two or more are parsed, merged and re-serialized.
pub open spec fn merge_command_post(
    sources: Seq<SourceFile>,
    r: Result<String, CardError>,
) -> bool {
    if sources.len() == 0 {
        r matches Err(CardError::NoSources)
    } else if sources.len() == 1 {
        match sources[0].body {
            None => (r matches Err(CardError::ReadError { path }) && path@ == sources[0].path@),
            Some(b) => r is Ok && r->Ok_0@ == b@,
        }
    } else if first_unreadable(sources) >= 0 {
        r matches Err(CardError::ReadError { path }) && path@ == sources[first_unreadable(
            sources,
        )].path@
    } else {
        let texts = strings_model(bodies_of(sources));
        if first_parse_failure(texts) >= 0 {
            let i = first_parse_failure(texts);
            r matches Err(CardError::ParseError { raw_text, cause }) && raw_text@ == texts[i]
                && cause@ == spec_parse(texts[i])->Err_0
        } else {
            r is Ok && r->Ok_0@ == merged_text_of(spec_merge_all(parsed_models(texts)))
        }
    }
}

/// The merge command: pass a single source through byte for byte; parse,
/// merge and serialize two or more.
pub fn merge_modelcards(sources: Vec<SourceFile>) -> (r: Result<String, CardError>)
    ensures
        merge_command_post(sources@, r),
{
    if sources.len() == 0 {
        return Err(CardError::NoSources);
    }
    if sources.len() == 1 {
        let mut sources = sources;
        let first = sources.remove(0);
        return match first.body {
            None => Err(CardError::ReadError { path: first.path }),
            Some(b) => Ok(b),
        };
    }
    match from_paths(sources) {
        Err(e) => Err(e),
        Ok(v) => {
            let is_obj = match &v {
                crate::json::JsonValue::Object(_) => true,
                _ => false,
            };
            if is_obj {
                Ok(to_pretty(&v))
            } else {
                Ok(to_compact(&v))
            }
        },
    }
}

/// The outcome of the validate command: merge the sources, then validate the
/// merged document against the explicit schema file or the built-in schema.
pub open spec fn validate_command_post(
    sources: Seq<SourceFile>,
    schema: Option<&SourceFile>,
    r: Result<bool, CardError>,
) -> bool {
    if first_unreadable(sources) >= 0 {
        r matches Err(CardError::ReadError { path }) && path@ == sources[first_unreadable(
            sources,
        )].path@
    } else {
        let texts = strings_model(bodies_of(sources));
        if first_parse_failure(texts) >= 0 {
            let i = first_parse_failure(texts);
            r matches Err(CardError::ParseError { raw_text, cause }) && raw_text@ == texts[i]
                && cause@ == spec_parse(texts[i])->Err_0
        } else {
            let merged = spec_merge_all(parsed_models(texts));
            match schema {
                Some(sf) => match sf.body {
                    None => (r matches Err(CardError::ReadError { path }) && path@ == sf.path@),
                    Some(sb) => match spec_parse(sb@) {
                        Err(cause) => (r matches Err(
                            CardError::ParseError { raw_text, cause: c },
                        ) && raw_text@ == sb@ && c@ == cause),
                        Ok(sm) => check_post(sm, merged, r),
                    },
                },
                None => match spec_parse(crate::assets::schema::schema_text()) {
                    Err(cause) => (r matches Err(CardError::ParseError { raw_text, cause: c })
                        && raw_text@ == crate::assets::schema::schema_text() && c@ == cause),
                    Ok(sm) => check_post(sm, merged, r),
                },
            }
        }
    }
}

/// The validate command: merge the sources and validate the result against
/// the explicit schema file, or the built-in schema when none is given.
pub fn validate_modelcard(sources: Vec<SourceFile>, schema: Option<&SourceFile>) -> (r: Result<
    bool,
    CardError,
>)
    ensures
        validate_command_post(sources@, schema, r),
{
    match from_paths(sources) {
        Err(e) => Err(e),
        Ok(merged) => {
            let schema_body: String = match schema {
                Some(sf) => {
                    match &sf.body {
                        None => {
                            return Err(CardError::ReadError { path: sf.path.clone() });
                        },
                        Some(sb) => sb.clone(),
                    }
                },
                None => crate::assets::schema::get_schema(),
            };
            match crate::codec::parse_json(schema_body.as_str()) {
                Err(e) => Err(CardError::ParseError { raw_text: schema_body, cause: e }),
                Ok(schema_v) => check_against_schema(&schema_v, &merged),
            }
        },
    }
}

/// The outcome of the render command: merge the sources, then render the
/// merged document through the explicit or built-in template.
pub open spec fn render_command_post(
    sources: Seq<SourceFile>,
    template: Option<&TemplateFile>,
    r: Result<String, CardError>,
) -> bool {
    if first_unreadable(sources) >= 0 {
        r matches Err(CardError::ReadError { path }) && path@ == sources[first_unreadable(
            sources,
        )].path@
    } else {
        let texts = strings_model(bodies_of(sources));
        if first_parse_failure(texts) >= 0 {
            let i = first_parse_failure(texts);
            r matches Err(CardError::ParseError { raw_text, cause }) && raw_text@ == texts[i]
                && cause@ == spec_parse(texts[i])->Err_0
        } else {
            render_post(template, spec_merge_all(parsed_models(texts)), r)
        }
    }
}

/// The render command: merge the sources and render the result; no
/// validation happens here.
pub fn render_modelcard(sources: Vec<SourceFile>, template: Option<&TemplateFile>) -> (r: Result<
    String,
    CardError,
>)
    ensures
        render_command_post(sources@, template, r),
{
    match from_paths(sources) {
        Err(e) => Err(e),
        Ok(merged) => crate::render::render_value_to_template(merged, template),
    }
}

/// The outcome of the check command: validate one data file against one
/// schema file, without rendering.
pub open spec fn check_command_post(
    schema: SourceFile,
    card: SourceFile,
    r: Result<bool, CardError>,
) -> bool {
    match schema.body {
        None => (r matches Err(CardError::ReadError { path }) && path@ == schema.path@),
        Some(sb) => match spec_parse(sb@) {
            Err(cause) => (r matches Err(CardError::ParseError { raw_text, cause: c })
                && raw_text@ == sb@ && c@ == cause),
            Ok(sm) => match card.body {
                None => (r matches Err(CardError::ReadError { path }) && path@ == card.path@),
                Some(cb) => match spec_parse(cb@) {
                    Err(cause) => (r matches Err(CardError::ParseError { raw_text, cause: c })
                        && raw_text@ == cb@ && c@ == cause),
                    Ok(cm) => check_post(sm, cm, r),
                },
            },
        },
    }
}

/// The check command: validate a data file against a schema file; no output
/// is produced beyond the verdict.
pub fn check_project(schema: &SourceFile, card: &SourceFile) -> (r: Result<bool, CardError>)
    ensures
        check_command_post(*schema, *card, r),
{
    match &schema.body {
        None => Err(CardError::ReadError { path: schema.path.clone() }),
        Some(sb) => {
            match crate::codec::parse_json(sb.as_str()) {
                Err(e) => Err(CardError::ParseError { raw_text: sb.clone(), cause: e }),
                Ok(schema_v) => {
                    match &card.body {
                        None => Err(CardError::ReadError { path: card.path.clone() }),
                        Some(cb) => {
                            match crate::codec::parse_json(cb.as_str()) {
                                Err(e) => Err(
                                    CardError::ParseError { raw_text: cb.clone(), cause: e },
                                ),
                                Ok(card_v) => check_against_schema(&schema_v, &card_v),
                            }
                        },
                    }
                },
            }
        },
    }
}

/// The outcome of the build command: an existing target without the override
/// flag aborts everything; otherwise the data file is validated against the
/// schema file and rendered through the template.
pub open spec fn build_command_post(
    data: SourceFile,
    schema: SourceFile,
    template: Option<&TemplateFile>,
    target_path: Seq<char>,
    target_exists: bool,
    force: bool,
    r: Result<String, CardError>,
) -> bool {
    if target_exists && !force {
        r matches Err(CardError::TargetExists { path }) && path@ == target_path
    } else {
        render_valid_post(template, data, schema, r)
    }
}

/// The build command: refuse to overwrite an existing target unless forced,
/// then validate the data file and render it.  The caller persists the
/// returned text only on success, so no partial output is ever written.
pub fn build_project(
    data: &SourceFile,
    schema: &SourceFile,
    template: &TemplateFile,
    target_path: &String,
    target_exists: bool,
    force: bool,
) -> (r: Result<String, CardError>)
    ensures
        build_command_post(*data, *schema, Some(template), target_path@, target_exists, force, r),
{
    if target_exists && !force {
        return Err(CardError::TargetExists { path: target_path.clone() });
    }
    crate::render::render_template_valid(template, data, schema)
}

/// The one-line (or, for validation, multi-line) diagnostic of each failure.
pub open spec fn spec_error_message(e: CardError) -> Seq<char> {
    match e {
        CardError::ReadError { path } => "Could not read source "@ + path@,
        CardError::ParseError { raw_text, cause } => "Invalid json:\n"@ + raw_text@ + "\n\nError: "@
            + cause@,
        CardError::SchemaCompileError { cause } => "Could not compile schema: "@ + cause@,
        CardError::ValidationFailed { violations, missing } => spec_validation_message(
            violations_model(violations@),
            strings_model(missing@),
        ),
        CardError::TemplateNotFound { path } => "Template file does not exist at '"@ + path@
            + "'"@,
        CardError::RenderError { cause } => "Could not render template: "@ + cause@,
        CardError::TargetExists { path } => "Modelcard file '"@ + path@
            + "' already exists. Use --force to overwrite."@,
        CardError::WriteError { path } => "Could not write output to "@ + path@,
        CardError::NoSources => "No modelcards to merge"@,
    }
}

/// The complete, already-formatted diagnostic for a failure, for the caller
/// to print as is.
pub fn error_message(e: &CardError) -> (r: String)
    ensures
        r@ == spec_error_message(*e),
{
    match e {
        CardError::ReadError { path } => {
            let mut out = "Could not read source ".to_owned();
            out.append(path.as_str());
            out
        },
        CardError::ParseError { raw_text, cause } => {
            let mut out = "Invalid json:\n".to_owned();
            out.append(raw_text.as_str());
            out.append("\n\nError: ");
            out.append(cause.as_str());
            out
        },
        CardError::SchemaCompileError { cause } => {
            let mut out = "Could not compile schema: ".to_owned();
            out.append(cause.as_str());
            out
        },
        CardError::ValidationFailed { violations, missing } => validation_message(
            violations,
            missing,
        ),
        CardError::TemplateNotFound { path } => {
            let mut out = "Template file does not exist at '".to_owned();
            out.append(path.as_str());
            out.append("'");
            out
        },
        CardError::RenderError { cause } => {
            let mut out = "Could not render template: ".to_owned();
            out.append(cause.as_str());
            out
        },
        CardError::TargetExists { path } => {
            let mut out = "Modelcard file '".to_owned();
            out.append(path.as_str());
            out.append("' already exists. Use --force to overwrite.");
            out
        },
        CardError::WriteError { path } => {
            let mut out = "Could not write output to ".to_owned();
            out.append(path.as_str());
            out
        },
        CardError::NoSources => "No modelcards to merge".to_owned(),
    }
}

} // verus!
