//! The template renderer: bind one merged JSON value as the context of a
//! named template body and produce the output text.
//!
//! The template comes either from an explicit file (resolved by the caller
//! into a `TemplateFile`) or from the built-in default.  Exactly one template
//! body is registered per call; there is no shared registry across calls.

use vstd::prelude::*;

use crate::assets::templates::get_md;
use crate::assets::templates::md_template_text;
use crate::codec::spec_parse;
use crate::codec::to_serde;
use crate::error::CardError;
use crate::json::JsonModel;
use crate::json::JsonValue;
use crate::source::SourceFile;
use crate::validate::check_against_schema;
use crate::validate::check_post;
use crate::validate::nested_id_cause_text;
use crate::validate::spec_nested_id_free;
use crate::validate::spec_ref_free;
use crate::validate::spec_schema_ok;
use crate::validate::spec_valid;

verus! {

/// A template file as the caller resolved it: the path it was named by, the
/// file's base name where one could be derived, and its contents where the
/// file existed.
#[derive(Debug, PartialEq)]
pub struct TemplateFile {
    pub path: String,
    pub name: Option<String>,
    pub body: Option<String>,
}

/// What minijinja produces when rendering a template body registered under a
/// name, with a JSON value bound as the context: output or error text, a
/// function of those three alone.
pub uninterp spec fn spec_render(name: Seq<char>, body: Seq<char>, ctx: JsonModel) -> Result<
    Seq<char>,
    Seq<char>,
>;

/// Relies on minijinja's Environment::new, add_template and Template::render:
/// the rendered text, or the failure's message, depends on the template name,
/// the template body and the context alone.
#[verifier::external_body]
fn jinja_render(name: &str, body: &str, ctx: &JsonValue) -> (r: Result<String, String>)
    ensures
        r is Ok <==> spec_render(name@, body@, ctx@) is Ok,
        r is Ok ==> r->Ok_0@ == spec_render(name@, body@, ctx@)->Ok_0,
        r is Err ==> r->Err_0@ == spec_render(name@, body@, ctx@)->Err_0,
{
    let mut env = minijinja::Environment::new();
    if let Err(e) = env.add_template(name, body) {
        return Err(e.to_string());
    }
    match env.get_template(name) {
        Ok(t) => match t.render(&to_serde(ctx)) {
            Ok(s) => Ok(s),
            Err(e) => Err(e.to_string()),
        },
        Err(e) => Err(e.to_string()),
    }
}

/// The logical name an explicit template is registered under: its file name,
/// or the fixed default where none could be derived.
pub open spec fn template_name_of(t: TemplateFile) -> Seq<char> {
    match t.name {
        Some(n) => n@,
        None => "modelcard.md.jinja"@,
    }
}

/// The outcome of rendering a given body under a given name: the engine's
/// output on success, its message as a `RenderError` otherwise.
pub open spec fn render_body_post(
    name: Seq<char>,
    body: Seq<char>,
    ctx: JsonModel,
    r: Result<String, CardError>,
) -> bool {
    &&& (r is Ok <==> spec_render(name, body, ctx) is Ok)
    &&& (r is Ok ==> r->Ok_0@ == spec_render(name, body, ctx)->Ok_0)
    &&& (r is Err ==> (r matches Err(CardError::RenderError { cause }) && cause@ == spec_render(
        name,
        body,
        ctx,
    )->Err_0))
}

/// The outcome of `render_value_to_template`: the built-in template under its
/// fixed name when none is given; an explicit template only if its file
/// existed, else `TemplateNotFound`.
pub open spec fn render_post(
    template: Option<&TemplateFile>,
    ctx: JsonModel,
    r: Result<String, CardError>,
) -> bool {
    match template {
        None => render_body_post("default_md"@, md_template_text(), ctx, r),
        Some(t) => match t.body {
            None => (r matches Err(CardError::TemplateNotFound { path }) && path@ == t.path@),
            Some(b) => render_body_post(template_name_of(*t), b@, ctx, r),
        },
    }
}

/// Render a JSON value through a template: the built-in Markdown template
/// when none is supplied, else the resolved template file.
pub fn render_value_to_template(data: JsonValue, template: Option<&TemplateFile>) -> (r: Result<
    String,
    CardError,
>)
    ensures
        render_post(template, data@, r),
{
    match template {
        None => {
            let body = get_md();
            match jinja_render("default_md", body.as_str(), &data) {
                Ok(s) => Ok(s),
                Err(e) => Err(CardError::RenderError { cause: e }),
            }
        },
        Some(t) => {
            match &t.body {
                None => Err(CardError::TemplateNotFound { path: t.path.clone() }),
                Some(b) => {
                    let name: &str = match &t.name {
                        Some(n) => n.as_str(),
                        None => "modelcard.md.jinja",
                    };
                    match jinja_render(name, b.as_str(), &data) {
                        Ok(s) => Ok(s),
                        Err(e) => Err(CardError::RenderError { cause: e }),
                    }
                },
            }
        },
    }
}

/// The outcome of rendering one data file: the file must have been readable
/// and hold valid JSON, whose value is then the rendering context.
pub open spec fn render_data_post(
    template: Option<&TemplateFile>,
    data: SourceFile,
    r: Result<String, CardError>,
) -> bool {
    match data.body {
        None => (r matches Err(CardError::ReadError { path }) && path@ == data.path@),
        Some(b) => match spec_parse(b@) {
            Err(cause) => (r matches Err(CardError::ParseError { raw_text, cause: c })
                && raw_text@ == b@ && c@ == cause),
            Ok(m) => render_post(template, m, r),
        },
    }
}

/// Render a data file through a template.
pub fn render_template(template: &TemplateFile, data: &SourceFile) -> (r: Result<
    String,
    CardError,
>)
    ensures
        render_data_post(Some(template), *data, r),
{
    match &data.body {
        None => Err(CardError::ReadError { path: data.path.clone() }),
        Some(b) => {
            match crate::codec::parse_json(b.as_str()) {
                Err(e) => Err(
                    CardError::ParseError { raw_text: b.clone(), cause: e },
                ),
                Ok(v) => render_value_to_template(v, Some(template)),
            }
        },
    }
}

/// The outcome of the validation gate followed by rendering: only a
/// conforming document reaches the template; a schema with a nested `$id`
/// or a `$ref` (rejected outright, see `check_post`), a compile failure or
/// a validation failure aborts first.
pub open spec fn validated_render_post(
    template: Option<&TemplateFile>,
    sm: JsonModel,
    dm: JsonModel,
    r: Result<String, CardError>,
) -> bool {
    if !spec_nested_id_free(sm) {
        r matches Err(CardError::SchemaCompileError { cause }) && cause@ == nested_id_cause_text()
    } else if !spec_ref_free(sm) {
        r matches Err(CardError::SchemaCompileError { cause }) && cause@
            == crate::validate::ref_cause_text()
    } else {
        &&& (spec_schema_ok(sm) && spec_valid(sm, dm) ==> render_post(template, dm, r))
        &&& (r is Ok ==> spec_valid(sm, dm) && render_post(template, dm, r))
        &&& (r matches Err(CardError::SchemaCompileError { .. }) ==> !spec_schema_ok(sm))
        &&& (r matches Err(CardError::ValidationFailed { violations, .. }) ==> !spec_valid(sm, dm)
            && crate::error::violations_model(violations@).to_multiset() == crate::validate::spec_violations(
            sm,
            dm,
        ))
        &&& ((r matches Err(CardError::TemplateNotFound { .. }) || r matches Err(
            CardError::RenderError { .. },
        )) ==> spec_valid(sm, dm) && render_post(template, dm, r))
        &&& (r is Err ==> (r matches Err(CardError::SchemaCompileError { .. }) || r matches Err(
            CardError::ValidationFailed { .. },
        ) || r matches Err(CardError::TemplateNotFound { .. }) || r matches Err(
            CardError::RenderError { .. },
        )))
    }
}

/// The outcome of `render_template_valid`: both files must have been
/// readable and hold valid JSON, the document must conform to the schema,
/// and the document is then rendered.
pub open spec fn render_valid_post(
    template: Option<&TemplateFile>,
    data: SourceFile,
    schema: SourceFile,
    r: Result<String, CardError>,
) -> bool {
    match data.body {
        None => (r matches Err(CardError::ReadError { path }) && path@ == data.path@),
        Some(db) => match schema.body {
            None => (r matches Err(CardError::ReadError { path }) && path@ == schema.path@),
            Some(sb) => match spec_parse(sb@) {
                Err(cause) => (r matches Err(CardError::ParseError { raw_text, cause: c })
                    && raw_text@ == sb@ && c@ == cause),
                Ok(sm) => match spec_parse(db@) {
                    Err(cause) => (r matches Err(CardError::ParseError { raw_text, cause: c })
                        && raw_text@ == db@ && c@ == cause),
                    Ok(dm) => validated_render_post(template, sm, dm, r),
                },
            },
        },
    }
}

/// Render a data file through a template after validating it against a
/// schema file; validation failures abort before rendering.
pub fn render_template_valid(template: &TemplateFile, data: &SourceFile, schema: &SourceFile) -> (r:
    Result<String, CardError>)
    ensures
        render_valid_post(Some(template), *data, *schema, r),
{
    match &data.body {
        None => Err(CardError::ReadError { path: data.path.clone() }),
        Some(db) => {
            match &schema.body {
                None => Err(CardError::ReadError { path: schema.path.clone() }),
                Some(sb) => {
                    match crate::codec::parse_json(sb.as_str()) {
                        Err(e) => Err(
                            CardError::ParseError { raw_text: sb.clone(), cause: e },
                        ),
                        Ok(schema_v) => {
                            match crate::codec::parse_json(db.as_str()) {
                                Err(e) => Err(
                                    CardError::ParseError { raw_text: db.clone(), cause: e },
                                ),
                                Ok(data_v) => {
                                    match check_against_schema(&schema_v, &data_v) {
                                        Err(e) => Err(e),
                                        Ok(_) => render_value_to_template(
                                            data_v,
                                            Some(template),
                                        ),
                                    }
                                },
                            }
                        },
                    }
                },
            }
        },
    }
}

} // verus!
