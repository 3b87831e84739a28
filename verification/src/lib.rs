//! Assemble model cards: merge layered JSON data sources, validate the merged
//! document against a JSON Schema, and render it through a text template.
//!
//! The pipeline works on plain values: the caller reads files into
//! [`source::SourceFile`] and [`render::TemplateFile`] records and persists
//! whatever comes back.  [`json`] holds the document tree and its model,
//! [`merge`] the deep-merge engine, [`laws`] its proved properties,
//! [`validate`] the schema validator, [`render`] the template renderer,
//! [`pipeline`] one function per command, and [`assets`] the built-in
//! schema, sample and templates.

use vstd::prelude::*;

pub mod assets;
pub mod codec;
pub mod error;
pub mod json;
pub mod laws;
pub mod merge;
pub mod order;
pub mod pipeline;
pub mod render;
pub mod settings;
pub mod source;
pub mod utils;
pub mod validate;

verus! {

/// Theme for rendering a model card. Only the Google layout is wired up to the
/// built-in assets; the others are placeholders for custom templates.
pub enum Theme {
    HuggingFace,
    Lazy,
    Google,
}

} // verus!
