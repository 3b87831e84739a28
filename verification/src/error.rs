//! The failure taxonomy of the pipeline.
//!
//! Every stage reports its failure through `CardError`; all of them are
//! terminal for the current command and carry enough context for the caller
//! to print a single multi-line diagnostic.

use vstd::prelude::*;

verus! {

/// One schema violation: a code, a JSON-pointer-like path into the document,
/// a short title, and an optional longer detail line.
#[derive(Debug, PartialEq)]
pub struct Violation {
    pub code: String,
    pub path: String,
    pub title: String,
    pub detail: Option<String>,
}

/// The model of a violation, with each text as a character sequence.
#[verifier::ext_equal]
pub struct ViolationModel {
    pub code: Seq<char>,
    pub path: Seq<char>,
    pub title: Seq<char>,
    pub detail: Option<Seq<char>>,
}

impl View for Violation {
    type V = ViolationModel;

    open spec fn view(&self) -> ViolationModel {
        ViolationModel {
            code: self.code@,
            path: self.path@,
            title: self.title@,
            detail: match self.detail {
                Some(d) => Some(d@),
                None => None,
            },
        }
    }
}

pub open spec fn violations_model(vs: Seq<Violation>) -> Seq<ViolationModel> {
    vs.map_values(|v: Violation| v@)
}

pub open spec fn strings_model(ss: Seq<String>) -> Seq<Seq<char>> {
    ss.map_values(|s: String| s@)
}

/// What can go wrong while assembling a model card.
#[derive(Debug, PartialEq)]
pub enum CardError {
    /// A source path did not exist or could not be read.
    ReadError { path: String },
    /// A source text was not valid JSON.
    ParseError { raw_text: String, cause: String },
    /// The schema document itself was malformed.
    SchemaCompileError { cause: String },
    /// The document does not conform to the schema: every violation the
    /// validator found, in sorted order, and the paths of the
    /// required-but-absent fields among them.
    ValidationFailed { violations: Vec<Violation>, missing: Vec<String> },
    /// An explicit template path referenced no existing file.
    TemplateNotFound { path: String },
    /// The template engine failed while rendering.
    RenderError { cause: String },
    /// The output target exists and no override was requested.
    TargetExists { path: String },
    /// The rendered output could not be persisted.
    WriteError { path: String },
    /// A merge was requested over an empty source list.
    NoSources,
}

} // verus!
