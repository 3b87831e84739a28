//! The configuration a project runs under.
//!
//! Loading these from TOML files and the environment is the caller's job;
//! the pipeline only reads the plain values.

use vstd::prelude::*;

verus! {

/// Where the data comes from and how it is checked.
#[derive(Debug, PartialEq)]
pub struct Input {
    pub data: String,
    pub schema: String,
    pub validate: bool,
}

/// Where the output goes and how it is produced.
#[derive(Debug, PartialEq)]
pub struct Output {
    pub target: String,
    pub template: String,
    pub validate: bool,
}

/// The full configuration of one invocation.
#[derive(Debug, PartialEq)]
pub struct Settings {
    pub project_dir: String,
    pub verbose: bool,
    pub force: bool,
    pub input: Input,
    pub output: Output,
}

} // verus!
