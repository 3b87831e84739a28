//! The built-in default configuration, a process-wide constant asset.

use vstd::prelude::*;

verus! {

pub const DEFAULT_CONFIG: &'static str = "verbose = true
force = false
project_dir = \".\"

[input]
data = \"./sample.json\"
schema = \"./schema/modelcard.schema.json\"
validate = true

[output]
target = \"./cards/modelcard.md\"
template = \"./templates/modelcard.md.jinja\"
validate = true
";

/// The text of the built-in configuration.
pub open spec fn default_config_text() -> Seq<char> {
    DEFAULT_CONFIG@
}

/// The built-in default configuration, as TOML text.
pub fn get_default() -> (r: String)
    ensures
        r@ == default_config_text(),
{
    DEFAULT_CONFIG.to_owned()
}

} // verus!
