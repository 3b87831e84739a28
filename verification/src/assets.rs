//! Built-in assets: the default configuration, the model-card schema with a
//! matching sample document, and the default templates.  All are process-wide
//! constants with no runtime mutation.

pub mod config;
pub mod schema;
pub mod templates;
