pub mod error;
pub mod glob_pattern;
pub mod rule_laws;
pub mod schema;
pub mod compile;
pub mod defaults;
pub mod duration_format;
pub mod url_check;
pub mod validate;
pub mod validation_laws;
pub mod loader;
pub mod laws;
