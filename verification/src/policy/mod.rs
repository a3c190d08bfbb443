//! Cedar policies: where they come from.

pub mod loader;
