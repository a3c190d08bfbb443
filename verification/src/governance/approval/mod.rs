//! Approval through outside systems: what is asked, what comes back, and how
//! often to ask.

pub mod mock;
pub mod redact;
pub mod redact_laws;
pub mod types;
