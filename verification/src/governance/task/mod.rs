//! Task life cycle for approval workflows: the tasks, their state machine and
//! the store that holds them.

pub mod status;
pub mod helpers;
pub mod types;
pub mod error;
pub mod life;
pub mod canonical_laws;
pub mod hash_laws;
pub mod maps;
pub mod store;
pub mod store_laws;
