//! The gates, the task life cycle and the approval engine.

pub mod api;
pub mod approval;
pub mod blocking;
pub mod engine;
pub mod engine_laws;
pub mod evaluation;
pub mod evaluation_laws;
pub mod evaluator;
pub mod executing;
pub mod gate_laws;
pub mod list_filtering;
pub mod message_laws;
pub mod service;
pub mod task;
pub mod view_laws;
