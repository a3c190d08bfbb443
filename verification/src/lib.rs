//! Governance core of ThoughtGate: configuration, the four gates, the task
//! life cycle and the approval engine's decisions.

use vstd::prelude::*;

pub mod config;
pub mod error;
pub mod governance;
pub mod inspector;
pub mod json;
pub mod jsonrpc;
pub mod lifecycle;
pub mod policy;
pub mod profile;
pub mod protocol;
pub mod text;
pub mod text_laws;
pub mod text_map;
pub mod time;

verus! {

/// Stream direction, shared across transports.
#[derive(Debug, Clone, Copy, PartialEq, Eq, Structural)]
pub enum StreamDirection {
    /// From the agent to the MCP server (outbound).
    AgentToServer,
    /// From the MCP server to the agent (inbound).
    ServerToAgent,
}

} // verus!
