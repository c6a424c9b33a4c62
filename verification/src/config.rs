//! The configured tool set: knowledge bases and remote tool servers.

use vstd::prelude::*;

verus! {

/// A knowledge base that can be searched.
#[derive(Clone, Debug, PartialEq, Eq)]
pub struct KB {
    pub name: String,
    pub num_results: i32,
}

/// How a remote tool server is reached.
#[allow(non_camel_case_types)]
#[derive(Clone, Copy, Debug, PartialEq, Eq, Structural)]
pub enum MCPType {
    STREAM,
    SSE,
}

/// A remote tool server.
#[derive(Clone, Debug, PartialEq, Eq)]
pub struct MCP {
    pub name: String,
    pub description: String,
    pub url: String,
    pub mcp_type: MCPType,
}

/// The whole tool configuration.
#[derive(Clone, Debug, PartialEq, Eq)]
pub struct Config {
    pub kb: Vec<KB>,
    pub mcp: Vec<MCP>,
}

} // verus!
