//! How a configured MCP server is reached, and the choice of the
//! standard-stream transport before a server process is started.
use std::collections::BTreeMap;

use vstd::prelude::*;

verus! {

/// How to start a server that speaks MCP over its standard streams: the
/// program, its arguments, and variables added to its environment.
#[derive(Debug, Clone, PartialEq, Eq)]
pub struct McpStdioTransport {
    pub command: String,
    pub args: Vec<String>,
    pub env: BTreeMap<String, String>,
}

/// How a configured MCP server is reached.
#[derive(Debug, Clone, PartialEq, Eq)]
pub enum McpClientTransport {
    /// A child process, spoken to over its standard streams.
    Stdio(McpStdioTransport),
    /// A server hosted in-process by an SDK, known by its name.
    Sdk { name: String },
}

/// A configured MCP server, ready to be started.
#[derive(Debug, Clone, PartialEq, Eq)]
pub struct McpClientBootstrap {
    pub server_name: String,
    pub transport: McpClientTransport,
}

/// The standard-stream transport of `bootstrap`, if that is how its server
/// is reached; a bootstrap of any other kind gives `None`, and no process
/// is to be started for it.
pub fn stdio_transport(bootstrap: &McpClientBootstrap) -> (r: Option<&McpStdioTransport>)
    ensures
        r matches Some(t) ==> bootstrap.transport == McpClientTransport::Stdio(*t),
        r is None <==> !(bootstrap.transport is Stdio),
{
    match &bootstrap.transport {
        McpClientTransport::Stdio(transport) => Some(transport),
        McpClientTransport::Sdk { .. } => None,
    }
}

} // verus!
