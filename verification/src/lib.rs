//! A client for the Model Context Protocol over a child process's standard
//! streams: JSON-RPC messages, each framed by a `Content-Length` header.
//!
//! The library holds the protocol's logic: the message types, the requests
//! sent for each operation, the framing of outgoing messages and the reading
//! of incoming frame headers.  Spawning the child and moving bytes belong to
//! the caller, who hands each line read to a `FrameHeaderReader` and each
//! message to be sent to `encode_frame`.
pub mod decimal;
pub mod frame;
pub mod jsonrpc;
pub mod mcp;
pub mod text;
pub mod transport;

pub use decimal::{format_decimal, parse_usize, IntErrorKind};
pub use frame::{
    classify_header_line, encode_frame, finish_read_line, FrameHeaderReader, FrameHeaderStep,
    HeaderLine, StdioError, StdioErrorKind,
};
pub use jsonrpc::{JsonRpcError, JsonRpcId, JsonRpcRequest, JsonRpcResponse};
pub use mcp::{
    call_tool_request, initialize_request, list_resources_request, list_tools_request,
    read_resource_request, McpInitializeClientInfo, McpInitializeParams, McpInitializeResult,
    McpInitializeServerInfo, McpListResourcesParams, McpListResourcesResult, McpListToolsParams,
    McpListToolsResult, McpReadResourceParams, McpReadResourceResult, McpResource,
    McpResourceContents, McpTool, McpToolCallContent, McpToolCallParams, McpToolCallResult,
};
pub use transport::{stdio_transport, McpClientBootstrap, McpClientTransport, McpStdioTransport};
