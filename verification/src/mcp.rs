//! Model Context Protocol messages carried over JSON-RPC, and the requests
//! that the client sends for each operation.
use std::collections::BTreeMap;

use vstd::prelude::*;

use serde_json::Value as JsonValue;

use crate::jsonrpc::{is_request_for, JsonRpcId, JsonRpcRequest};

verus! {

/// Parameters of `initialize`.
#[derive(Debug, Clone, PartialEq)]
pub struct McpInitializeParams {
    pub protocol_version: String,
    pub capabilities: JsonValue,
    pub client_info: McpInitializeClientInfo,
}

/// Who the client is.
#[derive(Debug, Clone, PartialEq, Eq)]
pub struct McpInitializeClientInfo {
    pub name: String,
    pub version: String,
}

/// Result of `initialize`.
#[derive(Debug, Clone, PartialEq)]
pub struct McpInitializeResult {
    pub protocol_version: String,
    pub capabilities: JsonValue,
    pub server_info: McpInitializeServerInfo,
}

/// Who the server is.
#[derive(Debug, Clone, PartialEq, Eq)]
pub struct McpInitializeServerInfo {
    pub name: String,
    pub version: String,
}

/// Parameters of `tools/list`.
#[derive(Debug, Clone, PartialEq)]
pub struct McpListToolsParams {
    pub cursor: Option<String>,
}

/// A tool that the server offers.
#[derive(Debug, Clone, PartialEq)]
pub struct McpTool {
    pub name: String,
    pub description: Option<String>,
    pub input_schema: Option<JsonValue>,
    pub annotations: Option<JsonValue>,
    pub meta: Option<JsonValue>,
}

/// Result of `tools/list`.
#[derive(Debug, Clone, PartialEq)]
pub struct McpListToolsResult {
    pub tools: Vec<McpTool>,
    pub next_cursor: Option<String>,
}

/// Parameters of `tools/call`.
#[derive(Debug, Clone, PartialEq)]
pub struct McpToolCallParams {
    pub name: String,
    pub arguments: Option<JsonValue>,
    pub meta: Option<JsonValue>,
}

/// One item of a tool's output: its type and its other fields.
#[derive(Debug, Clone, PartialEq)]
pub struct McpToolCallContent {
    pub kind: String,
    pub data: BTreeMap<String, JsonValue>,
}

/// Result of `tools/call`.
#[derive(Debug, Clone, PartialEq)]
pub struct McpToolCallResult {
    pub content: Vec<McpToolCallContent>,
    pub structured_content: Option<JsonValue>,
    pub is_error: Option<bool>,
    pub meta: Option<JsonValue>,
}

/// Parameters of `resources/list`.
#[derive(Debug, Clone, PartialEq)]
pub struct McpListResourcesParams {
    pub cursor: Option<String>,
}

/// A resource that the server offers.
#[derive(Debug, Clone, PartialEq)]
pub struct McpResource {
    pub uri: String,
    pub name: Option<String>,
    pub description: Option<String>,
    pub mime_type: Option<String>,
    pub annotations: Option<JsonValue>,
    pub meta: Option<JsonValue>,
}

/// Result of `resources/list`.
#[derive(Debug, Clone, PartialEq)]
pub struct McpListResourcesResult {
    pub resources: Vec<McpResource>,
    pub next_cursor: Option<String>,
}

/// Parameters of `resources/read`.
#[derive(Debug, Clone, PartialEq)]
pub struct McpReadResourceParams {
    pub uri: String,
}

/// The contents of a resource.
#[derive(Debug, Clone, PartialEq)]
pub struct McpResourceContents {
    pub uri: String,
    pub mime_type: Option<String>,
    pub text: Option<String>,
    pub blob: Option<String>,
    pub meta: Option<JsonValue>,
}

/// Result of `resources/read`.
#[derive(Debug, Clone, PartialEq)]
pub struct McpReadResourceResult {
    pub contents: Vec<McpResourceContents>,
}

/// The method that opens a session.
pub open spec fn initialize_method() -> Seq<char> {
    "initialize"@
}

/// The method that lists the server's tools.
pub open spec fn list_tools_method() -> Seq<char> {
    "tools/list"@
}

/// The method that calls a tool.
pub open spec fn call_tool_method() -> Seq<char> {
    "tools/call"@
}

/// The method that lists the server's resources.
pub open spec fn list_resources_method() -> Seq<char> {
    "resources/list"@
}

/// The method that reads a resource.
pub open spec fn read_resource_method() -> Seq<char> {
    "resources/read"@
}

/// The request that opens a session.
pub fn initialize_request(id: JsonRpcId, params: McpInitializeParams) -> (r: JsonRpcRequest<
    McpInitializeParams,
>)
    ensures
        is_request_for(r, id, initialize_method(), Some(params)),
        r.jsonrpc@ == "2.0"@,
        r.id == id,
        r.method@ == "initialize"@,
        r.params == Some(params),
{
    JsonRpcRequest::new(id, "initialize", Some(params))
}

/// The request that lists the server's tools; the parameters are left out
/// when there are none.
pub fn list_tools_request(id: JsonRpcId, params: Option<McpListToolsParams>) -> (r: JsonRpcRequest<
    McpListToolsParams,
>)
    ensures
        is_request_for(r, id, list_tools_method(), params),
        r.jsonrpc@ == "2.0"@,
        r.id == id,
        r.method@ == "tools/list"@,
        r.params == params,
{
    JsonRpcRequest::new(id, "tools/list", params)
}

/// The request that calls a tool.
pub fn call_tool_request(id: JsonRpcId, params: McpToolCallParams) -> (r: JsonRpcRequest<
    McpToolCallParams,
>)
    ensures
        is_request_for(r, id, call_tool_method(), Some(params)),
        r.jsonrpc@ == "2.0"@,
        r.id == id,
        r.method@ == "tools/call"@,
        r.params == Some(params),
{
    JsonRpcRequest::new(id, "tools/call", Some(params))
}

/// The request that lists the server's resources; the parameters are left
/// out when there are none.
pub fn list_resources_request(id: JsonRpcId, params: Option<McpListResourcesParams>) -> (r:
    JsonRpcRequest<McpListResourcesParams>)
    ensures
        is_request_for(r, id, list_resources_method(), params),
        r.jsonrpc@ == "2.0"@,
        r.id == id,
        r.method@ == "resources/list"@,
        r.params == params,
{
    JsonRpcRequest::new(id, "resources/list", params)
}

/// The request that reads a resource.
pub fn read_resource_request(id: JsonRpcId, params: McpReadResourceParams) -> (r: JsonRpcRequest<
    McpReadResourceParams,
>)
    ensures
        is_request_for(r, id, read_resource_method(), Some(params)),
        r.jsonrpc@ == "2.0"@,
        r.id == id,
        r.method@ == "resources/read"@,
        r.params == Some(params),
{
    JsonRpcRequest::new(id, "resources/read", Some(params))
}

} // verus!
