use mcp_stdio::{
    call_tool_request, initialize_request, list_resources_request, list_tools_request,
    read_resource_request, JsonRpcId, JsonRpcRequest,
    McpInitializeClientInfo, McpInitializeParams, McpListResourcesParams, McpListToolsParams,
    McpReadResourceParams, McpToolCallContent, McpToolCallParams, McpToolCallResult,
};

fn json(text: &str) -> serde_json::Value {
    serde_json::from_str(text).unwrap()
}

#[test]
fn new_request_is_jsonrpc_two() {
    let request = JsonRpcRequest::new(
        JsonRpcId::Number(7),
        "initialize",
        Some(json(r#"{"protocolVersion":"2025-03-26","capabilities":{},"clientInfo":{"name":"runtime-tests","version":"0.1.0"}}"#)),
    );
    assert_eq!(request.jsonrpc, "2.0");
    assert_eq!(request.id, JsonRpcId::Number(7));
    assert_eq!(request.method, "initialize");
    assert_eq!(request.params.as_ref().unwrap()["protocolVersion"], json("\"2025-03-26\""));

    let bare: JsonRpcRequest<serde_json::Value> =
        JsonRpcRequest::new(JsonRpcId::String("call-1".to_string()), "ping", None);
    assert_eq!(bare.jsonrpc, "2.0");
    assert_eq!(bare.id, JsonRpcId::String("call-1".to_string()));
    assert_eq!(bare.params, None);

    let null_id: JsonRpcRequest<u8> = JsonRpcRequest::new(JsonRpcId::Null, "", Some(3));
    assert_eq!(null_id.id, JsonRpcId::Null);
    assert_eq!(null_id.method, "");
    assert_eq!(null_id.params, Some(3));
}

#[test]
fn initialize_request_carries_params() {
    let params = McpInitializeParams {
        protocol_version: "2025-03-26".to_string(),
        capabilities: json(r#"{"roots":{}}"#),
        client_info: McpInitializeClientInfo {
            name: "runtime-tests".to_string(),
            version: "0.1.0".to_string(),
        },
    };
    let request = initialize_request(JsonRpcId::Number(1), params.clone());
    assert_eq!(request.jsonrpc, "2.0");
    assert_eq!(request.method, "initialize");
    assert_eq!(request.id, JsonRpcId::Number(1));
    assert_eq!(request.params, Some(params));
}

#[test]
fn tool_requests_use_tool_methods() {
    let list = list_tools_request(JsonRpcId::Number(2), None);
    assert_eq!(list.method, "tools/list");
    assert_eq!(list.jsonrpc, "2.0");
    assert_eq!(list.id, JsonRpcId::Number(2));
    assert_eq!(list.params, None);

    let paged = list_tools_request(
        JsonRpcId::Number(5),
        Some(McpListToolsParams { cursor: Some("next".to_string()) }),
    );
    assert_eq!(paged.params, Some(McpListToolsParams { cursor: Some("next".to_string()) }));

    let params = McpToolCallParams {
        name: "echo".to_string(),
        arguments: Some(json(r#"{"text":"hello"}"#)),
        meta: None,
    };
    let call = call_tool_request(JsonRpcId::String("call-1".to_string()), params.clone());
    assert_eq!(call.method, "tools/call");
    assert_eq!(call.jsonrpc, "2.0");
    assert_eq!(call.id, JsonRpcId::String("call-1".to_string()));
    assert_eq!(call.params, Some(params));
}

#[test]
fn resource_requests_use_resource_methods() {
    let list = list_resources_request(JsonRpcId::Number(3), None);
    assert_eq!(list.method, "resources/list");
    assert_eq!(list.jsonrpc, "2.0");
    assert_eq!(list.params, None);

    let paged = list_resources_request(
        JsonRpcId::Number(6),
        Some(McpListResourcesParams { cursor: None }),
    );
    assert_eq!(paged.params, Some(McpListResourcesParams { cursor: None }));

    let read = read_resource_request(
        JsonRpcId::Number(4),
        McpReadResourceParams { uri: "file://guide.txt".to_string() },
    );
    assert_eq!(read.method, "resources/read");
    assert_eq!(read.jsonrpc, "2.0");
    assert_eq!(read.id, JsonRpcId::Number(4));
    assert_eq!(read.params, Some(McpReadResourceParams { uri: "file://guide.txt".to_string() }));
}

#[test]
fn cloned_tool_output_keeps_json_fields() {
    let mut data = std::collections::BTreeMap::new();
    data.insert("text".to_string(), json("\"echo:hello\""));
    let content = McpToolCallContent { kind: "text".to_string(), data };
    let result = McpToolCallResult {
        content: vec![content.clone()],
        structured_content: Some(json(r#"{"echoed":"hello"}"#)),
        is_error: Some(false),
        meta: None,
    };
    let copy = result.clone();
    assert_eq!(copy, result);
    assert_eq!(copy.content[0], content);
    assert_eq!(copy.content[0].data.get("text"), Some(&json("\"echo:hello\"")));
    assert_eq!(copy.structured_content, Some(json(r#"{"echoed":"hello"}"#)));
}
