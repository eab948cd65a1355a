use std::collections::BTreeMap;

use mcp_stdio::{stdio_transport, McpClientBootstrap, McpClientTransport, McpStdioTransport};

#[test]
fn stdio_bootstrap_yields_its_transport() {
    let transport = McpStdioTransport {
        command: "/bin/sh".to_string(),
        args: vec!["echo-mcp.sh".to_string()],
        env: BTreeMap::from([("MCP_TEST_TOKEN".to_string(), "secret-value".to_string())]),
    };
    let bootstrap = McpClientBootstrap {
        server_name: "stdio server".to_string(),
        transport: McpClientTransport::Stdio(transport.clone()),
    };
    assert_eq!(stdio_transport(&bootstrap), Some(&transport));
}

#[test]
fn non_stdio_bootstrap_is_refused() {
    let bootstrap = McpClientBootstrap {
        server_name: "sdk server".to_string(),
        transport: McpClientTransport::Sdk { name: "sdk-server".to_string() },
    };
    assert_eq!(stdio_transport(&bootstrap), None);
}
