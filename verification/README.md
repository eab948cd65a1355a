# mcp_stdio

A client for the Model Context Protocol (MCP) spoken over a child process's
standard streams: JSON-RPC 2.0 messages, each framed by a `Content-Length`
header, an empty line and the payload.

- `src/` is the verified library (Verus):
  - `jsonrpc.rs`: JSON-RPC ids, requests, responses, errors; building a request.
  - `mcp.rs`: the MCP message types and the request sent for each operation.
  - `frame.rs`: framing outgoing payloads (`encode_frame`) and reading incoming
    frame headers line by line (`FrameHeaderReader`), with the laws that a
    framed payload reads back whole and that the last `Content-Length` wins.
  - `decimal.rs`: decimal text of `usize`, written and read back.
  - `text.rs`: characters of a string, Unicode whitespace, trimming, prefixes.
  - `transport.rs`: server bootstraps and the choice of the stdio transport.
- `app/` spawns the server with tokio, moves the bytes, and converts between
  the library's types and their serde-derived wire copies.
- `tests/` exercises the library on concrete values, also against std.
