//! JSON-RPC 2.0 messages: identifiers, requests, responses and errors.
//! Free-form JSON (parameters, results, error data) is carried as
//! `serde_json::Value`, which the library never looks into.
use vstd::prelude::*;

use serde_json::Value as JsonValue;

verus! {

/// A JSON value of any shape, passed through as is.
#[verifier::external_type_specification]
#[verifier::external_body]
pub struct ExJsonValue(serde_json::Value);

/// `serde_json::Value::clone` (derived by serde_json): the copy is the same
/// JSON value.
pub assume_specification[ <serde_json::Value as Clone>::clone ](v: &serde_json::Value) -> (res:
    serde_json::Value)
    ensures
        res == *v,
;

/// Identifier of a JSON-RPC message: a number, a string or null.
#[derive(Debug, Clone, PartialEq, Eq)]
pub enum JsonRpcId {
    Number(u64),
    String(String),
    Null,
}

/// A JSON-RPC request; `params` is left out of the message when absent.
#[derive(Debug, Clone, PartialEq)]
pub struct JsonRpcRequest<T = JsonValue> {
    pub jsonrpc: String,
    pub id: JsonRpcId,
    pub method: String,
    pub params: Option<T>,
}

/// The error member of a JSON-RPC response.
#[derive(Debug, Clone, PartialEq)]
pub struct JsonRpcError {
    pub code: i64,
    pub message: String,
    pub data: Option<JsonValue>,
}

/// A JSON-RPC response: the id of the request it answers, and a result or
/// an error.
#[derive(Debug, Clone, PartialEq)]
pub struct JsonRpcResponse<T = JsonValue> {
    pub jsonrpc: String,
    pub id: JsonRpcId,
    pub result: Option<T>,
    pub error: Option<JsonRpcError>,
}

/// The protocol version that every request carries.
pub open spec fn jsonrpc_version() -> Seq<char> {
    "2.0"@
}

/// `r` is the request with this id, method and parameters, marked as
/// JSON-RPC 2.0.
pub open spec fn is_request_for<T>(
    r: JsonRpcRequest<T>,
    id: JsonRpcId,
    method: Seq<char>,
    params: Option<T>,
) -> bool {
    &&& r.jsonrpc@ == jsonrpc_version()
    &&& r.id == id
    &&& r.method@ == method
    &&& r.params == params
}

impl<T> JsonRpcRequest<T> {
    /// A JSON-RPC 2.0 request with the given id, method and parameters.
    pub fn new(id: JsonRpcId, method: &str, params: Option<T>) -> (r: Self)
        ensures
            is_request_for(r, id, method@, params),
            r.jsonrpc@ == "2.0"@,
            r.id == id,
            r.method@ == method@,
            r.params == params,
    {
        JsonRpcRequest { jsonrpc: "2.0".to_string(), id, method: method.to_string(), params }
    }
}

} // verus!
