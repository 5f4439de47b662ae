//! The JSON-RPC protocol rules of the server: which method gets which answer, and the
//! error and reply records sent back.

use vstd::prelude::*;
use crate::text::{push_str, str_eq};
use crate::tools::{ToolKind, ToolRegistry, tool_name};
use crate::types::{TextContent, ToolCallResponse};

verus! {

/// The transport that exchanges JSON-RPC messages as lines on standard input and output.
#[derive(Debug, Clone, Copy, PartialEq, Eq, Structural)]
pub struct StdioTransport;

/// The transport that serves JSON-RPC over HTTP, with replies streamed as Server-Sent Events,
/// on `port`.
#[derive(Debug, Clone, Copy, PartialEq, Eq, Structural)]
pub struct HttpTransport {
    pub port: u16,
}

/// A JSON-RPC error: its code and message.
#[derive(Debug)]
pub struct JsonRpcError {
    pub code: i32,
    pub message: String,
}

/// What the server does with a well-formed request.
#[derive(Debug, Clone, Copy, PartialEq, Eq, Structural)]
pub enum RpcAction {
    /// Answer with the protocol version, capabilities and server identity.
    Initialize,
    /// A notification: send nothing.
    Ignore,
    /// Answer with the registered tools.
    ListTools,
    /// Call the tool the parameters name.
    CallTool,
    /// A tool call without parameters: answer with [`missing_params`].
    MissingParams,
    /// Answer with [`method_not_found`].
    MethodNotFound,
}

/// The action for a request with method `method`, carrying parameters or not.
pub open spec fn action_for(method: Seq<char>, has_params: bool) -> RpcAction {
    if method == "initialize"@ {
        RpcAction::Initialize
    } else if method == "notifications/initialized"@ {
        RpcAction::Ignore
    } else if method == "tools/list"@ {
        RpcAction::ListTools
    } else if method == "tools/call"@ {
        if has_params { RpcAction::CallTool } else { RpcAction::MissingParams }
    } else {
        RpcAction::MethodNotFound
    }
}

/// Decides what to do with a request.
pub fn classify_request(method: &str, has_params: bool) -> (r: RpcAction)
    ensures
        r == action_for(method@, has_params),
{
    if str_eq(method, "initialize") {
        RpcAction::Initialize
    } else if str_eq(method, "notifications/initialized") {
        RpcAction::Ignore
    } else if str_eq(method, "tools/list") {
        RpcAction::ListTools
    } else if str_eq(method, "tools/call") {
        if has_params { RpcAction::CallTool } else { RpcAction::MissingParams }
    } else {
        RpcAction::MethodNotFound
    }
}

fn error_with(code: i32, lead: &str, detail: &str) -> (e: JsonRpcError)
    ensures
        e.code == code,
        e.message@ == lead@ + detail@,
{
    let mut message = String::from_str(lead);
    push_str(&mut message, detail);
    JsonRpcError { code, message }
}

/// The error for a request that is not valid JSON-RPC.
pub fn parse_error(detail: &str) -> (e: JsonRpcError)
    ensures
        e.code == -32700,
        e.message@ == "Parse error: "@ + detail@,
{
    error_with(-32700, "Parse error: ", detail)
}

/// The error for a tool call without parameters.
pub fn missing_params() -> (e: JsonRpcError)
    ensures
        e.code == -32602,
        e.message@ == "Missing parameters"@,
{
    JsonRpcError { code: -32602, message: String::from_str("Missing parameters") }
}

/// The error for tool-call parameters that do not name a tool and its arguments.
pub fn invalid_params(detail: &str) -> (e: JsonRpcError)
    ensures
        e.code == -32602,
        e.message@ == "Invalid parameters: "@ + detail@,
{
    error_with(-32602, "Invalid parameters: ", detail)
}

/// The error for a call of an unregistered tool.
pub fn tool_not_found(name: &str) -> (e: JsonRpcError)
    ensures
        e.code == -32601,
        e.message@ == "Tool not found: "@ + name@,
{
    error_with(-32601, "Tool not found: ", name)
}

/// The error for an unknown method.
pub fn method_not_found(method: &str) -> (e: JsonRpcError)
    ensures
        e.code == -32601,
        e.message@ == "Method not found: "@ + method@,
{
    error_with(-32601, "Method not found: ", method)
}

/// The tool a `tools/call` request names: the one registered under `name`, else the
/// error answered for an unknown tool.
pub fn resolve_tool(registry: &ToolRegistry, name: &str) -> (r: Result<ToolKind, JsonRpcError>)
    ensures
        match r {
            Ok(k) => registry@.contains(k) && tool_name(k) == name@,
            Err(e) => {
                &&& forall|k: ToolKind| registry@.contains(k) ==> tool_name(k) != name@
                &&& e.code == -32601
                &&& e.message@ == "Tool not found: "@ + name@
            },
        },
{
    match registry.get(name) {
        Some(k) => Ok(k),
        None => Err(tool_not_found(name)),
    }
}

impl ToolCallResponse {
    /// The reply to a successful tool call: its result as one text item.
    pub fn success(text: String) -> (r: ToolCallResponse)
        ensures
            r.content@.len() == 1,
            r.content@[0].content_type@ == "text"@,
            r.content@[0].text@ == text@,
            r.is_error is None,
    {
        ToolCallResponse {
            content: vec![TextContent { content_type: String::from_str("text"), text }],
            is_error: None,
        }
    }

    /// The reply to a failed tool call: the failure as one text item, flagged as an error.
    pub fn failure(message: &str) -> (r: ToolCallResponse)
        ensures
            r.content@.len() == 1,
            r.content@[0].content_type@ == "text"@,
            r.content@[0].text@ == "Error executing tool: "@ + message@,
            r.is_error == Some(true),
    {
        let mut text = String::from_str("Error executing tool: ");
        push_str(&mut text, message);
        ToolCallResponse {
            content: vec![TextContent { content_type: String::from_str("text"), text }],
            is_error: Some(true),
        }
    }
}

/// The identity the server reports when a client initializes.
pub struct ServerIdentity {
    pub protocol_version: String,
    pub name: String,
    pub version: String,
}

/// Protocol version "2024-11-05", server "sequential-thinking-server" version "1.0.0".
pub fn server_identity() -> (r: ServerIdentity)
    ensures
        r.protocol_version@ == "2024-11-05"@,
        r.name@ == "sequential-thinking-server"@,
        r.version@ == "1.0.0"@,
{
    ServerIdentity {
        protocol_version: String::from_str("2024-11-05"),
        name: String::from_str("sequential-thinking-server"),
        version: String::from_str("1.0.0"),
    }
}

} // verus!
