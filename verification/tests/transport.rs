use sequential_thinking::tools::sequentialthinking::SequentialThinkingTool;
use sequential_thinking::tools::templates::TemplatesTool;
use sequential_thinking::tools::{ToolKind, ToolRegistry};
use sequential_thinking::transport::{
    classify_request, invalid_params, method_not_found, missing_params, parse_error, resolve_tool,
    server_identity, RpcAction,
};
use sequential_thinking::types::ToolCallResponse;

#[test]
fn requests_are_routed_by_method() {
    assert_eq!(classify_request("initialize", false), RpcAction::Initialize);
    assert_eq!(classify_request("notifications/initialized", true), RpcAction::Ignore);
    assert_eq!(classify_request("tools/list", false), RpcAction::ListTools);
    assert_eq!(classify_request("tools/call", true), RpcAction::CallTool);
    assert_eq!(classify_request("tools/call", false), RpcAction::MissingParams);
    assert_eq!(classify_request("ping", false), RpcAction::MethodNotFound);
    assert_eq!(classify_request("Initialize", false), RpcAction::MethodNotFound);
}

#[test]
fn protocol_errors() {
    let e = parse_error("expected value at line 1 column 1");
    assert_eq!(e.code, -32700);
    assert_eq!(e.message, "Parse error: expected value at line 1 column 1");
    let e = missing_params();
    assert_eq!(e.code, -32602);
    assert_eq!(e.message, "Missing parameters");
    let e = invalid_params("missing field `name`");
    assert_eq!(e.code, -32602);
    assert_eq!(e.message, "Invalid parameters: missing field `name`");
    let e = method_not_found("ping");
    assert_eq!(e.code, -32601);
    assert_eq!(e.message, "Method not found: ping");
}

#[test]
fn tool_calls_resolve_registered_tools_only() {
    let mut registry = ToolRegistry::new();
    registry.register(ToolKind::SequentialThinking(SequentialThinkingTool));
    match resolve_tool(&registry, "sequentialthinking") {
        Ok(k) => assert_eq!(k, ToolKind::SequentialThinking(SequentialThinkingTool)),
        Err(_) => panic!("the tool is registered"),
    }
    match resolve_tool(&registry, "reasoning_templates") {
        Ok(_) => panic!("the tool is not registered"),
        Err(e) => {
            assert_eq!(e.code, -32601);
            assert_eq!(e.message, "Tool not found: reasoning_templates");
        }
    }
    registry.register(ToolKind::Templates(TemplatesTool));
    assert!(resolve_tool(&registry, "reasoning_templates").is_ok());
}

#[test]
fn tool_call_replies() {
    let ok = ToolCallResponse::success("{\n  \"x\": 1\n}".to_string());
    assert_eq!(ok.content.len(), 1);
    assert_eq!(ok.content[0].content_type, "text");
    assert_eq!(ok.content[0].text, "{\n  \"x\": 1\n}");
    assert_eq!(ok.is_error, None);
    let failed = ToolCallResponse::failure("boom");
    assert_eq!(failed.content[0].content_type, "text");
    assert_eq!(failed.content[0].text, "Error executing tool: boom");
    assert_eq!(failed.is_error, Some(true));
}

#[test]
fn initialize_identity() {
    let id = server_identity();
    assert_eq!(id.protocol_version, "2024-11-05");
    assert_eq!(id.name, "sequential-thinking-server");
    assert_eq!(id.version, "1.0.0");
}
