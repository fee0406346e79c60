//! What is recorded of a request.

use agentgateway_mcp::handler::capture::{
    capture_terminal_mcp_payload, messages_to_response, note_upstream_error,
};
use agentgateway_mcp::info::{
    Error, MCPInfo, MCPOperation, ResourceId, ResourceType, sanitize_error_message,
};
use agentgateway_mcp::json::Json;
use agentgateway_mcp::model::{
    CallToolResult, Content, ErrorData, RequestId, ServerJsonRpcMessage, ServerResult,
};
use agentgateway_mcp::upstream::{
    ClientError, HttpResponse, ProxyError, UpstreamError, classify_upstream_error_for_cel,
};

fn tool_info() -> MCPInfo {
    let mut info = MCPInfo::default();
    info.set_tool("mcp".to_string(), "echo".to_string());
    info
}

fn structured() -> Json {
    Json::Object(vec![(
        "structuredContent".to_string(),
        Json::Object(vec![("status".to_string(), Json::Str("ok".to_string()))]),
    )])
}

fn tool_result(id: i64, is_error: Option<bool>, content: Vec<Content>) -> ServerJsonRpcMessage {
    ServerJsonRpcMessage::Response {
        id: RequestId::Number(id),
        result: ServerResult::CallToolResult(CallToolResult {
            content,
            is_error,
            meta: None,
            rest: structured(),
        }),
    }
}

fn internal_error(id: i64, message: &str) -> ServerJsonRpcMessage {
    ServerJsonRpcMessage::Error {
        id: RequestId::Number(id),
        error: ErrorData { code: -32603, message: message.to_string(), data: None },
    }
}

fn error_json(code: &str, message: &str) -> Json {
    Json::Object(vec![
        ("code".to_string(), Json::Number(code.to_string())),
        ("message".to_string(), Json::Str(message.to_string())),
    ])
}

fn http_status(status: u16) -> UpstreamError {
    UpstreamError::Http(ClientError::Status(Box::new(HttpResponse {
        status,
        headers: vec![],
        body: vec![],
    })))
}

#[test]
fn mcpinfo_default_is_empty() {
    assert!(MCPInfo::default().is_empty());
}

#[test]
fn mcpinfo_set_task_marks_non_empty_and_clears_others() {
    let mut m = MCPInfo::default();
    m.set_tool("x".into(), "tool1".into());
    m.set_task("a".into(), "t1".into());
    assert!(m.tool.is_none());
    assert!(m.prompt.is_none());
    assert!(m.resource.is_none());
    assert_eq!(m.task, Some(ResourceId::new("a".into(), "t1".into())));
    assert!(!m.is_empty());
}

#[test]
fn mcpinfo_task_operation_target_and_name() {
    let mut m = MCPInfo::default();
    m.set_task("a".into(), "t1".into());
    assert_eq!(m.resource_type(), Some(MCPOperation::Task));
    assert_eq!(m.target_name(), Some("a"));
    assert_eq!(m.resource_name(), Some("t1"));
}

#[test]
fn mcpinfo_from_resource_type_task() {
    let rt = ResourceType::Task(ResourceId::new("a".into(), "t1".into()));
    let info = MCPInfo::from(&rt);
    assert_eq!(info.task, Some(ResourceId::new("a".into(), "t1".into())));
    assert!(info.tool.is_none());
    assert!(info.prompt.is_none());
    assert!(info.resource.is_none());
    assert!(!info.is_empty());
}

#[test]
fn mcpoperation_task_display_is_task() {
    assert_eq!(MCPOperation::Task.to_string(), "task");
}

#[test]
fn sanitize_error_message_empty() {
    assert_eq!(sanitize_error_message(""), "");
}

#[test]
fn sanitize_error_message_short() {
    assert_eq!(sanitize_error_message("hello"), "hello");
}

#[test]
fn sanitize_error_message_exactly_500_bytes() {
    let s: String = "a".repeat(500);
    let result = sanitize_error_message(&s);
    assert_eq!(result.len(), 500);
    assert_eq!(result, s);
}

#[test]
fn sanitize_error_message_ascii_over_budget() {
    let s: String = "a".repeat(600);
    let result = sanitize_error_message(&s);
    assert_eq!(result.len(), 500);
}

#[test]
fn sanitize_error_message_utf8_mid_rune_over_budget() {
    // Each '€' is 3 bytes (UTF-8 E2 82 AC).
    // 499 bytes of 'a' + '€' = 502 bytes. Truncating at 500 would split the 3-byte rune.
    let mut s = "a".repeat(499);
    s.push('€');
    assert_eq!(s.len(), 502);
    let result = sanitize_error_message(&s);
    // Must be a valid UTF-8 string truncated before the rune boundary.
    assert!(std::str::from_utf8(result.as_bytes()).is_ok());
    assert!(result.len() <= 500);
    // The euro sign must be dropped since it would split at byte 500.
    assert!(!result.contains('€'));
    assert_eq!(result, "a".repeat(499));
}

#[test]
fn set_upstream_error_sets_field() {
    let mut m = MCPInfo::default();
    assert_eq!(m.upstream_error, None);
    m.set_upstream_error("http_5xx");
    assert_eq!(m.upstream_error.as_deref(), Some("http_5xx"));
}

#[test]
fn set_backend_name_sets_field() {
    let mut m = MCPInfo::default();
    assert_eq!(m.backend_name, None);
    m.set_backend_name("mcp-federated");
    assert_eq!(m.backend_name.as_deref(), Some("mcp-federated"));
}

#[test]
fn messages_to_response_captures_first_matching_tool_result() {
    let mut info = tool_info();
    let items = vec![
        (
            Ok(ServerJsonRpcMessage::Response {
                id: RequestId::Number(1),
                result: ServerResult::ListToolsResult(vec![]),
            }),
            None,
        ),
        (Ok(tool_result(42, Some(false), vec![])), Some(structured())),
        (
            Ok(internal_error(42, "later error")),
            Some(error_json("-32603", "later error")),
        ),
    ];
    let sent = messages_to_response(RequestId::Number(42), true, items, &mut info);
    assert_eq!(sent.len(), 3);
    assert_eq!(info.tool.as_ref().unwrap().result.as_ref().unwrap(), &structured());
    assert!(info.tool.as_ref().unwrap().error.is_none());
    assert_eq!(info.success, Some(true));
}

#[test]
fn messages_to_response_ignores_transport_errors_before_result() {
    let mut info = tool_info();
    let items = vec![
        (Err(ClientError::new("boom".to_string())), None),
        (Ok(tool_result(7, Some(false), vec![])), Some(structured())),
    ];
    let sent = messages_to_response(RequestId::Number(7), true, items, &mut info);
    assert_eq!(sent[0], internal_error(7, "http request failed: boom"));
    assert_eq!(info.tool.as_ref().unwrap().result.as_ref().unwrap(), &structured());
    assert!(info.tool.as_ref().unwrap().error.is_none());
}

#[test]
fn messages_to_response_captures_json_rpc_error() {
    let mut info = tool_info();
    let items = vec![(Ok(internal_error(7, "boom")), Some(error_json("-32603", "boom")))];
    let _ = messages_to_response(RequestId::Number(7), true, items, &mut info);
    let tool = info.tool.as_ref().unwrap();
    assert!(tool.result.is_none());
    assert_eq!(tool.error.as_ref().unwrap(), &error_json("-32603", "boom"));
    assert_eq!(info.success, Some(false));
    let error = info.error.as_ref().unwrap();
    assert_eq!(error.error_type, "upstream_tool_error");
    assert_eq!(error.error_message, "boom");
    assert_eq!(error.code, Some(-32603));
}

#[test]
fn failed_tool_result_records_its_first_text() {
    let mut info = tool_info();
    let msg = tool_result(
        3,
        Some(true),
        vec![Content::Text { text: "first".to_string(), rest: Json::Null }, Content::Text { text: "second".to_string(), rest: Json::Null }],
    );
    assert!(capture_terminal_mcp_payload(
        &mut info,
        &RequestId::Number(3),
        &msg,
        Some(structured()),
    ));
    assert_eq!(info.success, Some(false));
    assert_eq!(info.error.as_ref().unwrap().error_message, "first");
    assert_eq!(info.error.as_ref().unwrap().code, None);
    assert_eq!(info.tool.as_ref().unwrap().result, Some(structured()));
}

#[test]
fn messages_for_other_requests_end_nothing() {
    let mut info = tool_info();
    let msg = tool_result(3, None, vec![]);
    assert!(!capture_terminal_mcp_payload(&mut info, &RequestId::Number(4), &msg, None));
    assert_eq!(info, tool_info());
}

#[test]
fn upstream_failure_is_noted_with_category_and_label() {
    let mut info = tool_info();
    note_upstream_error(&mut info, &http_status(503));
    assert_eq!(info.upstream_error.as_deref(), Some("http_5xx"));
    let error = info.error.as_ref().unwrap();
    assert_eq!(error.error_type, "upstream_error");
    assert_eq!(
        error.error_message,
        "http request failed with code: 503 Service Unavailable"
    );
}

#[test]
fn timeouts_and_lost_connections_have_their_own_category() {
    let timeout = UpstreamError::Proxy(ProxyError::UpstreamCallTimeout);
    assert_eq!(classify_upstream_error_for_cel(&timeout), "timeout");
    let lost = UpstreamError::Http(ClientError::General("reset".to_string()));
    assert_eq!(classify_upstream_error_for_cel(&lost), "connection_error");
    let fanout = UpstreamError::FanoutError { name: "a".to_string(), source: Box::new(lost) };
    assert_eq!(classify_upstream_error_for_cel(&fanout), "connection_error");
    assert_eq!(classify_upstream_error_for_cel(&http_status(500)), "upstream_error");
}

#[test]
fn answers_have_their_text() {
    assert_eq!(
        Error::MethodNotAllowed.to_string(),
        "method not allowed; must be GET, POST, or DELETE"
    );
    assert_eq!(
        Error::Authorization(RequestId::Number(1), "tool".to_string(), "echo".to_string())
            .to_string(),
        "Unknown tool: echo"
    );
    assert_eq!(
        Error::SendError(None, "gone".to_string()).to_string(),
        "send error: gone"
    );
    assert_eq!(
        Error::UpstreamError(Box::new(HttpResponse { status: 599, headers: vec![], body: vec![] }))
            .to_string(),
        "upstream error: 599 <unknown status code>"
    );
}

#[test]
fn each_subject_replaces_the_one_before() {
    let mut m = tool_info();
    m.set_prompt("a".to_string(), "p".to_string());
    assert!(m.tool.is_none());
    assert_eq!(m.resource_type(), Some(MCPOperation::Prompt));
    m.set_resource("a".to_string(), "r".to_string());
    assert!(m.prompt.is_none());
    assert_eq!(m.resource_name(), Some("r"));
}
