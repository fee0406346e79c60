//! Requests from the client to an upstream and back: what is sent, answered and recorded.

use agentgateway_mcp::client::{
    ClientJsonRpcMessage, ClientNotification, ClientRequest, Reference,
};
use agentgateway_mcp::federation_outbound::{map_outbound_inner, map_outbound_outer};
use agentgateway_mcp::guardrails::denial::{McpDenialEnvelope, Rejection};
use agentgateway_mcp::handler::capture::messages_to_response;
use agentgateway_mcp::handler::{McpBackendGroup, Relay};
use agentgateway_mcp::info::{Error, FailureMode, MCPInfo};
use agentgateway_mcp::json::Json;
use agentgateway_mcp::mcp_apps::routing::parse_resource_uri_mixed;
use agentgateway_mcp::model::{
    CallToolResult, Content, ErrorData, INVALID_PARAMS, InitializeResult, RequestId,
    ResourceContents, ServerCapabilities, ServerJsonRpcMessage, ServerNotification, ServerResult,
    Task,
};
use agentgateway_mcp::session::dispatch::{MessagePlan, NotificationPlan, Plan};
use agentgateway_mcp::session::in_flight::InFlightRegistry;
use agentgateway_mcp::session::single::{Check, SingleCall};
use agentgateway_mcp::session::{SendFailure, denial_reply, handle_error};
use agentgateway_mcp::upstream::{ClientError, HttpResponse, ProxyError, UpstreamError};

fn group(mode: FailureMode, names: &[&str], skipped: &[&str]) -> McpBackendGroup {
    McpBackendGroup {
        targets: names.iter().map(|n| (n.to_string(), None)).collect(),
        skipped: skipped.iter().map(|n| n.to_string()).collect(),
        default_target_name: if names.len() == 1 { Some(names[0].to_string()) } else { None },
        is_multiplexing: names.len() > 1,
        stateful: true,
        failure_mode: mode,
    }
}

fn relay(names: &[&str]) -> Relay {
    Relay::new(group(FailureMode::FailClosed, names, &[])).unwrap()
}

fn text(s: &str) -> Json {
    Json::Str(s.to_string())
}

fn tool(name: &str) -> ClientRequest {
    ClientRequest::CallToolRequest {
        name: name.to_string(),
        arguments: Some(vec![("hi".to_string(), text("world"))]),
        rest: Json::Null,
    }
}

fn prompt(name: &str) -> ClientRequest {
    ClientRequest::GetPromptRequest { name: name.to_string(), rest: Json::Null }
}

fn read(uri: &str) -> ClientRequest {
    ClientRequest::ReadResourceRequest { uri: uri.to_string(), rest: Json::Null }
}

fn id() -> RequestId {
    RequestId::Number(7)
}

fn planned(r: &Relay, request: ClientRequest, log: &mut MCPInfo) -> SingleCall {
    match r.plan_request(id(), request, log).unwrap() {
        Plan::Single(call) => call,
        other => panic!("expected a single call, got {other:?}"),
    }
}

/// Runs the checks of a call; the guardrails let everything pass.
fn checked(call: &mut SingleCall, allowed: bool, log: &mut MCPInfo) -> Result<(), UpstreamError> {
    while let Some(check) = call.pending() {
        match check {
            Check::Guardrails => call.guardrails_ran(Ok(None))?,
            Check::Policy => call.policy_decided(allowed, log)?,
        }
    }
    Ok(())
}

/// The record and the answer of a request that the policy denies.
fn denied(request: ClientRequest) -> (MCPInfo, ServerJsonRpcMessage) {
    let r = relay(&["mcp"]);
    let mut log = MCPInfo::default();
    let mut call = planned(&r, request, &mut log);
    let err = checked(&mut call, false, &mut log).unwrap_err();
    match handle_error::<()>(Some(id()), Err(err)).unwrap_err() {
        SendFailure::Mcp(e) => (log, denial_reply(&e).unwrap()),
        other => panic!("unexpected {other:?}"),
    }
}

/// The record and the answer of a request that `name` takes, after the upstream sent `message`.
fn answered(
    r: &mut Relay,
    request: ClientRequest,
    message: ServerJsonRpcMessage,
    payload: Option<Json>,
) -> (MCPInfo, ServerJsonRpcMessage) {
    let mut log = MCPInfo::default();
    let mut call = planned(r, request, &mut log);
    checked(&mut call, true, &mut log).unwrap();
    let mut in_flight = InFlightRegistry::new();
    r.send_call(&call, Ok(()), &mut log, &mut in_flight).unwrap();
    let map = call.outbound_map();
    let mut message = message;
    map_outbound_inner(r, map, &call.target, &mut message);
    map_outbound_outer(r, map, &call.target, &mut message);
    let keeps_record = call.keeps_record();
    let items = vec![(Ok(message), payload)];
    let mut out = messages_to_response(call.id, keeps_record, items, &mut log);
    (log, out.pop().unwrap())
}

fn failure(r: &Relay, request: ClientRequest, e: UpstreamError) -> MCPInfo {
    let mut log = MCPInfo::default();
    let mut call = planned(r, request, &mut log);
    checked(&mut call, true, &mut log).unwrap();
    let mut in_flight = InFlightRegistry::new();
    let taken: Result<(), UpstreamError> = Err(e);
    assert!(r.send_call(&call, taken, &mut log, &mut in_flight).is_err());
    assert_eq!(in_flight.cancel(&id()), None);
    log
}

fn status(code: u16) -> UpstreamError {
    UpstreamError::Http(ClientError::Status(Box::new(HttpResponse {
        status: code,
        headers: vec![],
        body: vec![],
    })))
}

fn response(result: ServerResult) -> ServerJsonRpcMessage {
    ServerJsonRpcMessage::Response { id: id(), result }
}

fn rpc_error(code: i32, message: &str) -> ServerJsonRpcMessage {
    ServerJsonRpcMessage::Error {
        id: id(),
        error: ErrorData { code, message: message.to_string(), data: None },
    }
}

fn call_result(content: Vec<Content>, meta: Option<Vec<(String, Json)>>) -> ServerResult {
    ServerResult::CallToolResult(CallToolResult {
        content,
        is_error: Some(false),
        meta,
        rest: Json::Null,
    })
}

fn task(id: &str) -> Task {
    Task { task_id: id.to_string(), rest: Json::Null }
}

fn unknown(message: &str) -> ServerJsonRpcMessage {
    ServerJsonRpcMessage::Error {
        id: id(),
        error: ErrorData { code: -32602, message: message.to_string(), data: None },
    }
}

#[test]
fn test_zero_targets_fail_closed() {
    let r = Relay::new(group(FailureMode::FailClosed, &[], &[]));
    assert!(matches!(r, Err(Error::NoBackends)));
}

#[test]
fn test_zero_targets_fail_open() {
    assert!(Relay::new(group(FailureMode::FailOpen, &[], &[])).is_ok());
}

#[test]
fn test_setup_partial_success_fail_open() {
    let r = Relay::new(group(FailureMode::FailOpen, &["bad", "ok"], &["bad"])).unwrap();
    assert_eq!(r.all_target_names(), vec!["ok".to_string()]);
}

#[test]
fn test_all_targets_fail_open_still_errors() {
    let r = Relay::new(group(FailureMode::FailOpen, &["bad-1", "bad-2"], &["bad-1", "bad-2"]));
    assert!(matches!(r, Err(Error::NoBackends)));
}

#[test]
fn authorization_denied_returns_unknown_tool_error() {
    assert_eq!(denied(tool("echo")).1, unknown("Unknown tool: echo"));
    assert_eq!(INVALID_PARAMS, -32602);
}

#[test]
fn authorization_denied_returns_unknown_prompt_error() {
    assert_eq!(denied(prompt("example_prompt")).1, unknown("Unknown prompt: example_prompt"));
}

#[test]
fn authorization_denied_returns_unknown_resource_error() {
    assert_eq!(denied(read("memo://insights")).1, unknown("Unknown resource: memo://insights"));
}

#[test]
fn a_rejection_is_answered_with_its_own_message() {
    let rejection = Rejection {
        envelope: McpDenialEnvelope::JsonRpc(ErrorData {
            code: -32001,
            message: "no".to_string(),
            data: None,
        }),
        http_status: None,
        http_headers: vec![],
    };
    let failed = handle_error::<()>(Some(id()), Err(UpstreamError::McpGuardrails(rejection)));
    match failed.unwrap_err() {
        SendFailure::Mcp(e) => assert_eq!(denial_reply(&e), Some(rpc_error(-32001, "no"))),
        other => panic!("unexpected {other:?}"),
    }
    assert_eq!(denial_reply(&Error::UnknownSession), None);
}

fn assert_permission_denied(log: &MCPInfo, name: &str) {
    assert_eq!(log.success, Some(false));
    let error = log.error.as_ref().unwrap();
    assert_eq!(error.error_type, "permission_denied");
    assert!(error.error_message.contains(name), "{error:?}");
    assert_eq!(error.code, None);
}

#[test]
fn rbac_denial_exposes_permission_denied_to_access_log_cel() {
    let (log, _) = denied(tool("echo"));
    assert_permission_denied(&log, "echo");
    assert_eq!(log.resource_name(), Some("echo"));
}

#[test]
fn rbac_denial_resource_exposes_permission_denied_to_access_log_cel() {
    assert_permission_denied(&denied(read("memo://insights")).0, "memo://insights");
}

#[test]
fn rbac_denial_prompt_exposes_permission_denied_to_access_log_cel() {
    assert_permission_denied(&denied(prompt("example_prompt")).0, "example_prompt");
}

#[test]
fn rbac_denial_does_not_count() {
    assert_eq!(denied(tool("echo")).0.upstream_error, None);
}

#[test]
fn tool_call_exposes_payload_fields_to_access_log_cel() {
    let payload = Json::Object(vec![("isError".to_string(), Json::Bool(false))]);
    let expected = Json::Object(vec![("isError".to_string(), Json::Bool(false))]);
    let message = response(call_result(vec![], None));
    let (log, _) = answered(&mut relay(&["mcp"]), tool("echo"), message, Some(payload));
    assert_eq!(log.success, Some(true));
    assert_eq!(log.error, None);
    assert_eq!(log.upstream_error, None);
    let recorded = log.tool.unwrap();
    assert_eq!(recorded.name, "echo");
    assert_eq!(recorded.target, "mcp");
    assert_eq!(recorded.arguments, Some(vec![("hi".to_string(), text("world"))]));
    assert_eq!(recorded.result, Some(expected));
    assert_eq!(recorded.error, None);
}

#[test]
fn tool_call_error_exposes_error_payload_to_access_log_cel() {
    let payload = Json::Object(vec![("message".to_string(), text("tool not found"))]);
    let message = rpc_error(-32602, "tool not found");
    let (log, _) =
        answered(&mut relay(&["mcp"]), tool("does_not_exist"), message, Some(payload));
    assert_eq!(log.success, Some(false));
    let error = log.error.unwrap();
    assert_eq!(error.error_type, "upstream_tool_error");
    assert_eq!(error.error_message, "tool not found");
    assert_eq!(error.code, Some(-32602));
    let recorded = log.tool.unwrap();
    assert_eq!(recorded.name, "does_not_exist");
    assert!(recorded.error.is_some());
    assert_eq!(recorded.result, None);
}

#[test]
fn resource_read_error_exposes_error_payload_to_access_log_cel() {
    let message = rpc_error(-32002, "resource_not_found");
    let (log, _) = answered(&mut relay(&["mcp"]), read("unknown://resource-1"), message, None);
    assert_eq!(log.resource_name(), Some("unknown://resource-1"));
    assert_eq!(log.success, Some(false));
    let error = log.error.unwrap();
    assert_eq!(error.error_type, "upstream_tool_error");
    assert_eq!(error.error_message, "resource_not_found");
    assert_eq!(error.code, Some(-32002));
}

#[test]
fn prompt_get_error_exposes_error_payload_to_access_log_cel() {
    let message = rpc_error(-32601, "prompt not found");
    let (log, _) = answered(&mut relay(&["mcp"]), prompt("nonexistent-prompt"), message, None);
    assert_eq!(log.success, Some(false));
    let error = log.error.unwrap();
    assert_eq!(error.error_type, "upstream_tool_error");
    assert_eq!(error.code, Some(-32601));
}

#[test]
fn resource_read_success_stamps_mcp_success_true() {
    let message = response(ServerResult::ReadResourceResult { contents: vec![], rest: Json::Null });
    let uri = "str:////Users/to/some/path/";
    let (log, _) = answered(&mut relay(&["mcp"]), read(uri), message, None);
    assert_eq!(log.resource_name(), Some(uri));
    assert_eq!(log.success, Some(true));
    assert_eq!(log.error, None);
}

#[test]
fn prompt_get_success_stamps_mcp_success_true() {
    let message = response(ServerResult::Other(Json::Null));
    let (log, _) = answered(&mut relay(&["mcp"]), prompt("example_prompt"), message, None);
    assert_eq!(log.resource_name(), Some("example_prompt"));
    assert_eq!(log.success, Some(true));
    assert_eq!(log.error, None);
}

#[test]
fn counts_http_5xx_on_tools_call() {
    let log = failure(&relay(&["mcp"]), tool("echo"), status(502));
    assert_eq!(log.upstream_error.as_deref(), Some("http_5xx"));
    assert_eq!(log.success, Some(false));
}

#[test]
fn counts_http_4xx_on_tools_call() {
    let log = failure(&relay(&["mcp"]), tool("echo"), status(404));
    assert_eq!(log.upstream_error.as_deref(), Some("http_4xx"));
}

#[test]
fn counts_non_http_transport_failure() {
    for (e, label) in [
        (UpstreamError::Proxy(ProxyError::Other("refused".to_string())), "proxy"),
        (UpstreamError::Recv, "recv"),
        (UpstreamError::Send, "send"),
    ] {
        let log = failure(&relay(&["mcp"]), tool("echo"), e);
        assert_eq!(log.upstream_error.as_deref(), Some(label));
    }
}

#[test]
fn federation_dead_target_counts_and_labels() {
    let r = relay(&["server-a", "server-b"]);
    let log = failure(&r, tool("server-a_echo"), UpstreamError::Send);
    assert_eq!(log.target_name(), Some("server-a"));
    assert!(log.upstream_error.is_some());
}

#[test]
fn reads_of_a_dead_target_are_recorded() {
    let r = relay(&["a", "b"]);
    let log = failure(&r, read("a+memo://insights"), status(503));
    assert_eq!(log.target_name(), Some("a"));
    assert_eq!(log.upstream_error.as_deref(), Some("http_5xx"));
    assert_eq!(log.error.unwrap().error_type, "upstream_error");
}

#[test]
fn only_calls_reads_and_prompts_record_how_they_end() {
    let rest = || Json::Null;
    let unrecorded = || {
        vec![
            ClientRequest::SubscribeRequest { uri: "memo://x".to_string(), rest: rest() },
            ClientRequest::UnsubscribeRequest { uri: "memo://x".to_string(), rest: rest() },
            ClientRequest::GetTaskInfoRequest { task_id: "t".to_string(), rest: rest() },
            ClientRequest::CancelTaskRequest { task_id: "t".to_string(), rest: rest() },
            ClientRequest::CompleteRequest {
                reference: Reference::for_prompt("p".to_string()),
                rest: rest(),
            },
            ClientRequest::CompleteRequest {
                reference: Reference::Resource { uri: "memo://x".to_string() },
                rest: rest(),
            },
        ]
    };
    for request in unrecorded() {
        let log = failure(&relay(&["mcp"]), request, status(503));
        assert_eq!((log.success, log.error, log.upstream_error), (None, None, None));
    }
    for request in unrecorded() {
        let message = rpc_error(-32601, "no");
        let (log, _) = answered(&mut relay(&["mcp"]), request, message, None);
        assert_eq!(log.target_name(), Some("mcp"));
        assert_eq!((log.success, log.error), (None, None));
    }
    for request in [tool("echo"), prompt("p"), read("memo://x")] {
        let log = failure(&relay(&["mcp"]), request, status(503));
        assert_eq!(log.success, Some(false));
        assert_eq!(log.upstream_error.as_deref(), Some("http_5xx"));
    }
}

#[test]
fn happy_path_does_not_count() {
    let message = response(call_result(vec![], None));
    let (log, _) = answered(&mut relay(&["mcp"]), tool("echo"), message, None);
    assert_eq!(log.upstream_error, None);
}

#[test]
fn multiplex_read_resource_round_trips_federated_uri() {
    let mut r = relay(&["a", "b"]);
    let contents = vec![ResourceContents::TextResourceContents {
        uri: "memo://insights".to_string(),
        rest: Json::Null,
    }];
    let message = response(ServerResult::ReadResourceResult { contents, rest: Json::Null });
    let (log, reply) = answered(&mut r, read("b+memo://insights"), message, None);
    assert_eq!(log.target_name(), Some("b"));
    assert_eq!(log.resource_name(), Some("memo://insights"));
    let expected = vec![ResourceContents::TextResourceContents {
        uri: "b+memo://insights".to_string(),
        rest: Json::Null,
    }];
    assert_eq!(
        reply,
        response(ServerResult::ReadResourceResult { contents: expected, rest: Json::Null })
    );
}

#[test]
fn multiplex_subscribe_unsubscribe_unwraps_resource_uri_for_upstream() {
    let r = relay(&["a", "b"]);
    let uri = || "a+memo://insights".to_string();
    let mut log = MCPInfo::default();
    let subscribe = ClientRequest::SubscribeRequest { uri: uri(), rest: Json::Null };
    assert_eq!(
        planned(&r, subscribe, &mut log).request,
        ClientRequest::SubscribeRequest { uri: "memo://insights".to_string(), rest: Json::Null }
    );
    let unsubscribe = ClientRequest::UnsubscribeRequest { uri: uri(), rest: Json::Null };
    assert_eq!(
        planned(&r, unsubscribe, &mut log).request,
        ClientRequest::UnsubscribeRequest { uri: "memo://insights".to_string(), rest: Json::Null }
    );
}

#[test]
fn multiplex_call_tool_wraps_ui_resource_uri_in_response_meta() {
    let uri = "ui://app/page.html";
    let meta = vec![
        ("ui".to_string(), Json::Object(vec![("resourceUri".to_string(), text(uri))])),
        ("ui/resourceUri".to_string(), text(uri)),
    ];
    let message = response(call_result(vec![], Some(meta)));
    let (_, reply) = answered(&mut relay(&["a", "b"]), tool("a_render_app"), message, None);
    let meta = match reply {
        ServerJsonRpcMessage::Response { id: _, result: ServerResult::CallToolResult(r) } => {
            r.meta.unwrap()
        },
        other => panic!("unexpected {other:?}"),
    };
    let legacy = match &meta[1].1 {
        Json::Str(s) => s.clone(),
        other => panic!("unexpected {other:?}"),
    };
    assert!(legacy.starts_with("ui://"), "{legacy}");
    assert_eq!(
        meta[0].1,
        Json::Object(vec![("resourceUri".to_string(), Json::Str(legacy.clone()))])
    );
    assert_eq!(
        parse_resource_uri_mixed(None, &legacy).unwrap(),
        ("a".to_string(), uri.to_string())
    );
}

#[test]
fn multiplex_call_tool_wraps_ui_resource_uri_in_embedded_content() {
    let block = Content::Resource {
        resource: ResourceContents::TextResourceContents {
            uri: "ui://basic/app".to_string(),
            rest: Json::Null,
        },
        rest: Json::Null,
    };
    let message = response(call_result(vec![block], None));
    let (_, reply) =
        answered(&mut relay(&["a", "b"]), tool("a_render_app_embedded"), message, None);
    let mut content = match reply {
        ServerJsonRpcMessage::Response { id: _, result: ServerResult::CallToolResult(r) } => {
            r.content
        },
        other => panic!("unexpected {other:?}"),
    };
    let uri = match content.pop().unwrap() {
        Content::Resource {
            resource: ResourceContents::TextResourceContents { uri, rest: _ },
            rest: _,
        } => uri,
        other => panic!("unexpected {other:?}"),
    };
    assert!(uri.starts_with("ui://"), "{uri}");
    assert!(uri.contains("u="), "{uri}");
    assert_eq!(
        parse_resource_uri_mixed(None, &uri).unwrap(),
        ("a".to_string(), "ui://basic/app".to_string())
    );
}

fn federated_capabilities() -> ServerCapabilities {
    let result = |name: &str| {
        (
            name.to_string(),
            ServerResult::InitializeResult(InitializeResult {
                protocol_version: "2025-06-18".to_string(),
                capabilities: ServerCapabilities {
                    tools: None,
                    prompts: None,
                    resources: None,
                    tasks: None,
                },
                server_name: name.to_string(),
                server_version: "1".to_string(),
                instructions: None,
                rest: Json::Null,
            }),
        )
    };
    let mut r = relay(&["a", "b"]);
    let merged =
        r.merge_initialize("2025-06-18".to_string(), true, vec![result("a"), result("b")], "1");
    match merged {
        ServerResult::InitializeResult(r) => r.capabilities,
        other => panic!("unexpected {other:?}"),
    }
}

#[test]
fn multiplex_initialize_advertises_prompts_capability() {
    let capabilities = federated_capabilities();
    assert!(capabilities.prompts.is_some());
    assert!(capabilities.tools.is_some());
    assert!(capabilities.resources.is_some());
}

#[test]
fn multiplex_initialize_advertises_full_tasks_capability() {
    let tasks = federated_capabilities().tasks.unwrap();
    assert!(tasks.list && tasks.cancel && tasks.requests_tools_call);
}

#[test]
fn multiplex_tasks_merge_list_get_and_cancel_unwrap_ids() {
    let mut r = relay(&["a", "b"]);
    let listed = r.merge_tasks(
        vec![
            ("a".to_string(), ServerResult::ListTasksResult(vec![task("t1")])),
            ("b".to_string(), ServerResult::ListTasksResult(vec![task("t1")])),
        ],
        &vec![],
    );
    assert_eq!(listed, ServerResult::ListTasksResult(vec![task("a_t1"), task("b_t1")]));

    let get = ClientRequest::GetTaskInfoRequest { task_id: "a_t1".to_string(), rest: Json::Null };
    let message = response(ServerResult::GetTaskResult { task: task("t1"), rest: Json::Null });
    let (log, reply) = answered(&mut r, get, message, None);
    assert_eq!(log.resource_name(), Some("t1"));
    assert_eq!(
        reply,
        response(ServerResult::GetTaskResult { task: task("a_t1"), rest: Json::Null })
    );

    // A cancelled task has the form of one that was asked for.
    for result in [
        ServerResult::CancelTaskResult { task: task("t1"), rest: Json::Null },
        ServerResult::GetTaskResult { task: task("t1"), rest: Json::Null },
    ] {
        let cancel =
            ClientRequest::CancelTaskRequest { task_id: "b_t1".to_string(), rest: Json::Null };
        let (_, reply) = answered(&mut r, cancel, response(result), None);
        match reply {
            ServerJsonRpcMessage::Response {
                id: _,
                result:
                    ServerResult::CancelTaskResult { task, rest: _ }
                    | ServerResult::GetTaskResult { task, rest: _ },
            } => assert_eq!(task.task_id, "b_t1"),
            other => panic!("unexpected {other:?}"),
        }
    }

    let result =
        ClientRequest::GetTaskResultRequest { task_id: "a_t1".to_string(), rest: Json::Null };
    let payload = || {
        response(ServerResult::Other(Json::Object(vec![(
            "done".to_string(),
            Json::Bool(true),
        )])))
    };
    assert_eq!(answered(&mut r, result, payload(), None).1, payload());
}

#[test]
fn multiplex_tools_call_create_task_wraps_id_and_tasks_get_unwraps() {
    let mut r = relay(&["a", "b"]);
    let created = response(ServerResult::CreateTaskResult { task: task("job-99"), rest: Json::Null });
    let (_, reply) = answered(&mut r, tool("a_enqueue_task_tool"), created, None);
    assert_eq!(
        reply,
        response(ServerResult::CreateTaskResult { task: task("a_job-99"), rest: Json::Null })
    );
    let get =
        ClientRequest::GetTaskInfoRequest { task_id: "a_job-99".to_string(), rest: Json::Null };
    let call = planned(&r, get, &mut MCPInfo::default());
    assert_eq!(call.target, "a");
    assert_eq!(call.upstream_name, "job-99");
}

fn elicitation_reply(names: &[&str], called: &str, reply: Json) {
    let mut r = relay(names);
    let mut log = MCPInfo::default();
    let call = planned(&r, tool(called), &mut log);
    let elicit = || text("elicitation/create");
    let mut message = ServerJsonRpcMessage::Request { id: RequestId::Number(0), request: elicit() };
    map_outbound_inner(&mut r, call.outbound_map(), &call.target, &mut message);
    let seen = match message {
        ServerJsonRpcMessage::Request { id, request } => {
            assert_eq!(request, elicit());
            id
        },
        other => panic!("unexpected {other:?}"),
    };
    let answer = ClientJsonRpcMessage::Response { id: seen, result: reply };
    let mut in_flight = InFlightRegistry::new();
    match r.plan_message(&mut in_flight, answer, &mut log, "s").unwrap() {
        MessagePlan::Forward { target, message } => {
            assert_eq!(target, call.target);
            match message {
                ClientJsonRpcMessage::Response { id, result: _ } => {
                    assert_eq!(id, RequestId::Number(0))
                },
                other => panic!("unexpected {other:?}"),
            }
        },
        other => panic!("unexpected {other:?}"),
    }
}

#[test]
fn federated_elicitation_round_trip_completes() {
    elicitation_reply(&["elicit", "plain"], "elicit_elicit_echo", text("federated-ok"));
}

#[test]
fn single_target_elicitation_round_trip_completes() {
    elicitation_reply(&["elicit"], "elicit_echo", text("federated-ok"));
}

#[test]
fn federated_elicitation_decline_round_trip() {
    elicitation_reply(&["elicit", "plain"], "elicit_elicit_echo", text("declined"));
}

#[test]
fn federated_elicitation_cancel_round_trip() {
    elicitation_reply(&["elicit", "plain"], "elicit_elicit_echo", text("cancelled"));
}

#[test]
fn federated_tools_call_cancel_routes_to_single_upstream() {
    let r = relay(&["blocking", "plain"]);
    let mut log = MCPInfo::default();
    let mut call = planned(&r, tool("blocking_block_until_cancel"), &mut log);
    checked(&mut call, true, &mut log).unwrap();
    let mut in_flight = InFlightRegistry::new();
    r.send_call(&call, Ok(()), &mut log, &mut in_flight).unwrap();
    let cancel = || {
        ClientJsonRpcMessage::Notification(ClientNotification::CancelledNotification {
            request_id: id(),
            rest: text("test cancel"),
        })
    };
    match r.plan_message(&mut in_flight, cancel(), &mut log, "s").unwrap() {
        MessagePlan::Notification(NotificationPlan::One { target, notification: _ }) => {
            assert_eq!(target, "blocking")
        },
        other => panic!("unexpected {other:?}"),
    }
}

#[test]
fn only_tool_calls_can_be_cancelled() {
    let r = relay(&["a", "b"]);
    let mut log = MCPInfo::default();
    let mut call = planned(&r, prompt("a_p"), &mut log);
    checked(&mut call, true, &mut log).unwrap();
    let mut in_flight = InFlightRegistry::new();
    r.send_call(&call, Ok(()), &mut log, &mut in_flight).unwrap();
    assert_eq!(in_flight.cancel(&id()), None);
}

#[test]
fn federated_progress_relayed_unchanged() {
    let progress = || {
        ServerJsonRpcMessage::Notification(ServerNotification::Other(Json::Object(vec![(
            "message".to_string(),
            text("gateway-progress-check"),
        )])))
    };
    let mut r = relay(&["progress", "plain"]);
    let (log, reply) = answered(&mut r, tool("progress_progress_echo"), progress(), None);
    assert_eq!(reply, progress());
    assert_eq!(log.success, None);
}
