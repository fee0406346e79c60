//! Where the messages of a client go, and which sessions are kept.

use agentgateway_mcp::client::{
    ClientCapabilities, ClientInfo, ClientJsonRpcMessage, ClientNotification, ClientRequest,
    Reference, guardrails_mcp_info,
};
use agentgateway_mcp::federation_outbound::OutboundMap;
use agentgateway_mcp::guardrails::denial::{McpDenialEnvelope, Rejection};
use agentgateway_mcp::handler::sessions::MCPSession;
use agentgateway_mcp::handler::{McpBackendGroup, Relay, RelayInputs};
use agentgateway_mcp::info::{Error, FailureMode, MCPInfo, ResourceId, ResourceType};
use agentgateway_mcp::json::Json;
use agentgateway_mcp::mcp_apps::routing::wrap_resource_uri_mixed;
use agentgateway_mcp::model::{ErrorData, RequestId};
use agentgateway_mcp::multiplex_naming::wrap_server_request_id;
use agentgateway_mcp::session::dispatch::{Merge, MessagePlan, NotificationPlan, Plan};
use agentgateway_mcp::session::in_flight::InFlightRegistry;
use agentgateway_mcp::session::manager::{
    DecodedSession, SESSION_REAP_INTERVAL_SECONDS, SessionManager, session_id,
};
use agentgateway_mcp::session::single::{CallKind, Check, SingleCall};
use agentgateway_mcp::session::stateless::{InitScope, get_client_info};
use agentgateway_mcp::session::{LegacyForward, SendFailure, handle_error, record_session};
use agentgateway_mcp::upstream::{ClientError, HttpResponse, ProxyError, UpstreamError};

fn group(names: &[&str]) -> McpBackendGroup {
    McpBackendGroup {
        targets: names.iter().map(|n| (n.to_string(), None)).collect(),
        skipped: vec![],
        default_target_name: if names.len() == 1 { Some(names[0].to_string()) } else { None },
        is_multiplexing: names.len() > 1,
        stateful: true,
        failure_mode: FailureMode::FailClosed,
    }
}

fn relay(names: &[&str]) -> Relay {
    Relay::new(group(names)).unwrap()
}

fn call_tool(name: &str) -> ClientRequest {
    ClientRequest::CallToolRequest {
        name: name.to_string(),
        arguments: Some(vec![("x".to_string(), Json::Bool(true))]),
        rest: Json::Null,
    }
}

fn read(uri: &str) -> ClientRequest {
    ClientRequest::ReadResourceRequest { uri: uri.to_string(), rest: Json::Null }
}

fn single(r: &Relay, request: ClientRequest) -> SingleCall {
    let mut log = MCPInfo::default();
    match r.plan_request(RequestId::Number(1), request, &mut log).unwrap() {
        Plan::Single(call) => call,
        other => panic!("expected a single call, got {other:?}"),
    }
}

fn cancelled(id: RequestId) -> ClientNotification {
    ClientNotification::CancelledNotification { request_id: id, rest: Json::Null }
}

fn status(code: u16) -> UpstreamError {
    UpstreamError::Http(ClientError::Status(Box::new(HttpResponse {
        status: code,
        headers: vec![],
        body: vec![7],
    })))
}

#[test]
fn tool_calls_go_to_the_target_under_its_own_name() {
    let r = relay(&["a", "b"]);
    let mut log = MCPInfo::default();
    let plan = r.plan_request(RequestId::Number(1), call_tool("b_echo"), &mut log).unwrap();
    let call = match plan {
        Plan::Single(call) => call,
        other => panic!("expected a single call, got {other:?}"),
    };
    assert_eq!(call.target, "b");
    assert_eq!(call.request, call_tool("echo"));
    assert_eq!(call.client_name, "b_echo");
    assert_eq!(call.span_name("tools/call"), "tools/call b");
    assert_eq!(
        call.resource(),
        ResourceType::Tool(ResourceId::new("b".to_string(), "echo".to_string()))
    );
    assert_eq!(call.outbound_map(), OutboundMap::ToolsCall);
    assert_eq!(log.target_name(), Some("b"));
    assert_eq!(log.resource_name(), Some("echo"));
    assert_eq!(
        log.tool.unwrap().arguments,
        Some(vec![("x".to_string(), Json::Bool(true))])
    );
}

#[test]
fn guardrails_come_before_the_policy_for_tools() {
    let mut call = single(&relay(&["a", "b"]), call_tool("a_echo"));
    assert_eq!(call.pending(), Some(Check::Guardrails));
    call.guardrails_ran(Ok(Some(call_tool("other")))).unwrap();
    // A changed call stays the one that was resolved.
    assert_eq!(call.request, call_tool("echo"));
    assert_eq!(call.pending(), Some(Check::Policy));
    call.policy_decided(true, &mut MCPInfo::default()).unwrap();
    assert_eq!(call.pending(), None);
}

#[test]
fn the_policy_comes_before_the_guardrails_for_resources() {
    let mut call = single(&relay(&["a", "b"]), read("a+file:///x"));
    assert_eq!(call.kind, CallKind::ReadResource);
    assert_eq!(call.pending(), Some(Check::Policy));
    call.policy_decided(true, &mut MCPInfo::default()).unwrap();
    assert_eq!(call.pending(), Some(Check::Guardrails));
    call.guardrails_ran(Ok(Some(read("file:///y")))).unwrap();
    assert_eq!(call.request, read("file:///y"));
    assert_eq!(call.pending(), None);
}

#[test]
fn a_denied_call_is_unknown_under_the_name_of_the_client() {
    let mut call = single(
        &relay(&["a", "b"]),
        ClientRequest::GetPromptRequest { name: "a_secret".to_string(), rest: Json::Null },
    );
    call.guardrails_ran(Ok(None)).unwrap();
    let err = call.policy_decided(false, &mut MCPInfo::default()).unwrap_err();
    assert_eq!(
        err,
        UpstreamError::Authorization {
            resource_type: "prompt".to_string(),
            resource_name: "a_secret".to_string(),
        }
    );
    let answer = handle_error::<()>(Some(RequestId::Number(4)), Err(err)).unwrap_err();
    match answer {
        SendFailure::Mcp(e) => assert_eq!(e.to_string(), "Unknown prompt: a_secret"),
        other => panic!("unexpected {other:?}"),
    }
}

#[test]
fn a_rejection_by_guardrails_ends_the_call() {
    let mut call = single(&relay(&["a", "b"]), call_tool("a_echo"));
    let err = call.guardrails_ran(Err(UpstreamError::Send)).unwrap_err();
    assert_eq!(err, UpstreamError::Send);
    assert_eq!(call.pending(), Some(Check::Guardrails));
}

#[test]
fn federated_uris_are_read_at_their_target() {
    let uri = wrap_resource_uri_mixed(None, "b", "ui://x/app.html");
    let call = single(&relay(&["a", "b"]), read(&uri));
    assert_eq!(call.target, "b");
    assert_eq!(call.request, read("ui://x/app.html"));
    assert_eq!(call.outbound_map(), OutboundMap::ReadResource);
}

#[test]
fn completions_lose_the_title_of_their_prompt() {
    let call = single(
        &relay(&["a", "b"]),
        ClientRequest::CompleteRequest {
            reference: Reference::Prompt {
                name: "a_p".to_string(),
                title: Some("P".to_string()),
            },
            rest: Json::Null,
        },
    );
    assert_eq!(call.kind, CallKind::CompletePrompt);
    assert_eq!(call.pending(), Some(Check::Policy));
    assert_eq!(
        call.request,
        ClientRequest::CompleteRequest {
            reference: Reference::Prompt { name: "p".to_string(), title: None },
            rest: Json::Null,
        }
    );
}

#[test]
fn task_requests_carry_the_id_of_the_upstream() {
    let r = relay(&["a", "b"]);
    let call = single(
        &r,
        ClientRequest::CancelTaskRequest { task_id: "b_job-1".to_string(), rest: Json::Null },
    );
    assert_eq!(call.target, "b");
    assert_eq!(call.upstream_name, "job-1");
    assert_eq!(call.outbound_map(), OutboundMap::Mux);
    let mut log = MCPInfo::default();
    let bare = ClientRequest::GetTaskInfoRequest { task_id: "job-1".to_string(), rest: Json::Null };
    match r.plan_request(RequestId::Number(1), bare, &mut log).unwrap_err() {
        UpstreamError::InvalidRequest(m) => {
            assert!(m.starts_with("invalid task id: job-1: "), "{m}")
        },
        e => panic!("unexpected {e:?}"),
    }
    assert!(log.is_empty());
}

#[test]
fn initialize_goes_to_all_without_what_cannot_be_routed_back() {
    let info = || ClientInfo {
        protocol_version: "2025-06-18".to_string(),
        capabilities: ClientCapabilities {
            roots: Some(Json::Null),
            sampling: Some(Json::Null),
            elicitation: Some(Json::Null),
            rest: Json::Null,
        },
        name: "client".to_string(),
        version: "1".to_string(),
        rest: Json::Null,
    };
    let mut log = MCPInfo::default();
    let plan = relay(&["a", "b"])
        .plan_request(RequestId::Number(1), ClientRequest::InitializeRequest(info()), &mut log)
        .unwrap();
    let mut want = info();
    want.capabilities.roots = None;
    want.capabilities.sampling = None;
    assert_eq!(
        plan,
        Plan::All {
            request: ClientRequest::InitializeRequest(want),
            merge: Merge::Initialize("2025-06-18".to_string()),
        }
    );
}

#[test]
fn lists_go_to_those_that_may_have_such_things() {
    let mut log = MCPInfo::default();
    let plan = relay(&["a", "b"])
        .plan_request(RequestId::Number(1), ClientRequest::ListTasksRequest(Json::Null), &mut log)
        .unwrap();
    assert_eq!(
        plan,
        Plan::Chosen {
            targets: vec!["a".to_string(), "b".to_string()],
            request: ClientRequest::ListTasksRequest(Json::Null),
            merge: Merge::Tasks,
        }
    );
}

#[test]
fn unknown_methods_are_refused() {
    let mut log = MCPInfo::default();
    let custom = ClientRequest::CustomRequest { method: "x/y".to_string(), params: Json::Null };
    assert_eq!(
        relay(&["a"]).plan_request(RequestId::Number(1), custom, &mut log).unwrap_err(),
        UpstreamError::InvalidMethod("x/y".to_string())
    );
}

#[test]
fn cancellation_of_a_running_call_goes_to_its_upstream() {
    let r = relay(&["a", "b"]);
    let mut in_flight = InFlightRegistry::new();
    in_flight.register(RequestId::Number(5), "b".to_string());
    let plan = r.plan_notification(&mut in_flight, cancelled(RequestId::Number(5)));
    assert_eq!(
        plan,
        NotificationPlan::One {
            target: "b".to_string(),
            notification: cancelled(RequestId::Number(5)),
        }
    );
    // It is forgotten: the same cancellation now goes to all.
    let again = r.plan_notification(&mut in_flight, cancelled(RequestId::Number(5)));
    assert_eq!(again, NotificationPlan::All(cancelled(RequestId::Number(5))));
}

#[test]
fn cancellation_of_a_request_of_a_server_goes_back_to_it() {
    let r = relay(&["a", "b"]);
    let mut in_flight = InFlightRegistry::new();
    let wrapped = wrap_server_request_id("a", &RequestId::Number(3));
    assert_eq!(
        r.plan_notification(&mut in_flight, cancelled(wrapped)),
        NotificationPlan::One {
            target: "a".to_string(),
            notification: cancelled(RequestId::Number(3)),
        }
    );
}

#[test]
fn answers_of_the_client_reach_the_server_that_asked() {
    let m = SessionManager::new();
    let mut session = m.create_session(relay(&["a", "b"]));
    let mut log = MCPInfo::default();
    let plan = session
        .send(
            ClientJsonRpcMessage::Response {
                id: wrap_server_request_id("b", &RequestId::String("q".to_string())),
                result: Json::Bool(true),
            },
            &mut log,
        )
        .unwrap();
    assert_eq!(
        plan,
        MessagePlan::Forward {
            target: "b".to_string(),
            message: ClientJsonRpcMessage::Response {
                id: RequestId::String("q".to_string()),
                result: Json::Bool(true),
            },
        }
    );
    assert_eq!(log.method_name.as_deref(), Some("client_response"));
    assert_eq!(log.session_id.as_deref(), Some(session.id.as_str()));
    let err = session
        .send(
            ClientJsonRpcMessage::Error {
                id: RequestId::Number(12),
                error: ErrorData { code: 1, message: "no".to_string(), data: None },
            },
            &mut log,
        )
        .unwrap_err();
    assert_eq!(
        err,
        SendFailure::Mcp(Error::SendError(
            None,
            "unknown request id for client response: 12".to_string()
        ))
    );
}

#[test]
fn fail_closed_fanout_preserves_upstream_status_code() {
    let e = UpstreamError::FanoutError { name: "server-b".to_string(), source: Box::new(status(503)) };
    match handle_error::<()>(Some(RequestId::Number(1)), Err(e)).unwrap_err() {
        SendFailure::Mcp(Error::UpstreamError(resp)) => {
            assert_eq!(resp.status, 503);
            assert_eq!(resp.body, vec![7]);
        },
        other => panic!("unexpected {other:?}"),
    }
}

#[test]
fn fail_closed_fanout_error_includes_target_name() {
    let e = UpstreamError::FanoutError {
        name: "server-b".to_string(),
        source: Box::new(UpstreamError::Recv),
    };
    match handle_error::<()>(None, Err(e)).unwrap_err() {
        SendFailure::Mcp(Error::SendError(None, text)) => {
            assert!(text.contains("server-b"), "{text}")
        },
        other => panic!("unexpected {other:?}"),
    }
}

#[test]
fn failures_of_the_proxy_and_rejections_are_handed_on() {
    assert_eq!(
        handle_error::<()>(None, Err(UpstreamError::Proxy(ProxyError::RequestTimeout)))
            .unwrap_err(),
        SendFailure::Proxy(ProxyError::RequestTimeout)
    );
    let rejection = || Rejection {
        envelope: McpDenialEnvelope::ToolResult { message: "no".to_string() },
        http_status: None,
        http_headers: vec![],
    };
    assert_eq!(
        handle_error::<()>(
            Some(RequestId::Number(2)),
            Err(UpstreamError::McpGuardrails(rejection()))
        )
        .unwrap_err(),
        SendFailure::Mcp(Error::McpGuardrails(RequestId::Number(2), rejection()))
    );
    assert_eq!(handle_error(None, Ok::<u8, UpstreamError>(3)).unwrap(), 3);
}

#[test]
fn stateless_multiplex_tool_call_initializes_only_target() {
    let r = relay(&["a", "b"]);
    let message = || ClientJsonRpcMessage::Request {
        id: RequestId::Number(8),
        request: call_tool("b_echo"),
    };
    assert_eq!(r.init_scope(&message()).unwrap(), InitScope::One("b".to_string()));
    let sent = r.stateless_send_and_initialize(message(), "1.0").unwrap();
    assert_eq!(sent.len(), 3);
    assert_eq!(sent[0].target.as_deref(), Some("b"));
    assert_eq!(
        sent[0].message,
        ClientJsonRpcMessage::Request {
            id: RequestId::Number(0),
            request: ClientRequest::InitializeRequest(get_client_info("1.0")),
        }
    );
    assert_eq!(sent[1].target.as_deref(), Some("b"));
    assert_eq!(
        sent[1].message,
        ClientJsonRpcMessage::Notification(ClientNotification::InitializedNotification)
    );
    assert_eq!(sent[2].target, None);
    assert_eq!(sent[2].message, message());
}

#[test]
fn stateless_multiplex_get_prompt_initializes_only_target() {
    let r = relay(&["a", "b"]);
    let message = ClientJsonRpcMessage::Request {
        id: RequestId::Number(8),
        request: ClientRequest::GetPromptRequest { name: "a_p".to_string(), rest: Json::Null },
    };
    assert_eq!(r.init_scope(&message).unwrap(), InitScope::One("a".to_string()));
}

#[test]
fn other_stateless_messages_initialize_all_and_initialize_none() {
    let r = relay(&["a", "b"]);
    let list = ClientJsonRpcMessage::Request {
        id: RequestId::Number(8),
        request: ClientRequest::ListToolsRequest(Json::Null),
    };
    assert_eq!(r.init_scope(&list).unwrap(), InitScope::All);
    let init = ClientJsonRpcMessage::Request {
        id: RequestId::Number(8),
        request: ClientRequest::InitializeRequest(get_client_info("1")),
    };
    assert_eq!(r.init_scope(&init).unwrap(), InitScope::Nothing);
    assert_eq!(r.stateless_send_and_initialize(init, "1").unwrap().len(), 1);
    let info = get_client_info("2.3");
    assert_eq!(info.protocol_version, "2025-11-25");
    assert_eq!(info.name, "agentgateway");
    assert_eq!(info.version, "2.3");
}

#[test]
fn session_ids_are_random_uuids() {
    let a = session_id();
    let b = session_id();
    assert_ne!(a, b);
    assert_eq!(a.len(), 36);
    assert_eq!(a.as_bytes()[14], b'4');
    assert_eq!(a.matches('-').count(), 4);
    assert!(a.chars().all(|c| c == '-' || c.is_ascii_digit() || ('a'..='f').contains(&c)));
}

#[test]
fn idle_sessions_are_reaped_and_used_ones_stay() {
    let mut m = SessionManager::new();
    let old = m.create_session(relay(&["a"]));
    let old_id = old.id.clone();
    m.insert_session(old, 0, 100);
    let used = m.create_session(relay(&["a"]));
    let used_id = used.id.clone();
    m.insert_session(used, 0, 100);
    assert!(m.get_session(&used_id, 60).is_some());
    m.reap_expired_entries(99);
    assert!(m.get_session(&old_id, 50).is_some());
    m.reap_expired_entries(150);
    assert!(m.get_session(&old_id, 150).is_none());
    assert!(m.get_session(&used_id, 150).is_some());
    assert_eq!(SESSION_REAP_INTERVAL_SECONDS, 30);
}

#[test]
fn deleted_sessions_are_gone() {
    let mut m = SessionManager::new();
    let id = m.create_legacy_session(relay(&["a"]), 0, 10);
    let s = m.get_session(&id, 1).unwrap();
    assert!(s.legacy_sse);
    assert_eq!(
        s.forward_legacy_sse(Some("text/event-stream; charset=utf-8")),
        Ok(LegacyForward::Events)
    );
    assert_eq!(s.forward_legacy_sse(Some("application/json")), Ok(LegacyForward::Json));
    assert_eq!(s.forward_legacy_sse(None), Ok(LegacyForward::Nothing));
    assert_eq!(m.delete_session(&id).unwrap().id, id);
    assert!(m.delete_session(&id).is_none());
    assert!(m.get_session(&id, 1).is_none());
    let plain = m.create_stateless_session(relay(&["a"]));
    assert!(plain.forward_legacy_sse(None).is_err());
}

#[test]
fn sessions_resume_from_what_their_id_holds() {
    let inputs = || RelayInputs { backend: group(&["a", "b"]) };
    let state = |t: &str| MCPSession {
        session: Some(format!("s-{t}")),
        backend: None,
        target_name: Some(t.to_string()),
    };
    let mut m = SessionManager::new();
    assert!(matches!(
        m.get_or_resume_session("x", 0, inputs(), 10, DecodedSession::Invalid),
        Err(Error::InvalidSessionIdHeader)
    ));
    assert!(
        m.get_or_resume_session("x", 0, inputs(), 10, DecodedSession::Other).unwrap().is_none()
    );
    let misfit = DecodedSession::MCP(vec![state("a")]);
    assert!(m.get_or_resume_session("x", 0, inputs(), 10, misfit).unwrap().is_none());
    let fits = DecodedSession::MCP(vec![state("b"), state("a")]);
    let resumed = m.get_or_resume_session("x", 0, inputs(), 10, fits).unwrap().unwrap();
    assert_eq!(resumed.session.id, "x");
    let upstream = resumed.upstream_sessions.unwrap();
    assert_eq!(upstream[0].session.as_deref(), Some("s-a"));
    assert_eq!(upstream[1].session.as_deref(), Some("s-b"));
    let known = m
        .get_or_resume_session("x", 5, inputs(), 10, DecodedSession::Invalid)
        .unwrap()
        .unwrap();
    assert!(known.upstream_sessions.is_none());
}

#[test]
fn kept_sessions_are_resumed_in_any_order() {
    let state = |t: &str| MCPSession {
        session: Some(format!("s-{t}")),
        backend: None,
        target_name: Some(t.to_string()),
    };
    let r = relay(&["a", "b", "c"]);
    let kept = r.get_sessions(vec![Some(state("c")), Some(state("a")), Some(state("b"))]).unwrap();
    let resumed = r.set_sessions(kept).unwrap();
    assert_eq!(resumed, vec![state("a"), state("b"), state("c")]);
}

#[test]
fn an_initialized_session_goes_by_what_holds_its_sessions() {
    let mut session = SessionManager::new().create_session(relay(&["a"]));
    let own = session.id.clone();
    session.upstreams_initialized(None);
    assert_eq!(session.id, own);
    session.upstreams_initialized(Some("encoded".to_string()));
    assert_eq!(session.id, "encoded");
}

#[test]
fn guardrails_are_told_the_name_and_the_arguments() {
    let info = guardrails_mcp_info(&call_tool("echo"));
    assert_eq!(info.method_name.as_deref(), Some("tools/call"));
    let tool = info.tool.unwrap();
    assert_eq!((tool.target.as_str(), tool.name.as_str()), ("", "echo"));
    assert_eq!(tool.arguments, Some(vec![("x".to_string(), Json::Bool(true))]));
    assert_eq!(
        guardrails_mcp_info(&read("file:///x")).resource.unwrap().name(),
        "file:///x"
    );
    assert!(guardrails_mcp_info(&ClientRequest::PingRequest).tool.is_none());
}

#[test]
fn event_streams_record_their_session_and_no_method() {
    let mut log = MCPInfo::default();
    record_session(&mut log, "s1");
    assert_eq!(log.session_id.as_deref(), Some("s1"));
    assert_eq!(log.method_name, None);
}
