//! Names, task ids and request ids that are shared by several targets.

use agentgateway_mcp::federation_outbound::{
    OutboundMap, map_mux_outbound_message, map_outbound_inner, map_outbound_outer,
    record_create_task_route_if_flat,
};
use agentgateway_mcp::handler::{McpBackendGroup, Relay};
use agentgateway_mcp::info::FailureMode;
use agentgateway_mcp::json::Json;
use agentgateway_mcp::model::{
    RequestId, ServerJsonRpcMessage, ServerNotification, ServerResult, Task,
};
use agentgateway_mcp::multiplex_naming::{
    parse_multiplex_resource_uri, parse_resource_name, resolve_client_task_id, resource_name,
    rewrap_create_task_id,
    unwrap_client_task_id, unwrap_server_request_id, wrap_client_task_id, wrap_server_request_id,
};
use agentgateway_mcp::rewrite::{CompiledServerRewrite, McpRewritePolicy, ResourceNaming};
use agentgateway_mcp::upstream::UpstreamError;

fn ping(id: RequestId) -> ServerJsonRpcMessage {
    ServerJsonRpcMessage::Request { id, request: Json::Null }
}

fn request_id(msg: ServerJsonRpcMessage) -> RequestId {
    match msg {
        ServerJsonRpcMessage::Request { id, .. } => id,
        other => panic!("expected request, got {other:?}"),
    }
}

fn relay(names: &[&str], flat: bool) -> Relay {
    let targets = names
        .iter()
        .map(|n| {
            let server = CompiledServerRewrite {
                resource_naming: if flat { ResourceNaming::Flat } else { ResourceNaming::Prefix },
                ..Default::default()
            };
            let policy = McpRewritePolicy { server: Some(server), ..Default::default() };
            (n.to_string(), Some(policy))
        })
        .collect();
    Relay::new(McpBackendGroup {
        skipped: vec![],
        targets,
        default_target_name: None,
        is_multiplexing: true,
        stateful: true,
        failure_mode: FailureMode::FailClosed,
    })
    .unwrap()
}

#[test]
fn parse_resource_name_missing_delimiter_returns_error() {
    match parse_resource_name(None, "nodelim").unwrap_err() {
        UpstreamError::InvalidRequest(m) => {
            assert!(m.contains("invalid resource name"), "{m}");
        },
        e => panic!("unexpected {e:?}"),
    }
}

#[test]
fn wrap_and_unwrap_client_task_id_multiplex() {
    let wrapped = wrap_client_task_id(None, "airbnb", "job-42");
    assert_eq!(wrapped, "airbnb_job-42");
    let (t, id) = unwrap_client_task_id(None, &wrapped).unwrap();
    assert_eq!(t, "airbnb");
    assert_eq!(id, "job-42");
}

#[test]
fn wrap_client_task_id_single_backend_passthrough() {
    let default = "svc".to_string();
    assert_eq!(
        wrap_client_task_id(Some(&default), "ignored", "job-42"),
        "job-42"
    );
}

#[test]
fn resolve_client_task_id_multiplex_prefixed() {
    let (t, id) = resolve_client_task_id(None, "a_job-42", 2, None).unwrap();
    assert_eq!(t, "a");
    assert_eq!(id, "job-42");
}

#[test]
fn resolve_client_task_id_multiplex_bare_multi_errors() {
    let err = resolve_client_task_id(None, "job-42", 2, None).unwrap_err();
    assert!(
        err.to_string()
            .contains("flat task id requires task creation via tools/call")
    );
}

#[test]
fn resolve_client_task_id_single_upstream_bare() {
    let (t, id) = resolve_client_task_id(None, "job-42", 1, Some("svc")).unwrap();
    assert_eq!(t, "svc");
    assert_eq!(id, "job-42");
}

#[test]
fn wrap_and_unwrap_server_request_id_number() {
    let wrapped = wrap_server_request_id("mcp-server-everything", &RequestId::Number(42));
    let (target, orig) = unwrap_server_request_id(&wrapped).unwrap();
    assert_eq!(target, "mcp-server-everything");
    assert_eq!(orig, RequestId::Number(42));
}

#[test]
fn wrap_and_unwrap_server_request_id_string() {
    let wrapped = wrap_server_request_id(
        "mcp-server-airbnb",
        &RequestId::String("upstream-id".into()),
    );
    let (target, orig) = unwrap_server_request_id(&wrapped).unwrap();
    assert_eq!(target, "mcp-server-airbnb");
    assert_eq!(orig, RequestId::String("upstream-id".into()));
}

#[test]
fn unwrap_server_request_id_rejects_plain_number() {
    assert!(unwrap_server_request_id(&RequestId::Number(1)).is_none());
}

#[test]
fn map_mux_outbound_message_wraps_server_request_id_when_multiplexing() {
    let mut msg = ping(RequestId::Number(7));
    map_mux_outbound_message(None, false, "mcp-server-everything", &mut msg);
    let (target, orig) = unwrap_server_request_id(&request_id(msg)).unwrap();
    assert_eq!(target, "mcp-server-everything");
    assert_eq!(orig, RequestId::Number(7));
}

#[test]
fn map_mux_outbound_message_skips_request_id_wrap_for_single_target() {
    let default = "only".to_string();
    let mut msg = ping(RequestId::Number(7));
    map_mux_outbound_message(Some(&default), false, "ignored", &mut msg);
    assert_eq!(request_id(msg), RequestId::Number(7));
}

#[test]
fn extreme_request_ids_round_trip() {
    for n in [i64::MIN, -1, 0, i64::MAX] {
        let wrapped = wrap_server_request_id("t", &RequestId::Number(n));
        let (target, orig) = unwrap_server_request_id(&wrapped).unwrap();
        assert_eq!((target.as_str(), orig), ("t", RequestId::Number(n)));
    }
}

#[test]
fn a_number_that_does_not_fit_is_not_unwrapped() {
    let wrapped = match wrap_server_request_id("t", &RequestId::Number(7)) {
        RequestId::String(s) => s,
        other => panic!("expected a string id, got {other:?}"),
    };
    let too_big = wrapped.replace('7', "99999999999999999999");
    assert!(unwrap_server_request_id(&RequestId::String(too_big)).is_none());
}

#[test]
fn exposed_names_split_at_the_first_delimiter() {
    let name = resource_name(None, "svc", "a_b");
    assert_eq!(name, "svc_a_b");
    assert_eq!(parse_resource_name(None, &name).unwrap(), ("svc", "a_b"));
}

#[test]
fn plus_uri_splits_at_the_first_plus() {
    let (target, uri) = parse_multiplex_resource_uri(None, "svc+file:///a+b").unwrap();
    assert_eq!(target, "svc");
    assert_eq!(uri, "file:///a+b");
}

#[test]
fn created_task_is_remembered_under_flat_names_only() {
    let created = ServerJsonRpcMessage::Response {
        id: RequestId::Number(1),
        result: ServerResult::CreateTaskResult {
            task: Task { task_id: "job-1".to_string(), rest: Json::Null },
            rest: Json::Null,
        },
    };
    let mut flat = relay(&["a", "b"], true);
    record_create_task_route_if_flat(&mut flat, "b", &created);
    assert_eq!(
        flat.flat_task_routes.get("job-1"),
        Some(&("b".to_string(), "job-1".to_string()))
    );
    let mut prefixed = relay(&["a", "b"], false);
    record_create_task_route_if_flat(&mut prefixed, "b", &created);
    assert!(prefixed.flat_task_routes.is_empty());
}

#[test]
fn created_task_id_is_prefixed_on_its_way_out() {
    let mut prefixed = relay(&["a", "b"], false);
    let mut msg = ServerJsonRpcMessage::Response {
        id: RequestId::Number(1),
        result: ServerResult::CreateTaskResult {
            task: Task { task_id: "job-1".to_string(), rest: Json::Null },
            rest: Json::Null,
        },
    };
    map_outbound_inner(&mut prefixed, OutboundMap::ToolsCall, "b", &mut msg);
    match msg {
        ServerJsonRpcMessage::Response {
            result: ServerResult::CreateTaskResult { task, .. },
            ..
        } => assert_eq!(task.task_id, "b_job-1"),
        other => panic!("unexpected {other:?}"),
    }
}

#[test]
fn single_answers_are_mapped_on_both_sides_of_the_guardrails() {
    let mut prefixed = relay(&["a", "b"], false);
    let mut msg =
        ServerJsonRpcMessage::Notification(ServerNotification::ResourceUpdatedNotification {
            uri: "file:///x".to_string(),
        });
    map_outbound_inner(&mut prefixed, OutboundMap::Single, "a", &mut msg);
    map_outbound_outer(&prefixed, OutboundMap::Single, "a", &mut msg);
    match msg {
        ServerJsonRpcMessage::Notification(
            ServerNotification::ResourceUpdatedNotification { uri },
        ) => assert_eq!(uri, "a+a+file:///x"),
        other => panic!("unexpected {other:?}"),
    }
}

#[test]
fn created_ids_are_prefixed_where_names_are() {
    let mut id = "job".to_string();
    rewrap_create_task_id(None, false, "a", &mut id);
    assert_eq!(id, "a_job");
    let mut flat = "job".to_string();
    rewrap_create_task_id(None, true, "a", &mut flat);
    assert_eq!(flat, "job");
}
