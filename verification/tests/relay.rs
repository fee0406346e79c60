//! Lists that are merged, names that are resolved, and sessions that are kept.

use agentgateway_mcp::client::{ClientRequest, Reference};
use agentgateway_mcp::federation_outbound::{OutboundMap, map_outbound_inner};
use agentgateway_mcp::handler::fanout::GetStream;
use agentgateway_mcp::handler::sessions::MCPSession;
use agentgateway_mcp::handler::single::{accepted_response, sse_stream_response};
use agentgateway_mcp::handler::{McpBackendGroup, Relay};
use agentgateway_mcp::info::{FailureMode, MCPInfo, ResourceId};
use agentgateway_mcp::json::Json;
use agentgateway_mcp::mcp_apps::routing::parse_resource_uri_mixed;
use agentgateway_mcp::model::{
    InitializeResult, Prompt, RequestId, Resource, ResourceTemplate, ServerCapabilities,
    ServerJsonRpcMessage, ServerNotification, ServerResult, Task, TasksCapability, Tool, ToolsCapability,
};
use agentgateway_mcp::multiplex_naming::wrap_client_task_id;
use agentgateway_mcp::rewrite::{
    CompiledItemRule, CompiledServerRewrite, ItemMatcher, McpRewritePolicy, McpRewriteSet,
    ResourceNaming, RewriteValue,
};
use agentgateway_mcp::session::dispatch::{Merge, Plan};
use agentgateway_mcp::session::in_flight::InFlightRegistry;
use agentgateway_mcp::upstream::{ClientError, HttpResponse, UpstreamError};

fn rename(upstream: &str, exposed: &str) -> Vec<CompiledItemRule> {
    vec![CompiledItemRule {
        rule_name: "rename".into(),
        matcher: ItemMatcher::Exact(upstream.to_string()),
        rewrite: RewriteValue { name: Some(exposed.to_string()), ..Default::default() },
    }]
}

fn single_tool_rename(upstream: &str, exposed: &str) -> McpRewritePolicy {
    McpRewritePolicy { tools: rename(upstream, exposed), ..Default::default() }
}

fn single_prompt_rename(upstream: &str, exposed: &str) -> McpRewritePolicy {
    McpRewritePolicy { prompts: rename(upstream, exposed), ..Default::default() }
}

fn flat_server() -> McpRewritePolicy {
    McpRewritePolicy {
        server: Some(CompiledServerRewrite {
            resource_naming: ResourceNaming::Flat,
            ..Default::default()
        }),
        ..Default::default()
    }
}

/// A relay; with one target names go through without a prefix.
fn relay(targets: Vec<(&str, Option<McpRewritePolicy>)>) -> Relay {
    relay_in(FailureMode::FailClosed, targets)
}

fn relay_in(failure_mode: FailureMode, targets: Vec<(&str, Option<McpRewritePolicy>)>) -> Relay {
    let default_target_name =
        if targets.len() == 1 { Some(targets[0].0.to_string()) } else { None };
    Relay::new(McpBackendGroup {
        skipped: vec![],
        is_multiplexing: targets.len() > 1,
        targets: targets.into_iter().map(|(n, p)| (n.to_string(), p)).collect(),
        default_target_name,
        stateful: true,
        failure_mode,
    })
    .unwrap()
}

fn tool(name: &str) -> Tool {
    Tool { name: name.to_string(), description: None, meta: None, rest: Json::Null }
}

fn tools(target: &str, names: &[&str]) -> (String, ServerResult) {
    (
        target.to_string(),
        ServerResult::ListToolsResult(names.iter().map(|n| tool(n)).collect()),
    )
}

fn tool_names(result: ServerResult) -> Vec<String> {
    match result {
        ServerResult::ListToolsResult(v) => v.into_iter().map(|t| t.name).collect(),
        other => panic!("expected ListToolsResult, got {other:?}"),
    }
}

fn resource(uri: &str, name: &str) -> Resource {
    Resource {
        uri: uri.to_string(),
        name: name.to_string(),
        description: None,
        rest: Json::Null,
    }
}

fn listed_resources(result: ServerResult) -> Vec<Resource> {
    match result {
        ServerResult::ListResourcesResult(v) => v,
        other => panic!("expected ListResourcesResult, got {other:?}"),
    }
}

fn tasks(target: &str, ids: &[&str]) -> (String, ServerResult) {
    let v = ids
        .iter()
        .map(|id| Task { task_id: id.to_string(), rest: Json::Null })
        .collect();
    (target.to_string(), ServerResult::ListTasksResult(v))
}

fn listed_tasks(result: ServerResult) -> Vec<Task> {
    match result {
        ServerResult::ListTasksResult(v) => v,
        other => panic!("expected ListTasksResult, got {other:?}"),
    }
}

fn no_capabilities() -> ServerCapabilities {
    ServerCapabilities { tools: None, prompts: None, resources: None, tasks: None }
}

fn initialized(
    target: &str,
    server: &str,
    capabilities: ServerCapabilities,
    instructions: Option<&str>,
) -> (String, ServerResult) {
    (
        target.to_string(),
        ServerResult::InitializeResult(InitializeResult {
            protocol_version: "2025-06-18".to_string(),
            capabilities,
            server_name: server.to_string(),
            server_version: "1.0".to_string(),
            instructions: instructions.map(|i| i.to_string()),
            rest: Json::Null,
        }),
    )
}

fn initialize_result(result: ServerResult) -> InitializeResult {
    match result {
        ServerResult::InitializeResult(r) => r,
        other => panic!("expected InitializeResult, got {other:?}"),
    }
}

fn persisted_session(target: &str, session: &str, backend: &str) -> MCPSession {
    MCPSession {
        target_name: Some(target.to_string()),
        session: Some(session.to_string()),
        backend: Some(backend.to_string()),
    }
}

fn stateless_session(target: &str, backend: Option<&str>) -> MCPSession {
    MCPSession {
        target_name: Some(target.to_string()),
        session: None,
        backend: backend.map(|b| b.to_string()),
    }
}

fn unavailable() -> UpstreamError {
    UpstreamError::Http(ClientError::Status(Box::new(HttpResponse {
        status: 503,
        headers: vec![],
        body: vec![],
    })))
}

fn message(e: &UpstreamError) -> &str {
    match e {
        UpstreamError::InvalidRequest(m) => m.as_str(),
        other => panic!("expected an invalid request, got {other:?}"),
    }
}

#[test]
fn test_openapi_targets_emit_stateless_session_state() {
    let r = relay(vec![("openapi", None)]);
    let sessions = r
        .get_sessions(vec![Some(stateless_session("openapi", None))])
        .expect("OpenAPI should support stateless sessions");
    assert_eq!(sessions, vec![stateless_session("openapi", None)]);

    let pinned = Some("127.0.0.1:31031");
    let resumed = r.set_sessions(vec![stateless_session("openapi", pinned)]).unwrap();
    let sessions = r
        .get_sessions(resumed.into_iter().map(Some).collect())
        .expect("OpenAPI session state should still be available");
    assert_eq!(sessions, vec![stateless_session("openapi", pinned)]);
}

#[test]
fn test_sse_targets_emit_stateless_session_state() {
    let r = relay(vec![("sse", None)]);
    let sessions = r
        .get_sessions(vec![Some(stateless_session("sse", None))])
        .expect("SSE should support stateless sessions");
    assert_eq!(sessions, vec![stateless_session("sse", None)]);

    let pinned = Some("127.0.0.1:31032");
    let resumed = r.set_sessions(vec![stateless_session("sse", pinned)]).unwrap();
    let sessions = r
        .get_sessions(resumed.into_iter().map(Some).collect())
        .expect("SSE session state should still be available");
    assert_eq!(sessions, vec![stateless_session("sse", pinned)]);
}

#[test]
fn test_stdio_targets_remain_non_stateless() {
    let r = relay(vec![("stdio", None)]);
    assert!(r.get_sessions(vec![None]).is_none());
}

#[test]
fn test_fanout_deletion_fail_open_skips_failed_upstreams() {
    let r = relay_in(FailureMode::FailOpen, vec![("good", None), ("bad", None)]);
    r.send_fanout_deletion(vec![
        ("good".to_string(), Ok(())),
        ("bad".to_string(), Err(unavailable())),
    ])
    .unwrap();
    assert_eq!(accepted_response().status, 202);
}

#[test]
fn test_set_sessions_matches_by_target_name() {
    let r = relay(vec![("alpha", None), ("beta", None)]);
    let sessions = r
        .set_sessions(vec![
            persisted_session("beta", "session-beta", "127.0.0.1:31002"),
            persisted_session("alpha", "session-alpha", "127.0.0.1:31001"),
        ])
        .unwrap();
    assert_eq!(sessions.len(), 2);
    assert_eq!(sessions[0].target_name.as_deref(), Some("alpha"));
    assert_eq!(sessions[0].session.as_deref(), Some("session-alpha"));
    assert_eq!(sessions[0].backend.as_deref(), Some("127.0.0.1:31001"));
    assert_eq!(sessions[1].target_name.as_deref(), Some("beta"));
    assert_eq!(sessions[1].session.as_deref(), Some("session-beta"));
    assert_eq!(sessions[1].backend.as_deref(), Some("127.0.0.1:31002"));
}

#[test]
fn test_set_sessions_rejects_mismatched_target_set() {
    let r = relay(vec![("alpha", None), ("beta", None)]);
    let err = r
        .set_sessions(vec![
            persisted_session("beta", "session-beta", "127.0.0.1:32012"),
            persisted_session("gamma", "session-gamma", "127.0.0.1:32013"),
        ])
        .unwrap_err();
    assert!(err.contains("missing persisted session for target alpha"));
}

#[test]
fn sessions_that_do_not_fit_are_not_resumed() {
    let r = relay(vec![("a", None), ("b", None)]);
    let unkeyed =
        || MCPSession { session: Some("s".to_string()), backend: None, target_name: None };
    assert_eq!(
        r.set_sessions(vec![unkeyed()]).unwrap_err(),
        "session count 1 did not match initialized upstreams 2"
    );
    assert_eq!(
        r.set_sessions(vec![unkeyed(), persisted_session("a", "s", "x")]).unwrap_err(),
        "mixed keyed and unkeyed MCP session state is unsupported"
    );
    assert_eq!(
        r.set_sessions(vec![
            persisted_session("a", "s", "x"),
            persisted_session("a", "t", "x")
        ])
        .unwrap_err(),
        "duplicate persisted session for target a"
    );
    assert_eq!(
        r.set_sessions(vec![persisted_session("a", "s", "x")]).unwrap_err(),
        "persisted target count 1 did not match initialized upstreams 2"
    );
}

#[test]
fn test_merge_initialize_merges_upstream_instructions_when_multiplexing() {
    let mut r = relay(vec![("alpha", None), ("beta", None)]);
    let result = r.merge_initialize(
        "2025-06-18".to_string(),
        true,
        vec![
            initialized(
                "alpha",
                "alpha-server",
                no_capabilities(),
                Some("Alpha server: handles data processing."),
            ),
            initialized(
                "beta",
                "beta-server",
                no_capabilities(),
                Some("Beta server: handles notifications."),
            ),
        ],
        "1.0",
    );
    let info = initialize_result(result);
    let instructions = info.instructions.expect("instructions should be present");
    assert!(instructions.contains("Alpha server: handles data processing."), "{instructions}");
    assert!(instructions.contains("Beta server: handles notifications."), "{instructions}");
    assert!(instructions.contains("[alpha]"), "{instructions}");
    assert!(instructions.contains("[beta]"), "{instructions}");
    assert!(instructions.contains("gateway"), "{instructions}");
}

#[test]
fn test_merge_initialize_no_instructions_when_multiplexing() {
    let mut r = relay(vec![("alpha", None)]);
    let result = r.merge_initialize(
        "2025-06-18".to_string(),
        true,
        vec![initialized("alpha", "alpha-server", no_capabilities(), None)],
        "1.0",
    );
    let instructions =
        initialize_result(result).instructions.expect("instructions should be present");
    // When no upstream provides instructions, only the gateway preamble should be present
    assert!(instructions.contains("gateway"), "{instructions}");
    assert!(!instructions.contains("[alpha]"), "{instructions}");
}

#[test]
fn test_merge_initialize_forwards_single_backend_without_multiplexing() {
    let mut r = relay(vec![("solo", None)]);
    let result = r.merge_initialize(
        "2025-06-18".to_string(),
        false,
        vec![initialized(
            "solo",
            "solo-server",
            no_capabilities(),
            Some("Solo server instructions."),
        )],
        "1.0",
    );
    let info = initialize_result(result);
    // Non-multiplexing should forward the upstream's instructions directly
    assert_eq!(info.instructions.as_deref(), Some("Solo server instructions."));
    assert_eq!(info.server_name, "solo-server");
}

#[test]
fn merged_initialize_speaks_the_lowest_version() {
    let mut r = relay(vec![("a", None), ("b", None)]);
    let mut old = initialized("b", "b", no_capabilities(), None);
    if let ServerResult::InitializeResult(i) = &mut old.1 {
        i.protocol_version = "2024-11-05".to_string();
    }
    let result = r.merge_initialize(
        "2025-06-18".to_string(),
        true,
        vec![initialized("a", "a", no_capabilities(), None), old],
        "9.9",
    );
    let info = initialize_result(result);
    assert_eq!(info.protocol_version, "2024-11-05");
    assert_eq!(info.server_name, "agentgateway");
    assert_eq!(info.server_version, "9.9");
}

#[test]
fn merge_tools_applies_rename_before_multiplex_prefix() {
    let mut r = relay(vec![("svc", Some(single_tool_rename("echo", "echo_renamed")))]);
    let out = r.merge_tools(vec![tools("svc", &["echo"])], &vec![]);
    assert_eq!(tool_names(out), vec!["echo_renamed"]);
}

#[test]
fn merge_tools_auth_on_upstream_rename_invisible_to_cel() {
    let mut r = relay(vec![("svc", Some(single_tool_rename("echo", "echo_renamed")))]);
    let denied = vec![ResourceId::new("svc".to_string(), "secret".to_string())];
    let out = r.merge_tools(vec![tools("svc", &["echo", "secret"])], &denied);
    assert_eq!(tool_names(out), vec!["echo_renamed"]);
}

#[test]
fn flat_resolve_tool_call_uses_tools_list_route_index() {
    let mut r = relay(vec![
        ("mcp-server-everything", Some(single_tool_rename("echo", "echo_demo"))),
        ("mcp-server-threejs", Some(flat_server())),
    ]);
    let _ = r.merge_tools(
        vec![
            tools("mcp-server-everything", &["echo"]),
            tools("mcp-server-threejs", &["show_threejs_scene"]),
        ],
        &vec![],
    );
    let (target, upstream) = r.resolve_tool_call("show_threejs_scene").unwrap();
    assert_eq!(target, "mcp-server-threejs");
    assert_eq!(upstream, "show_threejs_scene");
    let (target, upstream) = r.resolve_tool_call("echo_demo").unwrap();
    assert_eq!(target, "mcp-server-everything");
    assert_eq!(upstream, "echo");
}

#[test]
fn flat_resolve_prompt_call_uses_prompts_list_route_index() {
    let federation = flat_server();
    let everything = single_prompt_rename("simple_prompt", "simple-prompt");
    let rewrite = McpRewriteSet::merge_for_target(Some(&federation), Some(&everything));
    let mut r = relay(vec![("mcp-server-everything", Some(rewrite))]);
    let _ = r.merge_prompts(
        vec![(
            "mcp-server-everything".to_string(),
            ServerResult::ListPromptsResult(vec![Prompt {
                name: "simple-prompt".to_string(),
                description: None,
                rest: Json::Null,
            }]),
        )],
        &vec![],
    );
    let (target, upstream) = r.resolve_prompt_call("simple-prompt").unwrap();
    assert_eq!(target, "mcp-server-everything");
    // The routes from prompts/list win over the configured names.
    assert_eq!(upstream, "simple-prompt");
}

#[test]
fn flat_resolve_tool_call_routes_unique_name_in_four_target_federation() {
    let mut r = relay(vec![
        ("mcp-server-everything", Some(single_tool_rename("echo", "echo_demo"))),
        ("mcp-server-airbnb", Some(flat_server())),
        ("mcp-server-map", Some(flat_server())),
        ("mcp-server-threejs", Some(flat_server())),
    ]);
    let _ = r.merge_tools(
        vec![
            tools("mcp-server-everything", &["echo", "simulate-research-query"]),
            tools("mcp-server-airbnb", &["airbnb_search_listings"]),
            tools("mcp-server-map", &["map_geocode"]),
            tools("mcp-server-threejs", &["show_threejs_scene"]),
        ],
        &vec![],
    );
    let (target, upstream) = r
        .resolve_tool_call("simulate-research-query")
        .expect("simulate-research-query must route to mcp-server-everything");
    assert_eq!(target, "mcp-server-everything");
    assert_eq!(upstream, "simulate-research-query");
    let (target, upstream) = r
        .resolve_tool_call("echo_demo")
        .expect("echo_demo must route to mcp-server-everything");
    assert_eq!(target, "mcp-server-everything");
    assert_eq!(upstream, "echo");
    assert_eq!(r.resolve_tool_call("airbnb_search_listings").unwrap().0, "mcp-server-airbnb");
    assert_eq!(r.resolve_tool_call("map_geocode").unwrap().0, "mcp-server-map");
    assert_eq!(r.resolve_tool_call("show_threejs_scene").unwrap().0, "mcp-server-threejs");
}

#[test]
fn flat_route_index_first_wins_keeps_colliding_name_callable() {
    let mut r = relay(vec![("a", Some(flat_server())), ("b", Some(flat_server()))]);
    let out = r.merge_tools(vec![tools("a", &["echo"]), tools("b", &["echo"])], &vec![]);
    assert_eq!(tool_names(out), vec!["echo"]);
    let (target, upstream) = r
        .resolve_tool_call("echo")
        .expect("echo must remain callable after first-wins collision");
    assert_eq!(target, "a");
    assert_eq!(upstream, "echo");
}

#[test]
fn a_colliding_name_goes_to_the_first_that_is_allowed() {
    let mut r = relay(vec![
        ("a", Some(flat_server())),
        ("b", Some(McpRewritePolicy { tools: rename("shout", "echo"), ..flat_server() })),
        ("c", Some(flat_server())),
    ]);
    let streams = vec![
        tools("a", &["echo", "sum"]),
        tools("b", &["shout", "sum"]),
        tools("c", &["echo"]),
    ];
    let denied = vec![ResourceId::new("a".to_string(), "echo".to_string())];
    let out = r.merge_tools(streams, &denied);
    assert_eq!(tool_names(out), vec!["sum", "echo"]);
    let pair = |t: &str, n: &str| (t.to_string(), n.to_string());
    assert_eq!(r.resolve_tool_call("echo").unwrap(), pair("b", "shout"));
    assert_eq!(r.resolve_tool_call("sum").unwrap(), pair("a", "sum"));
}

#[test]
fn resolve_tool_call_maps_exposed_to_upstream() {
    let r = relay(vec![("svc", Some(single_tool_rename("echo", "echo_renamed")))]);
    let (target, upstream) = r.resolve_tool_call("echo_renamed").unwrap();
    assert_eq!(target, "svc");
    assert_eq!(upstream, "echo");
}

#[test]
fn flat_merge_tools_omits_pass_through_name_collision() {
    let mut r = relay(vec![("a", Some(flat_server())), ("b", Some(flat_server()))]);
    let out = r.merge_tools(vec![tools("a", &["search"]), tools("b", &["search"])], &vec![]);
    assert_eq!(tool_names(out), vec!["search"]);
}

#[test]
fn flat_merge_resources_keeps_flat_name_and_multiplex_uri() {
    let r = relay(vec![("alpha", Some(flat_server())), ("beta", Some(flat_server()))]);
    let out = r.merge_resources(
        vec![(
            "alpha".to_string(),
            ServerResult::ListResourcesResult(vec![resource("memo://insights/report", "memo")]),
        )],
        &vec![],
    );
    let listed = listed_resources(out);
    assert_eq!(listed.len(), 1);
    assert_eq!(listed[0].name, "memo");
    assert!(
        listed[0].uri.contains("alpha+"),
        "expected multiplexed URI, got {}",
        listed[0].uri
    );
    let (target, original) = parse_resource_uri_mixed(None, &listed[0].uri).unwrap();
    assert_eq!(target, "alpha");
    assert_eq!(original, "memo://insights/report");
}

#[test]
fn flat_merge_resources_omits_pass_through_name_collision() {
    let r = relay(vec![("a", Some(flat_server())), ("b", Some(flat_server()))]);
    let out = r.merge_resources(
        vec![
            (
                "a".to_string(),
                ServerResult::ListResourcesResult(vec![resource("memo://a/1", "memo")]),
            ),
            (
                "b".to_string(),
                ServerResult::ListResourcesResult(vec![resource("memo://b/1", "memo")]),
            ),
        ],
        &vec![],
    );
    let listed = listed_resources(out);
    assert_eq!(listed.len(), 1);
    assert_eq!(listed[0].name, "memo");
}

#[test]
fn flat_merge_resource_templates_keeps_flat_name_and_multiplex_uri_template() {
    let r = relay(vec![("alpha", Some(flat_server())), ("beta", Some(flat_server()))]);
    let out = r.merge_resource_templates(
        vec![(
            "alpha".to_string(),
            ServerResult::ListResourceTemplatesResult(vec![ResourceTemplate {
                uri_template: "file://{path}".to_string(),
                name: "template".to_string(),
                rest: Json::Null,
            }]),
        )],
        &vec![],
    );
    let listed = match out {
        ServerResult::ListResourceTemplatesResult(v) => v,
        other => panic!("expected ListResourceTemplatesResult, got {other:?}"),
    };
    assert_eq!(listed.len(), 1);
    assert_eq!(listed[0].name, "template");
    assert!(
        listed[0].uri_template.starts_with("alpha+file://"),
        "expected multiplexed template URI, got {}",
        listed[0].uri_template
    );
}

#[test]
fn flat_merge_tasks_omits_pass_through_id_collision() {
    let mut r = relay(vec![("a", Some(flat_server())), ("b", Some(flat_server()))]);
    let out = r.merge_tasks(vec![tasks("a", &["job-1"]), tasks("b", &["job-1"])], &vec![]);
    let listed = listed_tasks(out);
    assert_eq!(listed.len(), 1);
    assert_eq!(listed[0].task_id, "job-1");
}

#[test]
fn flat_merge_tasks_populates_route_index_for_tasks_get() {
    let mut r = relay(vec![("a", Some(flat_server())), ("b", Some(flat_server()))]);
    let _ = r.merge_tasks(vec![tasks("a", &["job-99"])], &vec![]);
    let (target, upstream) = r.resolve_task_call("job-99").unwrap();
    assert_eq!(target, "a");
    assert_eq!(upstream, "job-99");
}

#[test]
fn flat_merge_tasks_preserves_create_recorded_route() {
    let mut r = relay(vec![("a", Some(flat_server())), ("b", Some(flat_server()))]);
    r.record_flat_task_route("a", "created-1");
    let _ = r.merge_tasks(vec![tasks("b", &["job-from-b"])], &vec![]);
    let (target, upstream) = r
        .resolve_task_call("created-1")
        .expect("create-recorded route must survive tasks/list");
    assert_eq!(target, "a");
    assert_eq!(upstream, "created-1");
    let (target, upstream) = r
        .resolve_task_call("job-from-b")
        .expect("tasks/list-derived route must also resolve");
    assert_eq!(target, "b");
    assert_eq!(upstream, "job-from-b");
}

#[test]
fn ensure_flat_task_routes_loaded_noop_when_index_populated() {
    let mut r = relay(vec![("a", Some(flat_server())), ("b", Some(flat_server()))]);
    assert!(r.task_routes_to_load().is_some());
    let _ = r.merge_tasks(vec![tasks("a", &["job-1"])], &vec![]);
    assert!(r.task_routes_to_load().is_none());
}

#[test]
fn resolve_task_call_flat_maps_to_target() {
    let r = relay(vec![("svc", Some(flat_server()))]);
    let (target, upstream) = r.resolve_task_call("job-42").unwrap();
    assert_eq!(target, "svc");
    assert_eq!(upstream, "job-42");

    let mut multi = relay(vec![("a", Some(flat_server())), ("b", Some(flat_server()))]);
    let err = multi.resolve_task_call("job-42").unwrap_err();
    assert!(err.to_string().contains("ambiguous flat task id"), "{err:?}");

    multi.record_flat_task_route("a", "job-42");
    let (target, upstream) = multi.resolve_task_call("job-42").unwrap();
    assert_eq!(target, "a");
    assert_eq!(upstream, "job-42");

    let prefixed = relay(vec![
        ("a", Some(McpRewritePolicy::default())),
        ("b", Some(McpRewritePolicy::default())),
    ]);
    let (target, upstream) = prefixed.resolve_task_call("a_job-42").unwrap();
    assert_eq!(target, "a");
    assert_eq!(upstream, "job-42");

    assert_eq!(wrap_client_task_id(None, "a", "job-99"), "a_job-99");
}

#[test]
fn merge_tools_wraps_ui_resource_uri_in_tool_meta_when_multiplexing() {
    let mut r = relay(vec![("alpha", None), ("beta", None)]);
    let mut t = tool("t1");
    t.meta = Some(vec![
        (
            "ui".to_string(),
            Json::Object(vec![(
                "resourceUri".to_string(),
                Json::Str("ui://x/app.html".to_string()),
            )]),
        ),
        ("ui/resourceUri".to_string(), Json::Str("ui://x/app.html".to_string())),
    ]);
    let out = r.merge_tools(
        vec![("alpha".to_string(), ServerResult::ListToolsResult(vec![t]))],
        &vec![],
    );
    let listed = match out {
        ServerResult::ListToolsResult(v) => v,
        other => panic!("expected ListToolsResult, got {other:?}"),
    };
    let meta = listed[0].meta.as_ref().unwrap();
    let uri = match &meta[0].1 {
        Json::Object(m) => match &m[0].1 {
            Json::Str(s) => s.clone(),
            other => panic!("unexpected {other:?}"),
        },
        other => panic!("unexpected {other:?}"),
    };
    assert!(uri.starts_with("ui://"), "expected federated ui URI, got {uri}");
    assert!(uri.contains("u="), "expected u= query in {uri}");
    assert_eq!(meta[1].1, Json::Str(uri));
}

#[test]
fn capability_cache_records_tasks_per_upstream_when_multiplexing() {
    let mut r = relay(vec![("with_tasks", None), ("no_tasks", None)]);
    let with = ServerCapabilities {
        tools: Some(ToolsCapability { list_changed: None }),
        tasks: Some(TasksCapability { list: true, cancel: true, requests_tools_call: true }),
        ..no_capabilities()
    };
    let without = ServerCapabilities {
        tools: Some(ToolsCapability { list_changed: None }),
        ..no_capabilities()
    };
    let _ = r.merge_initialize(
        "2025-06-18".to_string(),
        true,
        vec![
            initialized("with_tasks", "a", with, None),
            initialized("no_tasks", "b", without, None),
        ],
        "1",
    );
    let all = r.all_target_names();
    let asked = r.capabilities.upstreams_with_tasks(&all);
    assert!(asked.contains(&"with_tasks".to_string()));
    assert!(!asked.contains(&"no_tasks".to_string()));
}

#[test]
fn merge_tasks_merge_fn_handles_no_upstream_results() {
    let mut r = relay(vec![("a", None), ("b", None)]);
    assert!(listed_tasks(r.merge_tasks(vec![], &vec![])).is_empty());
}

#[test]
fn send_fanout_to_with_zero_matching_targets_returns_empty_tasks_via_sse() {
    let mut r = relay(vec![("a", None), ("b", None)]);
    assert!(r.fanout_targets(&vec![]).is_empty());
    let taken: Vec<(String, Result<ServerResult, UpstreamError>)> = vec![];
    let streams = r.send_fanout_to(taken).expect("empty fanout should not error");
    assert!(listed_tasks(r.merge_tasks(streams, &vec![])).is_empty());
    let head = sse_stream_response();
    assert_eq!(head.status, 200);
    assert_eq!(
        head.headers[0],
        ("content-type".to_string(), "text/event-stream".to_string())
    );
}

#[test]
fn merged_lists_prefix_names_and_leave_out_what_is_denied() {
    let mut r = relay(vec![("a", None), ("b", None)]);
    let denied = vec![ResourceId::new("b".to_string(), "echo".to_string())];
    let out = r.merge_tools(
        vec![tools("a", &["echo"]), tools("b", &["echo", "sum"])],
        &denied,
    );
    assert_eq!(tool_names(out), vec!["a_echo", "b_sum"]);
}

#[test]
fn fail_closed_fanout_names_the_upstream() {
    let r = relay(vec![("server-a", None), ("server-b", None)]);
    let err = r
        .send_fanout(vec![
            ("server-a".to_string(), Ok(1u8)),
            ("server-b".to_string(), Err(UpstreamError::Send)),
        ])
        .unwrap_err();
    assert!(err.to_string().contains("server-b"), "{err:?}");
}

#[test]
fn fail_open_fanout_keeps_those_that_took_it() {
    let r = relay_in(FailureMode::FailOpen, vec![("a", None), ("b", None)]);
    let ok = r
        .send_fanout(vec![
            ("a".to_string(), Err(UpstreamError::Send)),
            ("b".to_string(), Ok(2u8)),
        ])
        .unwrap();
    assert_eq!(ok, vec![("b".to_string(), 2u8)]);
    let none: Vec<(String, Result<u8, UpstreamError>)> =
        vec![("a".to_string(), Err(UpstreamError::Send))];
    assert_eq!(message(&r.send_fanout(none).unwrap_err()), "no upstreams available");
}

#[test]
fn an_event_stream_stays_open_when_no_upstream_has_one() {
    let r = relay_in(FailureMode::FailOpen, vec![("a", None), ("b", None)]);
    let none: Vec<(String, Result<u8, UpstreamError>)> =
        vec![("a".to_string(), Err(UpstreamError::Recv))];
    assert!(matches!(r.send_fanout_get(none).unwrap(), GetStream::Pending));
    let one = vec![("a".to_string(), Ok(5u8))];
    assert!(matches!(r.send_fanout_get(one).unwrap(), GetStream::Streams(v) if v.len() == 1));
}

#[test]
fn unknown_service_does_not_count() {
    let r = relay(vec![("server-a", None), ("server-b", None)]);
    let mut log = Some(MCPInfo::default());
    let taken: Result<u8, UpstreamError> = Err(unavailable());
    let err = r.send_single("server-zzz", taken, &mut log).unwrap_err();
    assert_eq!(message(&err), "unknown service server-zzz");
    assert_eq!(log, Some(MCPInfo::default()));
    let taken: Result<u8, UpstreamError> = Err(unavailable());
    assert!(r.send_single("server-a", taken, &mut log).is_err());
    assert_eq!(log.unwrap().upstream_error.as_deref(), Some("http_5xx"));
}

#[test]
fn messages_to_one_upstream_need_it_to_be_there() {
    let r = relay(vec![("a", None), ("b", None)]);
    assert!(r.send_message_single("a", Ok(())).is_ok());
    let err = r.send_message_single("c", Ok(())).unwrap_err();
    assert_eq!(message(&err), "unknown service c");
    let err = r.send_notification_single("c", Ok(())).unwrap_err();
    assert_eq!(message(&err), "unknown service c");
    let mut log = None;
    assert_eq!(r.send_single_map_response("b", Ok(4u8), &mut log), Ok(4));
    let failed = r.send_single_map_response("b", Err::<u8, _>(UpstreamError::Send), &mut log);
    assert_eq!(failed, Err(UpstreamError::Send));
    assert_eq!(log, None);
}

#[test]
fn notifications_reach_all_or_fail_as_configured() {
    let results = || {
        vec![("a".to_string(), Ok(())), ("b".to_string(), Err(UpstreamError::Send))]
    };
    let closed = relay(vec![("a", None), ("b", None)]);
    assert_eq!(closed.send_notification(results()), Err(UpstreamError::Send));
    let open = relay_in(FailureMode::FailOpen, vec![("a", None), ("b", None)]);
    assert_eq!(open.send_notification(results()), Ok(()));
    assert_eq!(open.merge_empty(), ServerResult::Empty);
}

#[test]
fn a_cancellable_call_is_registered_once_it_is_taken() {
    let r = relay(vec![("a", None), ("b", None)]);
    let mut in_flight = InFlightRegistry::new();
    let mut log = None;
    let failed: Result<u8, UpstreamError> = Err(UpstreamError::Send);
    let id = || RequestId::Number(9);
    assert!(
        r.send_single_map_response_cancellable(id(), "b", failed, &mut log, &mut in_flight)
            .is_err()
    );
    assert_eq!(in_flight.cancel(&id()), None);
    let taken: Result<u8, UpstreamError> = Ok(1);
    r.send_single_map_response_cancellable(id(), "b", taken, &mut log, &mut in_flight).unwrap();
    assert_eq!(in_flight.cancel(&id()), Some("b".to_string()));
    assert_eq!(in_flight.cancel(&id()), None);
}

#[test]
fn flat_names_are_listed_before_the_first_call() {
    let mut r = relay(vec![("a", Some(flat_server())), ("b", Some(flat_server()))]);
    assert_eq!(
        r.tool_routes_to_load(),
        Some(vec!["a".to_string(), "b".to_string()])
    );
    assert_eq!(
        r.prompt_routes_to_load(),
        Some(vec!["a".to_string(), "b".to_string()])
    );
    let _ = r.merge_tools(vec![tools("a", &["echo"])], &vec![]);
    assert!(r.tool_routes_to_load().is_none());
    let prefixed = relay(vec![("a", None), ("b", None)]);
    assert!(prefixed.tool_routes_to_load().is_none());
}

#[test]
fn a_tool_name_is_unknown_where_listing_failed() {
    let refusal = |r: &Relay, name: &str| match r.resolve_tool_call(name) {
        Err(UpstreamError::InvalidRequest(m)) => m,
        other => panic!("unexpected {other:?}"),
    };
    let mut r = relay(vec![("a", Some(flat_server())), ("b", Some(flat_server()))]);
    assert_eq!(refusal(&r, "echo"), "unknown flat tool name: echo");
    let _ = r.merge_tools(vec![tools("a", &["sum"])], &vec![]);
    assert_eq!(refusal(&r, "echo"), "ambiguous flat tool name: echo");

    let rules = McpRewritePolicy { tools: rename("x", "echo"), ..flat_server() };
    let r = relay(vec![("a", Some(rules)), ("b", Some(flat_server()))]);
    assert_eq!(refusal(&r, "echo"), "ambiguous flat tool name: echo");
    assert_eq!(r.resolve_tool_call("sum").unwrap(), ("b".to_string(), "sum".to_string()));
}

#[test]
fn a_request_says_what_is_listed_first() {
    let mut r = relay(vec![("a", Some(flat_server())), ("b", Some(flat_server()))]);
    let both = || vec!["a".to_string(), "b".to_string()];
    let call = ClientRequest::CallToolRequest {
        name: "echo".to_string(),
        arguments: None,
        rest: Json::Null,
    };
    let complete = ClientRequest::CompleteRequest {
        reference: Reference::for_prompt("p".to_string()),
        rest: Json::Null,
    };
    let task =
        ClientRequest::GetTaskInfoRequest { task_id: "t".to_string(), rest: Json::Null };
    let read =
        ClientRequest::ReadResourceRequest { uri: "memo://x".to_string(), rest: Json::Null };
    assert_eq!(
        r.routes_to_load(&call),
        Some(Plan::Chosen {
            targets: both(),
            request: ClientRequest::ListToolsRequest(Json::Null),
            merge: Merge::Tools,
        })
    );
    assert_eq!(
        r.routes_to_load(&complete),
        Some(Plan::Chosen {
            targets: both(),
            request: ClientRequest::ListPromptsRequest(Json::Null),
            merge: Merge::Prompts,
        })
    );
    assert_eq!(
        r.routes_to_load(&task),
        Some(Plan::Chosen {
            targets: both(),
            request: ClientRequest::ListTasksRequest(Json::Null),
            merge: Merge::Tasks,
        })
    );
    assert_eq!(r.routes_to_load(&read), None);
    assert_eq!(r.routes_to_load(&ClientRequest::PingRequest), None);
    let _ = r.merge_tools(vec![tools("a", &["echo"])], &vec![]);
    assert_eq!(r.routes_to_load(&call), None);
}

#[test]
fn messages_of_chosen_upstreams_stay_and_others_are_mapped() {
    let all = Plan::All { request: ClientRequest::PingRequest, merge: Merge::Empty };
    let chosen = Plan::Chosen {
        targets: vec![],
        request: ClientRequest::ListToolsRequest(Json::Null),
        merge: Merge::Tools,
    };
    assert_eq!(all.outbound_map(), OutboundMap::All);
    assert_eq!(chosen.outbound_map(), OutboundMap::Chosen);
    let updated = |uri: &str| {
        ServerJsonRpcMessage::Notification(ServerNotification::ResourceUpdatedNotification {
            uri: uri.to_string(),
        })
    };
    let mut r = relay(vec![("a", None), ("b", None)]);
    let mut message = updated("memo://x");
    map_outbound_inner(&mut r, chosen.outbound_map(), "b", &mut message);
    assert_eq!(message, updated("memo://x"));
    map_outbound_inner(&mut r, all.outbound_map(), "b", &mut message);
    assert_eq!(message, updated("b+memo://x"));
}

#[test]
fn what_is_listed_is_reached_under_its_visible_name() {
    let rules = McpRewritePolicy {
        tools: rename("echo", "echo_demo"),
        prompts: rename("p", "p_demo"),
        ..Default::default()
    };
    let mut r = relay(vec![("a", Some(rules)), ("b", None)]);
    let listed = r.merge_tools(vec![tools("a", &["echo", "sum"]), tools("b", &["echo"])], &vec![]);
    let names = tool_names(listed);
    assert_eq!(names, vec!["a_echo_demo", "a_sum", "b_echo"]);
    let reached: Vec<(String, String)> =
        names.iter().map(|n| r.resolve_tool_call(n).unwrap()).collect();
    let pair = |t: &str, n: &str| (t.to_string(), n.to_string());
    assert_eq!(reached, vec![pair("a", "echo"), pair("a", "sum"), pair("b", "echo")]);
    assert_eq!(r.resolve_prompt_call("a_p_demo").unwrap(), pair("a", "p"));

    let uris = ["memo://insights", "ui://x/app.html"];
    let resources = uris.iter().map(|u| resource(u, "n")).collect();
    let listed =
        r.merge_resources(vec![("b".to_string(), ServerResult::ListResourcesResult(resources))], &vec![]);
    for (listed, uri) in listed_resources(listed).iter().zip(uris) {
        assert_eq!(r.parse_resource_uri(&listed.uri).unwrap(), pair("b", uri));
    }
}

#[test]
fn of_equal_given_names_the_last_leads_back() {
    let mut rules = rename("echo", "same");
    rules.extend(rename("sum", "same"));
    let r = relay(vec![
        ("a", Some(McpRewritePolicy { tools: rules, ..Default::default() })),
        ("b", None),
    ]);
    assert_eq!(r.resolve_tool_call("a_same").unwrap(), ("a".to_string(), "sum".to_string()));
}
