//! Routing of resource URIs, tool metadata and the capabilities of targets.

use agentgateway_mcp::json::Json;
use agentgateway_mcp::mcp_apps::capabilities::{TargetCapabilities, gateway_merged_capabilities};
use agentgateway_mcp::mcp_apps::percent::UrlParts;
use agentgateway_mcp::mcp_apps::routing::{
    apply_multiplex_to_listed_resource, parse_resource_uri_mixed, parse_task_id,
    rewrap_call_tool_result_content, rewrap_outbound_multiplex_server_message,
    rewrap_read_resource_contents, rewrite_tool_ui_meta, ui_target_of_url,
    wrap_resource_template_uri_mixed, wrap_resource_uri_mixed,
};
use agentgateway_mcp::model::{
    Content, PromptsCapability, Resource, ResourceContents, ServerCapabilities,
    ServerJsonRpcMessage, ServerNotification, ServerResult, Task, ToolsCapability,
};
use agentgateway_mcp::multiplex_naming::{
    parse_resource_name, resource_name, rewrap_outbound_multiplex_task_message,
    rewrap_server_result_task_ids,
};
use agentgateway_mcp::upstream::UpstreamError;

fn s(text: &str) -> Json {
    Json::Str(text.to_string())
}

fn object(members: Vec<(&str, Json)>) -> Vec<(String, Json)> {
    members.into_iter().map(|(k, v)| (k.to_string(), v)).collect()
}

fn member<'a>(members: &'a [(String, Json)], key: &str) -> Option<&'a Json> {
    members.iter().find(|(k, _)| k == key).map(|(_, v)| v)
}

fn text<'a>(value: &'a Json) -> &'a str {
    match value {
        Json::Str(t) => t.as_str(),
        other => panic!("expected a string, got {other:?}"),
    }
}

fn nested<'a>(members: &'a [(String, Json)], key: &str) -> &'a [(String, Json)] {
    match member(members, key) {
        Some(Json::Object(m)) => m.as_slice(),
        other => panic!("expected an object, got {other:?}"),
    }
}

fn text_contents(uri: &str, body: &str) -> ResourceContents {
    ResourceContents::TextResourceContents {
        uri: uri.to_string(),
        rest: Json::Object(object(vec![("text", s(body))])),
    }
}

fn embedded(resource: ResourceContents) -> Content {
    Content::Resource { resource, rest: Json::Null }
}

fn embedded_uri(content: &Content) -> &str {
    match content {
        Content::Resource {
            resource: ResourceContents::TextResourceContents { uri, .. },
            ..
        } => uri.as_str(),
        other => panic!("expected embedded text resource, got {other:?}"),
    }
}

fn capabilities(tools: bool, prompts: bool) -> ServerCapabilities {
    ServerCapabilities {
        tools: if tools { Some(ToolsCapability { list_changed: None }) } else { None },
        prompts: if prompts { Some(PromptsCapability { list_changed: None }) } else { None },
        resources: None,
        tasks: None,
    }
}

fn updated(uri: &str) -> ServerJsonRpcMessage {
    ServerJsonRpcMessage::Notification(ServerNotification::ResourceUpdatedNotification {
        uri: uri.to_string(),
    })
}

fn updated_uri(msg: &ServerJsonRpcMessage) -> &str {
    match msg {
        ServerJsonRpcMessage::Notification(
            ServerNotification::ResourceUpdatedNotification { uri },
        ) => uri.as_str(),
        other => panic!("expected resource updated notification, got {other:?}"),
    }
}

fn task_status(id: &str) -> ServerJsonRpcMessage {
    ServerJsonRpcMessage::Notification(ServerNotification::CustomNotification {
        method: "notifications/tasks/status".to_string(),
        params: Some(Json::Object(object(vec![("taskId", s(id)), ("status", s("working"))]))),
    })
}

fn task_status_id(msg: &ServerJsonRpcMessage) -> &str {
    match msg {
        ServerJsonRpcMessage::Notification(ServerNotification::CustomNotification {
            method,
            params: Some(Json::Object(m)),
        }) => {
            assert_eq!(method, "notifications/tasks/status");
            text(member(m, "taskId").expect("taskId"))
        },
        other => panic!("expected custom notification, got {other:?}"),
    }
}

#[test]
fn wrap_unwrap_ui_resource_uri_roundtrip() {
    let wrapped = wrap_resource_uri_mixed(None, "mcp-server-map", "ui://cesium-map/mcp-app.html");
    assert!(
        wrapped.starts_with("ui://"),
        "MCP Apps wrapped URIs must use ui scheme: {wrapped}"
    );
    let (target, uri) = parse_resource_uri_mixed(None, &wrapped).unwrap();
    assert_eq!(target, "mcp-server-map");
    assert_eq!(uri, "ui://cesium-map/mcp-app.html");
}

#[test]
fn wrap_unwrap_plus_scheme_roundtrip() {
    let wrapped = wrap_resource_uri_mixed(None, "my-target", "https://example.com/file.txt");
    assert!(wrapped.contains('+'), "expected target+scheme form: {wrapped}");
    let (target, uri) = parse_resource_uri_mixed(None, &wrapped).unwrap();
    assert_eq!(target, "my-target");
    assert_eq!(uri, "https://example.com/file.txt");
}

#[test]
fn wrap_unwrap_resource_uri_roundtrip_template() {
    let wrapped = wrap_resource_uri_mixed(None, "t", "https://example.com/files/{filename}");
    let (_, uri) = parse_resource_uri_mixed(None, &wrapped).unwrap();
    assert_eq!(uri, "https://example.com/files/{filename}");
}

#[test]
fn wrap_resource_template_uri_preserves_expressions() {
    let wrapped = wrap_resource_template_uri_mixed(None, "svc1", "file:///{path}");
    assert!(
        wrapped.contains("{path}"),
        "template expression must remain literal: {wrapped}"
    );
    assert!(
        wrapped.starts_with("svc1+"),
        "expected plus-scheme multiplex: {wrapped}"
    );
}

#[test]
fn wrap_resource_template_uri_expanded_then_parse_plus() {
    let template = wrap_resource_template_uri_mixed(None, "svc1", "file:///{path}");
    let expanded = template.replace("{path}", "README.md");
    let (target, uri) = parse_resource_uri_mixed(None, &expanded).unwrap();
    assert_eq!(target, "svc1");
    assert_eq!(uri, "file:///README.md");
}

#[test]
fn wrap_resource_template_uri_ui_scheme() {
    let template = wrap_resource_template_uri_mixed(None, "svc1", "ui://x/{path}");
    assert!(
        template.starts_with("ui://"),
        "MCP Apps template wrap must preserve ui scheme: {template}"
    );
    assert!(
        template.contains("{path}"),
        "expression must remain literal: {template}"
    );
    let expanded = template.replace("{path}", "mcp-app.html");
    let (target, uri) = parse_resource_uri_mixed(None, &expanded).unwrap();
    assert_eq!(target, "svc1");
    assert_eq!(uri, "ui://x/mcp-app.html");
}

#[test]
fn wrap_resource_template_uri_single_backend_passthrough() {
    let default = Some("only".to_string());
    let result = wrap_resource_template_uri_mixed(default.as_ref(), "only", "file:///{path}");
    assert_eq!(result, "file:///{path}");
}

#[test]
fn resource_name_single_backend_passthrough() {
    let default = Some("only".to_string());
    let out = resource_name(default.as_ref(), "only", "mytool");
    assert_eq!(out, "mytool");
}

#[test]
fn resource_name_multiplex_prefixes() {
    let out = resource_name(None, "svc1", "mytool");
    assert_eq!(out, "svc1_mytool");
}

#[test]
fn parse_resource_name_single_backend() {
    let default = Some("only".to_string());
    let (t, n) = parse_resource_name(default.as_ref(), "mytool").unwrap();
    assert_eq!(t, "only");
    assert_eq!(n, "mytool");
}

#[test]
fn parse_resource_name_multiplex() {
    let (t, n) = parse_resource_name(None, "svc1_mytool").unwrap();
    assert_eq!(t, "svc1");
    assert_eq!(n, "mytool");
}

#[test]
fn parse_task_id_multiplex() {
    let (t, id) = parse_task_id(None, "svc1_task-123").unwrap();
    assert_eq!(t, "svc1");
    assert_eq!(id, "task-123");
}

#[test]
fn capability_cache_store_and_query() {
    let mut caps = TargetCapabilities::new();
    caps.store("a", capabilities(true, true));

    let all = vec!["a".to_string(), "b".to_string(), "c".to_string()];
    let with_tools = caps.upstreams_with_tools(&all);
    assert!(with_tools.contains(&"a".to_string()));
    assert!(with_tools.contains(&"b".to_string()));
    assert!(with_tools.contains(&"c".to_string()));
}

#[test]
fn capability_cache_filters_uncached_fail_open() {
    let mut caps = TargetCapabilities::new();
    caps.store("a", capabilities(true, false));
    caps.store("b", capabilities(false, false));

    let all = vec!["a".to_string(), "b".to_string()];
    let with_tools = caps.upstreams_with_tools(&all);
    assert!(with_tools.contains(&"a".to_string()));
    assert!(!with_tools.contains(&"b".to_string()));
}

#[test]
fn rewrite_tool_ui_meta_modern_form() {
    let meta = object(vec![(
        "ui",
        Json::Object(object(vec![("resourceUri", s("ui://x/app.html"))])),
    )]);
    let mut opt = Some(meta);
    rewrite_tool_ui_meta(None, "my-target", &mut opt);
    let out = opt.unwrap();
    let ui = nested(&out, "ui");
    let uri = text(member(ui, "resourceUri").unwrap());
    let expected = wrap_resource_uri_mixed(None, "my-target", "ui://x/app.html");
    assert!(expected.starts_with("ui://"));
    assert_eq!(uri, expected);
}

#[test]
fn rewrite_tool_ui_meta_single_backend_noop() {
    let default = Some("only".to_string());
    let meta = object(vec![
        ("ui", Json::Object(object(vec![("resourceUri", s("ui://z/a"))]))),
        ("ui/resourceUri", s("ui://z/a")),
    ]);
    let mut opt = Some(meta);
    rewrite_tool_ui_meta(default.as_ref(), "only", &mut opt);
    let out = opt.unwrap();
    let uri = text(member(nested(&out, "ui"), "resourceUri").unwrap());
    assert_eq!(uri, "ui://z/a");
    let leg = text(member(&out, "ui/resourceUri").unwrap());
    assert_eq!(leg, "ui://z/a");
}

#[test]
fn rewrite_tool_ui_meta_wraps_legacy_flat_key() {
    let meta = object(vec![("ui/resourceUri", s("ui://app/page.html"))]);
    let mut opt = Some(meta);
    rewrite_tool_ui_meta(None, "a", &mut opt);
    let out = opt.unwrap();
    let leg = text(member(&out, "ui/resourceUri").expect("legacy key must remain string"));
    assert!(
        leg.starts_with("ui://"),
        "federated URI keeps ui scheme; got {leg}"
    );
    let (target, original) =
        parse_resource_uri_mixed(None, leg).expect("legacy key must multiplex-parse");
    assert_eq!(target, "a");
    assert_eq!(original, "ui://app/page.html");
}

#[test]
fn rewrite_tool_ui_meta_wraps_both_keys_when_present() {
    let meta = object(vec![
        ("ui", Json::Object(object(vec![("resourceUri", s("ui://x/app.html"))]))),
        ("ui/resourceUri", s("ui://x/app.html")),
    ]);
    let mut opt = Some(meta);
    rewrite_tool_ui_meta(None, "svc1", &mut opt);
    let out = opt.unwrap();
    let inner = text(member(nested(&out, "ui"), "resourceUri").unwrap());
    let flat = text(member(&out, "ui/resourceUri").unwrap());
    let expected = wrap_resource_uri_mixed(None, "svc1", "ui://x/app.html");
    assert_eq!(inner, expected);
    assert_eq!(flat, expected);
    assert_eq!(inner, flat);
}

#[test]
fn rewrite_tool_ui_meta_legacy_non_ui_scheme_noop() {
    let meta = object(vec![("ui/resourceUri", s("https://example.com/widget"))]);
    let mut opt = Some(meta);
    rewrite_tool_ui_meta(None, "svc1", &mut opt);
    assert_eq!(
        text(member(&opt.unwrap(), "ui/resourceUri").unwrap()),
        "https://example.com/widget"
    );
}

#[test]
fn gateway_capabilities_advertise_tasks_with_list_and_cancel_when_adobe() {
    let caps = gateway_merged_capabilities(true, false);
    let tasks = caps.tasks.as_ref().expect("the gateway must advertise tasks");
    assert!(tasks.list, "MCP Inspector expects tasks.list; got {:?}", caps.tasks);
    assert!(tasks.cancel);
    assert!(
        tasks.requests_tools_call,
        "MCP Inspector expects tasks.requests.tools.call"
    );
}

#[test]
fn rewrap_read_resource_contents_text_and_blob() {
    let ui_a = "ui://a/app.html";
    let ui_b = "ui://c/other";
    let tgt = "mcp-server-map";
    let mut contents = vec![
        text_contents(ui_a, "hello"),
        ResourceContents::BlobResourceContents {
            uri: ui_b.to_string(),
            rest: Json::Object(object(vec![("blob", s("Ym9keQ=="))])),
        },
    ];
    let want_a = wrap_resource_uri_mixed(None, tgt, ui_a);
    let want_b = wrap_resource_uri_mixed(None, tgt, ui_b);
    assert!(want_a.starts_with("ui://"), "rewrapped UI resource A: {want_a}");
    assert!(want_b.starts_with("ui://"), "rewrapped UI resource B: {want_b}");
    rewrap_read_resource_contents(None, tgt, &mut contents);
    match &contents[0] {
        ResourceContents::TextResourceContents { uri, rest } => {
            assert_eq!(uri, &want_a);
            assert_eq!(rest, &Json::Object(object(vec![("text", s("hello"))])));
        },
        _ => panic!("expected text contents"),
    }
    match &contents[1] {
        ResourceContents::BlobResourceContents { uri, rest } => {
            assert_eq!(uri, &want_b);
            assert_eq!(rest, &Json::Object(object(vec![("blob", s("Ym9keQ=="))])));
        },
        _ => panic!("expected blob contents"),
    }
}

#[test]
fn rewrap_read_resource_contents_single_backend_noop() {
    let default = Some("only".to_string());
    let mut contents = vec![text_contents("file:///a", "x")];
    rewrap_read_resource_contents(default.as_ref(), "only", &mut contents);
    match &contents[0] {
        ResourceContents::TextResourceContents { uri, .. } => assert_eq!(uri, "file:///a"),
        _ => panic!("expected text contents"),
    }
}

#[test]
fn rewrap_resource_updated_notification_multiplexes_uri() {
    let mut msg = updated("https://example.com/r");
    rewrap_outbound_multiplex_server_message(None, "svc1", &mut msg);
    let uri = updated_uri(&msg);
    assert!(
        uri.contains("svc1+https://") || uri.starts_with("ui://"),
        "unexpected federated uri: {uri}"
    );
}

#[test]
fn rewrap_task_status_notification_multiplexes_task_id() {
    let mut msg = task_status("job-42");
    rewrap_outbound_multiplex_task_message(None, false, "svc1", &mut msg);
    assert_eq!(task_status_id(&msg), "svc1_job-42");
}

#[test]
fn rewrap_server_result_get_task_multiplexes_task_id() {
    let mut result = ServerResult::GetTaskResult {
        task: Task { task_id: "job-7".to_string(), rest: Json::Null },
        rest: Json::Null,
    };
    rewrap_server_result_task_ids(None, false, "airbnb", &mut result);
    match result {
        ServerResult::GetTaskResult { task, .. } => assert_eq!(task.task_id, "airbnb_job-7"),
        other => panic!("expected GetTaskResult, got {other:?}"),
    }
}

#[test]
fn rewrap_task_status_notification_flat_mode_keeps_bare_id() {
    let mut msg = task_status("job-42");
    rewrap_outbound_multiplex_task_message(None, true, "svc1", &mut msg);
    assert_eq!(task_status_id(&msg), "job-42");
}

#[test]
fn parse_resource_uri_mixed_single_backend_passthrough() {
    let default = Some("only".to_string());
    let (t, u) = parse_resource_uri_mixed(default.as_ref(), "anything://x/y").unwrap();
    assert_eq!(t, "only");
    assert_eq!(u, "anything://x/y");
}

#[test]
fn parse_task_id_single_backend_passthrough() {
    let default = Some("only".to_string());
    let (t, id) = parse_task_id(default.as_ref(), "task-123").unwrap();
    assert_eq!(t, "only");
    assert_eq!(id, "task-123");
}

#[test]
fn parse_resource_uri_mixed_ui_non_url_returns_error() {
    let err = parse_resource_uri_mixed(None, "ui://[/").unwrap_err();
    let message = err.to_string();
    assert!(
        message.contains("invalid multiplex URI"),
        "expected URL parse failure: {err:?}"
    );
}

#[test]
fn parse_resource_uri_mixed_ui_missing_query_returns_error() {
    let err = parse_resource_uri_mixed(None, "ui://enc/").unwrap_err();
    let message = err.to_string();
    assert!(
        message.contains("missing") && message.contains("u"),
        "expected missing u= query: {err:?}"
    );
}

#[test]
fn parse_resource_uri_mixed_plus_missing_separator_returns_error() {
    match parse_resource_uri_mixed(None, "no-plus-here").unwrap_err() {
        UpstreamError::InvalidRequest(m) => {
            assert!(m.contains("missing target"), "{m}");
        },
        e => panic!("unexpected {e:?}"),
    }
}

#[test]
fn parse_resource_uri_mixed_plus_missing_scheme_returns_error() {
    match parse_resource_uri_mixed(None, "svc1+notascheme").unwrap_err() {
        UpstreamError::InvalidRequest(m) => assert!(m.contains("missing scheme"), "{m}"),
        e => panic!("unexpected {e:?}"),
    }
}

#[test]
fn parse_resource_uri_mixed_ui_missing_host_returns_error() {
    match parse_resource_uri_mixed(None, "ui:///?u=test").unwrap_err() {
        UpstreamError::InvalidRequest(m) => {
            assert!(m.contains("no host"), "expected missing-host error, got {m:?}");
        },
        e => panic!("unexpected {e:?}"),
    }
}

#[test]
fn wrap_resource_template_uri_mixed_no_scheme_passthrough() {
    let tmpl = "just/a/path/{x}";
    let out = wrap_resource_template_uri_mixed(None, "svc", tmpl);
    assert_eq!(out, tmpl);
}

#[test]
fn wrap_resource_template_uri_mixed_templated_scheme_passthrough() {
    let tmpl = "{scheme}://x/y";
    let out = wrap_resource_template_uri_mixed(None, "svc", tmpl);
    assert_eq!(out, tmpl);
}

#[test]
fn wrap_resource_template_uri_mixed_templated_scheme_segment_passthrough() {
    let tmpl = "htt{x}p://x/y";
    let out = wrap_resource_template_uri_mixed(None, "svc", tmpl);
    assert_eq!(out, tmpl);
}

#[test]
fn rewrap_outbound_multiplex_server_message_single_backend_noop() {
    let uri = "https://example.com/r";
    let default = Some("only".to_string());
    let mut msg = updated(uri);
    rewrap_outbound_multiplex_server_message(default.as_ref(), "upstream", &mut msg);
    assert_eq!(updated_uri(&msg), uri);
}

#[test]
fn rewrap_outbound_multiplex_server_message_non_resource_updated_noop() {
    let logged = || {
        ServerJsonRpcMessage::Notification(ServerNotification::Other(Json::Object(object(vec![
            ("level", s("info")),
            ("data", s("x")),
        ]))))
    };
    let mut msg = logged();
    rewrap_outbound_multiplex_server_message(None, "svc1", &mut msg);
    assert_eq!(msg, logged());
}

#[test]
fn rewrite_tool_ui_meta_none_meta_noop() {
    let mut opt: Option<Vec<(String, Json)>> = None;
    rewrite_tool_ui_meta(None, "t", &mut opt);
    assert!(opt.is_none());
}

#[test]
fn rewrite_tool_ui_meta_ui_non_object_noop() {
    let meta = object(vec![("ui", s("not-an-object"))]);
    let mut opt = Some(meta);
    rewrite_tool_ui_meta(None, "svc1", &mut opt);
    let out = opt.unwrap();
    let ui = member(&out, "ui").expect("ui key");
    assert_eq!(text(ui), "not-an-object");
    assert!(member(&out, "resourceUri").is_none());
    assert!(member(&out, "ui/resourceUri").is_none());
}

#[test]
fn rewrite_tool_ui_meta_resource_uri_non_string_noop() {
    let meta = object(vec![(
        "ui",
        Json::Object(object(vec![("resourceUri", Json::Number("42".to_string()))])),
    )]);
    let mut opt = Some(meta);
    rewrite_tool_ui_meta(None, "svc1", &mut opt);
    let out = opt.unwrap();
    let r = member(nested(&out, "ui"), "resourceUri").expect("resourceUri");
    assert_eq!(r, &Json::Number("42".to_string()));
}

#[test]
fn rewrap_call_tool_result_content_ui_embedded_resource() {
    let mut content = vec![embedded(text_contents("ui://basic/app", ""))];
    rewrap_call_tool_result_content(None, "mcp-server-a2ui", &mut content);
    let uri = embedded_uri(&content[0]);
    assert!(uri.starts_with("ui://"), "expected ui scheme: {uri}");
    assert!(uri.contains("u="), "expected multiplex query: {uri}");
    let (target, original) = parse_resource_uri_mixed(None, uri).unwrap();
    assert_eq!(target, "mcp-server-a2ui");
    assert_eq!(original, "ui://basic/app");
}

#[test]
fn rewrap_call_tool_result_content_a2ui_plus_scheme() {
    let mut content = vec![embedded(text_contents("a2ui://ping-result", "[]"))];
    rewrap_call_tool_result_content(None, "mcp-server-a2ui", &mut content);
    let uri = embedded_uri(&content[0]);
    assert!(
        uri.starts_with("mcp-server-a2ui+a2ui://"),
        "expected plus-scheme multiplex: {uri}"
    );
}

#[test]
fn rewrap_call_tool_result_content_single_backend_noop() {
    let default = Some("only".to_string());
    let mut content = vec![embedded(text_contents("ui://basic/app", ""))];
    rewrap_call_tool_result_content(default.as_ref(), "only", &mut content);
    assert_eq!(embedded_uri(&content[0]), "ui://basic/app");
}

#[test]
fn rewrap_call_tool_result_content_skips_non_resource_blocks() {
    let mut content = vec![
        Content::Text { text: "hello".to_string(), rest: Json::Null },
        embedded(text_contents("ui://x", "body")),
    ];
    rewrap_call_tool_result_content(None, "svc1", &mut content);
    assert_eq!(content[0], Content::Text { text: "hello".to_string(), rest: Json::Null });
    let uri = embedded_uri(&content[1]);
    assert!(uri.starts_with("ui://") && uri.contains("u="));
}

#[test]
fn ui_wrap_escapes_the_uri_and_keeps_the_target_as_host() {
    assert_eq!(
        wrap_resource_uri_mixed(None, "t", "ui://a b"),
        "ui://t/?u=ui%3A%2F%2Fa%20b"
    );
}

#[test]
fn ui_wrap_escapes_each_byte_of_a_wide_character() {
    let wrapped = wrap_resource_uri_mixed(None, "t", "ui://x/€");
    assert!(wrapped.ends_with("%E2%82%AC"), "{wrapped}");
    let (target, uri) = parse_resource_uri_mixed(None, &wrapped).unwrap();
    assert_eq!((target.as_str(), uri.as_str()), ("t", "ui://x/€"));
}

#[test]
fn parsed_url_parts_give_target_and_uri() {
    let parts = UrlParts {
        scheme: "ui".to_string(),
        host: Some("svc".to_string()),
        query: vec![("u".to_string(), "ui://x/a%20b".to_string())],
    };
    let (target, uri) = ui_target_of_url(Ok(parts)).unwrap();
    assert_eq!(target, "svc");
    assert_eq!(uri, "ui://x/a%20b");
}

#[test]
fn escapes_in_a_ui_uri_come_back() {
    for uri in ["ui://x/a%20b.html", "ui://x/%41", "ui://x/100%", "ui://x/%FF", "ui://x/a+b?u=c"] {
        let wrapped = wrap_resource_uri_mixed(None, "svc1", uri);
        let resolved = parse_resource_uri_mixed(None, &wrapped).unwrap();
        assert_eq!(resolved, ("svc1".to_string(), uri.to_string()));
    }
}

#[test]
fn unparsed_url_is_an_invalid_multiplex_uri() {
    match ui_target_of_url(Err("bad host".to_string())).unwrap_err() {
        UpstreamError::InvalidRequest(m) => assert!(m.contains("bad host"), "{m}"),
        e => panic!("unexpected {e:?}"),
    }
}

#[test]
fn listed_resource_is_named_for_its_target_unless_flat() {
    let make = || Resource {
        uri: "memo://a/1".to_string(),
        name: "memo".to_string(),
        description: None,
        rest: Json::Null,
    };
    let prefixed = apply_multiplex_to_listed_resource(None, "alpha", make(), false);
    assert_eq!(prefixed.name, "alpha_memo");
    assert_eq!(prefixed.uri, "alpha+memo://a/1");
    let flat = apply_multiplex_to_listed_resource(None, "alpha", make(), true);
    assert_eq!(flat.name, "memo");
    assert_eq!(flat.uri, "alpha+memo://a/1");
}
