//! How items of the upstream servers are presented to clients.

use agentgateway_mcp::json::Json;
use agentgateway_mcp::model::Tool;
use agentgateway_mcp::rewrite::config::{
    Diagnostics, MatchConfig, MatchKind, McpRewriteConfig, RewriteConfig, RuleConfig,
    ServerRewriteConfig, compile_checked_rule, compile_item_rule, mcp_rewrite_from_proto,
};
use agentgateway_mcp::rewrite::{
    CompiledItemRule, CompiledServerRewrite, ItemMatcher, McpRewritePolicy, McpRewriteSet,
    ResourceNaming, RewriteValue, UpstreamInstructionsMode, apply_tool_rewrite,
    build_flat_prompt_route_index, build_flat_task_route_index, build_flat_tool_route_index, filter_flat_tool_collisions,
};

fn exact_rule(upstream: &str, exposed: &str) -> CompiledItemRule {
    CompiledItemRule {
        rule_name: "r".into(),
        matcher: ItemMatcher::Exact(upstream.into()),
        rewrite: RewriteValue { name: Some(exposed.into()), ..Default::default() },
    }
}

fn test_tool(name: &str) -> Tool {
    Tool {
        name: name.to_string(),
        description: Some(String::new()),
        meta: None,
        rest: Json::Null,
    }
}

fn flat_server() -> McpRewritePolicy {
    McpRewritePolicy {
        server: Some(CompiledServerRewrite {
            resource_naming: ResourceNaming::Flat,
            ..Default::default()
        }),
        ..Default::default()
    }
}

fn entry(target: &str, upstream: &str, exposed: &str) -> (String, String, String) {
    (target.to_string(), upstream.to_string(), exposed.to_string())
}

fn route(target: &str, upstream: &str) -> (String, String) {
    (target.to_string(), upstream.to_string())
}

fn rule(name: &str, kind: Option<MatchKind>) -> RuleConfig {
    RuleConfig {
        name: name.to_string(),
        matcher: Some(MatchConfig { kind }),
        rewrite: Some(RewriteConfig {
            name: Some("renamed".to_string()),
            description: None,
            meta: vec![],
            remove_meta: vec![],
        }),
    }
}

#[test]
fn apply_tool_rewrite_renames() {
    let mut tool = test_tool("get_font_recommendations");
    apply_tool_rewrite(
        &mut tool,
        &vec![exact_rule("get_font_recommendations", "font_recommend")],
    );
    assert_eq!(tool.name, "font_recommend");
}

#[test]
fn apply_tool_rewrite_description() {
    let mut tool = test_tool("x");
    let rules = vec![CompiledItemRule {
        rule_name: "d".into(),
        matcher: ItemMatcher::Exact("x".into()),
        rewrite: RewriteValue { description: Some("new desc".into()), ..Default::default() },
    }];
    apply_tool_rewrite(&mut tool, &rules);
    assert_eq!(tool.description.as_deref(), Some("new desc"));
}

#[test]
fn apply_tool_rewrite_meta_merge() {
    let mut tool = test_tool("x");
    tool.meta = Some(vec![("keep".to_string(), Json::Number("1".to_string()))]);
    let rules = vec![CompiledItemRule {
        rule_name: "m".into(),
        matcher: ItemMatcher::Exact("x".into()),
        rewrite: RewriteValue {
            meta: Some(vec![(
                "adobeFeatureFlag".to_string(),
                Json::Str("tool.x".to_string()),
            )]),
            remove_meta: vec!["drop".into()],
            ..Default::default()
        },
    }];
    apply_tool_rewrite(&mut tool, &rules);
    let meta = tool.meta.unwrap();
    let get = |key: &str| meta.iter().find(|(k, _)| k == key).map(|(_, v)| v);
    assert_eq!(get("keep"), Some(&Json::Number("1".to_string())));
    assert_eq!(get("adobeFeatureFlag"), Some(&Json::Str("tool.x".to_string())));
    assert!(get("drop").is_none());
}

#[test]
fn merge_for_target_per_target_rules_first() {
    let fed = McpRewritePolicy { tools: vec![exact_rule("a", "fed_a")], ..Default::default() };
    let target = McpRewritePolicy { tools: vec![exact_rule("a", "tgt_a")], ..Default::default() };
    let merged = McpRewriteSet::merge_for_target(Some(&fed), Some(&target));
    let compiled = merged.compile_target();
    let mut tool = test_tool("a");
    apply_tool_rewrite(&mut tool, compiled.tool_rules());
    assert_eq!(tool.name, "tgt_a");
}

#[test]
fn resolve_upstream_tool_reverse_map() {
    let policy = McpRewritePolicy {
        tools: vec![exact_rule("get_font_recommendations", "font_recommend")],
        ..Default::default()
    };
    let t = policy.compile_target();
    assert_eq!(
        t.resolve_upstream_tool("font_recommend"),
        "get_font_recommendations".to_string()
    );
    assert_eq!(t.resolve_upstream_tool("other"), "other".to_string());
}

#[test]
fn build_flat_task_route_index_matches_collision_filter() {
    let index = build_flat_task_route_index(vec![
        entry("a", "job-1", "job-1"),
        entry("b", "job-1", "job-1"),
        entry("c", "job-9", "job-9"),
    ]);
    assert_eq!(index.get("job-1"), Some(&route("a", "job-1")));
    assert_eq!(index.get("job-9"), Some(&route("c", "job-9")));
}

#[test]
fn resolve_flat_task_uses_route_index() {
    let routes = build_flat_task_route_index(vec![entry("a", "job-42", "job-42")]);
    let set = McpRewriteSet::from_backend_targets(vec![("b".to_string(), Some(flat_server()))]);
    let (target, upstream) = set
        .resolve_flat_task("job-42", Some(&routes), &vec!["b".to_string()])
        .unwrap();
    assert_eq!(target, "a");
    assert_eq!(upstream, "job-42");
}

#[test]
fn build_flat_tool_route_index_matches_collision_filter() {
    // First-wins: matches what `filter_flat_tool_collisions` keeps in the
    // user-visible list. The first target's mapping for a colliding name
    // stays so the client can still call what it sees in `tools/list`.
    let index = build_flat_tool_route_index(vec![
        entry("a", "search", "search"),
        entry("b", "search", "search"),
        entry("c", "unique", "unique"),
    ]);
    assert_eq!(index.get("search"), Some(&route("a", "search")));
    assert_eq!(index.get("unique"), Some(&route("c", "unique")));
}

#[test]
fn resolve_flat_tool_uses_route_index() {
    let routes = build_flat_tool_route_index(vec![entry(
        "mcp-server-threejs",
        "show_threejs_scene",
        "show_threejs_scene",
    )]);
    let mut everything = flat_server();
    everything.tools = vec![exact_rule("echo", "echo_demo")];
    let set = McpRewriteSet::from_backend_targets(vec![(
        "mcp-server-everything".to_string(),
        Some(everything),
    )]);
    let (target, upstream) = set
        .resolve_flat_tool("show_threejs_scene", Some(&routes), &vec![])
        .unwrap();
    assert_eq!(target, "mcp-server-threejs");
    assert_eq!(upstream, "show_threejs_scene");
    let (target, upstream) = set
        .resolve_flat_tool(
            "echo_demo",
            Some(&routes),
            &vec!["mcp-server-everything".to_string()],
        )
        .unwrap();
    assert_eq!(target, "mcp-server-everything");
    assert_eq!(upstream, "echo");
}

#[test]
fn filter_flat_tool_collisions_omits_duplicate() {
    let tools = vec![test_tool("search"), test_tool("search"), test_tool("unique")];
    let out = filter_flat_tool_collisions(tools);
    assert_eq!(out.len(), 2);
    assert_eq!(out[0].name, "search");
    assert_eq!(out[1].name, "unique");
}

#[test]
fn pattern_rules_match_by_regular_expression() {
    let rules = vec![CompiledItemRule {
        rule_name: "p".into(),
        matcher: ItemMatcher::Pattern("^get_.*s$".into()),
        rewrite: RewriteValue { description: Some("list".into()), ..Default::default() },
    }];
    let mut hit = test_tool("get_fonts");
    apply_tool_rewrite(&mut hit, &rules);
    assert_eq!(hit.description.as_deref(), Some("list"));
    let mut miss = test_tool("get_font");
    apply_tool_rewrite(&mut miss, &rules);
    assert_eq!(miss.description.as_deref(), Some(""));
}

#[test]
fn a_rule_with_a_broken_pattern_is_dropped_with_a_warning() {
    let mut diagnostics = Diagnostics::default();
    let broken = rule("broken", Some(MatchKind::NamePattern("(".to_string())));
    assert!(compile_item_rule(&broken, "tools", &mut diagnostics).is_none());
    assert_eq!(diagnostics.warnings.len(), 1);
    assert!(diagnostics.warnings[0].contains("broken"), "{:?}", diagnostics.warnings);
    let fine = rule("fine", Some(MatchKind::ExactName("a".to_string())));
    let compiled = compile_item_rule(&fine, "tools", &mut diagnostics).unwrap();
    assert_eq!(compiled.matcher, ItemMatcher::Exact("a".to_string()));
    assert_eq!(diagnostics.warnings.len(), 1);
}

#[test]
fn a_pattern_error_that_is_handed_in_drops_the_rule() {
    let mut diagnostics = Diagnostics::default();
    let pattern = rule("p", Some(MatchKind::NamePattern("a.*".to_string())));
    let error = Some("too long".to_string());
    assert!(compile_checked_rule(&pattern, "tools", error, &mut diagnostics).is_none());
    assert!(diagnostics.warnings[0].contains("too long"), "{:?}", diagnostics.warnings);
    assert!(compile_checked_rule(&pattern, "tools", None, &mut diagnostics).is_some());
}

#[test]
fn configured_rewrites_compile_into_a_policy() {
    let mut diagnostics = Diagnostics::default();
    let policy = mcp_rewrite_from_proto(
        &McpRewriteConfig {
            server: Some(ServerRewriteConfig {
                name: Some("federation".to_string()),
                version: None,
                instructions: None,
                upstream_instructions: None,
                resource_naming: Some(ResourceNaming::Flat),
            }),
            tools: Some(vec![rule("t", Some(MatchKind::ExactName("a".to_string())))]),
            prompts: None,
            resources: None,
        },
        &mut diagnostics,
    );
    let server = policy.server.as_ref().unwrap();
    assert_eq!(server.name.as_deref(), Some("federation"));
    assert_eq!(server.upstream_instructions, UpstreamInstructionsMode::Append);
    assert_eq!(server.resource_naming, ResourceNaming::Flat);
    assert_eq!(policy.tools.len(), 1);
    assert!(diagnostics.warnings.is_empty());
}

#[test]
fn prompt_routes_keep_the_first_target() {
    let index = build_flat_prompt_route_index(vec![
        entry("a", "p", "shown"),
        entry("b", "q", "shown"),
        entry("b", "r", "other"),
    ]);
    assert_eq!(index.get("shown"), Some(&route("a", "p")));
    assert_eq!(index.get("other"), Some(&route("b", "r")));
}

#[test]
fn policies_of_a_list_stand_in_a_row() {
    assert_eq!(McpRewriteSet::concat_policies(vec![]), None);
    let policy = |upstream: &str| McpRewritePolicy {
        tools: vec![exact_rule(upstream, "x")],
        ..Default::default()
    };
    let all = McpRewriteSet::concat_policies(vec![policy("a"), policy("b")]).unwrap();
    assert_eq!(all.tools, vec![exact_rule("a", "x"), exact_rule("b", "x")]);
}

#[test]
fn flat_resources_are_found_by_the_rules_of_their_target() {
    let with_rule = |upstream: &str, exposed: &str| {
        Some(McpRewritePolicy {
            resources: vec![exact_rule(upstream, exposed)],
            ..flat_server()
        })
    };
    let one = McpRewriteSet::from_backend_targets(vec![(
        "a".to_string(),
        with_rule("memo", "notes"),
    )]);
    assert_eq!(one.resolve_flat_resource("notes").unwrap(), route("a", "memo"));
    assert_eq!(one.resolve_flat_resource("other").unwrap(), route("a", "other"));
    // Another target may have a resource of that name as it stands.
    let two = McpRewriteSet::from_backend_targets(vec![
        ("a".to_string(), with_rule("memo", "notes")),
        ("b".to_string(), with_rule("log", "events")),
    ]);
    assert_eq!(
        two.resolve_flat_resource("notes").unwrap_err().to_string(),
        "ambiguous flat resource name: notes"
    );
    let none = McpRewriteSet::from_backend_targets(vec![]);
    assert_eq!(
        none.resolve_flat_resource("notes").unwrap_err().to_string(),
        "unknown flat resource name: notes"
    );
    let rules = one.target("a").unwrap();
    assert_eq!(rules.resolve_upstream_resource_name("notes"), "memo");
    assert_eq!(rules.resolve_upstream_prompt("other"), "other");
}

#[test]
fn a_target_with_rules_passes_no_prompt_through() {
    let rules = McpRewritePolicy { prompts: vec![exact_rule("p", "q")], ..Default::default() };
    let set = McpRewriteSet::from_backend_targets(vec![("a".to_string(), Some(rules))]);
    let only = vec!["a".to_string()];
    assert_eq!(set.resolve_flat_prompt("q", None, &only).unwrap(), route("a", "p"));
    assert_eq!(
        set.resolve_flat_prompt("z", None, &only).unwrap_err().to_string(),
        "unknown flat prompt name: z"
    );
    let both = vec!["a".to_string(), "b".to_string()];
    assert_eq!(set.resolve_flat_prompt("z", None, &both).unwrap(), route("b", "z"));
    assert_eq!(
        set.resolve_flat_prompt("q", None, &both).unwrap_err().to_string(),
        "ambiguous flat prompt name: q"
    );
    let index = build_flat_prompt_route_index(vec![entry("a", "z", "z")]);
    assert_eq!(set.resolve_flat_prompt("z", Some(&index), &only).unwrap(), route("a", "z"));
}
