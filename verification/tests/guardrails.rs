//! Which guardrails run, what comes of them, and what a client is told.

use agentgateway_mcp::client::ClientRequest;
use agentgateway_mcp::guardrails::chain::{
    Chain, apply_guardrails_response_intercept, build_guardrails_ctx, has_request_guardrails,
    run_call_request, run_guardrails_call_request, run_guardrails_fanout, run_response,
    unwritable_params,
};
use agentgateway_mcp::guardrails::denial::{McpDenialEnvelope, Rejection};
use agentgateway_mcp::guardrails::metadata::{
    McpGuardrailsDynamicMetadata, merge_metadata_into_extensions,
    merge_rate_limit_mcp_error_into_extensions, merge_rate_limit_status_into_extensions,
};
use agentgateway_mcp::guardrails::overrides::maybe_override_rejection;
use agentgateway_mcp::guardrails::params::build_mcp_info;
use agentgateway_mcp::guardrails::phase::{Phase, pattern_is_matchable, resolve};
use agentgateway_mcp::guardrails::rate_limit_types::{
    EvaluatedOverride, ProtoResponseAs, RateLimit, RateLimitDescriptor, RateLimitDescriptorEntry,
    RateLimitDescriptorSerde, RateLimitDescriptorSet, RateLimitRejectionOverride,
    RateLimitRejectionOverrideBody, RateLimitRejectionOverrideHeader, RateLimitType,
    RejectionResponseAs, de_rate_limit_descriptors,
};
use agentgateway_mcp::guardrails::ratelimit::{
    AuthCode, AuthorizationError, DescriptorLimitOverride, EvaluatedDescriptor, RequestReply,
    McpRequest, McpResponse, build_mcp_info_from_result, build_metadata, check_request,
    check_response, request_question, response_question,
};
use agentgateway_mcp::guardrails::{
    FailureMode, HeaderFilter, McpGuardrails, Outcome, Processor, ProcessorKind, Remote, Side,
};
use agentgateway_mcp::info::{MCPInfo, MCPTool};
use agentgateway_mcp::json::Json;
use agentgateway_mcp::json_value::parse;
use agentgateway_mcp::model::{
    CallToolResult, Content, ErrorData, RequestId, ServerJsonRpcMessage, ServerResult,
};
use agentgateway_mcp::upstream::UpstreamError;

fn remote(pairs: &[(&str, Phase)]) -> Processor {
    Processor {
        methods: pairs.iter().map(|(k, v)| (k.to_string(), *v)).collect(),
        kind: ProcessorKind::Remote(Remote {
            target: "b".to_string(),
            failure_mode: FailureMode::default(),
            metadata: vec![],
            request_headers: HeaderFilter::default(),
        }),
    }
}

fn ext_with_methods(pairs: &[(&str, Phase)]) -> McpGuardrails {
    McpGuardrails { processors: vec![remote(pairs)] }
}

fn rate_limit(overrides: Vec<RateLimitRejectionOverride>) -> RateLimit {
    RateLimit {
        domain: "mcp".to_string(),
        target: "unused".to_string(),
        failure_mode: FailureMode::FailClosed,
        descriptors: RateLimitDescriptorSet(vec![]),
        rejection_overrides: overrides,
    }
}

fn rate_limit_processor(overrides: Vec<RateLimitRejectionOverride>) -> Processor {
    Processor { methods: vec![], kind: ProcessorKind::RateLimit(rate_limit(overrides)) }
}

fn one_override(
    when: &str,
    response_as: RejectionResponseAs,
    status: Option<u16>,
    body: Option<(Option<i32>, &str)>,
) -> Vec<RateLimitRejectionOverride> {
    vec![RateLimitRejectionOverride {
        when: when.to_string(),
        response_as,
        status,
        body: body.map(|(code, message)| RateLimitRejectionOverrideBody {
            code,
            message: Some(message.to_string()),
        }),
        headers: vec![],
    }]
}

fn evaluated(applies: bool, message: Option<&str>) -> Vec<EvaluatedOverride> {
    vec![EvaluatedOverride { applies, message: message.map(|m| m.to_string()), headers: vec![] }]
}

fn error(code: i32, message: &str, data: Option<Json>) -> ErrorData {
    ErrorData { code, message: message.to_string(), data }
}

fn limited() -> ErrorData {
    error(-32003, "rate limit exceeded", None)
}

fn json_rpc(denial: Rejection) -> ErrorData {
    match denial.envelope {
        McpDenialEnvelope::JsonRpc(error) => error,
        other => panic!("expected JsonRpc envelope, got {other:?}"),
    }
}

fn text(s: &str) -> Json {
    Json::Str(s.to_string())
}

fn object(members: Vec<(&str, Json)>) -> Json {
    Json::Object(members.into_iter().map(|(k, v)| (k.to_string(), v)).collect())
}

#[test]
fn warns_on_request_phase_for_unsupported_methods() {
    // A catchall request phase matches subscribe/unsubscribe/complete, none of
    // which run the request hook.
    let warnings = ext_with_methods(&[("*", Phase::Full)]).load_warnings();
    assert_eq!(warnings.len(), 3, "{warnings:?}");
    assert!(warnings[0].contains("resources/subscribe"));

    // Response-only and supported-method configs are clean.
    assert!(
        ext_with_methods(&[("*", Phase::Response), ("tools/call", Phase::Full)])
            .load_warnings()
            .is_empty()
    );
}

#[test]
fn warns_on_unmatchable_method_patterns() {
    let warnings = ext_with_methods(&[
        ("a*b", Phase::Response),
        ("**", Phase::Response),
        ("", Phase::Response),
        ("tools/*", Phase::Response),
        ("*/list", Phase::Response),
    ])
    .load_warnings();
    assert_eq!(warnings.len(), 3, "{warnings:?}");
    assert!(warnings.iter().all(|w| w.contains("can never match")));
}

#[test]
fn warnings_quote_and_come_in_order() {
    let warnings =
        ext_with_methods(&[("b*b", Phase::Full), ("a\"*b", Phase::Full)]).load_warnings();
    assert_eq!(
        warnings,
        vec![
            "mcpGuardrails: methods key \"a\\\"*b\" can never match; use an exact method, 'prefix/*', '*/suffix', or '*'",
            "mcpGuardrails: methods key \"b*b\" can never match; use an exact method, 'prefix/*', '*/suffix', or '*'",
        ]
    );
    let warnings = ext_with_methods(&[("completion/complete", Phase::Request)]).load_warnings();
    assert_eq!(
        warnings,
        vec![
            "mcpGuardrails: methods match \"completion/complete\" with a request phase, but only the response phase runs for this method"
        ]
    );
}

#[test]
fn rejection_override_status_only_applies_http_overrides() {
    let processor = rate_limit_processor(one_override(
        "true",
        RejectionResponseAs::default(),
        Some(429),
        None,
    ));
    let overridden =
        maybe_override_rejection(&processor, "tools/call", &evaluated(true, None), limited());
    assert_eq!(overridden.http_status, Some(429));
    let error = json_rpc(overridden);
    assert_eq!(error.code, -32003);
    assert_eq!(error.message, "rate limit exceeded");
}

#[test]
fn rejection_override_uses_mcp_context() {
    let processor = rate_limit_processor(one_override(
        r#"mcp.tool.name == "echo_demo""#,
        RejectionResponseAs::default(),
        None,
        Some((Some(-32001), r#""limited: " + mcp.tool.name"#)),
    ));
    let without_mcp =
        maybe_override_rejection(&processor, "tools/call", &evaluated(false, None), limited());
    let error = json_rpc(without_mcp);
    assert_eq!(error.code, -32003);
    assert_eq!(error.message, "rate limit exceeded");

    let with_mcp = maybe_override_rejection(
        &processor,
        "tools/call",
        &evaluated(true, Some("limited: echo_demo")),
        limited(),
    );
    let error = json_rpc(with_mcp);
    assert_eq!(error.code, -32001);
    assert_eq!(error.message, "limited: echo_demo");
}

#[test]
fn rejection_override_tool_result_envelope() {
    let processor = rate_limit_processor(one_override(
        "true",
        RejectionResponseAs::ToolResult,
        None,
        Some((None, r#""quota exceeded""#)),
    ));
    let evals = evaluated(true, Some("quota exceeded"));
    let overridden = maybe_override_rejection(&processor, "tools/call", &evals, limited());
    match overridden.envelope {
        McpDenialEnvelope::ToolResult { message } => assert_eq!(message, "quota exceeded"),
        _ => panic!("expected ToolResult envelope"),
    }
    assert_eq!(overridden.http_status, Some(200));

    // Only a tool call can be answered with a tool result.
    let overridden = maybe_override_rejection(&processor, "prompts/get", &evals, limited());
    assert_eq!(overridden.http_status, None);
    assert_eq!(json_rpc(overridden), error(-32003, "quota exceeded", None));
}

#[test]
fn rejection_override_uses_mcp_guardrails_rate_limit_metadata() {
    let processor = rate_limit_processor(one_override(
        "has(mcpGuardrails.rateLimit.limit)",
        RejectionResponseAs::default(),
        None,
        Some((
            Some(-32001),
            r#""retry after " + string(mcpGuardrails.rateLimit.limit.retryAfterSeconds)"#,
        )),
    ));
    let mut bag = None;
    merge_rate_limit_mcp_error_into_extensions(
        br#"{"domain":"mcp_api","overallCode":"OVER_LIMIT","limit":{
            "descriptor":{"entries":[{"key":"tool","value":"echo"}]},
            "code":"OVER_LIMIT","retryAfterSeconds":42}}"#,
        &mut bag,
    );
    let bag = bag.unwrap();
    assert_eq!(bag.0[0].0, "rateLimit");
    let retry = match &bag.0[0].1 {
        Json::Object(status) => match &status.iter().find(|m| m.0 == "limit").unwrap().1 {
            Json::Object(limit) => match &limit.iter().find(|m| m.0 == "retryAfterSeconds") {
                Some((_, Json::Number(n))) => n.clone(),
                other => panic!("unexpected {other:?}"),
            },
            other => panic!("unexpected {other:?}"),
        },
        other => panic!("unexpected {other:?}"),
    };
    let message = format!("retry after {retry}");
    let evals = evaluated(true, Some(message.as_str()));
    let error = json_rpc(maybe_override_rejection(&processor, "tools/call", &evals, limited()));
    assert_eq!(error.code, -32001);
    assert_eq!(error.message, "retry after 42");
    assert!(error.data.is_none());
}

#[test]
fn rejection_override_strips_internal_mcp_error_data() {
    let processor = rate_limit_processor(one_override(
        "true",
        RejectionResponseAs::default(),
        Some(401),
        Some((Some(-32013), r#""auth required""#)),
    ));
    let original = error(
        -32003,
        "rate limit exceeded",
        Some(object(vec![("domain", text("mcp_api")), ("overallCode", text("OVER_LIMIT"))])),
    );
    let overridden = maybe_override_rejection(
        &processor,
        "tools/call",
        &evaluated(true, Some("auth required")),
        original,
    );
    let error = json_rpc(overridden);
    assert_eq!(error.code, -32013);
    assert_eq!(error.message, "auth required");
    assert!(error.data.is_none());
}

#[test]
fn the_first_override_that_changes_something_counts() {
    let mut cfgs = one_override("false", RejectionResponseAs::JsonRpcError, Some(401), None);
    cfgs.extend(one_override("true", RejectionResponseAs::JsonRpcError, None, None));
    cfgs.extend(one_override("true", RejectionResponseAs::JsonRpcError, Some(403), None));
    cfgs[2].headers.push(RateLimitRejectionOverrideHeader {
        name: "x-a".to_string(),
        value: "'1'".to_string(),
    });
    cfgs[2].headers.push(RateLimitRejectionOverrideHeader {
        name: "x-b".to_string(),
        value: "2".to_string(),
    });
    let mut evals = evaluated(false, None);
    evals.extend(evaluated(true, None));
    evals.push(EvaluatedOverride {
        applies: true,
        message: None,
        headers: vec![Some("1".to_string()), None],
    });
    let processor = rate_limit_processor(cfgs);
    let denial = maybe_override_rejection(&processor, "tools/call", &evals, limited());
    assert_eq!(denial.http_status, Some(403));
    assert_eq!(denial.http_headers, vec![("x-a".to_string(), "1".to_string())]);
}

#[test]
fn denials_of_a_policy_service_are_handed_on() {
    let data = || Some(text("why"));
    let denial = maybe_override_rejection(
        &remote(&[]),
        "tools/call",
        &evaluated(true, Some("x")),
        error(-1, "no", data()),
    );
    assert_eq!(json_rpc(denial), error(-1, "no", data()));
    // Without overrides so are those of a rate limit.
    let processor = rate_limit_processor(vec![]);
    let denial = maybe_override_rejection(&processor, "x", &vec![], error(-1, "no", data()));
    assert_eq!(json_rpc(denial), error(-1, "no", data()));
}

fn test_rate_limit() -> RateLimit {
    descriptor_rate_limit("method", "mcp.methodName")
}

fn descriptor_rate_limit(key: &str, value: &str) -> RateLimit {
    RateLimit {
        descriptors: RateLimitDescriptorSet(vec![RateLimitDescriptorEntry {
            entries: vec![RateLimitDescriptor { key: key.to_string(), value: value.to_string() }],
            limit_type: RateLimitType::Requests,
            limit_override: None,
            peek: true,
        }]),
        ..rate_limit(vec![])
    }
}

fn rate_limit_with_failure_mode(failure_mode: FailureMode) -> RateLimit {
    RateLimit { failure_mode, ..test_rate_limit() }
}

fn descriptor_values(value: Option<&str>) -> Vec<EvaluatedDescriptor> {
    vec![EvaluatedDescriptor {
        values: vec![value.map(|v| v.to_string())],
        limit_override: None,
    }]
}

fn descriptors(meta: &Json) -> &Vec<Json> {
    match meta {
        Json::Object(members) => match &members.iter().find(|m| m.0 == "descriptors").unwrap().1 {
            Json::Array(items) => items,
            other => panic!("unexpected {other:?}"),
        },
        other => panic!("unexpected {other:?}"),
    }
}

fn success() -> ServerResult {
    ServerResult::CallToolResult(CallToolResult {
        content: vec![],
        is_error: Some(false),
        meta: None,
        rest: Json::Null,
    })
}

#[test]
fn response_skips_increment_on_is_error() {
    // Successful call (is_error = Some(false)): increment.
    let mcp_success = build_mcp_info_from_result("tools/call", &success(), None);
    assert_eq!(mcp_success.is_error, Some(false));
    let evals = descriptor_values(Some("tools/call"));
    let meta =
        build_metadata(&test_rate_limit(), &evals, Side::Response, mcp_success.is_error).unwrap();
    assert_eq!(descriptors(&meta).len(), 1);

    // Errored call (is_error = Some(true)): skip increment.
    let meta = build_metadata(&test_rate_limit(), &evals, Side::Response, Some(true));
    assert!(meta.is_none(), "increment should be skipped when is_error=true");

    // Non-tool method (is_error = None): increment.
    let mcp_list = build_mcp_info("tools/list", None);
    assert_eq!(mcp_list.is_error, None);
    let evals = descriptor_values(Some("tools/list"));
    let meta =
        build_metadata(&test_rate_limit(), &evals, Side::Response, mcp_list.is_error).unwrap();
    assert_eq!(descriptors(&meta).len(), 1);
}

fn checked(mode: FailureMode, reply: RequestReply) -> (Outcome<()>, bool, Option<McpGuardrailsDynamicMetadata>) {
    let mut bag = None;
    let mut pin = None;
    let limit = rate_limit_with_failure_mode(mode);
    let outcome = check_request(&limit, reply, Some("a:1".to_string()), &mut bag, &mut pin);
    (outcome, pin == Some("a:1".to_string()), bag)
}

fn service_error(code: Option<AuthCode>, reason: &str, mcp_error: Option<&[u8]>) -> RequestReply {
    RequestReply::Error(AuthorizationError {
        code,
        error: error(-32003, reason, None),
        mcp_error: mcp_error.map(|b| b.to_vec()),
    })
}

#[test]
fn fail_open_honors_inband_unknown_service_error() {
    let reply = service_error(Some(AuthCode::Unknown), "rate limit service unavailable", None);
    let (outcome, _, _) = checked(FailureMode::FailOpen, reply);
    assert!(matches!(outcome, Outcome::Pass));
}

#[test]
fn fail_open_still_rejects_resource_exhausted() {
    let reply = service_error(Some(AuthCode::ResourceExhausted), "quota exhausted", None);
    let (outcome, _, _) = checked(FailureMode::FailOpen, reply);
    assert!(matches!(outcome, Outcome::Reject(_)));
}

#[test]
fn default_denial_strips_mcp_error_from_client_payload() {
    let reply = service_error(
        Some(AuthCode::ResourceExhausted),
        "rate limit exceeded",
        Some(br#"{"domain":"mcp_api","overallCode":"OVER_LIMIT"}"#),
    );
    let (outcome, _, bag) = checked(FailureMode::FailClosed, reply);
    let rej = match outcome {
        Outcome::Reject(rej) => rej,
        other => panic!("expected reject, got {other:?}"),
    };
    let error = json_rpc(rej);
    assert_eq!(error.code, -32003);
    assert_eq!(error.message, "rate limit exceeded");
    assert!(error.data.is_none());
    // Policies still see the details.
    let meta = bag.expect("rateLimit metadata");
    assert!(meta.0.iter().any(|m| m.0 == "rateLimit"));
}

#[test]
fn response_metadata_uses_request_mcp_tool_name() {
    let rate_limit = descriptor_rate_limit("tool", "mcp.tool.name");
    let client_facing = build_mcp_info("tools/call", Some(br#"{"name":"echo_demo"}"#));
    assert_eq!(client_facing.tool.as_ref().unwrap().name, "echo_demo");
    let mcp = check_response("tools/call", Some(client_facing), &success(), None);
    let name = mcp.tool.as_ref().map(|t| t.name.clone());
    assert_eq!(mcp.is_error, Some(false));
    let evals = descriptor_values(name.as_deref());
    let meta = build_metadata(&rate_limit, &evals, Side::Response, mcp.is_error).unwrap();
    assert_eq!(
        descriptors(&meta)[0],
        object(vec![
            (
                "entries",
                Json::Array(vec![object(vec![
                    ("key", text("tool")),
                    ("value", text("echo_demo"))
                ])])
            ),
            ("hitsAddend", Json::Number("1".to_string())),
        ])
    );
}

#[test]
fn a_failed_service_rejects_unless_the_guardrail_fails_open() {
    let replies: Vec<(fn() -> RequestReply, &str)> = vec![
        (
            || RequestReply::Failed("down".to_string()),
            "mcpGuardrails rateLimit checkRequest failed: down",
        ),
        (
            || RequestReply::Missing,
            "mcpGuardrails rateLimit protocol violation: missing result oneof",
        ),
    ];
    for (reply, message) in replies {
        let (outcome, kept, bag) = checked(FailureMode::FailOpen, reply());
        assert_eq!((outcome, kept), (Outcome::Pass, false));
        assert!(bag.is_none());
        let (outcome, kept, _) = checked(FailureMode::FailClosed, reply());
        assert!(!kept);
        match outcome {
            Outcome::Reject(rej) => assert_eq!(json_rpc(rej), error(-32603, message, None)),
            other => panic!("expected reject, got {other:?}"),
        }
    }
    for code in [None, Some(AuthCode::Unknown), Some(AuthCode::Invalid)] {
        let (outcome, _, _) = checked(FailureMode::FailClosed, service_error(code, "x", None));
        assert!(matches!(outcome, Outcome::Reject(_)));
        let (outcome, _, _) = checked(FailureMode::FailOpen, service_error(code, "x", None));
        assert!(matches!(outcome, Outcome::Pass));
    }
    let denied = service_error(Some(AuthCode::PermissionDenied), "x", None);
    assert!(matches!(checked(FailureMode::FailOpen, denied).0, Outcome::Reject(_)));
}

#[test]
fn answers_that_pass_leave_their_values() {
    let fields = || {
        vec![
            ("a".to_string(), Some(Json::Bool(true))),
            ("b".to_string(), None),
            ("a".to_string(), Some(Json::Bool(false))),
        ]
    };
    for reply in [RequestReply::Pass(fields()), RequestReply::Mutated(fields())] {
        let (outcome, kept, bag) = checked(FailureMode::FailClosed, reply);
        assert_eq!((outcome, kept), (Outcome::Pass, true));
        assert_eq!(bag.unwrap().0, vec![("a".to_string(), Json::Bool(false))]);
    }
}

#[test]
fn descriptors_tell_what_is_counted() {
    let entry = |peek: bool| RateLimitDescriptorEntry {
        entries: vec![RateLimitDescriptor { key: "k".to_string(), value: "v".to_string() }],
        limit_type: RateLimitType::Requests,
        limit_override: Some("expr".to_string()),
        peek,
    };
    let eval = |unit: &str| EvaluatedDescriptor {
        values: vec![Some("x".to_string())],
        limit_override: Some(DescriptorLimitOverride {
            unit: unit.to_string(),
            requests_per_unit: 12,
        }),
    };
    let counted = |addend: &str| {
        object(vec![
            (
                "entries",
                Json::Array(vec![object(vec![("key", text("k")), ("value", text("x"))])]),
            ),
            ("hitsAddend", Json::Number(addend.to_string())),
            (
                "limit",
                object(vec![
                    ("requestsPerUnit", Json::Number("12".to_string())),
                    ("unit", text("MINUTE")),
                ]),
            ),
        ])
    };
    let limit = RateLimit {
        descriptors: RateLimitDescriptorSet(vec![entry(true), entry(false), entry(false)]),
        ..rate_limit(vec![])
    };
    let evals = vec![eval("Minute"), eval("minute"), eval("week")];
    // Before the call the first is only looked at; the last has no unit that is known.
    assert_eq!(
        build_metadata(&limit, &evals, Side::Request, None),
        Some(object(vec![
            ("domain", text("mcp")),
            ("descriptors", Json::Array(vec![counted("0"), counted("1")])),
        ]))
    );
    // After the call only the first is counted.
    assert_eq!(
        build_metadata(&limit, &evals, Side::Response, None),
        Some(object(vec![
            ("domain", text("mcp")),
            ("descriptors", Json::Array(vec![counted("1")])),
        ]))
    );
    let tokens = RateLimit {
        descriptors: RateLimitDescriptorSet(vec![RateLimitDescriptorEntry {
            limit_type: RateLimitType::Tokens,
            ..entry(false)
        }]),
        ..rate_limit(vec![])
    };
    assert_eq!(build_metadata(&tokens, &vec![eval("minute")], Side::Request, None), None);
    let unevaluated = descriptor_values(None);
    assert_eq!(build_metadata(&test_rate_limit(), &unevaluated, Side::Request, None), None);
}

#[test]
fn the_service_is_asked_where_there_is_something_to_count() {
    let backends = || vec!["mcp".to_string()];
    let evals = descriptor_values(Some("tools/call"));
    let limit = test_rate_limit();
    assert_eq!(
        request_question(&limit, &evals, "tools/call", backends(), Some(b"{}".to_vec())),
        Some(McpRequest {
            service_names: backends(),
            method: "tools/call".to_string(),
            metadata_context: build_metadata(&limit, &evals, Side::Request, None).unwrap(),
            mcp_request: Some(b"{}".to_vec()),
        })
    );
    assert_eq!(
        response_question(
            &limit,
            &evals,
            "tools/call",
            backends(),
            b"{}".to_vec(),
            Some(false),
            &None
        ),
        Some(McpResponse {
            service_names: backends(),
            method: "tools/call".to_string(),
            metadata_context: build_metadata(&limit, &evals, Side::Response, None).unwrap(),
            mcp_response: b"{}".to_vec(),
            replica: None,
        })
    );
    let failed = response_question(
        &limit,
        &evals,
        "tools/call",
        backends(),
        vec![],
        Some(true),
        &None,
    );
    assert_eq!(failed, None);
    let none = rate_limit(vec![]);
    assert_eq!(request_question(&none, &vec![], "tools/call", backends(), None), None);
}

#[test]
fn results_are_recorded_on_what_was_told_before() {
    let before = MCPInfo {
        method_name: Some("m".to_string()),
        tool: Some(MCPTool {
            target: "t".to_string(),
            name: "n".to_string(),
            arguments: None,
            result: None,
            error: None,
        }),
        ..MCPInfo::default()
    };
    let failed = ServerResult::CallToolResult(CallToolResult {
        content: vec![],
        is_error: Some(true),
        meta: None,
        rest: Json::Null,
    });
    let after = check_response("tools/call", Some(before), &failed, Some(text("payload")));
    assert_eq!(after.method_name.as_deref(), Some("m"));
    assert_eq!(after.is_error, Some(true));
    let tool = after.tool.unwrap();
    assert_eq!((tool.name.as_str(), tool.result), ("n", Some(text("payload"))));
    let unknown = check_response("tools/call", None, &success(), None);
    assert_eq!(unknown.tool.unwrap().name, "");
    let listed = check_response("tools/list", None, &ServerResult::ListToolsResult(vec![]), None);
    assert!(listed.tool.is_none());
    assert_eq!(listed.method_name.as_deref(), Some("tools/list"));
}

#[test]
fn descriptors_with_a_broken_expression_are_refused() {
    let raw = || {
        vec![
            RateLimitDescriptorSerde { key: "a".to_string(), value: "x".to_string() },
            RateLimitDescriptorSerde { key: "b".to_string(), value: "y".to_string() },
        ]
    };
    let ok = de_rate_limit_descriptors(raw(), &vec![None, None]).unwrap();
    assert_eq!(ok[1], RateLimitDescriptor { key: "b".to_string(), value: "y".to_string() });
    assert_eq!(
        de_rate_limit_descriptors(raw(), &vec![None, Some("bad".to_string())]),
        Err("bad".to_string())
    );
}

#[test]
fn unknown_response_kinds_are_protocol_errors() {
    let of = RejectionResponseAs::from_proto;
    assert_eq!(of(Some(ProtoResponseAs::ToolResult)), RejectionResponseAs::ToolResult);
    assert_eq!(of(Some(ProtoResponseAs::JsonRpcError)), RejectionResponseAs::JsonRpcError);
    assert_eq!(of(Some(ProtoResponseAs::Unspecified)), RejectionResponseAs::JsonRpcError);
    assert_eq!(of(None), RejectionResponseAs::JsonRpcError);
}

#[test]
fn keys_match_methods_by_their_form() {
    let keys = |v: &[(&str, Phase)]| -> Vec<(String, Phase)> {
        v.iter().map(|(k, p)| (k.to_string(), *p)).collect()
    };
    let all = keys(&[
        ("*", Phase::Full),
        ("tools/*", Phase::Request),
        ("tools/call", Phase::Response),
    ]);
    assert_eq!(resolve("tools/call", &all), Some(Phase::Response));
    assert_eq!(resolve("tools/list", &all), Some(Phase::Request));
    assert_eq!(resolve("ping", &all), Some(Phase::Full));
    assert_eq!(resolve("ping", &keys(&[("tools/*", Phase::Full), ("a*b", Phase::Full)])), None);
    assert_eq!(resolve("tools/list", &keys(&[("*/list", Phase::Request)])), Some(Phase::Request));
    for key in ["tools/call", "tools/*", "*/list", "*"] {
        assert!(pattern_is_matchable(key), "{key}");
    }
    for key in ["", "**", "a*b", "*/*"] {
        assert!(!pattern_is_matchable(key), "{key}");
    }
}

#[test]
fn headers_are_filtered_without_regard_to_case() {
    let filter = |allowed: &[&str], disallowed: &[&str]| HeaderFilter {
        allowed: allowed.iter().map(|s| s.to_string()).collect(),
        disallowed: disallowed.iter().map(|s| s.to_string()).collect(),
    };
    assert!(filter(&[], &[]).is_default());
    assert!(filter(&[], &[]).allows("x-any"));
    let f = filter(&["X-Tenant"], &[":authority"]);
    assert!(!f.is_default());
    assert!(f.allows("x-tenant"));
    assert!(!f.allows("x-other"));
    assert!(!f.allows(":authority"));
    assert!(!filter(&["a"], &["A"]).allows("a"));
}

fn two(first: &[(&str, Phase)], second: &[(&str, Phase)]) -> McpGuardrails {
    McpGuardrails { processors: vec![remote(first), remote(second)] }
}

#[test]
fn guardrails_run_in_order_for_their_methods() {
    let ext = two(&[("tools/call", Phase::Response)], &[("tools/*", Phase::Full)]);
    let chain: Chain<u8> = Chain::new();
    assert_eq!(chain.next_processor(&ext, "tools/call", Side::Request), Some(1));
    assert_eq!(chain.next_processor(&ext, "tools/call", Side::Response), Some(0));
    assert_eq!(chain.next_processor(&ext, "ping", Side::Response), None);
    assert!(ext.runs_request("tools/call"));
    assert!(!ext.runs_request("ping"));
    assert!(!ext.runs_response("ping"));
    assert!(has_request_guardrails(Some(&ext), "tools/list"));
    assert!(!has_request_guardrails(None, "tools/list"));
}

#[test]
fn the_first_rejection_ends_the_chain() {
    let ext = two(&[("*", Phase::Full)], &[("*", Phase::Full)]);
    let denial = |m: &str| Rejection::json_rpc(error(-1, m, None));
    let answers: Vec<(Outcome<u8>, Vec<EvaluatedOverride>)> =
        vec![(Outcome::Reject(denial("first")), vec![]), (Outcome::Mutated(1), vec![])];
    match run_call_request(&ext, "tools/call", true, answers) {
        Outcome::Reject(d) => assert_eq!(json_rpc(d).message, "first"),
        other => panic!("expected reject, got {other:?}"),
    }
    let answers: Vec<(Outcome<u8>, Vec<EvaluatedOverride>)> =
        vec![(Outcome::Mutated(1), vec![]), (Outcome::Mutated(2), vec![])];
    assert_eq!(run_call_request(&ext, "tools/call", true, answers), Outcome::Mutated(2));
    let answers: Vec<(Outcome<u8>, Vec<EvaluatedOverride>)> =
        vec![(Outcome::Mutated(1), vec![]), (Outcome::Pass, vec![])];
    assert_eq!(run_call_request(&ext, "tools/call", true, answers), Outcome::Mutated(1));
    let answers: Vec<(Outcome<u8>, Vec<EvaluatedOverride>)> =
        vec![(Outcome::Mutated(1), vec![]), (Outcome::Pass, vec![])];
    assert_eq!(run_call_request(&ext, "tools/list", false, answers), Outcome::Pass);
    let answers = vec![(Outcome::Pass, vec![]), (Outcome::Reject(denial("late")), vec![])];
    assert!(matches!(run_response(&ext, "tools/call", answers), Outcome::Reject(_)));
}

#[test]
fn outcomes_become_errors_or_requests() {
    let denial = || Rejection::json_rpc(error(-1, "no", None));
    assert_eq!(run_guardrails_call_request(Outcome::<u8>::Pass), Ok(None));
    assert_eq!(run_guardrails_call_request(Outcome::Mutated(3u8)), Ok(Some(3)));
    assert_eq!(
        run_guardrails_call_request(Outcome::<u8>::Reject(denial())),
        Err(UpstreamError::McpGuardrails(denial()))
    );
    assert_eq!(run_guardrails_fanout(Outcome::Mutated(3u8)), Ok(()));
    assert_eq!(
        run_guardrails_fanout(Outcome::<u8>::Reject(denial())),
        Err(UpstreamError::McpGuardrails(denial()))
    );
    assert_eq!(
        unwritable_params("tools/call", "bad"),
        UpstreamError::InvalidRequest("serialize tools/call params: bad".to_string())
    );
}

#[test]
fn responses_are_replaced_by_what_guardrails_make_of_them() {
    let id = || RequestId::Number(1);
    let msg = || ServerJsonRpcMessage::Response { id: id(), result: success() };
    assert_eq!(apply_guardrails_response_intercept(msg(), Ok(Outcome::Pass)), msg());
    let empty = || ServerResult::ListToolsResult(vec![]);
    assert_eq!(
        apply_guardrails_response_intercept(msg(), Ok(Outcome::Mutated(empty()))),
        ServerJsonRpcMessage::Response { id: id(), result: empty() }
    );
    assert_eq!(
        apply_guardrails_response_intercept(msg(), Err("bad".to_string())),
        ServerJsonRpcMessage::Error {
            id: id(),
            error: error(-32603, "mcpGuardrails: serialize result: bad", None),
        }
    );
    let denial = Rejection {
        envelope: McpDenialEnvelope::ToolResult { message: "no".to_string() },
        http_status: None,
        http_headers: vec![],
    };
    assert_eq!(
        apply_guardrails_response_intercept(msg(), Ok(Outcome::Reject(denial))),
        ServerJsonRpcMessage::Response {
            id: id(),
            result: ServerResult::CallToolResult(CallToolResult {
                content: vec![Content::Text { text: "no".to_string(), rest: Json::Null }],
                is_error: Some(true),
                meta: None,
                rest: Json::Null,
            }),
        }
    );
}

#[test]
fn the_response_side_is_told_what_the_request_side_was() {
    let ext = ext_with_methods(&[("tools/*", Phase::Response)]);
    let call = || ClientRequest::CallToolRequest {
        name: "echo".to_string(),
        arguments: None,
        rest: Json::Null,
    };
    assert!(build_guardrails_ctx(None, &call(), None).is_none());
    assert!(build_guardrails_ctx(Some(&ext), &ClientRequest::PingRequest, None).is_none());
    let told = build_guardrails_ctx(Some(&ext), &call(), None).unwrap();
    assert_eq!(told.tool.unwrap().name, "echo");
    let before = MCPInfo { method_name: Some("z".to_string()), ..MCPInfo::default() };
    let told = build_guardrails_ctx(Some(&ext), &call(), Some(before)).unwrap();
    assert_eq!(told.method_name.as_deref(), Some("z"));
}

#[test]
fn parameters_tell_the_name_and_the_arguments() {
    let info = build_mcp_info("tools/call", Some(br#"{"name":"echo","arguments":{"a":1}}"#));
    let tool = info.tool.unwrap();
    assert_eq!(tool.name, "echo");
    assert_eq!(tool.arguments, Some(vec![("a".to_string(), Json::Number("1".to_string()))]));
    let info = build_mcp_info("prompts/get", Some(br#"{"name":"p"}"#));
    assert_eq!(info.prompt.unwrap().name(), "p");
    let info = build_mcp_info("resources/read", Some(br#"{"uri":"file:///x"}"#));
    assert_eq!(info.resource.unwrap().name(), "file:///x");
    let info = build_mcp_info("tools/call", Some(b"no json"));
    assert!(info.tool.is_none());
    assert_eq!(info.method_name.as_deref(), Some("tools/call"));
}

#[test]
fn json_text_is_read() {
    assert_eq!(
        parse(br#"{"n":null,"b":true,"x":-1.5,"s":"t","a":[1,{}]}"#),
        Some(object(vec![
            ("a", Json::Array(vec![Json::Number("1".to_string()), Json::Object(vec![])])),
            ("b", Json::Bool(true)),
            ("n", Json::Null),
            ("s", text("t")),
            ("x", Json::Number("-1.5".to_string())),
        ]))
    );
    assert_eq!(parse(b"{"), None);
    assert_eq!(parse(b""), None);
}

#[test]
fn attached_values_stay_until_they_are_replaced() {
    let mut bag = None;
    merge_metadata_into_extensions(vec![], &mut bag);
    assert!(bag.is_none());
    merge_metadata_into_extensions(vec![("k".to_string(), Some(Json::Null))], &mut bag);
    merge_rate_limit_status_into_extensions(text("no object"), &mut bag);
    assert_eq!(bag.as_ref().unwrap().0.len(), 1);
    merge_rate_limit_status_into_extensions(object(vec![("x", Json::Null)]), &mut bag);
    let bag = bag.unwrap();
    assert!(!bag.is_empty());
    assert_eq!(bag.0[0], ("k".to_string(), Json::Null));
    assert_eq!(bag.0[1], ("rateLimit".to_string(), object(vec![("x", Json::Null)])));
    let mut none = None;
    merge_rate_limit_mcp_error_into_extensions(b"not json", &mut none);
    assert!(none.is_none());
}

#[test]
fn peek_and_increment_pin_to_same_extmcp_replica() {
    let limit = test_rate_limit();
    let evals = descriptor_values(Some("tools/call"));
    let mut bag = None;
    let mut pin = None;
    let mut looked = |reply: RequestReply, replica: Option<&str>| {
        let outcome: Outcome<()> =
            check_request(&limit, reply, replica.map(|r| r.to_string()), &mut bag, &mut pin);
        outcome
    };
    assert!(matches!(looked(RequestReply::Pass(vec![]), Some("127.0.0.1:37101")), Outcome::Pass));
    // What does not let the call pass keeps the replica, and so does one that is not known.
    looked(RequestReply::Missing, Some("127.0.0.1:37102"));
    looked(RequestReply::Pass(vec![]), None);
    let asked = response_question(
        &limit,
        &evals,
        "tools/call",
        vec!["mcp".to_string()],
        b"{}".to_vec(),
        Some(false),
        &pin,
    );
    assert_eq!(asked.unwrap().replica.as_deref(), Some("127.0.0.1:37101"));
}
