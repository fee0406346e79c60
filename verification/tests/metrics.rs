//! The metrics that are registered and the labels of upstream failures.

use agentgateway_mcp::guardrails::denial::Rejection;
use agentgateway_mcp::metrics::{
    BuildLabel, Buckets, FilteredRegistry, GuardrailAction, GuardrailLabels, GuardrailPhase,
    HTTPLabels, MetricKind, Metrics, MinimalHTTPLabels, OutboundCallKind, OutboundCallSubtype,
    PREFIX, RouteIdentifier, Unit, classify_upstream_error, definitions,
};
use agentgateway_mcp::model::ErrorData;
use agentgateway_mcp::upstream::{
    ClientError, HttpResponse, ProxyError, UpstreamError, classify_upstream_error_for_cel,
    format_status,
};

fn http_status(code: u16) -> UpstreamError {
    UpstreamError::Http(ClientError::Status(Box::new(HttpResponse {
        status: code,
        headers: vec![],
        body: vec![],
    })))
}

#[test]
fn classify_upstream_error_maps_transport_and_skips_non_transport() {
    // Non-transport variants must NOT be counted (classifier returns None).
    assert_eq!(
        classify_upstream_error(&UpstreamError::Authorization {
            resource_type: "tool".into(),
            resource_name: "echo".into(),
        }),
        None
    );
    assert_eq!(classify_upstream_error(&UpstreamError::InvalidRequest("x".into())), None);
    assert_eq!(classify_upstream_error(&UpstreamError::InvalidMethod("x".into())), None);
    assert_eq!(
        classify_upstream_error(&UpstreamError::InvalidMethodWithMultiplexing("x".into())),
        None
    );
    assert_eq!(
        classify_upstream_error(&UpstreamError::McpGuardrails(Rejection::json_rpc(ErrorData {
            code: -32601,
            message: "test".into(),
            data: None,
        }))),
        None,
        "McpGuardrails should not be counted"
    );

    // Simple transport variants.
    assert_eq!(classify_upstream_error(&UpstreamError::Send), Some("send"));
    assert_eq!(classify_upstream_error(&UpstreamError::Recv), Some("recv"));
    assert_eq!(classify_upstream_error(&UpstreamError::StdioShutdown), Some("stdio_shutdown"));
    assert_eq!(
        classify_upstream_error(&UpstreamError::Proxy(ProxyError::UpstreamCallTimeout)),
        Some("proxy")
    );

    // HTTP status split.
    assert_eq!(classify_upstream_error(&http_status(404)), Some("http_4xx"));
    assert_eq!(classify_upstream_error(&http_status(502)), Some("http_5xx"));
    assert_eq!(classify_upstream_error(&http_status(302)), Some("http_other"));
}

#[test]
fn fanout_errors_count_as_their_cause() {
    let fanout = |source| UpstreamError::FanoutError {
        name: "a".to_string(),
        source: Box::new(source),
    };
    assert_eq!(classify_upstream_error(&fanout(fanout(http_status(500)))), Some("http_5xx"));
    assert_eq!(classify_upstream_error(&fanout(UpstreamError::InvalidMethod("x".into()))), None);
    let stdio = UpstreamError::Stdio("x".into());
    assert_eq!(classify_upstream_error(&stdio), Some("stdio"));
    let service = UpstreamError::ServiceError("x".into());
    assert_eq!(classify_upstream_error(&service), Some("service_error"));
    let openapi = UpstreamError::OpenAPIError("x".into());
    assert_eq!(classify_upstream_error(&openapi), Some("openapi_error"));
    let general = UpstreamError::Http(ClientError::new("x".into()));
    assert_eq!(classify_upstream_error(&general), Some("http_other"));
    assert_eq!(classify_upstream_error_for_cel(&general), "connection_error");
    assert_eq!(
        classify_upstream_error_for_cel(&fanout(UpstreamError::Proxy(ProxyError::RequestTimeout))),
        "timeout"
    );
    assert_eq!(classify_upstream_error_for_cel(&http_status(500)), "upstream_error");
}

#[test]
fn statuses_have_their_reason() {
    assert_eq!(format_status(404), "404 Not Found");
    assert_eq!(format_status(599), "599 <unknown status code>");
    assert_eq!(
        http_status(503).to_string(),
        "http request failed with code: 503 Service Unavailable"
    );
}

#[test]
fn calls_are_timed_and_errors_counted() {
    let defs = definitions();
    assert_eq!(defs.len(), 23);
    let duration = defs.iter().find(|d| d.name == "mcp_request_duration").unwrap();
    assert_eq!(duration.unit, Some(Unit::Seconds));
    assert_eq!(duration.kind, MetricKind::Histogram(Buckets::HttpRequestDuration));
    let errors = defs.iter().find(|d| d.name == "mcp_upstream_errors").unwrap();
    assert_eq!((errors.kind, &errors.unit), (MetricKind::Counter, &None));
}

#[test]
fn metrics_are_excluded_under_any_of_their_names() {
    let skips = |removed: &str, name: &str, unit: Option<&Unit>| {
        FilteredRegistry::new(vec![removed.to_string()]).should_skip(name, unit)
    };
    assert_eq!(PREFIX, "agentgateway");
    for removed in ["requests", "requests_total", "agentgateway_requests", "agentgateway_requests_total"] {
        assert!(skips(removed, "requests", None), "{removed}");
    }
    assert!(!skips("request", "requests", None));
    for removed in [
        "response_bytes",
        "response_bytes_total",
        "agentgateway_response_bytes",
        "agentgateway_response_bytes_total",
        "response",
    ] {
        assert!(skips(removed, "response", Some(&Unit::Bytes)), "{removed}");
    }
    assert!(!skips("response_bytes", "response", None));
    assert!(skips("cost_usd", "cost", Some(&Unit::Other("usd".to_string()))));
}

#[test]
fn the_rest_is_registered_in_order() {
    assert_eq!(Metrics::new(vec![]).registered, definitions());
    let some = Metrics::new(vec![
        "agentgateway_build".to_string(),
        "agentgateway_upstream_call_duration_seconds".to_string(),
    ]);
    assert_eq!(some.registered.len(), 21);
    assert_eq!(some.registered[0].name, "gen_ai_client_token_usage");
    assert!(some.registered.iter().all(|d| d.name != "upstream_call_duration"));
}

#[test]
fn minimal_labels_keep_the_route() {
    let route = || RouteIdentifier {
        bind: Some("b".to_string()),
        gateway: None,
        listener: None,
        route: Some("r".to_string()),
        route_rule: None,
    };
    let labels = HTTPLabels {
        backend: Some("x".to_string()),
        protocol: Some("http".to_string()),
        method: Some("GET".to_string()),
        status: Some(200),
        reason: None,
        route: route(),
        custom: vec![("k".to_string(), "v".to_string())],
    };
    assert_eq!(
        MinimalHTTPLabels::from(labels),
        MinimalHTTPLabels {
            backend: Some("x".to_string()),
            route: route(),
            custom: vec![("k".to_string(), "v".to_string())],
        }
    );
    assert_eq!(
        GuardrailLabels::default(),
        GuardrailLabels { phase: GuardrailPhase::Request, action: GuardrailAction::Allow }
    );
    assert_eq!(OutboundCallKind::default(), OutboundCallKind::Primary);
    assert_eq!(OutboundCallSubtype::default(), OutboundCallSubtype::Http);
    assert_eq!(BuildLabel::new("1.2").tag(), "1.2");
}
