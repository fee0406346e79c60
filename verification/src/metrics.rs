//! Which metrics are registered, and the labels under which things are counted.

use crate::model::strs;
use crate::text;
use crate::upstream::{ClientError, UpstreamError, root_cause};
use vstd::prelude::*;
use vstd::string::*;

verus! {

/// The label under which a failed upstream is counted; `None` for what is no failure of an
/// upstream. A fanout error is counted as its cause.
pub open spec fn upstream_error_label(e: UpstreamError) -> Option<Seq<char>> {
    match root_cause(e) {
        UpstreamError::ServiceError(_) => Some("service_error"@),
        UpstreamError::OpenAPIError(_) => Some("openapi_error"@),
        UpstreamError::Proxy(_) => Some("proxy"@),
        UpstreamError::Stdio(_) => Some("stdio"@),
        UpstreamError::StdioShutdown => Some("stdio_shutdown"@),
        UpstreamError::Send => Some("send"@),
        UpstreamError::Recv => Some("recv"@),
        UpstreamError::Http(ClientError::Status(resp)) => Some(
            if 400 <= resp.status <= 499 {
                "http_4xx"@
            } else if 500 <= resp.status <= 599 {
                "http_5xx"@
            } else {
                "http_other"@
            },
        ),
        UpstreamError::Http(_) => Some("http_other"@),
        UpstreamError::McpGuardrails(_) => None,
        UpstreamError::Authorization { .. } => None,
        UpstreamError::InvalidRequest(_) => None,
        UpstreamError::InvalidMethod(_) => None,
        UpstreamError::InvalidMethodWithMultiplexing(_) => None,
        UpstreamError::FanoutError { .. } => None,
    }
}

/// The label under which `e` is counted.
pub fn classify_upstream_error(e: &UpstreamError) -> (r: Option<&'static str>)
    ensures
        match r {
            Some(label) => upstream_error_label(*e) == Some(label@),
            None => upstream_error_label(*e) is None,
        },
    decreases e,
{
    match e {
        UpstreamError::ServiceError(_) => Some("service_error"),
        UpstreamError::OpenAPIError(_) => Some("openapi_error"),
        UpstreamError::Proxy(_) => Some("proxy"),
        UpstreamError::Stdio(_) => Some("stdio"),
        UpstreamError::StdioShutdown => Some("stdio_shutdown"),
        UpstreamError::Send => Some("send"),
        UpstreamError::Recv => Some("recv"),
        UpstreamError::Http(ClientError::Status(resp)) => if 400 <= resp.status && resp.status
            <= 499 {
            Some("http_4xx")
        } else if 500 <= resp.status && resp.status <= 599 {
            Some("http_5xx")
        } else {
            Some("http_other")
        },
        UpstreamError::Http(_) => Some("http_other"),
        UpstreamError::McpGuardrails(_) => None,
        UpstreamError::Authorization { resource_type: _, resource_name: _ } => None,
        UpstreamError::InvalidRequest(_) => None,
        UpstreamError::InvalidMethod(_) => None,
        UpstreamError::InvalidMethodWithMultiplexing(_) => None,
        UpstreamError::FanoutError { name: _, source } => classify_upstream_error(source),
    }
}

/// The side of a call on which a guardrail was checked.
#[derive(Debug, Clone, Copy, PartialEq, Eq, Hash, Structural)]
pub enum GuardrailPhase {
    Request,
    Response,
}

impl Default for GuardrailPhase {
    fn default() -> (r: Self)
        ensures
            r == GuardrailPhase::Request,
    {
        GuardrailPhase::Request
    }
}

/// What a guardrail did.
#[derive(Debug, Clone, Copy, PartialEq, Eq, Hash, Structural)]
pub enum GuardrailAction {
    Allow,
    Mask,
    Reject,
    FailOpen,
}

impl Default for GuardrailAction {
    fn default() -> (r: Self)
        ensures
            r == GuardrailAction::Allow,
    {
        GuardrailAction::Allow
    }
}

/// The labels of a guardrail check.
#[derive(Debug, Clone, Copy, PartialEq, Eq, Hash, Structural)]
pub struct GuardrailLabels {
    pub phase: GuardrailPhase,
    pub action: GuardrailAction,
}

impl Default for GuardrailLabels {
    fn default() -> (r: Self)
        ensures
            r == (GuardrailLabels { phase: GuardrailPhase::Request, action: GuardrailAction::Allow }),
    {
        GuardrailLabels { phase: GuardrailPhase::Request, action: GuardrailAction::Allow }
    }
}

/// Why an outbound call is made.
#[derive(Debug, Clone, Copy, PartialEq, Eq, Hash, Structural)]
pub enum OutboundCallKind {
    /// The primary backend call.
    Primary,
    /// A callout of a policy.
    Policy,
    /// A mirrored call.
    Mirror,
}

impl Default for OutboundCallKind {
    fn default() -> (r: Self)
        ensures
            r == OutboundCallKind::Primary,
    {
        OutboundCallKind::Primary
    }
}

/// What an outbound call is: the first three are primary calls, the others callouts of policies.
#[derive(Debug, Clone, Copy, PartialEq, Eq, Hash, Structural)]
pub enum OutboundCallSubtype {
    Http,
    Llm,
    Mcp,
    ExtAuthz,
    ExtProc,
    Guardrail,
    RateLimit,
    Oidc,
}

impl Default for OutboundCallSubtype {
    fn default() -> (r: Self)
        ensures
            r == OutboundCallSubtype::Http,
    {
        OutboundCallSubtype::Http
    }
}

/// The labels of an outbound call.
#[derive(Debug, Clone, Copy, PartialEq, Eq, Hash, Structural)]
pub struct OutboundCallLabels {
    pub kind: OutboundCallKind,
    pub subtype: OutboundCallSubtype,
}

/// The route that a request took; a part that is not known is absent.
#[derive(Debug, PartialEq, Eq, Hash)]
pub struct RouteIdentifier {
    pub bind: Option<String>,
    pub gateway: Option<String>,
    pub listener: Option<String>,
    pub route: Option<String>,
    pub route_rule: Option<String>,
}

/// The labels of an HTTP request.
#[derive(Debug, PartialEq, Eq, Hash)]
pub struct HTTPLabels {
    pub backend: Option<String>,
    pub protocol: Option<String>,
    pub method: Option<String>,
    pub status: Option<u16>,
    pub reason: Option<String>,
    pub route: RouteIdentifier,
    /// Labels that the configuration adds.
    pub custom: Vec<(String, String)>,
}

/// The labels of an HTTP request that say nothing of how it ended.
#[derive(Debug, PartialEq, Eq, Hash)]
pub struct MinimalHTTPLabels {
    pub backend: Option<String>,
    pub route: RouteIdentifier,
    pub custom: Vec<(String, String)>,
}

impl From<HTTPLabels> for MinimalHTTPLabels {
    fn from(value: HTTPLabels) -> (r: Self) {
        MinimalHTTPLabels { backend: value.backend, route: value.route, custom: value.custom }
    }
}

impl vstd::std_specs::convert::FromSpecImpl<HTTPLabels> for MinimalHTTPLabels {
    open spec fn obeys_from_spec() -> bool {
        true
    }

    open spec fn from_spec(value: HTTPLabels) -> Self {
        MinimalHTTPLabels { backend: value.backend, route: value.route, custom: value.custom }
    }
}

/// The label of the build.
#[derive(Debug, Clone, Copy, PartialEq, Eq, Hash)]
pub struct BuildLabel {
    tag: &'static str,
}

impl BuildLabel {
    /// The version of the build.
    pub closed spec fn version(self) -> Seq<char> {
        self.tag@
    }

    /// The label of the build with this version.
    pub fn new(tag: &'static str) -> (r: BuildLabel)
        ensures
            r.version() == tag@,
    {
        BuildLabel { tag }
    }

    /// The version of the build.
    pub fn tag(&self) -> (r: &'static str)
        ensures
            r@ == self.version(),
    {
        self.tag
    }
}

/// The unit of a metric.
#[derive(Debug, PartialEq, Eq)]
pub enum Unit {
    Seconds,
    Bytes,
    Other(String),
}

/// The mathematical unit.
pub enum UnitView {
    Seconds,
    Bytes,
    Other(Seq<char>),
}

impl View for Unit {
    type V = UnitView;

    open spec fn view(&self) -> UnitView {
        match self {
            Unit::Seconds => UnitView::Seconds,
            Unit::Bytes => UnitView::Bytes,
            Unit::Other(s) => UnitView::Other(s@),
        }
    }
}

/// The name of a unit.
pub open spec fn unit_text(unit: UnitView) -> Seq<char> {
    match unit {
        UnitView::Seconds => "seconds"@,
        UnitView::Bytes => "bytes"@,
        UnitView::Other(s) => s,
    }
}

impl Unit {
    /// The name of the unit.
    pub fn as_str(&self) -> (r: &str)
        ensures
            r@ == unit_text(self@),
    {
        match self {
            Unit::Seconds => "seconds",
            Unit::Bytes => "bytes",
            Unit::Other(s) => s.as_str(),
        }
    }
}

/// What a unit is, where there is one.
pub open spec fn opt_unit(unit: Option<Unit>) -> Option<UnitView> {
    match unit {
        Some(u) => Some(u@),
        None => None,
    }
}

/// What a borrowed unit is, where there is one.
pub open spec fn opt_unit_ref(unit: Option<&Unit>) -> Option<UnitView> {
    match unit {
        Some(u) => Some(u@),
        None => None,
    }
}

/// The sets of bucket bounds that histograms have.
#[derive(Debug, Clone, Copy, PartialEq, Eq, Structural)]
pub enum Buckets {
    TokenUsage,
    RequestDuration,
    ConnectDuration,
    HttpRequestDuration,
    ProcessingDuration,
    OutputToken,
    FirstToken,
}

/// The kinds of metrics.
#[derive(Debug, Clone, Copy, PartialEq, Eq, Structural)]
pub enum MetricKind {
    Info,
    Counter,
    FloatCounter,
    Histogram(Buckets),
}

/// A metric as it is registered.
#[derive(Debug, PartialEq, Eq)]
pub struct MetricDef {
    pub name: String,
    pub help: String,
    pub unit: Option<Unit>,
    pub kind: MetricKind,
}

/// The mathematical metric.
pub struct MetricDefView {
    pub name: Seq<char>,
    pub help: Seq<char>,
    pub unit: Option<UnitView>,
    pub kind: MetricKind,
}

impl View for MetricDef {
    type V = MetricDefView;

    open spec fn view(&self) -> MetricDefView {
        MetricDefView {
            name: self.name@,
            help: self.help@,
            unit: opt_unit(self.unit),
            kind: self.kind,
        }
    }
}

/// The metrics of a vector.
pub open spec fn metrics_view(v: Seq<MetricDef>) -> Seq<MetricDefView> {
    Seq::new(v.len(), |i: int| v[i]@)
}

/// A metric.
pub open spec fn metric(
    name: Seq<char>,
    help: Seq<char>,
    unit: Option<UnitView>,
    kind: MetricKind,
) -> MetricDefView {
    MetricDefView { name, help, unit, kind }
}

/// The metrics that the gateway has, in the order in which they are registered.
pub open spec fn metric_definitions() -> Seq<MetricDefView> {
    seq![
        metric(
            "build"@,
            "Agentgateway build information"@,
            None,
            MetricKind::Info,
        ),
        metric(
            "gen_ai_client_token_usage"@,
            "Number of tokens used per request"@,
            None,
            MetricKind::Histogram(Buckets::TokenUsage),
        ),
        metric(
            "gen_ai_client_cost"@,
            "Cumulative USD cost of generative AI requests"@,
            Some(UnitView::Other("usd"@)),
            MetricKind::FloatCounter,
        ),
        metric(
            "gen_ai_server_request_duration"@,
            "Duration of generative AI request"@,
            None,
            MetricKind::Histogram(Buckets::RequestDuration),
        ),
        metric(
            "gen_ai_server_time_per_output_token"@,
            "Time to generate each output token for a given request"@,
            None,
            MetricKind::Histogram(Buckets::OutputToken),
        ),
        metric(
            "gen_ai_server_time_to_first_token"@,
            "Time to generate the first token for a given request"@,
            None,
            MetricKind::Histogram(Buckets::FirstToken),
        ),
        metric(
            "mcp_request_duration"@,
            "Duration of MCP calls (seconds)"@,
            Some(UnitView::Seconds),
            MetricKind::Histogram(Buckets::HttpRequestDuration),
        ),
        metric(
            "requests"@,
            "The total number of HTTP requests sent"@,
            None,
            MetricKind::Counter,
        ),
        metric(
            "guardrail_checks"@,
            "Total number of guardrail checks"@,
            None,
            MetricKind::Counter,
        ),
        metric(
            "cost_catalog_lookups"@,
            "Total number of model cost catalog lookups by resolution status"@,
            None,
            MetricKind::Counter,
        ),
        metric(
            "downstream_connections"@,
            "The total number of downstream connections established"@,
            None,
            MetricKind::Counter,
        ),
        metric(
            "mcp_requests"@,
            "Total number of MCP tool calls"@,
            None,
            MetricKind::Counter,
        ),
        metric(
            "mcp_upstream_errors"@,
            "Total number of MCP upstream/transport errors"@,
            None,
            MetricKind::Counter,
        ),
        metric(
            "response"@,
            "Total HTTP response bytes received"@,
            Some(UnitView::Bytes),
            MetricKind::Counter,
        ),
        metric(
            "request_duration"@,
            "Duration of HTTP requests (seconds)"@,
            Some(UnitView::Seconds),
            MetricKind::Histogram(Buckets::HttpRequestDuration),
        ),
        metric(
            "request_processing"@,
            "Duration from receiving an HTTP request to sending the primary outbound call (seconds)"@,
            Some(UnitView::Seconds),
            MetricKind::Histogram(Buckets::ProcessingDuration),
        ),
        metric(
            "response_processing"@,
            "Duration from receiving the primary outbound response to sending the HTTP response (seconds)"@,
            Some(UnitView::Seconds),
            MetricKind::Histogram(Buckets::ProcessingDuration),
        ),
        metric(
            "downstream_received"@,
            "Total TCP bytes received per connection labels"@,
            Some(UnitView::Bytes),
            MetricKind::Counter,
        ),
        metric(
            "downstream_sent"@,
            "Total TCP bytes transmitted per connection labels"@,
            Some(UnitView::Bytes),
            MetricKind::Counter,
        ),
        metric(
            "upstream_connect_duration"@,
            "Duration to establish upstream connection (seconds)"@,
            Some(UnitView::Seconds),
            MetricKind::Histogram(Buckets::ConnectDuration),
        ),
        metric(
            "upstream_call_duration"@,
            "Duration of outbound calls made by agentgateway (seconds)"@,
            Some(UnitView::Seconds),
            MetricKind::Histogram(Buckets::HttpRequestDuration),
        ),
        metric(
            "tls_handshake_duration"@,
            "Duration to complete inbound TLS/HTTPS handshake (seconds)"@,
            Some(UnitView::Seconds),
            MetricKind::Histogram(Buckets::ConnectDuration),
        ),
        metric(
            "retries"@,
            "The total number of request retries"@,
            None,
            MetricKind::Counter,
        ),
    ]
}

fn push_metric(
    out: &mut Vec<MetricDef>,
    name: &str,
    help: &str,
    unit: Option<Unit>,
    kind: MetricKind,
)
    ensures
        metrics_view(final(out)@) == metrics_view(old(out)@).push(
            metric(name@, help@, opt_unit(unit), kind),
        ),
{
    let def = MetricDef { name: name.to_owned(), help: help.to_owned(), unit, kind };
    out.push(def);
    assert(metrics_view(out@) =~= metrics_view(old(out)@).push(def@));
}

/// The metrics that the gateway has, in the order in which they are registered.
pub fn definitions() -> (r: Vec<MetricDef>)
    ensures
        metrics_view(r@) == metric_definitions(),
{
    let mut out: Vec<MetricDef> = Vec::new();
    assert(metrics_view(out@) =~= Seq::<MetricDefView>::empty());
    push_metric(
        &mut out,
        "build",
        "Agentgateway build information",
        None,
        MetricKind::Info,
    );
    push_metric(
        &mut out,
        "gen_ai_client_token_usage",
        "Number of tokens used per request",
        None,
        MetricKind::Histogram(Buckets::TokenUsage),
    );
    push_metric(
        &mut out,
        "gen_ai_client_cost",
        "Cumulative USD cost of generative AI requests",
        Some(Unit::Other("usd".to_owned())),
        MetricKind::FloatCounter,
    );
    push_metric(
        &mut out,
        "gen_ai_server_request_duration",
        "Duration of generative AI request",
        None,
        MetricKind::Histogram(Buckets::RequestDuration),
    );
    push_metric(
        &mut out,
        "gen_ai_server_time_per_output_token",
        "Time to generate each output token for a given request",
        None,
        MetricKind::Histogram(Buckets::OutputToken),
    );
    push_metric(
        &mut out,
        "gen_ai_server_time_to_first_token",
        "Time to generate the first token for a given request",
        None,
        MetricKind::Histogram(Buckets::FirstToken),
    );
    push_metric(
        &mut out,
        "mcp_request_duration",
        "Duration of MCP calls (seconds)",
        Some(Unit::Seconds),
        MetricKind::Histogram(Buckets::HttpRequestDuration),
    );
    push_metric(
        &mut out,
        "requests",
        "The total number of HTTP requests sent",
        None,
        MetricKind::Counter,
    );
    push_metric(
        &mut out,
        "guardrail_checks",
        "Total number of guardrail checks",
        None,
        MetricKind::Counter,
    );
    push_metric(
        &mut out,
        "cost_catalog_lookups",
        "Total number of model cost catalog lookups by resolution status",
        None,
        MetricKind::Counter,
    );
    push_metric(
        &mut out,
        "downstream_connections",
        "The total number of downstream connections established",
        None,
        MetricKind::Counter,
    );
    push_metric(
        &mut out,
        "mcp_requests",
        "Total number of MCP tool calls",
        None,
        MetricKind::Counter,
    );
    push_metric(
        &mut out,
        "mcp_upstream_errors",
        "Total number of MCP upstream/transport errors",
        None,
        MetricKind::Counter,
    );
    push_metric(
        &mut out,
        "response",
        "Total HTTP response bytes received",
        Some(Unit::Bytes),
        MetricKind::Counter,
    );
    push_metric(
        &mut out,
        "request_duration",
        "Duration of HTTP requests (seconds)",
        Some(Unit::Seconds),
        MetricKind::Histogram(Buckets::HttpRequestDuration),
    );
    push_metric(
        &mut out,
        "request_processing",
        "Duration from receiving an HTTP request to sending the primary outbound call (seconds)",
        Some(Unit::Seconds),
        MetricKind::Histogram(Buckets::ProcessingDuration),
    );
    push_metric(
        &mut out,
        "response_processing",
        "Duration from receiving the primary outbound response to sending the HTTP response (seconds)",
        Some(Unit::Seconds),
        MetricKind::Histogram(Buckets::ProcessingDuration),
    );
    push_metric(
        &mut out,
        "downstream_received",
        "Total TCP bytes received per connection labels",
        Some(Unit::Bytes),
        MetricKind::Counter,
    );
    push_metric(
        &mut out,
        "downstream_sent",
        "Total TCP bytes transmitted per connection labels",
        Some(Unit::Bytes),
        MetricKind::Counter,
    );
    push_metric(
        &mut out,
        "upstream_connect_duration",
        "Duration to establish upstream connection (seconds)",
        Some(Unit::Seconds),
        MetricKind::Histogram(Buckets::ConnectDuration),
    );
    push_metric(
        &mut out,
        "upstream_call_duration",
        "Duration of outbound calls made by agentgateway (seconds)",
        Some(Unit::Seconds),
        MetricKind::Histogram(Buckets::HttpRequestDuration),
    );
    push_metric(
        &mut out,
        "tls_handshake_duration",
        "Duration to complete inbound TLS/HTTPS handshake (seconds)",
        Some(Unit::Seconds),
        MetricKind::Histogram(Buckets::ConnectDuration),
    );
    push_metric(
        &mut out,
        "retries",
        "The total number of request retries",
        None,
        MetricKind::Counter,
    );
    assert(metrics_view(out@) =~= metric_definitions());
    out
}

/// What all names of metrics start with when they are scraped.
pub const PREFIX: &'static str = "agentgateway";

/// A set of names, held by `frozen_collections::FzHashSet`.
#[verifier::external_body]
pub struct NameSet {
    set: frozen_collections::FzHashSet<String>,
}

/// The strings that a `frozen_collections::FzHashSet` holds.
pub uninterp spec fn set_view(set: NameSet) -> Set<Seq<char>>;

/// Calls `frozen_collections::FzHashSet::new`: the set holds the strings of the vector.
#[verifier::external_body]
fn freeze(names: Vec<String>) -> (r: NameSet)
    ensures
        set_view(r) == strs(names@).to_set(),
{
    NameSet { set: frozen_collections::FzHashSet::new(names) }
}

/// Calls `frozen_collections::FzHashSet::contains`: whether the set holds the string.
#[verifier::external_body]
fn set_contains(set: &NameSet, name: &String) -> (r: bool)
    ensures
        r == set_view(*set).contains(name@),
{
    set.set.contains(name)
}

/// The names under which a metric without regard to its unit can be excluded: its own, or as it is
/// scraped, each also as that of a counter.
pub open spec fn plain_names(name: Seq<char>) -> Seq<Seq<char>> {
    seq![
        name,
        name + "_total"@,
        PREFIX@ + "_"@ + name + "_total"@,
        PREFIX@ + "_"@ + name,
    ]
}

/// The names under which a metric can be excluded: those of its name and, where it has a unit,
/// those of its name with the unit.
pub open spec fn names_of_metric(name: Seq<char>, unit: Option<UnitView>) -> Seq<Seq<char>> {
    match unit {
        Some(u) => plain_names(name) + plain_names(name + "_"@ + unit_text(u)),
        None => plain_names(name),
    }
}

/// A metric is excluded: one of its names is.
pub open spec fn is_excluded(
    removes: Set<Seq<char>>,
    name: Seq<char>,
    unit: Option<UnitView>,
) -> bool {
    exists|i: int|
        0 <= i < names_of_metric(name, unit).len() && removes.contains(
            #[trigger] names_of_metric(name, unit)[i],
        )
}

/// Which metrics are left out of the registry.
pub struct FilteredRegistry {
    removes: NameSet,
}

fn push_names(out: &mut Vec<String>, name: &str)
    ensures
        strs(final(out)@) == strs(old(out)@) + plain_names(name@),
{
    let total = text::concat(name, "_total");
    let prefixed = text::concat3(PREFIX, "_", name);
    let prefixed_total = text::concat(prefixed.as_str(), "_total");
    out.push(name.to_owned());
    out.push(total);
    out.push(prefixed_total);
    out.push(prefixed);
    assert(strs(out@) =~= strs(old(out)@) + plain_names(name@));
}

impl FilteredRegistry {
    /// The names that are left out.
    pub closed spec fn removed(self) -> Set<Seq<char>> {
        set_view(self.removes)
    }

    /// A registry that leaves out the metrics with these names.
    pub fn new(removes: Vec<String>) -> (r: FilteredRegistry)
        ensures
            r.removed() == strs(removes@).to_set(),
    {
        FilteredRegistry { removes: freeze(removes) }
    }

    /// Whether a metric is left out.
    pub fn should_skip(&self, name: &str, unit: Option<&Unit>) -> (r: bool)
        ensures
            r == is_excluded(
                self.removed(),
                name@,
                opt_unit_ref(unit),
            ),
    {
        let ghost unit_view = opt_unit_ref(unit);
        let ghost all = names_of_metric(name@, unit_view);
        let mut names: Vec<String> = Vec::new();
        push_names(&mut names, name);
        assert(strs(names@) =~= plain_names(name@));
        if let Some(unit) = unit {
            let with_unit = text::concat3(name, "_", unit.as_str());
            push_names(&mut names, with_unit.as_str());
        }
        assert(strs(names@) == all);
        let mut i: usize = 0;
        while i < names.len()
            invariant
                i <= names@.len(),
                strs(names@) == all,
                unit_view == opt_unit_ref(unit),
                all == names_of_metric(name@, unit_view),
                forall|k: int| 0 <= k < i ==> !set_view(self.removes).contains(#[trigger] all[k]),
            decreases names@.len() - i,
        {
            assert(all[i as int] == names@[i as int]@);
            if set_contains(&self.removes, &names[i]) {
                assert(self.removed().contains(names_of_metric(name@, unit_view)[i as int]));
                return true;
            }
            i += 1;
        }
        false
    }
}

/// The metrics of a list that are not excluded, in order.
pub open spec fn kept_metrics(removes: Set<Seq<char>>, defs: Seq<MetricDefView>) -> Seq<
    MetricDefView,
>
    decreases defs.len(),
{
    if defs.len() == 0 {
        defs
    } else {
        let before = kept_metrics(removes, defs.drop_last());
        if is_excluded(removes, defs.last().name, defs.last().unit) {
            before
        } else {
            before.push(defs.last())
        }
    }
}

/// The metrics of the gateway.
pub struct Metrics {
    /// Those that are registered, in order.
    pub registered: Vec<MetricDef>,
}

impl Metrics {
    /// The metrics of the gateway without those that are excluded.
    pub fn new(removes: Vec<String>) -> (r: Metrics)
        ensures
            metrics_view(r.registered@) == kept_metrics(
                strs(removes@).to_set(),
                metric_definitions(),
            ),
    {
        let ghost names = strs(removes@).to_set();
        let registry = FilteredRegistry::new(removes);
        let defs = definitions();
        let ghost all = metrics_view(defs@);
        let mut registered: Vec<MetricDef> = Vec::new();
        assert(metrics_view(registered@) =~= kept_metrics(names, all.take(0)));
        for def in it: defs
            invariant
                all == metrics_view(it.seq()),
                names == registry.removed(),
                metrics_view(registered@) == kept_metrics(names, all.take(it.index())),
        {
            let ghost i = it.index();
            assert(all.take(i + 1).drop_last() =~= all.take(i));
            assert(all.take(i + 1).last() == def@);
            let ghost before = metrics_view(registered@);
            let ghost dv = def@;
            if !registry.should_skip(def.name.as_str(), def.unit.as_ref()) {
                registered.push(def);
                assert(metrics_view(registered@) =~= before.push(dv));
            }
        }
        assert(all.take(all.len() as int) =~= all);
        Metrics { registered }
    }
}

/// Excluding nothing leaves all metrics registered.
pub proof fn law_nothing_excluded_keeps_all(defs: Seq<MetricDefView>)
    ensures
        kept_metrics(Set::empty(), defs) == defs,
    decreases defs.len(),
{
    if defs.len() > 0 {
        law_nothing_excluded_keeps_all(defs.drop_last());
        assert(defs =~= defs.drop_last().push(defs.last()));
    }
}

/// A metric that is excluded under its scraped name is not registered.
pub proof fn law_scraped_name_excludes(removes: Set<Seq<char>>, name: Seq<char>, unit: Option<UnitView>)
    requires
        removes.contains(
            match unit {
                Some(u) => PREFIX@ + "_"@ + (name + "_"@ + unit_text(u)),
                None => PREFIX@ + "_"@ + name,
            },
        ),
    ensures
        is_excluded(removes, name, unit),
{
    let names = names_of_metric(name, unit);
    match unit {
        Some(u) => {
            assert(names[7] == PREFIX@ + "_"@ + (name + "_"@ + unit_text(u)));
        },
        None => {
            assert(names[3] == PREFIX@ + "_"@ + name);
        },
    }
}

/// The metrics that are registered are those that are not excluded, in their order.
pub proof fn law_kept_metrics_are_filtered(removes: Set<Seq<char>>, defs: Seq<MetricDefView>)
    ensures
        kept_metrics(removes, defs) == defs.filter(
            |d: MetricDefView| !is_excluded(removes, d.name, d.unit),
        ),
    decreases defs.len(),
{
    reveal(Seq::filter);
    if defs.len() > 0 {
        law_kept_metrics_are_filtered(removes, defs.drop_last());
    }
}

/// One of the names under which what is called `name` can be excluded is among those removed: the
/// name as it is, or as it is scraped, each also as that of a counter.
pub open spec fn is_removed_as(removes: Set<Seq<char>>, name: Seq<char>) -> bool {
    removes.contains(name) || removes.contains(name + "_total"@) || removes.contains(
        "agentgateway"@ + "_"@ + name,
    ) || removes.contains("agentgateway"@ + "_"@ + name + "_total"@)
}

/// A metric is excluded under its name or, where it has a unit, under its name with the unit, and
/// under nothing else.
pub proof fn law_names_that_exclude(
    removes: Set<Seq<char>>,
    name: Seq<char>,
    unit: Option<UnitView>,
)
    ensures
        is_excluded(removes, name, unit) <==> is_removed_as(removes, name) || (match unit {
            Some(UnitView::Seconds) => is_removed_as(removes, name + "_"@ + "seconds"@),
            Some(UnitView::Bytes) => is_removed_as(removes, name + "_"@ + "bytes"@),
            Some(UnitView::Other(words)) => is_removed_as(removes, name + "_"@ + words),
            None => false,
        }),
{
    let names = names_of_metric(name, unit);
    let plain = plain_names(name);
    assert(names[0] == plain[0] && names[1] == plain[1] && names[2] == plain[2] && names[3]
        == plain[3]);
    if let Some(u) = unit {
        let with_unit = plain_names(name + "_"@ + unit_text(u));
        assert(names[4] == with_unit[0] && names[5] == with_unit[1] && names[6] == with_unit[2]
            && names[7] == with_unit[3]);
    }
    if is_excluded(removes, name, unit) {
        let i = choose|i: int| 0 <= i < names.len() && removes.contains(#[trigger] names[i]);
        assert(0 <= i < 8);
    }
}

/// A metric is registered, unless one of its names is among those removed.
pub open spec fn registers(removes: Set<Seq<char>>, def: MetricDefView) -> bool {
    is_excluded(removes, def.name, def.unit) || kept_metrics(removes, metric_definitions()).contains(
        def,
    )
}

proof fn lemma_registers(removes: Set<Seq<char>>, i: int)
    requires
        0 <= i < metric_definitions().len(),
    ensures
        registers(removes, metric_definitions()[i]),
{
    let defs = metric_definitions();
    if !is_excluded(removes, defs[i].name, defs[i].unit) {
        lemma_kept_contains(removes, defs, i);
    }
}

proof fn lemma_kept_contains(removes: Set<Seq<char>>, defs: Seq<MetricDefView>, i: int)
    requires
        0 <= i < defs.len(),
        !is_excluded(removes, defs[i].name, defs[i].unit),
    ensures
        kept_metrics(removes, defs).contains(defs[i]),
    decreases defs.len(),
{
    let head = defs.drop_last();
    let before = kept_metrics(removes, head);
    let kept = kept_metrics(removes, defs);
    if i < head.len() {
        lemma_kept_contains(removes, head, i);
        let k = choose|k: int| 0 <= k < before.len() && before[k] == defs[i];
        assert(kept[k] == defs[i]);
    } else {
        assert(kept.last() == defs[i]);
    }
}

/// The metrics of the gateway: each is registered, whatever others are removed, as what it is.
pub proof fn law_metrics_are_registered(removes: Set<Seq<char>>)
    ensures
        registers(
            removes,
            MetricDefView {
                name: "build"@,
                help: "Agentgateway build information"@,
                unit: None,
                kind: MetricKind::Info,
            },
        ),
        registers(
            removes,
            MetricDefView {
                name: "gen_ai_client_token_usage"@,
                help: "Number of tokens used per request"@,
                unit: None,
                kind: MetricKind::Histogram(Buckets::TokenUsage),
            },
        ),
        registers(
            removes,
            MetricDefView {
                name: "gen_ai_client_cost"@,
                help: "Cumulative USD cost of generative AI requests"@,
                unit: Some(UnitView::Other("usd"@)),
                kind: MetricKind::FloatCounter,
            },
        ),
        registers(
            removes,
            MetricDefView {
                name: "gen_ai_server_request_duration"@,
                help: "Duration of generative AI request"@,
                unit: None,
                kind: MetricKind::Histogram(Buckets::RequestDuration),
            },
        ),
        registers(
            removes,
            MetricDefView {
                name: "gen_ai_server_time_per_output_token"@,
                help: "Time to generate each output token for a given request"@,
                unit: None,
                kind: MetricKind::Histogram(Buckets::OutputToken),
            },
        ),
        registers(
            removes,
            MetricDefView {
                name: "gen_ai_server_time_to_first_token"@,
                help: "Time to generate the first token for a given request"@,
                unit: None,
                kind: MetricKind::Histogram(Buckets::FirstToken),
            },
        ),
        registers(
            removes,
            MetricDefView {
                name: "mcp_request_duration"@,
                help: "Duration of MCP calls (seconds)"@,
                unit: Some(UnitView::Seconds),
                kind: MetricKind::Histogram(Buckets::HttpRequestDuration),
            },
        ),
        registers(
            removes,
            MetricDefView {
                name: "requests"@,
                help: "The total number of HTTP requests sent"@,
                unit: None,
                kind: MetricKind::Counter,
            },
        ),
        registers(
            removes,
            MetricDefView {
                name: "guardrail_checks"@,
                help: "Total number of guardrail checks"@,
                unit: None,
                kind: MetricKind::Counter,
            },
        ),
        registers(
            removes,
            MetricDefView {
                name: "cost_catalog_lookups"@,
                help: "Total number of model cost catalog lookups by resolution status"@,
                unit: None,
                kind: MetricKind::Counter,
            },
        ),
        registers(
            removes,
            MetricDefView {
                name: "downstream_connections"@,
                help: "The total number of downstream connections established"@,
                unit: None,
                kind: MetricKind::Counter,
            },
        ),
        registers(
            removes,
            MetricDefView {
                name: "mcp_requests"@,
                help: "Total number of MCP tool calls"@,
                unit: None,
                kind: MetricKind::Counter,
            },
        ),
        registers(
            removes,
            MetricDefView {
                name: "mcp_upstream_errors"@,
                help: "Total number of MCP upstream/transport errors"@,
                unit: None,
                kind: MetricKind::Counter,
            },
        ),
        registers(
            removes,
            MetricDefView {
                name: "response"@,
                help: "Total HTTP response bytes received"@,
                unit: Some(UnitView::Bytes),
                kind: MetricKind::Counter,
            },
        ),
        registers(
            removes,
            MetricDefView {
                name: "request_duration"@,
                help: "Duration of HTTP requests (seconds)"@,
                unit: Some(UnitView::Seconds),
                kind: MetricKind::Histogram(Buckets::HttpRequestDuration),
            },
        ),
        registers(
            removes,
            MetricDefView {
                name: "request_processing"@,
                help: "Duration from receiving an HTTP request to sending the primary outbound call (seconds)"@,
                unit: Some(UnitView::Seconds),
                kind: MetricKind::Histogram(Buckets::ProcessingDuration),
            },
        ),
        registers(
            removes,
            MetricDefView {
                name: "response_processing"@,
                help: "Duration from receiving the primary outbound response to sending the HTTP response (seconds)"@,
                unit: Some(UnitView::Seconds),
                kind: MetricKind::Histogram(Buckets::ProcessingDuration),
            },
        ),
        registers(
            removes,
            MetricDefView {
                name: "downstream_received"@,
                help: "Total TCP bytes received per connection labels"@,
                unit: Some(UnitView::Bytes),
                kind: MetricKind::Counter,
            },
        ),
        registers(
            removes,
            MetricDefView {
                name: "downstream_sent"@,
                help: "Total TCP bytes transmitted per connection labels"@,
                unit: Some(UnitView::Bytes),
                kind: MetricKind::Counter,
            },
        ),
        registers(
            removes,
            MetricDefView {
                name: "upstream_connect_duration"@,
                help: "Duration to establish upstream connection (seconds)"@,
                unit: Some(UnitView::Seconds),
                kind: MetricKind::Histogram(Buckets::ConnectDuration),
            },
        ),
        registers(
            removes,
            MetricDefView {
                name: "upstream_call_duration"@,
                help: "Duration of outbound calls made by agentgateway (seconds)"@,
                unit: Some(UnitView::Seconds),
                kind: MetricKind::Histogram(Buckets::HttpRequestDuration),
            },
        ),
        registers(
            removes,
            MetricDefView {
                name: "tls_handshake_duration"@,
                help: "Duration to complete inbound TLS/HTTPS handshake (seconds)"@,
                unit: Some(UnitView::Seconds),
                kind: MetricKind::Histogram(Buckets::ConnectDuration),
            },
        ),
        registers(
            removes,
            MetricDefView {
                name: "retries"@,
                help: "The total number of request retries"@,
                unit: None,
                kind: MetricKind::Counter,
            },
        ),
        kept_metrics(Set::empty(), metric_definitions()).len() == 23,
{
    lemma_registers(removes, 0);
    lemma_registers(removes, 1);
    lemma_registers(removes, 2);
    lemma_registers(removes, 3);
    lemma_registers(removes, 4);
    lemma_registers(removes, 5);
    lemma_registers(removes, 6);
    lemma_registers(removes, 7);
    lemma_registers(removes, 8);
    lemma_registers(removes, 9);
    lemma_registers(removes, 10);
    lemma_registers(removes, 11);
    lemma_registers(removes, 12);
    lemma_registers(removes, 13);
    lemma_registers(removes, 14);
    lemma_registers(removes, 15);
    lemma_registers(removes, 16);
    lemma_registers(removes, 17);
    lemma_registers(removes, 18);
    lemma_registers(removes, 19);
    lemma_registers(removes, 20);
    lemma_registers(removes, 21);
    lemma_registers(removes, 22);
    law_nothing_excluded_keeps_all(metric_definitions());
}

} // verus!
