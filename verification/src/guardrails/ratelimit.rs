//! The rate-limit guardrail: what the service is asked, and what its answers mean.
//!
//! A descriptor that peeks is looked at before the call, and counted after it succeeded. Any other
//! is counted before the call.

use crate::decimal;
use crate::guardrails::denial::{denial_from_error, plain_rejection, strip_client_error_data, stripped};
use crate::guardrails::metadata::{
    McpGuardrailsDynamicMetadata, bag_view, merge_metadata_into_extensions,
    merge_rate_limit_mcp_error_into_extensions, with_rate_limit_error, with_values,
};
use crate::guardrails::rate_limit_types::{
    RateLimit, RateLimitDescriptor, RateLimitDescriptorEntry, RateLimitType,
};
use crate::guardrails::{FailureMode, Outcome, Side};
use crate::info::{MCPInfo, MCPTool, blank_info};
use crate::json::{
    Json, JsonMap, JsonView, MembersView, items_view, lemma_json_view, members_view,
};
use crate::json_value::parsed_json;
use crate::model::{ErrorData, ErrorDataView, INTERNAL_ERROR, ServerResult, opt_str};
use crate::rewrite::copy_opt_str;
use crate::text;
use vstd::prelude::*;
use vstd::string::*;

verus! {

/// A limit in place of the service's own.
#[derive(Debug, PartialEq, Eq)]
pub struct DescriptorLimitOverride {
    pub unit: String,
    pub requests_per_unit: u32,
}

/// What the expressions of a descriptor evaluate to for one request.
#[derive(Debug, PartialEq, Eq)]
pub struct EvaluatedDescriptor {
    /// The values of its parts, where their expressions give strings.
    pub values: Vec<Option<String>>,
    /// The limit, where the expression for it gives one.
    pub limit_override: Option<DescriptorLimitOverride>,
}

/// A JSON object with these members.
pub open spec fn object(members: MembersView) -> JsonView {
    JsonView::Object(members)
}

/// One part of a descriptor as the service is told it.
pub open spec fn part_json(key: Seq<char>, value: Seq<char>) -> JsonView {
    object(seq![("key"@, JsonView::Str(key)), ("value"@, JsonView::Str(value))])
}

/// All parts have a value.
pub open spec fn all_evaluated(
    entries: Seq<RateLimitDescriptor>,
    values: Seq<Option<String>>,
) -> bool {
    entries.len() <= values.len() && forall|i: int|
        0 <= i < entries.len() ==> (#[trigger] values[i]) is Some
}

/// The parts of a descriptor as the service is told them.
pub open spec fn parts_json(
    entries: Seq<RateLimitDescriptor>,
    values: Seq<Option<String>>,
) -> Seq<JsonView> {
    Seq::new(entries.len(), |i: int| part_json(entries[i].key@, values[i]->0@))
}

/// The name that the service has for a unit of time, in whatever case the unit is written.
pub open spec fn unit_name(unit: Seq<char>) -> Option<Seq<char>> {
    if text::same_but_case(unit, "second"@) {
        Some("SECOND"@)
    } else if text::same_but_case(unit, "minute"@) {
        Some("MINUTE"@)
    } else if text::same_but_case(unit, "hour"@) {
        Some("HOUR"@)
    } else if text::same_but_case(unit, "day"@) {
        Some("DAY"@)
    } else if text::same_but_case(unit, "month"@) {
        Some("MONTH"@)
    } else if text::same_but_case(unit, "year"@) {
        Some("YEAR"@)
    } else {
        None
    }
}

/// The limit of a descriptor as the service is told it: `Ok(None)` where none is configured, and
/// `Err` where its expression failed or its unit is not known.
pub open spec fn limit_json(
    expression: Option<String>,
    evaluated: Option<DescriptorLimitOverride>,
) -> Result<Option<JsonView>, ()> {
    match (expression, evaluated) {
        (None, _) => Ok(None),
        (Some(_), None) => Err(()),
        (Some(_), Some(limit)) => match unit_name(limit.unit@) {
            Some(unit) => Ok(
                Some(
                    object(
                        seq![
                            (
                                "requestsPerUnit"@,
                                JsonView::Number(
                                    decimal::decimal_text(limit.requests_per_unit as int),
                                ),
                            ),
                            ("unit"@, JsonView::Str(unit)),
                        ],
                    ),
                ),
            ),
            None => Err(()),
        },
    }
}

/// By how much the count of a descriptor goes up.
pub open spec fn hits_addend(entry: RateLimitDescriptorEntry, side: Side) -> int {
    if side == Side::Request && entry.peek {
        0
    } else {
        1
    }
}

/// A descriptor takes part on a side of the call. After a call that failed nothing is counted.
pub open spec fn takes_part(
    entry: RateLimitDescriptorEntry,
    side: Side,
    is_error: Option<bool>,
) -> bool {
    &&& entry.limit_type == RateLimitType::Requests
    &&& match side {
        Side::Request => true,
        Side::Response => entry.peek && is_error != Some(true),
    }
}

/// A descriptor as the service is told it; `None` where it takes no part or could not be
/// evaluated.
pub open spec fn descriptor_json(
    entry: RateLimitDescriptorEntry,
    eval: EvaluatedDescriptor,
    side: Side,
    is_error: Option<bool>,
) -> Option<JsonView> {
    if !takes_part(entry, side, is_error) || entry.entries@.len() == 0 || !all_evaluated(
        entry.entries@,
        eval.values@,
    ) {
        None
    } else {
        let base = seq![
            ("entries"@, JsonView::Array(parts_json(entry.entries@, eval.values@))),
            ("hitsAddend"@, JsonView::Number(decimal::decimal_text(hits_addend(entry, side)))),
        ];
        match limit_json(entry.limit_override, eval.limit_override) {
            Ok(Some(limit)) => Some(object(base.push(("limit"@, limit)))),
            Ok(None) => Some(object(base)),
            Err(_) => None,
        }
    }
}

/// The descriptors that the service is told.
pub open spec fn descriptors_json(
    entries: Seq<RateLimitDescriptorEntry>,
    evals: Seq<EvaluatedDescriptor>,
    side: Side,
    is_error: Option<bool>,
) -> Seq<JsonView>
    decreases entries.len(),
{
    if entries.len() == 0 {
        Seq::empty()
    } else {
        let before = descriptors_json(entries.drop_last(), evals, side, is_error);
        let i = entries.len() - 1;
        if i < evals.len() {
            match descriptor_json(entries[i], evals[i], side, is_error) {
                Some(d) => before.push(d),
                None => before,
            }
        } else {
            before
        }
    }
}

/// What the service is told of a call; `None` where it need not be asked.
pub open spec fn rate_limit_metadata(
    rate_limit: RateLimit,
    evals: Seq<EvaluatedDescriptor>,
    side: Side,
    is_error: Option<bool>,
) -> Option<JsonView> {
    let descriptors = descriptors_json(rate_limit.descriptors.0@, evals, side, is_error);
    if descriptors.len() == 0 {
        None
    } else {
        Some(
            object(
                seq![
                    ("domain"@, JsonView::Str(rate_limit.domain@)),
                    ("descriptors"@, JsonView::Array(descriptors)),
                ],
            ),
        )
    }
}

fn two_members(a: &str, x: Json, b: &str, y: Json) -> (r: JsonMap)
    ensures
        members_view(r@) == seq![(a@, x@), (b@, y@)],
{
    let mut r: JsonMap = Vec::new();
    r.push((a.to_owned(), x));
    r.push((b.to_owned(), y));
    assert(members_view(r@) =~= seq![(a@, x@), (b@, y@)]);
    r
}

fn eval_descriptor(entries: &Vec<RateLimitDescriptor>, values: &Vec<Option<String>>) -> (r: Option<
    Vec<Json>,
>)
    ensures
        match r {
            Some(v) => all_evaluated(entries@, values@) && items_view(v@) == parts_json(
                entries@,
                values@,
            ),
            None => !all_evaluated(entries@, values@),
        },
{
    if entries.len() > values.len() {
        return None;
    }
    let mut out: Vec<Json> = Vec::new();
    let mut i: usize = 0;
    while i < entries.len()
        invariant
            i <= entries@.len() <= values@.len(),
            out@.len() == i,
            forall|k: int| 0 <= k < i ==> (#[trigger] values@[k]) is Some,
            forall|k: int|
                0 <= k < i ==> (#[trigger] out@[k])@ == part_json(
                    entries@[k].key@,
                    values@[k]->0@,
                ),
        decreases entries@.len() - i,
    {
        match &values[i] {
            Some(value) => {
                let part = Json::Object(
                    two_members(
                        "key",
                        Json::Str(entries[i].key.clone()),
                        "value",
                        Json::Str(value.clone()),
                    ),
                );
                assert(part@ == part_json(entries@[i as int].key@, value@)) by {
                    lemma_json_view(part);
                }
                out.push(part);
            },
            None => {
                assert(values@[i as int] is None);
                return None;
            },
        }
        i += 1;
    }
    assert(items_view(out@) =~= parts_json(entries@, values@));
    Some(out)
}

fn known_unit(unit: &str) -> (r: Option<&'static str>)
    ensures
        match r {
            Some(name) => unit_name(unit@) == Some(name@),
            None => unit_name(unit@) is None,
        },
{
    if text::same_ignoring_case(unit, "second") {
        Some("SECOND")
    } else if text::same_ignoring_case(unit, "minute") {
        Some("MINUTE")
    } else if text::same_ignoring_case(unit, "hour") {
        Some("HOUR")
    } else if text::same_ignoring_case(unit, "day") {
        Some("DAY")
    } else if text::same_ignoring_case(unit, "month") {
        Some("MONTH")
    } else if text::same_ignoring_case(unit, "year") {
        Some("YEAR")
    } else {
        None
    }
}

fn eval_limit_override(
    expression: &Option<String>,
    evaluated: &Option<DescriptorLimitOverride>,
) -> (r: Result<Option<Json>, ()>)
    ensures
        match limit_json(*expression, *evaluated) {
            Ok(Some(j)) => r matches Ok(Some(x)) && x@ == j,
            Ok(None) => r matches Ok(None),
            Err(_) => r is Err,
        },
{
    broadcast use lemma_json_view;

    if expression.is_none() {
        return Ok(None);
    }
    let limit = match evaluated {
        Some(limit) => limit,
        None => {
            return Err(());
        },
    };
    match known_unit(limit.unit.as_str()) {
        Some(unit) => {
            let count = decimal::format_u64(limit.requests_per_unit as u64);
            Ok(
                Some(
                    Json::Object(
                        two_members(
                            "requestsPerUnit",
                            Json::Number(count),
                            "unit",
                            Json::Str(unit.to_owned()),
                        ),
                    ),
                ),
            )
        },
        None => Err(()),
    }
}

fn build_descriptor(
    entry: &RateLimitDescriptorEntry,
    eval: &EvaluatedDescriptor,
    side: Side,
    is_error: Option<bool>,
) -> (r: Option<Json>)
    ensures
        match descriptor_json(*entry, *eval, side, is_error) {
            Some(d) => r matches Some(x) && x@ == d,
            None => r is None,
        },
{
    broadcast use lemma_json_view;

    if entry.limit_type != RateLimitType::Requests {
        return None;
    }
    let failed = match is_error {
        Some(b) => b,
        None => false,
    };
    if side == Side::Response && (!entry.peek || failed) {
        return None;
    }
    if entry.entries.len() == 0 {
        return None;
    }
    let entries = match eval_descriptor(&entry.entries, &eval.values) {
        Some(entries) => entries,
        None => {
            return None;
        },
    };
    let limit = match eval_limit_override(&entry.limit_override, &eval.limit_override) {
        Ok(limit) => limit,
        Err(_) => {
            return None;
        },
    };
    let addend: u64 = if side == Side::Request && entry.peek {
        0
    } else {
        1
    };
    let array = Json::Array(entries);
    let number = Json::Number(decimal::format_u64(addend));
    let ghost base = seq![("entries"@, array@), ("hitsAddend"@, number@)];
    let mut members = two_members("entries", array, "hitsAddend", number);
    if let Some(limit) = limit {
        let ghost limit_view = limit@;
        members.push(("limit".to_owned(), limit));
        assert(members_view(members@) =~= base.push(("limit"@, limit_view)));
    }
    Some(Json::Object(members))
}

/// What the rate-limit service is told of a call; `None` where it need not be asked. `evals` holds
/// what the expressions of the descriptors evaluate to, in their order; `is_error` says whether
/// the call failed, where that is known.
pub fn build_metadata(
    rate_limit: &RateLimit,
    evals: &Vec<EvaluatedDescriptor>,
    side: Side,
    is_error: Option<bool>,
) -> (r: Option<Json>)
    ensures
        match rate_limit_metadata(*rate_limit, evals@, side, is_error) {
            Some(j) => r matches Some(x) && x@ == j,
            None => r is None,
        },
{
    broadcast use lemma_json_view;

    let entries = &rate_limit.descriptors.0;
    let ghost all = entries@;
    let mut out: Vec<Json> = Vec::new();
    let mut i: usize = 0;
    assert(all.take(0) =~= Seq::<RateLimitDescriptorEntry>::empty());
    assert(items_view(out@) =~= descriptors_json(all.take(0), evals@, side, is_error));
    while i < entries.len()
        invariant
            i <= all.len(),
            all == entries@,
            items_view(out@) == descriptors_json(all.take(i as int), evals@, side, is_error),
        decreases all.len() - i,
    {
        assert(all.take(i + 1).drop_last() =~= all.take(i as int));
        let ghost before = items_view(out@);
        if i < evals.len() {
            if let Some(d) = build_descriptor(&entries[i], &evals[i], side, is_error) {
                let ghost dv = d@;
                out.push(d);
                assert(items_view(out@) =~= before.push(dv));
            }
        }
        i += 1;
    }
    assert(all.take(i as int) =~= all);
    assert(items_view(out@).len() == out@.len());
    if out.len() == 0 {
        return None;
    }
    let members = two_members(
        "domain",
        Json::Str(rate_limit.domain.clone()),
        "descriptors",
        Json::Array(out),
    );
    Some(Json::Object(members))
}

/// What the service is asked before a call.
#[derive(Debug, PartialEq, Eq)]
pub struct McpRequest {
    /// The upstreams that the call goes to.
    pub service_names: Vec<String>,
    pub method: String,
    /// What is to be looked at or counted.
    pub metadata_context: Json,
    /// The parameters of the call, as JSON text.
    pub mcp_request: Option<Vec<u8>>,
}

/// What the service is asked after a call.
#[derive(Debug, PartialEq, Eq)]
pub struct McpResponse {
    /// The upstreams that answered.
    pub service_names: Vec<String>,
    pub method: String,
    /// What is to be counted.
    pub metadata_context: Json,
    /// The result of the call, as JSON text.
    pub mcp_response: Vec<u8>,
    /// The replica of the service that is asked; any may be where none is named.
    pub replica: Option<String>,
}

/// What the service is asked before a call to these upstreams; `None` where it need not be asked,
/// and the call passes.
pub fn request_question(
    rate_limit: &RateLimit,
    evals: &Vec<EvaluatedDescriptor>,
    method: &str,
    backends: Vec<String>,
    body: Option<Vec<u8>>,
) -> (r: Option<McpRequest>)
    ensures
        match rate_limit_metadata(*rate_limit, evals@, Side::Request, None) {
            Some(j) => r matches Some(q) && q.service_names == backends && q.method@ == method@
                && q.metadata_context@ == j && q.mcp_request == body,
            None => r is None,
        },
{
    match build_metadata(rate_limit, evals, Side::Request, None) {
        Some(metadata_context) => Some(
            McpRequest {
                service_names: backends,
                method: method.to_owned(),
                metadata_context,
                mcp_request: body,
            },
        ),
        None => None,
    }
}

/// What the service is asked after a call to these upstreams; `None` where it need not be asked.
/// Whatever it answers, the result of the call passes. `is_error` says whether the call failed,
/// where that is known. Where a replica of the service was kept before the call, it is asked again.
pub fn response_question(
    rate_limit: &RateLimit,
    evals: &Vec<EvaluatedDescriptor>,
    method: &str,
    backends: Vec<String>,
    body: Vec<u8>,
    is_error: Option<bool>,
    pin: &Option<String>,
) -> (r: Option<McpResponse>)
    ensures
        match rate_limit_metadata(*rate_limit, evals@, Side::Response, is_error) {
            Some(j) => r matches Some(q) && q.service_names == backends && q.method@ == method@
                && q.metadata_context@ == j && q.mcp_response == body && opt_str(q.replica)
                == opt_str(*pin),
            None => r is None,
        },
{
    match build_metadata(rate_limit, evals, Side::Response, is_error) {
        Some(metadata_context) => Some(
            McpResponse {
                service_names: backends,
                method: method.to_owned(),
                metadata_context,
                mcp_response: body,
                replica: copy_opt_str(pin),
            },
        ),
        None => None,
    }
}

/// The reasons that the service has for an error.
#[derive(Debug, Clone, Copy, PartialEq, Eq, Structural)]
pub enum AuthCode {
    Unknown,
    Invalid,
    PermissionDenied,
    ResourceExhausted,
}

/// An error that the service answered with.
#[derive(Debug, PartialEq, Eq)]
pub struct AuthorizationError {
    /// The reason; `None` for one that is not known.
    pub code: Option<AuthCode>,
    /// The error as a client would see it.
    pub error: ErrorData,
    /// Details for policies, as JSON text.
    pub mcp_error: Option<Vec<u8>>,
}

/// What the service answered to a call that is about to be made.
#[derive(Debug, PartialEq, Eq)]
pub enum RequestReply {
    /// The call to the service failed, with this message.
    Failed(String),
    /// The call may be made. The values are for later policies.
    Pass(Vec<(String, Option<Json>)>),
    /// The call should be changed. A rate limit has no business to.
    Mutated(Vec<(String, Option<Json>)>),
    Error(AuthorizationError),
    /// The answer holds no result.
    Missing,
}

/// A service that failed, or did not answer as it should, rejects calls with this message unless
/// the guardrail fails open.
pub open spec fn on_failure(mode: FailureMode, message: Seq<char>) -> Option<ErrorDataView> {
    match mode {
        FailureMode::FailOpen => None,
        FailureMode::FailClosed => Some(
            ErrorDataView { code: INTERNAL_ERROR as int, message, data: None },
        ),
    }
}

/// A reason that always rejects: the limit is reached, or the call is forbidden.
pub open spec fn always_rejects(code: Option<AuthCode>) -> bool {
    code == Some(AuthCode::ResourceExhausted) || code == Some(AuthCode::PermissionDenied)
}

/// The error with which a call is rejected; `None` where it may be made.
pub open spec fn rejection_of(mode: FailureMode, reply: RequestReply) -> Option<ErrorDataView> {
    match reply {
        RequestReply::Failed(m) => on_failure(
            mode,
            "mcpGuardrails rateLimit "@ + "checkRequest"@ + " failed: "@ + m@,
        ),
        RequestReply::Pass(_) => None,
        RequestReply::Mutated(_) => None,
        RequestReply::Error(e) => if always_rejects(e.code) || mode == FailureMode::FailClosed {
            Some(stripped(e.error@))
        } else {
            None
        },
        RequestReply::Missing => on_failure(
            mode,
            "mcpGuardrails rateLimit protocol violation: "@ + "missing result oneof"@,
        ),
    }
}

/// What is attached to the request after the service answered.
pub open spec fn bag_after(bag: MembersView, reply: RequestReply) -> MembersView {
    match reply {
        RequestReply::Pass(fields) => with_values(bag, fields@),
        RequestReply::Mutated(fields) => with_values(bag, fields@),
        RequestReply::Error(e) => match e.mcp_error {
            Some(bytes) => if bytes@.len() > 0 {
                with_rate_limit_error(bag, parsed_json(bytes@))
            } else {
                bag
            },
            None => bag,
        },
        _ => bag,
    }
}

fn rejecting<P>(mode: FailureMode, message: String) -> (r: Outcome<P>)
    ensures
        match on_failure(mode, message@) {
            Some(e) => r matches Outcome::Reject(d) && d@ == plain_rejection(e),
            None => r is Pass,
        },
{
    match mode {
        FailureMode::FailOpen => Outcome::Pass,
        FailureMode::FailClosed => Outcome::Reject(
            denial_from_error(ErrorData { code: INTERNAL_ERROR, message, data: None }),
        ),
    }
}

/// What an error of the service means. Its details go to the policies, and not to the client.
fn on_inband_service_error<P>(
    rate_limit: &RateLimit,
    e: AuthorizationError,
    bag: &mut Option<McpGuardrailsDynamicMetadata>,
) -> (r: Outcome<P>)
    ensures
        match rejection_of(rate_limit.failure_mode, RequestReply::Error(e)) {
            Some(error) => r matches Outcome::Reject(d) && d@ == plain_rejection(error),
            None => r is Pass,
        },
        bag_view(*final(bag)) == bag_after(bag_view(*old(bag)), RequestReply::Error(e)),
{
    if let Some(bytes) = &e.mcp_error {
        if bytes.len() > 0 {
            merge_rate_limit_mcp_error_into_extensions(bytes.as_slice(), bag);
        }
    }
    let code = match e.code {
        Some(code) => code,
        None => AuthCode::Unknown,
    };
    let rejects = match code {
        AuthCode::ResourceExhausted | AuthCode::PermissionDenied => true,
        AuthCode::Unknown | AuthCode::Invalid => rate_limit.failure_mode == FailureMode::FailClosed,
    };
    if rejects {
        Outcome::Reject(denial_from_error(strip_client_error_data(e.error)))
    } else {
        Outcome::Pass
    }
}

/// What it means that the call `rpc` to the service failed.
fn on_grpc_error<P>(rate_limit: &RateLimit, rpc: &str, message: &str) -> (r: Outcome<P>)
    ensures
        match on_failure(
            rate_limit.failure_mode,
            "mcpGuardrails rateLimit "@ + rpc@ + " failed: "@ + message@,
        ) {
            Some(e) => r matches Outcome::Reject(d) && d@ == plain_rejection(e),
            None => r is Pass,
        },
{
    let mut text = text::concat3("mcpGuardrails rateLimit ", rpc, " failed: ");
    text.append(message);
    rejecting(rate_limit.failure_mode, text)
}

/// What it means that the service did not answer as it should.
fn on_protocol_violation<P>(rate_limit: &RateLimit, reason: &str) -> (r: Outcome<P>)
    ensures
        match on_failure(
            rate_limit.failure_mode,
            "mcpGuardrails rateLimit protocol violation: "@ + reason@,
        ) {
            Some(e) => r matches Outcome::Reject(d) && d@ == plain_rejection(e),
            None => r is Pass,
        },
{
    let text = text::concat("mcpGuardrails rateLimit protocol violation: ", reason);
    rejecting(rate_limit.failure_mode, text)
}

/// The replica of the service that is kept for the count after the call: the one that let the call
/// pass, where it is known.
pub open spec fn pin_after(
    pin: Option<String>,
    reply: RequestReply,
    replica: Option<String>,
) -> Option<String> {
    if (reply is Pass || reply is Mutated) && replica is Some {
        replica
    } else {
        pin
    }
}

/// What the answer of the service to a call that is about to be made means. `replica` is the
/// replica of the service that gave it; `pin` is the one that is kept for the count after the
/// call.
pub fn check_request<P>(
    rate_limit: &RateLimit,
    reply: RequestReply,
    replica: Option<String>,
    bag: &mut Option<McpGuardrailsDynamicMetadata>,
    pin: &mut Option<String>,
) -> (r: Outcome<P>)
    ensures
        match rejection_of(rate_limit.failure_mode, reply) {
            Some(error) => r matches Outcome::Reject(d) && d@ == plain_rejection(error),
            None => r is Pass,
        },
        bag_view(*final(bag)) == bag_after(bag_view(*old(bag)), reply),
        *final(pin) == pin_after(*old(pin), reply, replica),
{
    match reply {
        RequestReply::Failed(m) => on_grpc_error(rate_limit, "checkRequest", m.as_str()),
        RequestReply::Pass(fields) => {
            merge_metadata_into_extensions(fields, bag);
            if replica.is_some() {
                *pin = replica;
            }
            Outcome::Pass
        },
        RequestReply::Mutated(fields) => {
            merge_metadata_into_extensions(fields, bag);
            if replica.is_some() {
                *pin = replica;
            }
            Outcome::Pass
        },
        RequestReply::Error(e) => on_inband_service_error(rate_limit, e, bag),
        RequestReply::Missing => on_protocol_violation(rate_limit, "missing result oneof"),
    }
}

/// What is recorded of a call once its result is there: whether a tool call failed, and what it
/// returned.
pub open spec fn with_outcome(
    before: MCPInfo,
    after: MCPInfo,
    method: Seq<char>,
    result: ServerResult,
    payload: Option<Json>,
) -> bool {
    &&& after.method_name matches Some(m) && m@ == (match before.method_name {
        Some(b) => b@,
        None => method,
    })
    &&& match result {
        ServerResult::CallToolResult(call) => {
            &&& after.is_error == Some(call.is_error == Some(true))
            &&& match before.tool {
                Some(t) => after == (MCPInfo {
                    method_name: after.method_name,
                    tool: Some(MCPTool { result: payload, ..t }),
                    is_error: after.is_error,
                    ..before
                }),
                None => {
                    &&& after.tool matches Some(t) && t.target@ == Seq::<char>::empty() && t.name@
                        == Seq::<char>::empty() && t.arguments is None && t.result == payload
                        && t.error is None
                    &&& after == (MCPInfo {
                        method_name: after.method_name,
                        tool: after.tool,
                        prompt: None,
                        resource: None,
                        task: None,
                        is_error: after.is_error,
                        ..before
                    })
                },
            }
        },
        _ => after == (MCPInfo { method_name: after.method_name, ..before }),
    }
}

/// Records the result of a call; `payload` is the result as JSON.
pub fn apply_response_outcome(
    mcp: &mut MCPInfo,
    method: &str,
    result: &ServerResult,
    payload: Option<Json>,
)
    ensures
        with_outcome(*old(mcp), *final(mcp), method@, *result, payload),
{
    match result {
        ServerResult::CallToolResult(call) => {
            if mcp.tool.is_none() {
                mcp.set_tool(String::new(), String::new());
            }
            mcp.capture_call_result(payload);
            let failed = match call.is_error {
                Some(b) => b,
                None => false,
            };
            mcp.is_error = Some(failed);
        },
        _ => {},
    }
    if mcp.method_name.is_none() {
        mcp.method_name = Some(method.to_owned());
    }
}

/// What is recorded of a call of which only the result is known.
pub fn build_mcp_info_from_result(method: &str, result: &ServerResult, payload: Option<Json>) -> (r:
    MCPInfo)
    ensures
        exists|before: MCPInfo|
            {
                &&& before == (MCPInfo { method_name: before.method_name, ..blank_info() })
                &&& before.method_name matches Some(m) && m@ == method@
                &&& #[trigger] with_outcome(before, r, method@, *result, payload)
            },
{
    let mut info = MCPInfo::default();
    info.method_name = Some(method.to_owned());
    let ghost before = info;
    apply_response_outcome(&mut info, method, result, payload);
    assert(with_outcome(before, info, method@, *result, payload));
    info
}

/// What the rate limit is told on the response side of a call: what was recorded on the request
/// side, where anything was, and the result.
pub fn check_response(
    method: &str,
    request_mcp: Option<MCPInfo>,
    result: &ServerResult,
    payload: Option<Json>,
) -> (r: MCPInfo)
    ensures
        match request_mcp {
            Some(info) => with_outcome(info, r, method@, *result, payload),
            None => exists|before: MCPInfo|
                {
                    &&& before == (MCPInfo { method_name: before.method_name, ..blank_info() })
                    &&& before.method_name matches Some(m) && m@ == method@
                    &&& #[trigger] with_outcome(before, r, method@, *result, payload)
                },
        },
{
    match request_mcp {
        Some(info) => {
            let mut info = info;
            apply_response_outcome(&mut info, method, result, payload);
            info
        },
        None => build_mcp_info_from_result(method, result, payload),
    }
}

/// A call that failed is not counted: after it the service is not asked.
pub proof fn law_failed_calls_are_not_counted(
    rate_limit: RateLimit,
    evals: Seq<EvaluatedDescriptor>,
)
    ensures
        rate_limit_metadata(rate_limit, evals, Side::Response, Some(true)) is None,
{
    lemma_nothing_counted(rate_limit.descriptors.0@, evals);
}

proof fn lemma_nothing_counted(
    entries: Seq<RateLimitDescriptorEntry>,
    evals: Seq<EvaluatedDescriptor>,
)
    ensures
        descriptors_json(entries, evals, Side::Response, Some(true)).len() == 0,
    decreases entries.len(),
{
    if entries.len() > 0 {
        lemma_nothing_counted(entries.drop_last(), evals);
    }
}

/// What the service is told of a call where one descriptor counts, by `hits`.
pub open spec fn single_metadata(
    rate_limit: RateLimit,
    entry: RateLimitDescriptorEntry,
    eval: EvaluatedDescriptor,
    hits: int,
) -> JsonView {
    let base = seq![
        ("entries"@, JsonView::Array(parts_json(entry.entries@, eval.values@))),
        ("hitsAddend"@, JsonView::Number(decimal::decimal_text(hits))),
    ];
    let members = match limit_json(entry.limit_override, eval.limit_override) {
        Ok(Some(limit)) => base.push(("limit"@, limit)),
        _ => base,
    };
    object(
        seq![
            ("domain"@, JsonView::Str(rate_limit.domain@)),
            ("descriptors"@, JsonView::Array(seq![object(members)])),
        ],
    )
}

/// What a limit with one descriptor for requests, all parts of which could be evaluated, tells the
/// service. Before the call it is that descriptor, which is counted once, or not at all where the
/// call only looks. After the call it is nothing, unless the call only looked before and did not
/// fail: then the descriptor is counted once.
pub proof fn law_single_descriptor_is_counted(
    rate_limit: RateLimit,
    evals: Seq<EvaluatedDescriptor>,
    is_error: Option<bool>,
)
    requires
        rate_limit.descriptors.0@.len() == 1,
        rate_limit.descriptors.0@[0].limit_type == RateLimitType::Requests,
        rate_limit.descriptors.0@[0].entries@.len() > 0,
        evals.len() == 1,
        all_evaluated(rate_limit.descriptors.0@[0].entries@, evals[0].values@),
        limit_json(rate_limit.descriptors.0@[0].limit_override, evals[0].limit_override) is Ok,
    ensures
        ({
            let entry = rate_limit.descriptors.0@[0];
            &&& rate_limit_metadata(rate_limit, evals, Side::Request, is_error) == Some(
                single_metadata(
                    rate_limit,
                    entry,
                    evals[0],
                    if entry.peek {
                        0
                    } else {
                        1
                    },
                ),
            )
            &&& rate_limit_metadata(rate_limit, evals, Side::Response, is_error) == (if entry.peek
                && is_error != Some(true) {
                Some(single_metadata(rate_limit, entry, evals[0], 1))
            } else {
                None
            })
        }),
{
    lemma_single_descriptor(rate_limit.descriptors.0@, evals, Side::Request, is_error);
    lemma_single_descriptor(rate_limit.descriptors.0@, evals, Side::Response, is_error);
}

proof fn lemma_single_descriptor(
    entries: Seq<RateLimitDescriptorEntry>,
    evals: Seq<EvaluatedDescriptor>,
    side: Side,
    is_error: Option<bool>,
)
    requires
        entries.len() == 1,
        evals.len() == 1,
    ensures
        descriptors_json(entries, evals, side, is_error) == (match descriptor_json(
            entries[0],
            evals[0],
            side,
            is_error,
        ) {
            Some(d) => seq![d],
            None => Seq::empty(),
        }),
{
    let before = descriptors_json(entries.drop_last(), evals, side, is_error);
    assert(before =~= Seq::empty());
    if let Some(d) = descriptor_json(entries[0], evals[0], side, is_error) {
        assert(before.push(d) =~= seq![d]);
    }
}

/// A call that does not fail counts once: a descriptor that is counted before the call is not
/// counted after it, and one that is only looked at before is counted after.
pub proof fn law_each_call_counts_once(entry: RateLimitDescriptorEntry, is_error: Option<bool>)
    requires
        entry.limit_type == RateLimitType::Requests,
        is_error != Some(true),
    ensures
        hits_addend(entry, Side::Request) + (if takes_part(entry, Side::Response, is_error) {
            hits_addend(entry, Side::Response)
        } else {
            0
        }) == 1,
{
}

/// The replica of the service that let a call pass is the one that is asked to count it: no answer
/// but one that lets the call pass puts another in its place.
pub proof fn law_count_goes_to_the_replica_that_looked(
    pin: Option<String>,
    reply: RequestReply,
    replica: String,
    later: RequestReply,
    other: Option<String>,
)
    requires
        reply is Pass || reply is Mutated,
        !(later is Pass || later is Mutated),
    ensures
        pin_after(pin_after(pin, reply, Some(replica)), later, other) == Some(replica),
{
}

/// A reached limit rejects the call even where the guardrail fails open, and the client is not
/// shown the details.
pub proof fn law_reached_limit_always_rejects(mode: FailureMode, e: AuthorizationError)
    requires
        e.code == Some(AuthCode::ResourceExhausted),
    ensures
        rejection_of(mode, RequestReply::Error(e)) matches Some(error) && error.data is None
            && error.message == e.error@.message && error.code == e.error@.code,
{
}

/// A guardrail that fails open lets a call pass whatever goes wrong with the service itself.
pub proof fn law_fail_open_passes(reply: RequestReply)
    requires
        !(reply matches RequestReply::Error(e) && always_rejects(e.code)),
    ensures
        rejection_of(FailureMode::FailOpen, reply) is None,
{
}

} // verus!
