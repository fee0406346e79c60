//! What holds of the outcomes of requests: which upstreams took them, and what is recorded.

use crate::client::ClientRequestView;
use crate::handler::capture::{
    answer_message, first_ending, notes_denial, notes_error, recorded, recorded_of_all,
};
use crate::handler::fanout::{
    chosen_targets, fails_closed, first_error, first_failure, healthy, named_error,
};
use crate::handler::single::{records_single, single_outcome};
use crate::handler::{McpBackendGroup, connected, fresh_relay, no_backends};
use crate::info::{
    FailureMode, MCPInfo, MCPOperation, MCPTool, at_most_one_subject, sanitized, subject,
    subject_kind, tool_record,
};
use crate::json::{Json, opt_members_view};
use crate::metrics::upstream_error_label;
use crate::model::{
    ErrorDataView, RequestIdView, ServerJsonRpcMessage, ServerJsonRpcMessageView,
    ServerResultView, strs,
};
use crate::rewrite::McpRewritePolicy;
use crate::session::dispatch::{
    NoPlan, PlanView, records_call, records_message, records_plan, with_request_of,
};
use crate::session::refused_response;
use crate::session::single::{CallKind, SingleCallView, keeps_record};
use crate::upstream::{
    ClientError, HttpResponse, ProxyError, UpstreamError, cel_error_type, client_error_text,
    error_text,
};
use vstd::prelude::*;
use vstd::string::*;

verus! {

/// The upstreams whose answers are merged are those that took the request, in the order in which
/// they were asked, each with what it handed back.
pub proof fn law_healthy_upstreams_are_kept<S>(
    results: Seq<(String, Result<S, UpstreamError>)>,
    name: String,
    taken: S,
    error: UpstreamError,
)
    ensures
        healthy(Seq::<(String, Result<S, UpstreamError>)>::empty()).len() == 0,
        healthy(results.push((name, Ok(taken)))) == healthy(results).push((name, taken)),
        healthy(results.push((name, Err(error)))) == healthy(results),
{
    assert(results.push((name, Ok(taken))).drop_last() =~= results);
    assert(results.push((name, Err(error))).drop_last() =~= results);
}

proof fn lemma_failure_at<S>(
    results: Seq<(String, Result<S, UpstreamError>)>,
    i: int,
    k: int,
)
    requires
        0 <= i <= k < results.len(),
        results[k].1 is Err,
        forall|j: int| 0 <= j < k ==> (#[trigger] results[j]).1 is Ok,
    ensures
        first_failure(results, i) == Some(k),
    decreases k - i,
{
    if i < k {
        assert(results[i].1 is Ok);
        lemma_failure_at(results, i + 1, k);
    }
}

/// Failing closed, the first upstream that fails, in the order in which they were asked, fails the
/// request, with its name and its error. Failing open, none does.
pub proof fn law_first_failure_counts<S>(
    results: Seq<(String, Result<S, UpstreamError>)>,
    k: int,
)
    requires
        0 <= k < results.len(),
        results[k].1 is Err,
        forall|j: int| 0 <= j < k ==> (#[trigger] results[j]).1 is Ok,
    ensures
        fails_closed(FailureMode::FailClosed, results),
        !fails_closed(FailureMode::FailOpen, results),
        first_error(results) == results[k].1->Err_0,
        named_error(results) matches UpstreamError::FanoutError { name, source } && name
            == results[k].0 && *source == results[k].1->Err_0,
{
    lemma_failure_at(results, 0, k);
}

proof fn lemma_failures_from<S>(results: Seq<(String, Result<S, UpstreamError>)>, i: int)
    requires
        0 <= i,
        forall|j: int| 0 <= j < results.len() ==> (#[trigger] results[j]).1 is Ok,
    ensures
        first_failure(results, i) is None,
    decreases results.len() - i,
{
    if i < results.len() {
        assert(results[i].1 is Ok);
        lemma_failures_from(results, i + 1);
    }
}

/// A request that every upstream took does not fail.
pub proof fn law_no_failure_succeeds<S>(
    mode: FailureMode,
    results: Seq<(String, Result<S, UpstreamError>)>,
)
    requires
        forall|j: int| 0 <= j < results.len() ==> (#[trigger] results[j]).1 is Ok,
    ensures
        !fails_closed(mode, results),
{
    lemma_failures_from(results, 0);
}

/// A request for some targets goes to those of them that the gateway has, in its own order.
pub proof fn law_chosen_targets_are_asked(all: Seq<Seq<char>>, chosen: Seq<Seq<char>>)
    ensures
        chosen_targets(all, chosen) == all.filter(|t: Seq<char>| chosen.contains(t)),
    decreases all.len(),
{
    reveal(Seq::filter);
    if all.len() > 0 {
        law_chosen_targets_are_asked(all.drop_last(), chosen);
    }
}

/// The targets of the gateway are those that could be set up, in the order in which they are
/// configured.
pub proof fn law_targets_that_could_be_set_up(
    targets: Seq<(String, Option<McpRewritePolicy>)>,
    name: String,
    policy: Option<McpRewritePolicy>,
    skipped: Seq<Seq<char>>,
)
    ensures
        connected(Seq::empty(), skipped).len() == 0,
        connected(targets.push((name, policy)), skipped) == if skipped.contains(name@) {
            connected(targets, skipped)
        } else {
            connected(targets, skipped).push(name@)
        },
{
    assert(targets.push((name, policy)).drop_last() =~= targets);
}

/// All that is recorded but the outcome, the error and the tool stays as it is.
pub open spec fn keeps_the_request(before: MCPInfo, after: MCPInfo) -> bool {
    &&& after.method_name == before.method_name
    &&& after.session_id == before.session_id
    &&& after.prompt == before.prompt
    &&& after.resource == before.resource
    &&& after.task == before.task
    &&& after.is_error == before.is_error
    &&& after.upstream_error == before.upstream_error
    &&& after.backend_name == before.backend_name
}

/// What is recorded of the result of a tool call: a success, unless the tool says that it failed;
/// then the failure, with the text that the result starts with. The recorded tool gets the result,
/// and keeps its target, its name and its arguments.
pub proof fn law_tool_result_is_recorded(
    before: MCPInfo,
    after: MCPInfo,
    id: RequestIdView,
    result: crate::model::CallToolResultView,
    payload: Option<Json>,
)
    requires
        recorded(
            before,
            after,
            id,
            ServerJsonRpcMessageView::Response(id, ServerResultView::CallToolResult(result)),
            payload,
        ),
    ensures
        keeps_the_request(before, after),
        after.tool is Some == before.tool is Some,
        before.tool matches Some(t) ==> (after.tool matches Some(u) && u.target == t.target
            && u.name == t.name && u.arguments == t.arguments && u.error == t.error && u.result == payload),
        result.is_error != Some(true) ==> after.success == Some(true) && after.error is None,
        result.is_error == Some(true) ==> {
            &&& after.success == Some(false)
            &&& after.error matches Some(e) && e.error_type@ == "upstream_tool_error"@ && e.code
                is None && e.error_message@ == sanitized(
                if result.content.len() > 0 && result.content[0] is Text {
                    result.content[0]->Text_0
                } else {
                    Seq::empty()
                },
            )
        },
{
}

/// What is recorded of a JSON-RPC error: the failure, with the message and the code of the error.
/// The recorded tool gets the error, and keeps its target, its name, its arguments and its result.
pub proof fn law_rpc_error_is_recorded(
    before: MCPInfo,
    after: MCPInfo,
    id: RequestIdView,
    error: ErrorDataView,
    payload: Option<Json>,
)
    requires
        recorded(before, after, id, ServerJsonRpcMessageView::Error(id, error), payload),
        i32::MIN <= error.code <= i32::MAX,
    ensures
        keeps_the_request(before, after),
        after.success == Some(false),
        after.error matches Some(e) && e.error_type@ == "upstream_tool_error"@
            && e.error_message@ == sanitized(error.message) && (e.code matches Some(c) && c
            == error.code),
        after.tool is Some == before.tool is Some,
        before.tool matches Some(t) ==> (after.tool matches Some(u) && u.target == t.target
            && u.name == t.name && u.arguments == t.arguments && u.result == t.result && u.error == payload),
{
}

/// Any other response to the request is recorded as a success, and changes nothing of the tool.
/// What is no answer to the request is not recorded.
pub proof fn law_other_messages_are_recorded(
    before: MCPInfo,
    after: MCPInfo,
    id: RequestIdView,
    msg: ServerJsonRpcMessageView,
    payload: Option<Json>,
)
    requires
        recorded(before, after, id, msg, payload),
    ensures
        msg matches ServerJsonRpcMessageView::Response(rid, r) ==> rid == id && !(r is
            CallToolResult) ==> keeps_the_request(before, after) && after.success == Some(true)
            && after.error is None && after.tool == before.tool,
        msg matches ServerJsonRpcMessageView::Response(rid, _) ==> rid != id ==> after == before,
        msg matches ServerJsonRpcMessageView::Error(rid, _) ==> rid != id ==> after == before,
        msg is Request || msg is Notification ==> after == before,
{
}

/// A message answers request `id`.
pub open spec fn is_answer(id: RequestIdView, msg: ServerJsonRpcMessageView) -> bool {
    match msg {
        ServerJsonRpcMessageView::Response(rid, _) => rid == id,
        ServerJsonRpcMessageView::Error(rid, _) => rid == id,
        _ => false,
    }
}

proof fn lemma_first_answer(
    id: RequestIdView,
    items: Seq<(Result<ServerJsonRpcMessage, ClientError>, Option<Json>)>,
    i: int,
    k: int,
)
    requires
        0 <= i <= k <= items.len(),
        k < items.len() ==> items[k].0 is Ok && is_answer(id, items[k].0->Ok_0@),
        forall|j: int|
            0 <= j < k ==> !((#[trigger] items[j]).0 is Ok && is_answer(id, items[j].0->Ok_0@)),
    ensures
        first_ending(id, items, i) == if k < items.len() {
            Some(k)
        } else {
            None
        },
    decreases k - i,
{
    if i < k {
        assert(!(items[i].0 is Ok && is_answer(id, items[i].0->Ok_0@)));
        lemma_first_answer(id, items, i + 1, k);
    }
}

/// Of all that an upstream sends, the first answer to the request is recorded.
pub proof fn law_first_answer_is_recorded(
    before: MCPInfo,
    after: MCPInfo,
    id: RequestIdView,
    items: Seq<(Result<ServerJsonRpcMessage, ClientError>, Option<Json>)>,
    k: int,
)
    requires
        recorded_of_all(before, after, id, items),
        0 <= k <= items.len(),
        k < items.len() ==> items[k].0 is Ok && is_answer(id, items[k].0->Ok_0@),
        forall|j: int|
            0 <= j < k ==> !((#[trigger] items[j]).0 is Ok && is_answer(id, items[j].0->Ok_0@)),
    ensures
        k < items.len() ==> recorded(before, after, id, items[k].0->Ok_0@, items[k].1),
        k == items.len() ==> after == before,
{
    lemma_first_answer(id, items, 0, k);
}

/// What an upstream sends reaches the client as it is; a failure to read from it reaches the client
/// as an internal error that answers the request.
pub proof fn law_answers_are_handed_on(
    id: RequestIdView,
    msg: ServerJsonRpcMessage,
    error: ClientError,
)
    ensures
        answer_message(id, Ok(msg)) == msg@,
        answer_message(id, Err(error)) matches ServerJsonRpcMessageView::Error(rid, e) && rid == id
            && e.code == -32603 && e.message == client_error_text(error) && e.data is None,
{
}

/// What is recorded of a request that an upstream did not take: the failure, with the category and
/// the text of the error, and the label under which the upstream is counted, where it is.
pub proof fn law_failure_is_recorded(before: MCPInfo, after: MCPInfo, e: UpstreamError)
    requires
        notes_error(before, after, e),
    ensures
        after.success == Some(false),
        after.error matches Some(r) && r.error_type@ == cel_error_type(e) && r.error_message@
            == sanitized(error_text(e)) && r.code is None,
        upstream_error_label(e) matches Some(label) ==> (after.upstream_error matches Some(s) && s@
            == label),
        upstream_error_label(e) is None ==> after.upstream_error == before.upstream_error,
        after.method_name == before.method_name,
        after.session_id == before.session_id,
        after.tool == before.tool,
        after.prompt == before.prompt,
        after.resource == before.resource,
        after.task == before.task,
        after.is_error == before.is_error,
        after.backend_name == before.backend_name,
{
}

/// What is recorded of a request that the policy denies: the denial, with the text of the error;
/// no upstream is counted for it.
pub proof fn law_denial_is_recorded(before: MCPInfo, after: MCPInfo, e: UpstreamError)
    requires
        notes_denial(before, after, e),
    ensures
        keeps_the_request(before, after),
        after.tool == before.tool,
        after.success == Some(false),
        after.error matches Some(r) && r.error_type@ == "permission_denied"@ && r.error_message@
            == sanitized(error_text(e)) && r.code is None,
{
}

/// What is recorded of a planned call: the one thing that it is about, under its kind, with the
/// target and the name there, and for a tool the arguments that are sent. Nothing is recorded under
/// another kind, and nothing else changes.
pub proof fn law_planned_call_is_recorded(before: MCPInfo, after: MCPInfo, call: SingleCallView)
    requires
        records_call(before, after, call),
    ensures
        after.method_name == before.method_name,
        after.session_id == before.session_id,
        after.is_error == before.is_error,
        after.success == before.success,
        after.error == before.error,
        after.upstream_error == before.upstream_error,
        after.backend_name == before.backend_name,
        match call.kind {
            CallKind::Tool => {
                &&& after.prompt is None && after.resource is None && after.task is None
                &&& after.tool matches Some(t) && t.target@ == call.target && t.name@
                    == call.upstream_name
                &&& call.request matches ClientRequestView::CallToolRequest(_, arguments, _)
                    && opt_members_view(after.tool->0.arguments) == arguments
                &&& before.tool matches Some(t) ==> after.tool->0.result == t.result
                    && after.tool->0.error == t.error
                &&& before.tool is None ==> after.tool->0.result is None
                    && after.tool->0.error is None
            },
            CallKind::Prompt | CallKind::CompletePrompt => {
                &&& after.tool is None && after.resource is None && after.task is None
                &&& after.prompt matches Some(p) && p.target@ == call.target && p.name@
                    == call.upstream_name
            },
            CallKind::ReadResource | CallKind::Subscription | CallKind::CompleteResource => {
                &&& after.tool is None && after.prompt is None && after.task is None
                &&& after.resource matches Some(r) && r.target@ == call.target && r.name@
                    == call.upstream_name
            },
            CallKind::Task => {
                &&& after.tool is None && after.prompt is None && after.resource is None
                &&& after.task matches Some(t) && t.target@ == call.target && t.name@
                    == call.upstream_name
            },
        },
{
}

/// An upstream that failed among several is counted, classified and answered for as if it had
/// failed alone; the text of the error names it.
pub proof fn law_a_fanout_fails_as_its_upstream(name: String, source: Box<UpstreamError>)
    ensures
        ({
            let e = UpstreamError::FanoutError { name, source };
            &&& cel_error_type(e) == cel_error_type(*source)
            &&& upstream_error_label(e) == upstream_error_label(*source)
            &&& refused_response(e) == refused_response(*source)
            &&& error_text(e) == name@ + ": "@ + error_text(*source)
        }),
{
}

/// An upstream that answers with an HTTP status is counted under the class of the status, and its
/// response is the one that is handed on.
pub proof fn law_refusals_are_counted_by_class(resp: Box<HttpResponse>)
    ensures
        ({
            let e = UpstreamError::Http(ClientError::Status(resp));
            &&& upstream_error_label(e) == Some(
                if 400 <= resp.status < 500 {
                    "http_4xx"@
                } else if 500 <= resp.status < 600 {
                    "http_5xx"@
                } else {
                    "http_other"@
                },
            )
            &&& refused_response(e) == Some(resp)
        }),
{
}

/// What the gateway itself refuses is counted against no upstream: what is denied, what a guardrail
/// rejects, and what is not valid. Anything else that fails is.
pub proof fn law_only_upstreams_are_counted(e: UpstreamError)
    requires
        !(e is FanoutError),
    ensures
        upstream_error_label(e) is None <==> e is McpGuardrails || e is Authorization || e is
            InvalidRequest || e is InvalidMethod || e is InvalidMethodWithMultiplexing,
        !(e matches UpstreamError::Http(ClientError::Status(_))) ==> refused_response(e) is None,
{
}

/// A request to one upstream ends as the upstream took it, where the gateway has that upstream,
/// and is refused where it has not. A failure of the upstream is recorded, where anything is; a
/// refusal is not.
pub proof fn law_a_request_to_one_upstream<S>(
    r: Result<S, UpstreamError>,
    before: Option<MCPInfo>,
    after: Option<MCPInfo>,
    targets: Seq<Seq<char>>,
    service_name: Seq<char>,
    taken: Result<S, UpstreamError>,
)
    requires
        single_outcome(r, targets, service_name, taken),
        records_single(before, after, targets, service_name, taken),
    ensures
        targets.contains(service_name) ==> r == taken,
        !targets.contains(service_name) ==> (r matches Err(UpstreamError::InvalidRequest(m)) && m@
            == "unknown service "@ + service_name),
        targets.contains(service_name) && taken is Err && before is Some ==> after is Some
            && notes_error(before->0, after->0, taken->Err_0),
        !targets.contains(service_name) || taken is Ok || before is None ==> after == before,
{
}

/// A group has nothing to serve a request where it has targets and none of them could be set up.
/// Where none is configured, it depends on the failure mode.
pub proof fn law_a_group_without_backends(backend: McpBackendGroup)
    ensures
        backend.targets@.len() > 0 && (forall|i: int|
            0 <= i < backend.targets@.len() ==> strs(backend.skipped@).contains(
                (#[trigger] backend.targets@[i]).0@,
            )) ==> no_backends(backend),
        (exists|i: int|
            0 <= i < backend.targets@.len() && !strs(backend.skipped@).contains(
                (#[trigger] backend.targets@[i]).0@,
            )) ==> !no_backends(backend),
        backend.targets@.len() == 0 ==> (no_backends(backend) <==> backend.failure_mode
            == FailureMode::FailClosed),
{
    lemma_connected(backend.targets@, strs(backend.skipped@));
}

proof fn lemma_connected(
    targets: Seq<(String, Option<McpRewritePolicy>)>,
    skipped: Seq<Seq<char>>,
)
    ensures
        connected(targets, skipped).len() == 0 <==> forall|i: int|
            0 <= i < targets.len() ==> skipped.contains((#[trigger] targets[i]).0@),
    decreases targets.len(),
{
    if targets.len() > 0 {
        let head = targets.drop_last();
        lemma_connected(head, skipped);
        assert(targets.last() == targets[targets.len() - 1]);
        if connected(targets, skipped).len() == 0 {
            assert forall|i: int| 0 <= i < targets.len() implies skipped.contains(
                (#[trigger] targets[i]).0@,
            ) by {
                if i < head.len() {
                    assert(head[i] == targets[i]);
                }
            }
        }
        if forall|i: int| 0 <= i < targets.len() ==> skipped.contains((#[trigger] targets[i]).0@) {
            assert forall|i: int| 0 <= i < head.len() implies skipped.contains(
                (#[trigger] head[i]).0@,
            ) by {
                assert(head[i] == targets[i]);
            }
        }
    }
}

/// A new relay is what its group says, and knows nothing yet of what its targets can do or list.
pub proof fn law_new_relay(backend: McpBackendGroup)
    ensures
        ({
            let r = fresh_relay(backend);
            &&& r.is_multiplexing == backend.is_multiplexing
            &&& r.stateful == backend.stateful
            &&& r.failure_mode == backend.failure_mode
            &&& r.default_target is Some == backend.default_target_name is Some
            &&& backend.default_target_name matches Some(d) ==> r.default_target == Some(d@)
            &&& forall|t: Seq<char>| !#[trigger] r.capabilities.contains_key(t)
            &&& forall|t: Seq<char>| !#[trigger] r.tool_routes.contains_key(t)
            &&& forall|t: Seq<char>| !#[trigger] r.prompt_routes.contains_key(t)
            &&& forall|t: Seq<char>| !#[trigger] r.task_routes.contains_key(t)
        }),
{
}

/// The text of an error that carries a message is that message, or ends with it; that of a denial
/// says what is unknown, by the name that the client gave.
pub proof fn law_errors_say_what_happened(
    m: String,
    kind: String,
    name: String,
)
    ensures
        error_text(UpstreamError::ServiceError(m)) == m@,
        error_text(UpstreamError::OpenAPIError(m)) == m@,
        error_text(UpstreamError::Stdio(m)) == m@,
        error_text(UpstreamError::InvalidRequest(m)) == m@,
        error_text(UpstreamError::InvalidMethod(m)) == m@,
        error_text(UpstreamError::InvalidMethodWithMultiplexing(m)) == m@,
        error_text(UpstreamError::Proxy(ProxyError::Other(m))) == m@,
        m@.is_suffix_of(error_text(UpstreamError::Http(ClientError::General(m)))),
        m@.is_suffix_of(error_text(UpstreamError::Http(ClientError::Proxy(ProxyError::Other(m))))),
        error_text(UpstreamError::Authorization { resource_type: kind, resource_name: name })
            == "Unknown "@ + kind@ + ": "@ + name@,
{
    let a = error_text(UpstreamError::Http(ClientError::General(m)));
    assert(a.subrange(a.len() - m@.len(), a.len() as int) =~= m@);
}

/// A call that ran out of time is a timeout, one that could not reach the upstream a connection
/// error, and anything else an error of the upstream.
pub proof fn law_categories_of_failures(e: UpstreamError)
    requires
        !(e is FanoutError),
    ensures
        cel_error_type(e) == match e {
            UpstreamError::Proxy(ProxyError::UpstreamCallTimeout) => "timeout"@,
            UpstreamError::Proxy(ProxyError::RequestTimeout) => "timeout"@,
            UpstreamError::Http(ClientError::General(_)) => "connection_error"@,
            UpstreamError::Http(ClientError::Proxy(_)) => "connection_error"@,
            _ => "upstream_error"@,
        },
{
}

/// A tool that is recorded in place of another keeps what was recorded of the call.
pub proof fn law_renamed_record_keeps_the_call(earlier: MCPTool, target: String, name: String)
    ensures
        ({
            let t = tool_record(Some(earlier), target, name);
            t.target == target && t.name == name && t.arguments == earlier.arguments && t.result
                == earlier.result && t.error == earlier.error
        }),
        ({
            let t = tool_record(None, target, name);
            t.target == target && t.name == name && t.arguments is None && t.result is None
                && t.error is None
        }),
{
}

/// What the planning of a message leaves in the record: the method and the session; nothing else
/// changes until a call is planned.
pub proof fn law_message_is_recorded(
    before: MCPInfo,
    log: MCPInfo,
    method: Seq<char>,
    session_id: Seq<char>,
)
    requires
        records_message(log, method, session_id),
        log == with_request_of(before, log),
    ensures
        log.method_name matches Some(m) && m@ == method,
        log.session_id matches Some(s) && s@ == session_id,
        log.tool == before.tool,
        log.prompt == before.prompt,
        log.resource == before.resource,
        log.task == before.task,
        log.is_error == before.is_error,
        log.success == before.success,
        log.error == before.error,
        log.upstream_error == before.upstream_error,
        log.backend_name == before.backend_name,
{
}

/// A plan for one call records that call; a plan for several upstreams, and a request that is
/// refused, record nothing.
pub proof fn law_only_single_calls_are_recorded(
    before: MCPInfo,
    after: MCPInfo,
    p: Result<PlanView, NoPlan>,
)
    requires
        records_plan(before, after, p),
    ensures
        p matches Ok(PlanView::Single(call)) ==> records_call(before, after, call),
        !(p matches Ok(PlanView::Single(_))) ==> after == before,
{
}

/// The answer is followed to its end for calls of tools and prompts and for reads, and for no
/// others.
pub proof fn law_answers_that_are_followed(kind: CallKind)
    ensures
        keeps_record(kind) <==> kind == CallKind::Tool || kind == CallKind::Prompt || kind
            == CallKind::ReadResource,
{
}

/// A record has the kind of the one thing that it is about.
pub proof fn law_kind_of_a_record(info: MCPInfo)
    requires
        at_most_one_subject(info),
    ensures
        info.tool is Some <==> subject_kind(info) == Some(MCPOperation::Tool),
        info.prompt is Some <==> subject_kind(info) == Some(MCPOperation::Prompt),
        info.resource is Some <==> subject_kind(info) == Some(MCPOperation::Resource),
        info.task is Some <==> subject_kind(info) == Some(MCPOperation::Task),
        subject_kind(info) is None <==> subject(info) is None,
        info.tool matches Some(t) ==> subject(info) == Some((t.target@, t.name@)),
        info.prompt matches Some(p) ==> subject(info) == Some((p.target@, p.name@)),
        info.resource matches Some(r) ==> subject(info) == Some((r.target@, r.name@)),
        info.task matches Some(t) ==> subject(info) == Some((t.target@, t.name@)),
{
}

} // verus!
