//! What holds of a client's session: how failures are answered, what is sent for a client that
//! keeps no session, and how long sessions are kept.

use crate::client::{
    ClientJsonRpcMessageView, ClientNotificationView, ClientRequestView,
};
use crate::guardrails::params::tells_params;
use crate::guardrails::rate_limit_types::first_broken;
use crate::handler::sessions::{
    MCPSessionView, all_unkeyed, assigned, first_duplicate, first_missing,
    session_index,
};
use crate::handler::{RelayView, prompt_route, tool_route};
use crate::info::{Error, MCPInfo};
use crate::json::{self, JsonView, MembersView, distinct_keys, opt_members_view};
use crate::model::{RequestId, RequestIdView};
use crate::multiplex_naming::{law_request_id_round_trip, wrapped_request_id};
use crate::rewrite::is_flat;
use crate::routes::RoutesView;
use crate::session::dispatch::{
    MergeView, MessagePlan, PlanView, forwards, id_text, route_listing,
};
use crate::session::forwarding::may_have;
use crate::session::manager::{SessionsView, fresh_session, kept_sessions, touched};
use crate::session::stateless::{
    InitScopeView, OutgoingView, init_scope, stateless_messages,
};
use crate::session::{LegacyForward, SendFailure, answers_failure, legacy_forward, sends_back};
use crate::upstream::{ClientError, HttpResponse, ProxyError, UpstreamError, error_text};
use vstd::prelude::*;
use vstd::string::*;

verus! {

/// How failures are answered. A response with which an upstream refused the request is handed on,
/// that of one among several too. A failure of the proxy is handed on as it is. Anything else is a
/// failure to send, for the request that it is about, with the text of the error; a denial or a
/// rejection is so only where no request is known that it denies.
pub proof fn law_failures_are_answered(
    f: SendFailure,
    id: Option<RequestId>,
    e: UpstreamError,
    resp: Box<HttpResponse>,
    name: String,
    p: ProxyError,
)
    requires
        answers_failure(f, id, e),
    ensures
        e == UpstreamError::Http(ClientError::Status(resp)) || e == (UpstreamError::FanoutError {
            name,
            source: Box::new(UpstreamError::Http(ClientError::Status(resp))),
        }) ==> f == SendFailure::Mcp(Error::UpstreamError(resp)),
        e == UpstreamError::Proxy(p) ==> f == SendFailure::Proxy(p),
        e is ServiceError || e is OpenAPIError || e is Stdio || e is StdioShutdown || e is Send
            || e is Recv || e is InvalidRequest || e is InvalidMethod
            || e is InvalidMethodWithMultiplexing || (e matches UpstreamError::Http(c) && !(c is
            Status)) || (id is None && (e is Authorization || e is McpGuardrails)) ==> (f matches
            SendFailure::Mcp(Error::SendError(to, words)) && to == id && words@ == error_text(e)),
        e == (UpstreamError::FanoutError { name, source: Box::new(UpstreamError::Send) }) ==> (
        f matches SendFailure::Mcp(Error::SendError(to, words)) && to == id && words@ == error_text(
            e,
        )),
{
    assert(crate::upstream::root_cause(UpstreamError::Http(ClientError::Status(resp)))
        == UpstreamError::Http(ClientError::Status(resp)));
    assert(crate::upstream::root_cause(UpstreamError::Send) == UpstreamError::Send);
}

/// What is forwarded to a separate event stream goes by the type of the response, whatever
/// parameters the type has: a stream of events, or one JSON message. Nothing else is forwarded.
pub proof fn law_forwarded_by_content_type(parameters: Seq<char>, other: Seq<char>)
    requires
        !"text/event-stream"@.is_prefix_of(other),
        !"application/json"@.is_prefix_of(other),
    ensures
        legacy_forward(Some("text/event-stream"@ + parameters)) == LegacyForward::Events,
        legacy_forward(Some("application/json"@ + parameters)) == LegacyForward::Json,
        legacy_forward(Some(other)) == LegacyForward::Nothing,
        legacy_forward(None) == LegacyForward::Nothing,
{
    reveal_strlit("text/event-stream");
    reveal_strlit("application/json");
    let a = "text/event-stream"@ + parameters;
    assert("text/event-stream"@ =~= a.subrange(0, "text/event-stream"@.len() as int));
    let b = "application/json"@ + parameters;
    assert("application/json"@ =~= b.subrange(0, "application/json"@.len() as int));
    assert(b[0] == 'a');
    assert("text/event-stream"@[0] == 't');
    if "text/event-stream"@.is_prefix_of(b) {
        assert(b.subrange(0, "text/event-stream"@.len() as int)[0] == b[0]);
    }
}

/// For a client that keeps no session, a message is sent last and as it came, after an
/// `initialize` of the gateway's own and the notification that goes with it. Both go to the
/// upstream that is called, where one tool or prompt is, and to all upstreams else. The client's
/// own `initialize` needs none.
pub proof fn law_messages_without_a_session(
    relay: RelayView,
    message: ClientJsonRpcMessageView,
    build_version: Seq<char>,
)
    requires
        init_scope(relay, message) is Ok,
    ensures
        ({
            let sent = stateless_messages(init_scope(relay, message)->Ok_0, message, build_version);
            &&& sent.last() == (OutgoingView { target: None, message })
            &&& if message matches ClientJsonRpcMessageView::Request(_, r) && r is
                InitializeRequest {
                sent.len() == 1
            } else {
                &&& sent.len() == 3
                &&& sent[0].message matches ClientJsonRpcMessageView::Request(
                    _,
                    ClientRequestView::InitializeRequest(info),
                ) && info.protocol_version == "2025-11-25"@ && info.name == "agentgateway"@
                    && info.version == build_version && info.capabilities.roots is None
                    && info.capabilities.sampling is None
                    && info.capabilities.elicitation is None
                &&& sent[1].message == ClientJsonRpcMessageView::Notification(
                    ClientNotificationView::InitializedNotification,
                )
                &&& sent[0].target == sent[1].target
                &&& sent[0].target == match message {
                    ClientJsonRpcMessageView::Request(
                        _,
                        ClientRequestView::CallToolRequest(name, _, _),
                    ) => Some(tool_route(relay, name)->Ok_0.0),
                    ClientJsonRpcMessageView::Request(
                        _,
                        ClientRequestView::GetPromptRequest(name, _),
                    ) => Some(prompt_route(relay, name)->Ok_0.0),
                    _ => None,
                }
            }
        }),
{
}

/// A message without a session is refused only where the tool or the prompt that it calls leads
/// nowhere, for the reason for which the name does.
pub proof fn law_refused_without_a_session(relay: RelayView, message: ClientJsonRpcMessageView)
    ensures
        match message {
            ClientJsonRpcMessageView::Request(
                _,
                ClientRequestView::CallToolRequest(name, _, _),
            ) => match tool_route(relay, name) {
                Ok(_) => init_scope(relay, message) is Ok,
                Err(m) => init_scope(relay, message) == Err::<InitScopeView, Seq<char>>(m),
            },
            ClientJsonRpcMessageView::Request(
                _,
                ClientRequestView::GetPromptRequest(name, _),
            ) => match prompt_route(relay, name) {
                Ok(_) => init_scope(relay, message) is Ok,
                Err(m) => init_scope(relay, message) == Err::<InitScopeView, Seq<char>>(m),
            },
            _ => init_scope(relay, message) is Ok,
        },
{
}

/// Reaping takes sessions out and changes none that stay.
pub proof fn law_reaping_changes_no_session(sessions: SessionsView, now: int, id: Seq<char>)
    requires
        kept_sessions(sessions, now).dom().contains(id),
    ensures
        sessions.dom().contains(id),
        kept_sessions(sessions, now)[id] == sessions[id],
        now < sessions[id].last_access + sessions[id].idle_ttl || now < sessions[id].last_access,
{
}

/// Using a session changes nothing but the time of its last use.
pub proof fn law_use_changes_only_the_time(
    entry: crate::session::manager::SessionEntryView,
    now: int,
)
    ensures
        touched(entry, now).session == entry.session,
        touched(entry, now).idle_ttl == entry.idle_ttl,
        touched(entry, now).last_access == now,
{
}

/// A new session has the id and the relay that it was made with, and no request under way.
pub proof fn law_new_session_is_empty(id: Seq<char>, relay: RelayView, legacy_sse: bool)
    ensures
        ({
            let s = fresh_session(id, relay, legacy_sse);
            s.id == id && s.relay == relay && s.legacy_sse == legacy_sse && forall|
                k: RequestIdView,
            | !s.in_flight.contains_key(k)
        }),
{
}

proof fn lemma_index(sessions: Seq<MCPSessionView>, target: Seq<char>, i: int)
    requires
        0 <= i,
    ensures
        match session_index(sessions, target, i) {
            Some(k) => i <= k < sessions.len() && sessions[k].target_name == Some(target),
            None => forall|j: int|
                i <= j < sessions.len() ==> (#[trigger] sessions[j]).target_name != Some(target),
        },
    decreases sessions.len() - i,
{
    if i < sessions.len() && sessions[i].target_name != Some(target) {
        lemma_index(sessions, target, i + 1);
    }
}

proof fn lemma_missing(targets: Seq<Seq<char>>, sessions: Seq<MCPSessionView>, i: int, k: int)
    requires
        0 <= i <= k < targets.len(),
        session_index(sessions, targets[k], 0) is None,
    ensures
        first_missing(targets, sessions, i) is Some,
    decreases k - i,
{
    if i < k && session_index(sessions, targets[i], 0) is Some {
        lemma_missing(targets, sessions, i + 1, k);
    }
}

proof fn lemma_duplicate(sessions: Seq<MCPSessionView>, i: int, k: int)
    requires
        0 <= i <= k < sessions.len(),
        sessions[k].target_name is Some,
        session_index(sessions.take(k), sessions[k].target_name->0, 0) is Some,
    ensures
        first_duplicate(sessions, i) is Some,
    decreases k - i,
{
    if i < k && !(sessions[i].target_name is Some && session_index(
        sessions.take(i),
        sessions[i].target_name->0,
        0,
    ) is Some) {
        lemma_duplicate(sessions, i + 1, k);
    }
}

/// Upstream sessions that name no targets are resumed in the order of the targets, one for each,
/// and not at all where their number differs.
pub proof fn law_unnamed_sessions_are_resumed_in_order(
    targets: Seq<Seq<char>>,
    sessions: Seq<MCPSessionView>,
)
    requires
        forall|i: int| 0 <= i < sessions.len() ==> (#[trigger] sessions[i]).target_name is None,
    ensures
        sessions.len() == targets.len() ==> assigned(targets, sessions) == Ok::<
            Seq<MCPSessionView>,
            Seq<char>,
        >(sessions),
        sessions.len() != targets.len() ==> assigned(targets, sessions) is Err,
{
    assert(all_unkeyed(sessions));
}

/// Upstream sessions are not resumed where some name a target and some do not, where two name the
/// same, where a target has none, and where there are more or fewer than targets.
pub proof fn law_unfit_sessions_are_not_resumed(
    targets: Seq<Seq<char>>,
    sessions: Seq<MCPSessionView>,
    i: int,
    j: int,
)
    requires
        0 <= i < sessions.len(),
        sessions[i].target_name is Some,
    ensures
        0 <= j < sessions.len() && sessions[j].target_name is None ==> assigned(targets, sessions)
            is Err,
        i < j < sessions.len() && sessions[j].target_name == sessions[i].target_name ==> assigned(
            targets,
            sessions,
        ) is Err,
        sessions.len() != targets.len() ==> assigned(targets, sessions) is Err,
        0 <= j < targets.len() && (forall|k: int|
            0 <= k < sessions.len() ==> (#[trigger] sessions[k]).target_name != Some(targets[j]))
            ==> assigned(targets, sessions) is Err,
{
    assert(!all_unkeyed(sessions));
    if i < j < sessions.len() && sessions[j].target_name == sessions[i].target_name {
        let name = sessions[j].target_name->0;
        lemma_index(sessions.take(j), name, 0);
        assert(sessions.take(j)[i] == sessions[i]);
        lemma_duplicate(sessions, 0, j);
    }
    if 0 <= j < targets.len() && (forall|k: int|
        0 <= k < sessions.len() ==> (#[trigger] sessions[k]).target_name != Some(targets[j])) {
        lemma_index(sessions, targets[j], 0);
        lemma_missing(targets, sessions, 0, j);
    }
}

/// What guardrails are told of a call of a tool: the tool under the name that the parameters give
/// it, and the arguments that they hold.
pub proof fn law_guardrails_are_told_the_tool(
    info: MCPInfo,
    params: MembersView,
    name: Seq<char>,
    arguments: MembersView,
)
    requires
        tells_params(info, "tools/call"@, Some(JsonView::Object(params))),
        distinct_keys(params),
        params.contains(("name"@, JsonView::Str(name))),
        params.contains(("arguments"@, JsonView::Object(arguments))),
    ensures
        info.tool matches Some(t) && t.name@ == name && opt_members_view(t.arguments) == Some(
            arguments,
        ) && t.target@.len() == 0 && t.result is None && t.error is None,
        info.prompt is None,
        info.resource is None,
        info.task is None,
{
    lemma_member(params, "name"@, JsonView::Str(name));
    lemma_member(params, "arguments"@, JsonView::Object(arguments));
    reveal_strlit("tools/call");
    reveal_strlit("prompts/get");
    reveal_strlit("resources/read");
    assert("tools/call"@.len() == 10);
    assert("prompts/get"@.len() == 11);
    assert("resources/read"@.len() == 14);
}

/// What guardrails are told of a call for a prompt or a resource: the prompt or the resource under
/// the name or the URI that the parameters give it.
pub proof fn law_guardrails_are_told_the_prompt_or_resource(
    prompt: MCPInfo,
    resource: MCPInfo,
    params: MembersView,
    name: Seq<char>,
    uri: Seq<char>,
)
    requires
        tells_params(prompt, "prompts/get"@, Some(JsonView::Object(params))),
        tells_params(resource, "resources/read"@, Some(JsonView::Object(params))),
        distinct_keys(params),
        params.contains(("name"@, JsonView::Str(name))),
        params.contains(("uri"@, JsonView::Str(uri))),
    ensures
        prompt.prompt matches Some(p) && p.name@ == name && p.target@.len() == 0,
        prompt.tool is None && prompt.resource is None && prompt.task is None,
        resource.resource matches Some(r) && r.name@ == uri && r.target@.len() == 0,
        resource.tool is None && resource.prompt is None && resource.task is None,
{
    lemma_member(params, "name"@, JsonView::Str(name));
    lemma_member(params, "uri"@, JsonView::Str(uri));
    reveal_strlit("tools/call");
    reveal_strlit("prompts/get");
    reveal_strlit("resources/read");
    assert("tools/call"@.len() == 10);
    assert("prompts/get"@.len() == 11);
    assert("resources/read"@.len() == 14);
}

proof fn lemma_member(members: MembersView, key: Seq<char>, value: JsonView)
    requires
        distinct_keys(members),
        members.contains((key, value)),
    ensures
        json::member(members, key) == Some(value),
{
    let i = choose|i: int| 0 <= i < members.len() && members[i] == (key, value);
    json::lemma_key_index_from(members, key, 0);
    if let Some(k) = json::key_index(members, key) {
        if i < k {
            assert(members[i].0 != members[k].0);
        } else if k < i {
            assert(members[k].0 != members[i].0);
        }
    } else {
        assert(members[i].0 != key);
    }
}

/// Before a call is planned, the lists that its name depends on are fetched: where names are flat
/// and nothing of the kind was listed yet, from all targets that may have such items. A call for a
/// resource depends on none.
pub proof fn law_lists_are_fetched_first(
    relay: RelayView,
    name: Seq<char>,
    arguments: Option<MembersView>,
    rest: JsonView,
)
    ensures
        ({
            let asked = may_have(relay, |c: crate::model::ServerCapabilities| c.tools is Some);
            let planned = route_listing(
                relay,
                ClientRequestView::CallToolRequest(name, arguments, rest),
            );
            if is_flat(relay.rewrite) && relay.tool_routes == RoutesView::empty() && asked.len()
                > 0 {
                planned matches Some(PlanView::Chosen(targets, request, merge)) && targets == asked
                    && request is ListToolsRequest && merge == MergeView::Tools
            } else {
                planned is None
            }
        }),
        ({
            let asked = may_have(relay, |c: crate::model::ServerCapabilities| c.prompts is Some);
            let planned = route_listing(relay, ClientRequestView::GetPromptRequest(name, rest));
            if is_flat(relay.rewrite) && relay.prompt_routes == RoutesView::empty() && asked.len()
                > 0 {
                planned matches Some(PlanView::Chosen(targets, request, merge)) && targets == asked
                    && request is ListPromptsRequest && merge == MergeView::Prompts
            } else {
                planned is None
            }
        }),
        ({
            let asked = may_have(relay, |c: crate::model::ServerCapabilities| c.tasks is Some);
            let planned = route_listing(relay, ClientRequestView::GetTaskInfoRequest(name, rest));
            if is_flat(relay.rewrite) && relay.default_target is None && relay.task_routes
                == RoutesView::empty() && asked.len() > 0 {
                planned matches Some(PlanView::Chosen(targets, request, merge)) && targets == asked
                    && request is ListTasksRequest && merge == MergeView::Tasks
            } else {
                planned is None
            }
        }),
        route_listing(relay, ClientRequestView::ReadResourceRequest(name, rest)) is None,
        route_listing(relay, ClientRequestView::SubscribeRequest(name, rest)) is None,
        route_listing(relay, ClientRequestView::UnsubscribeRequest(name, rest)) is None,
{
    crate::session::forwarding::law_shared_requests_go_as_they_came(
        relay,
        RequestIdView::Number(0),
        ClientRequestView::ListToolsRequest(rest),
    );
    crate::session::forwarding::law_shared_requests_go_as_they_came(
        relay,
        RequestIdView::Number(0),
        ClientRequestView::ListPromptsRequest(rest),
    );
    crate::session::forwarding::law_shared_requests_go_as_they_came(
        relay,
        RequestIdView::Number(0),
        ClientRequestView::ListTasksRequest(rest),
    );
}

/// An answer of the client that no upstream waits for is refused, with the id that it has; the text
/// of an id that is text is that text.
pub proof fn law_unasked_answers_are_refused(
    r: Result<MessagePlan, SendFailure>,
    relay: RelayView,
    words: Seq<char>,
    number: int,
    message: ClientJsonRpcMessageView,
)
    requires
        relay.default_target is None,
        sends_back(r, relay, RequestIdView::Number(number), message),
    ensures
        r matches Err(SendFailure::Mcp(Error::SendError(to, m))) && to is None && m@
            == "unknown request id for client response: "@ + crate::decimal::decimal_text(number),
        id_text(RequestIdView::String(words)) == words,
{
}

proof fn lemma_broken(errors: Seq<Option<String>>, n: int, i: int, k: int)
    requires
        0 <= i <= k <= n,
        k <= errors.len(),
        k < n && k < errors.len() ==> errors[k] is Some,
        forall|j: int| 0 <= j < k ==> (#[trigger] errors[j]) is None,
    ensures
        first_broken(errors, n, i) == if k < n && k < errors.len() {
            Some(k)
        } else {
            None
        },
    decreases k - i,
{
    if i < k {
        assert(errors[i] is None);
        lemma_broken(errors, n, i + 1, k);
    }
}

/// The first expression of a descriptor that does not compile is the one that is complained about.
pub proof fn law_first_broken_expression(errors: Seq<Option<String>>, n: int, k: int)
    requires
        0 <= k <= n,
        k <= errors.len(),
        k < n && k < errors.len() ==> errors[k] is Some,
        forall|j: int| 0 <= j < k ==> (#[trigger] errors[j]) is None,
    ensures
        k < n && k < errors.len() ==> first_broken(errors, n, 0) == Some(k),
        k == n || k == errors.len() ==> first_broken(errors, n, 0) is None,
{
    lemma_broken(errors, n, 0, k);
}

/// What guardrails are told of parameters that name nothing: that a tool was called, without a
/// name, and of a prompt or a resource nothing. Without parameters they are told the method alone.
pub proof fn law_guardrails_are_told_no_name(info: MCPInfo, method: Seq<char>)
    ensures
        tells_params(info, method, None) ==> info.tool is None && info.prompt is None
            && info.resource is None && info.task is None && (info.method_name matches Some(m)
            && m@ == method),
        tells_params(info, method, Some(JsonView::Object(Seq::empty()))) ==> info.prompt is None
            && info.resource is None && info.task is None && (info.tool is Some <==> method
            == "tools/call"@) && (info.tool matches Some(t) ==> t.name@.len() == 0
            && t.arguments is None),
{
    json::lemma_key_index_from(Seq::empty(), "name"@, 0);
    json::lemma_key_index_from(Seq::empty(), "uri"@, 0);
    json::lemma_key_index_from(Seq::empty(), "arguments"@, 0);
}

/// An answer of the client goes to the upstream that asked, which the id carries, with that
/// upstream's own id and what the client answered; with one target it goes there as it is.
pub proof fn law_answers_are_sent_back(
    r: Result<MessagePlan, SendFailure>,
    relay: RelayView,
    target: Seq<char>,
    id: RequestIdView,
    result: JsonView,
)
    requires
        !crate::text::contains_seq(target, "\u{1f}"@),
        id matches RequestIdView::Number(n) ==> i64::MIN <= n <= i64::MAX,
    ensures
        ({
            let seen = RequestIdView::String(wrapped_request_id(target, id));
            relay.default_target is None && sends_back(
                r,
                relay,
                seen,
                ClientJsonRpcMessageView::Response(seen, result),
            ) ==> (r matches Ok(MessagePlan::Forward { target: to, message }) && to@ == target
                && message@ == ClientJsonRpcMessageView::Response(id, result))
        }),
        relay.default_target is Some && sends_back(
            r,
            relay,
            id,
            ClientJsonRpcMessageView::Response(id, result),
        ) ==> (r matches Ok(MessagePlan::Forward { target: to, message }) && Some(to@)
            == relay.default_target && message@ == ClientJsonRpcMessageView::Response(id, result)),
{
    law_request_id_round_trip(target, id);
}

/// The same holds of an answer on its way to the plan: it is forwarded to the upstream that asked,
/// with that upstream's own id.
pub proof fn law_answers_are_forwarded(
    r: Result<MessagePlan, UpstreamError>,
    relay: RelayView,
    target: Seq<char>,
    id: RequestIdView,
    result: JsonView,
    number: int,
)
    requires
        !crate::text::contains_seq(target, "\u{1f}"@),
        id matches RequestIdView::Number(n) ==> i64::MIN <= n <= i64::MAX,
        relay.default_target is None,
    ensures
        ({
            let seen = RequestIdView::String(wrapped_request_id(target, id));
            forwards(r, relay, seen, ClientJsonRpcMessageView::Response(seen, result)) ==> (
            r matches Ok(MessagePlan::Forward { target: to, message }) && to@ == target && message@
                == ClientJsonRpcMessageView::Response(id, result))
        }),
        forwards(
            r,
            relay,
            RequestIdView::Number(number),
            ClientJsonRpcMessageView::Response(RequestIdView::Number(number), result),
        ) ==> (r matches Err(UpstreamError::InvalidRequest(m)) && m@
            == "unknown request id for client response: "@ + crate::decimal::decimal_text(number)),
{
    law_request_id_round_trip(target, id);
}

} // verus!
