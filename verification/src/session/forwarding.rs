//! What holds of the requests, notifications and answers of a client on their way to the
//! upstreams.

use crate::client::{
    ClientJsonRpcMessageView, ClientNotificationView, ClientRequestView, ReferenceView, tells,
};
use crate::handler::{RelayView, prompt_route, task_route, tool_route};
use crate::json::JsonView;
use crate::mcp_apps::capabilities::{CapabilityKind, law_asked_targets_are_filtered};
use crate::mcp_apps::percent::parsed_url;
use crate::mcp_apps::routing::resolved_uri;
use crate::model::{ErrorDataView, RequestIdView, ServerCapabilities};
use crate::multiplex_naming::{law_request_id_round_trip, wrapped_request_id};
use crate::session::dispatch::{
    MergeView, NoPlan, NotificationPlanView, PlanView, after_notification, message_method,
    notification_plan, plan, response_target, with_id,
};
use crate::session::single::{
    CallKind, Check, SingleCallView, Verdict, kind_label, pending, policed, step,
};
use crate::text;
use vstd::prelude::*;
use vstd::string::*;

verus! {

/// Forwarding changes nothing of a request but the name: what an upstream gets has the arguments
/// and all other parameters that the client sent, under the name that the upstream knows. The
/// title of a completed prompt is left out. The call keeps the id and the name of the client, and
/// has passed no check yet.
pub proof fn law_only_the_name_changes(
    relay: RelayView,
    id: RequestIdView,
    request: ClientRequestView,
)
    requires
        plan(relay, id, request) matches Ok(PlanView::Single(_)),
    ensures
        plan(relay, id, request) matches Ok(PlanView::Single(call)) && call.id == id && call.passed
            == 0 && match request {
            ClientRequestView::CallToolRequest(name, arguments, rest) => call.client_name == name
                && call.kind == CallKind::Tool && call.request
                == ClientRequestView::CallToolRequest(call.upstream_name, arguments, rest),
            ClientRequestView::GetPromptRequest(name, rest) => call.client_name == name && call.kind
                == CallKind::Prompt && call.request == ClientRequestView::GetPromptRequest(
                call.upstream_name,
                rest,
            ),
            ClientRequestView::ReadResourceRequest(uri, rest) => call.client_name == uri
                && call.kind == CallKind::ReadResource && call.request
                == ClientRequestView::ReadResourceRequest(call.upstream_name, rest),
            ClientRequestView::SubscribeRequest(uri, rest) => call.client_name == uri && call.kind
                == CallKind::Subscription && call.request == ClientRequestView::SubscribeRequest(
                call.upstream_name,
                rest,
            ),
            ClientRequestView::UnsubscribeRequest(uri, rest) => call.client_name == uri
                && call.kind == CallKind::Subscription && call.request
                == ClientRequestView::UnsubscribeRequest(call.upstream_name, rest),
            ClientRequestView::GetTaskInfoRequest(task, rest) => call.client_name == task
                && call.kind == CallKind::Task && call.request
                == ClientRequestView::GetTaskInfoRequest(call.upstream_name, rest),
            ClientRequestView::GetTaskResultRequest(task, rest) => call.client_name == task
                && call.kind == CallKind::Task && call.request
                == ClientRequestView::GetTaskResultRequest(call.upstream_name, rest),
            ClientRequestView::CancelTaskRequest(task, rest) => call.client_name == task
                && call.kind == CallKind::Task && call.request
                == ClientRequestView::CancelTaskRequest(call.upstream_name, rest),
            ClientRequestView::CompleteRequest(ReferenceView::Prompt(name, _), rest) =>
                call.client_name == name && call.kind == CallKind::CompletePrompt && call.request
                    == ClientRequestView::CompleteRequest(
                    ReferenceView::Prompt(call.upstream_name, None),
                    rest,
                ),
            ClientRequestView::CompleteRequest(ReferenceView::Resource(uri), rest) =>
                call.client_name == uri && call.kind == CallKind::CompleteResource && call.request
                    == ClientRequestView::CompleteRequest(
                    ReferenceView::Resource(call.upstream_name),
                    rest,
                ),
            _ => false,
        },
{
}

/// A plan leads where a name leads, or is refused for the reason for which the name is.
pub open spec fn leads(
    p: Result<PlanView, NoPlan>,
    route: Result<(Seq<char>, Seq<char>), Seq<char>>,
) -> bool {
    match route {
        Ok((target, name)) => p matches Ok(PlanView::Single(call)) && call.target == target
            && call.upstream_name == name,
        Err(reason) => p == Err::<PlanView, NoPlan>(NoPlan::Invalid(reason)),
    }
}

/// A call goes where its name leads: that of a tool, of a prompt or of a task by the routes for
/// these, and a URI by what it holds. A name that leads nowhere is refused with the reason, which
/// for a task names the id.
pub proof fn law_a_call_goes_where_its_name_leads(
    relay: RelayView,
    id: RequestIdView,
    request: ClientRequestView,
)
    ensures
        match request {
            ClientRequestView::CallToolRequest(name, _, _) => leads(
                plan(relay, id, request),
                tool_route(relay, name),
            ),
            ClientRequestView::GetPromptRequest(name, _) => leads(
                plan(relay, id, request),
                prompt_route(relay, name),
            ),
            ClientRequestView::CompleteRequest(ReferenceView::Prompt(name, _), _) => leads(
                plan(relay, id, request),
                prompt_route(relay, name),
            ),
            ClientRequestView::ReadResourceRequest(uri, _) => leads(
                plan(relay, id, request),
                resolved_uri(relay.default_target, uri, parsed_url(uri)),
            ),
            ClientRequestView::SubscribeRequest(uri, _) => leads(
                plan(relay, id, request),
                resolved_uri(relay.default_target, uri, parsed_url(uri)),
            ),
            ClientRequestView::UnsubscribeRequest(uri, _) => leads(
                plan(relay, id, request),
                resolved_uri(relay.default_target, uri, parsed_url(uri)),
            ),
            ClientRequestView::CompleteRequest(ReferenceView::Resource(uri), _) => leads(
                plan(relay, id, request),
                resolved_uri(relay.default_target, uri, parsed_url(uri)),
            ),
            ClientRequestView::GetTaskInfoRequest(task, _) => leads_task(
                plan(relay, id, request),
                task,
                task_route(relay, task),
            ),
            ClientRequestView::GetTaskResultRequest(task, _) => leads_task(
                plan(relay, id, request),
                task,
                task_route(relay, task),
            ),
            ClientRequestView::CancelTaskRequest(task, _) => leads_task(
                plan(relay, id, request),
                task,
                task_route(relay, task),
            ),
            ClientRequestView::CustomRequest(method, _) => plan(relay, id, request) == Err::<
                PlanView,
                NoPlan,
            >(NoPlan::Method(method)),
            _ => plan(relay, id, request) is Ok,
        },
{
}

/// A plan leads where a task id leads, or is refused with the id and the reason.
pub open spec fn leads_task(
    p: Result<PlanView, NoPlan>,
    task: Seq<char>,
    route: Result<(Seq<char>, Seq<char>), Seq<char>>,
) -> bool {
    match route {
        Ok(_) => leads(p, route),
        Err(reason) => p == Err::<PlanView, NoPlan>(
            NoPlan::Invalid("invalid task id: "@ + task + ": "@ + reason),
        ),
    }
}

/// The targets that have not answered `initialize` yet, and those whose answer `has` the part.
pub open spec fn may_have(
    relay: RelayView,
    has: spec_fn(ServerCapabilities) -> bool,
) -> Seq<Seq<char>> {
    relay.targets.filter(
        |t: Seq<char>| !relay.capabilities.contains_key(t) || has(relay.capabilities[t]),
    )
}

/// A request for what all upstreams share goes to them as the client sent it: a list to the
/// targets that may have such items, in the order of the targets, and a ping or a log level to
/// all. The answers are merged as what was asked for.
pub proof fn law_shared_requests_go_as_they_came(
    relay: RelayView,
    id: RequestIdView,
    request: ClientRequestView,
)
    ensures
        match request {
            ClientRequestView::PingRequest => plan(relay, id, request) == Ok::<PlanView, NoPlan>(
                PlanView::All(request, MergeView::Empty),
            ),
            ClientRequestView::SetLevelRequest(_) => plan(relay, id, request) == Ok::<
                PlanView,
                NoPlan,
            >(PlanView::All(request, MergeView::Empty)),
            ClientRequestView::ListToolsRequest(_) => plan(relay, id, request) == Ok::<
                PlanView,
                NoPlan,
            >(
                PlanView::Chosen(
                    may_have(relay, |c: ServerCapabilities| c.tools is Some),
                    request,
                    MergeView::Tools,
                ),
            ),
            ClientRequestView::ListPromptsRequest(_) => plan(relay, id, request) == Ok::<
                PlanView,
                NoPlan,
            >(
                PlanView::Chosen(
                    may_have(relay, |c: ServerCapabilities| c.prompts is Some),
                    request,
                    MergeView::Prompts,
                ),
            ),
            ClientRequestView::ListResourcesRequest(_) => plan(relay, id, request) == Ok::<
                PlanView,
                NoPlan,
            >(
                PlanView::Chosen(
                    may_have(relay, |c: ServerCapabilities| c.resources is Some),
                    request,
                    MergeView::Resources,
                ),
            ),
            ClientRequestView::ListResourceTemplatesRequest(_) => plan(relay, id, request) == Ok::<
                PlanView,
                NoPlan,
            >(
                PlanView::Chosen(
                    may_have(relay, |c: ServerCapabilities| c.resources is Some),
                    request,
                    MergeView::ResourceTemplates,
                ),
            ),
            ClientRequestView::ListTasksRequest(_) => plan(relay, id, request) == Ok::<
                PlanView,
                NoPlan,
            >(
                PlanView::Chosen(
                    may_have(relay, |c: ServerCapabilities| c.tasks is Some),
                    request,
                    MergeView::Tasks,
                ),
            ),
            _ => true,
        },
{
    law_asked_targets_are_filtered(
        relay.capabilities,
        CapabilityKind::Tools,
        relay.targets,
        |c: ServerCapabilities| c.tools is Some,
    );
    law_asked_targets_are_filtered(
        relay.capabilities,
        CapabilityKind::Prompts,
        relay.targets,
        |c: ServerCapabilities| c.prompts is Some,
    );
    law_asked_targets_are_filtered(
        relay.capabilities,
        CapabilityKind::Resources,
        relay.targets,
        |c: ServerCapabilities| c.resources is Some,
    );
    law_asked_targets_are_filtered(
        relay.capabilities,
        CapabilityKind::Tasks,
        relay.targets,
        |c: ServerCapabilities| c.tasks is Some,
    );
}

/// The upstreams get the client's `initialize` with all that the client says of itself, but for
/// the capabilities that the gateway has no way back for: roots and sampling.
pub proof fn law_initialize_loses_only_roots_and_sampling(
    relay: RelayView,
    id: RequestIdView,
    info: crate::client::ClientInfoView,
)
    ensures
        plan(relay, id, ClientRequestView::InitializeRequest(info)) matches Ok(
            PlanView::All(ClientRequestView::InitializeRequest(sent), merge),
        ) && {
            &&& merge == MergeView::Initialize(info.protocol_version)
            &&& sent.protocol_version == info.protocol_version
            &&& sent.name == info.name
            &&& sent.version == info.version
            &&& sent.rest == info.rest
            &&& sent.capabilities.roots is None
            &&& sent.capabilities.sampling is None
            &&& sent.capabilities.elicitation == info.capabilities.elicitation
            &&& sent.capabilities.rest == info.capabilities.rest
        },
{
}

/// What a guardrail makes of a call of a tool or a prompt is sent with all that the guardrail put
/// into it, still under the name that the upstream knows; what it makes of a read is sent as it
/// is.
pub proof fn law_a_changed_call_keeps_its_name(
    call: SingleCallView,
    name: Seq<char>,
    arguments: Option<crate::json::MembersView>,
    rest: JsonView,
)
    requires
        pending(call) == Some(Check::Guardrails),
    ensures
        call.kind == CallKind::Tool ==> {
            let changed = ClientRequestView::CallToolRequest(name, arguments, rest);
            step(call, Verdict::Mutated(changed)) matches Some(next) && next.request
                == ClientRequestView::CallToolRequest(call.upstream_name, arguments, rest)
        },
        call.kind == CallKind::Prompt ==> {
            let changed = ClientRequestView::GetPromptRequest(name, rest);
            step(call, Verdict::Mutated(changed)) matches Some(next) && next.request
                == ClientRequestView::GetPromptRequest(call.upstream_name, rest)
        },
        call.kind == CallKind::ReadResource ==> {
            let changed = ClientRequestView::ReadResourceRequest(name, rest);
            step(call, Verdict::Mutated(changed)) matches Some(next) && next.request == changed
        },
{
}

/// A check that lets a call pass leaves it as it is, and is not asked again; one that does not
/// ends it.
pub proof fn law_a_passed_check_changes_nothing(call: SingleCallView)
    ensures
        pending(call) == Some(Check::Policy) ==> {
            &&& step(call, Verdict::Policy(true)) == Some(
                SingleCallView { passed: call.passed + 1, ..call },
            )
            &&& step(call, Verdict::Policy(false)) is None
        },
        pending(call) == Some(Check::Guardrails) ==> {
            &&& step(call, Verdict::Pass) == Some(
                SingleCallView { passed: call.passed + 1, ..call },
            )
            &&& step(call, Verdict::Reject) is None
        },
{
}

/// A notification goes on as the client sent it: a cancellation of a call that is under way to the
/// upstream that has the call, and all that is no cancellation to all upstreams. No other call is
/// forgotten for it.
pub proof fn law_notifications_go_as_they_came(
    relay: RelayView,
    in_flight: Map<RequestIdView, Seq<char>>,
    id: RequestIdView,
    rest: JsonView,
    other: ClientNotificationView,
)
    requires
        !(other is CancelledNotification),
    ensures
        notification_plan(relay, in_flight, other) == NotificationPlanView::All(other),
        after_notification(in_flight, other) == in_flight,
        ({
            let n = ClientNotificationView::CancelledNotification(id, rest);
            let after = after_notification(in_flight, n);
            &&& in_flight.contains_key(id) ==> notification_plan(relay, in_flight, n)
                == NotificationPlanView::One(in_flight[id], n)
            &&& !after.contains_key(id)
            &&& forall|k: RequestIdView|
                k != id && #[trigger] in_flight.contains_key(k) ==> after.contains_key(k)
                    && after[k] == in_flight[k]
            &&& forall|k: RequestIdView| #[trigger]
                after.contains_key(k) ==> in_flight.contains_key(k)
        }),
{
}

/// A cancellation by an id that no call of the client has is for a request of an upstream. It goes
/// to that upstream, with the id that the upstream gave the request and all else as it came: the
/// only target where there is one, and else the one that the id carries. One that carries none
/// goes to all.
pub proof fn law_cancellation_reaches_the_asking_server(
    relay: RelayView,
    in_flight: Map<RequestIdView, Seq<char>>,
    target: Seq<char>,
    id: RequestIdView,
    rest: JsonView,
)
    requires
        !text::contains_seq(target, "\u{1f}"@),
        id matches RequestIdView::Number(n) ==> i64::MIN <= n <= i64::MAX,
    ensures
        ({
            let n = ClientNotificationView::CancelledNotification(id, rest);
            !in_flight.contains_key(id) ==> match relay.default_target {
                Some(only) => notification_plan(relay, in_flight, n) == NotificationPlanView::One(
                    only,
                    n,
                ),
                None => id is Number ==> notification_plan(relay, in_flight, n)
                    == NotificationPlanView::All(n),
            }
        }),
        ({
            let seen = RequestIdView::String(wrapped_request_id(target, id));
            let n = ClientNotificationView::CancelledNotification(seen, rest);
            relay.default_target is None && !in_flight.contains_key(seen) ==> notification_plan(
                relay,
                in_flight,
                n,
            ) == NotificationPlanView::One(
                target,
                ClientNotificationView::CancelledNotification(id, rest),
            )
        }),
{
    law_request_id_round_trip(target, id);
}

/// An answer of the client goes to the upstream that asked, with the upstream's own id and the
/// result or the error as the client gave it. With one target it goes there under the id that it
/// has.
pub proof fn law_answers_go_back_as_they_came(
    relay: RelayView,
    target: Seq<char>,
    id: RequestIdView,
    result: JsonView,
    error: ErrorDataView,
)
    requires
        !text::contains_seq(target, "\u{1f}"@),
        id matches RequestIdView::Number(n) ==> i64::MIN <= n <= i64::MAX,
    ensures
        ({
            let seen = match relay.default_target {
                Some(_) => id,
                None => RequestIdView::String(wrapped_request_id(target, id)),
            };
            response_target(relay, seen) matches Some((to, original)) && {
                &&& to == (match relay.default_target {
                    Some(only) => only,
                    None => target,
                })
                &&& with_id(ClientJsonRpcMessageView::Response(seen, result), original)
                    == ClientJsonRpcMessageView::Response(id, result)
                &&& with_id(ClientJsonRpcMessageView::Error(seen, error), original)
                    == ClientJsonRpcMessageView::Error(id, error)
            }
        }),
        relay.default_target is None && id is Number ==> response_target(relay, id) is None,
{
    law_request_id_round_trip(target, id);
}

/// Every call asks the policy before it is sent. One of a tool or a prompt asks the guardrails
/// before that, and one that reads a resource after; no other asks them.
pub proof fn law_order_of_checks(call: SingleCallView)
    ensures
        call.kind == CallKind::Tool || call.kind == CallKind::Prompt ==> {
            &&& call.passed == 0 ==> pending(call) == Some(Check::Guardrails)
            &&& call.passed == 1 ==> pending(call) == Some(Check::Policy)
            &&& call.passed >= 2 ==> pending(call) is None
        },
        call.kind == CallKind::ReadResource ==> {
            &&& call.passed == 0 ==> pending(call) == Some(Check::Policy)
            &&& call.passed == 1 ==> pending(call) == Some(Check::Guardrails)
            &&& call.passed >= 2 ==> pending(call) is None
        },
        call.kind != CallKind::Tool && call.kind != CallKind::Prompt && call.kind
            != CallKind::ReadResource ==> {
            &&& call.passed == 0 ==> pending(call) == Some(Check::Policy)
            &&& call.passed >= 1 ==> pending(call) is None
        },
{
}

/// The policy is asked about the very thing that the call is about: a tool, a prompt, a resource
/// or a task, at the target that it goes to, by the name that it has there.
pub proof fn law_policy_is_asked_about_the_call(
    call: SingleCallView,
    resource: crate::info::ResourceType,
)
    requires
        policed(call, resource),
    ensures
        ({
            let id = crate::info::resource_id(resource);
            id.target@ == call.target && id.name@ == call.upstream_name
        }),
        call.kind == CallKind::Tool ==> resource is Tool && kind_label(call.kind) == "tool"@,
        call.kind == CallKind::Prompt || call.kind == CallKind::CompletePrompt ==> resource is
            Prompt && kind_label(call.kind) == "prompt"@,
        call.kind == CallKind::Task ==> resource is Task && kind_label(call.kind) == "task"@,
        call.kind == CallKind::ReadResource || call.kind == CallKind::Subscription || call.kind
            == CallKind::CompleteResource ==> resource is Resource && kind_label(call.kind)
            == "resource"@,
{
}

/// What guardrails are told of a call of the client: its method, and the tool with its arguments,
/// the prompt or the resource, by the name that the request has; of any other request, the method
/// alone.
pub proof fn law_guardrails_are_told_the_request(
    info: crate::info::MCPInfo,
    request: ClientRequestView,
)
    requires
        tells(info, request),
    ensures
        info.method_name matches Some(m) && m@ == message_method(
            ClientJsonRpcMessageView::Request(RequestIdView::Number(0), request),
        ),
        info.task is None && info.session_id is None && info.is_error is None && info.success is
            None && info.error is None && info.upstream_error is None && info.backend_name is None,
        match request {
            ClientRequestView::CallToolRequest(name, arguments, _) => {
                &&& info.tool matches Some(t) && t.name@ == name
                &&& crate::json::opt_members_view(info.tool->0.arguments) == arguments
                &&& info.prompt is None && info.resource is None
            },
            ClientRequestView::GetPromptRequest(name, _) => {
                &&& info.prompt matches Some(p) && p.name@ == name
                &&& info.tool is None && info.resource is None
            },
            ClientRequestView::ReadResourceRequest(uri, _) => {
                &&& info.resource matches Some(r) && r.name@ == uri
                &&& info.tool is None && info.prompt is None
            },
            _ => info.tool is None && info.prompt is None && info.resource is None,
        },
{
}

/// A request is recorded under the method that it has in the protocol, and so is a notification;
/// what the client makes up itself, under the method that it gives.
pub proof fn law_methods_of_messages(
    id: RequestIdView,
    name: Seq<char>,
    arguments: Option<crate::json::MembersView>,
    reference: ReferenceView,
    rest: JsonView,
)
    ensures
        message_method(
            ClientJsonRpcMessageView::Request(
                id,
                ClientRequestView::CallToolRequest(name, arguments, rest),
            ),
        ) == "tools/call"@,
        message_method(
            ClientJsonRpcMessageView::Request(id, ClientRequestView::GetPromptRequest(name, rest)),
        ) == "prompts/get"@,
        message_method(
            ClientJsonRpcMessageView::Request(
                id,
                ClientRequestView::ReadResourceRequest(name, rest),
            ),
        ) == "resources/read"@,
        message_method(
            ClientJsonRpcMessageView::Request(id, ClientRequestView::SubscribeRequest(name, rest)),
        ) == "resources/subscribe"@,
        message_method(
            ClientJsonRpcMessageView::Request(
                id,
                ClientRequestView::UnsubscribeRequest(name, rest),
            ),
        ) == "resources/unsubscribe"@,
        message_method(
            ClientJsonRpcMessageView::Request(
                id,
                ClientRequestView::GetTaskInfoRequest(name, rest),
            ),
        ) == "tasks/get"@,
        message_method(
            ClientJsonRpcMessageView::Request(
                id,
                ClientRequestView::GetTaskResultRequest(name, rest),
            ),
        ) == "tasks/result"@,
        message_method(
            ClientJsonRpcMessageView::Request(id, ClientRequestView::CancelTaskRequest(name, rest)),
        ) == "tasks/cancel"@,
        message_method(
            ClientJsonRpcMessageView::Request(
                id,
                ClientRequestView::CompleteRequest(reference, rest),
            ),
        ) == "completion/complete"@,
        message_method(
            ClientJsonRpcMessageView::Request(id, ClientRequestView::CustomRequest(name, rest)),
        ) == name,
        message_method(
            ClientJsonRpcMessageView::Request(id, ClientRequestView::ListToolsRequest(rest)),
        ) == "tools/list"@,
        message_method(
            ClientJsonRpcMessageView::Request(id, ClientRequestView::ListPromptsRequest(rest)),
        ) == "prompts/list"@,
        message_method(
            ClientJsonRpcMessageView::Request(id, ClientRequestView::ListResourcesRequest(rest)),
        ) == "resources/list"@,
        message_method(
            ClientJsonRpcMessageView::Request(
                id,
                ClientRequestView::ListResourceTemplatesRequest(rest),
            ),
        ) == "resources/templates/list"@,
        message_method(
            ClientJsonRpcMessageView::Request(id, ClientRequestView::ListTasksRequest(rest)),
        ) == "tasks/list"@,
        message_method(
            ClientJsonRpcMessageView::Request(id, ClientRequestView::SetLevelRequest(rest)),
        ) == "logging/setLevel"@,
        message_method(ClientJsonRpcMessageView::Request(id, ClientRequestView::PingRequest))
            == "ping"@,
        message_method(
            ClientJsonRpcMessageView::Notification(
                ClientNotificationView::CancelledNotification(id, rest),
            ),
        ) == "notifications/cancelled"@,
        message_method(
            ClientJsonRpcMessageView::Notification(
                ClientNotificationView::ProgressNotification(rest),
            ),
        ) == "notifications/progress"@,
        message_method(
            ClientJsonRpcMessageView::Notification(ClientNotificationView::InitializedNotification),
        ) == "notifications/initialized"@,
        message_method(
            ClientJsonRpcMessageView::Notification(
                ClientNotificationView::RootsListChangedNotification,
            ),
        ) == "notifications/roots/list_changed"@,
        message_method(
            ClientJsonRpcMessageView::Notification(
                ClientNotificationView::CustomNotification(name, rest),
            ),
        ) == name,
{
}

} // verus!
