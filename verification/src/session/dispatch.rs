//! Where the messages of a client go.

use crate::client::{
    ClientInfoView, ClientJsonRpcMessage, ClientJsonRpcMessageView, ClientNotification,
    ClientNotificationView, ClientRequest, ClientRequestView, method_of, notification_method,
    subject_of,
};
use crate::decimal;
use crate::federation_outbound::OutboundMap;
use crate::handler::{
    Relay, RelayView, flat_and_shared, prompt_route, resolves_to, targets_to_list, task_route,
    tool_route,
};
use crate::info::MCPInfo;
use crate::json::{self, Json, JsonView, opt_members_view};
use crate::mcp_apps::capabilities::{CapabilityKind, asked_targets};
use crate::mcp_apps::percent::parsed_url;
use crate::mcp_apps::routing::resolved_uri;
use crate::model::{RequestId, RequestIdView, strs};
use crate::multiplex_naming::{unwrap_server_request_id, unwrapped_request_id};
use crate::rewrite::is_flat;
use crate::session::in_flight::InFlightRegistry;
use crate::session::single::{
    CallKind, SingleCall, SingleCallView, call_kind, fresh_call, kind_map, kind_of,
};
use crate::session::{record_request, strip_unsupported_client_capabilities, supported};
use crate::text;
use crate::upstream::{UpstreamError, invalid_request};
use vstd::prelude::*;
use vstd::string::*;

verus! {

/// How the answers of several upstreams become one.
#[derive(Debug, PartialEq, Eq)]
pub enum Merge {
    /// Their `initialize` results, for a client that asked for this protocol version.
    Initialize(String),
    Tools,
    Prompts,
    Resources,
    ResourceTemplates,
    Tasks,
    /// Into the empty result.
    Empty,
}

/// The mathematical way to merge.
pub enum MergeView {
    Initialize(Seq<char>),
    Tools,
    Prompts,
    Resources,
    ResourceTemplates,
    Tasks,
    Empty,
}

impl View for Merge {
    type V = MergeView;

    open spec fn view(&self) -> MergeView {
        match self {
            Merge::Initialize(pv) => MergeView::Initialize(pv@),
            Merge::Tools => MergeView::Tools,
            Merge::Prompts => MergeView::Prompts,
            Merge::Resources => MergeView::Resources,
            Merge::ResourceTemplates => MergeView::ResourceTemplates,
            Merge::Tasks => MergeView::Tasks,
            Merge::Empty => MergeView::Empty,
        }
    }
}

/// Where a request goes.
#[derive(Debug, PartialEq, Eq)]
pub enum Plan {
    /// To all upstreams, of which one must take it.
    All { request: ClientRequest, merge: Merge },
    /// To these upstreams, of which none need be there.
    Chosen { targets: Vec<String>, request: ClientRequest, merge: Merge },
    /// To one upstream, once it has passed its checks.
    Single(SingleCall),
}

/// The mathematical plan.
pub enum PlanView {
    All(ClientRequestView, MergeView),
    Chosen(Seq<Seq<char>>, ClientRequestView, MergeView),
    Single(SingleCallView),
}

impl View for Plan {
    type V = PlanView;

    open spec fn view(&self) -> PlanView {
        match self {
            Plan::All { request, merge } => PlanView::All(request@, merge@),
            Plan::Chosen { targets, request, merge } => PlanView::Chosen(
                strs(targets@),
                request@,
                merge@,
            ),
            Plan::Single(call) => PlanView::Single(call@),
        }
    }
}

/// How messages that answer a request become what the client sees, by where it went.
pub open spec fn plan_map(p: PlanView) -> OutboundMap {
    match p {
        PlanView::All(_, _) => OutboundMap::All,
        PlanView::Chosen(_, _, _) => OutboundMap::Chosen,
        PlanView::Single(call) => kind_map(call.kind),
    }
}

impl Plan {
    /// How messages that answer the request become what the client sees.
    pub fn outbound_map(&self) -> (r: OutboundMap)
        ensures
            r == plan_map(self@),
    {
        match self {
            Plan::All { request: _, merge: _ } => OutboundMap::All,
            Plan::Chosen { targets: _, request: _, merge: _ } => OutboundMap::Chosen,
            Plan::Single(call) => call.outbound_map(),
        }
    }
}

/// The id of a list request that the gateway makes for itself.
pub const LISTING_ID: i64 = -1;

/// A list request to these upstreams, where there are any.
pub open spec fn listing(
    targets: Option<Seq<Seq<char>>>,
    request: ClientRequestView,
    merge: MergeView,
) -> Option<PlanView> {
    match targets {
        Some(targets) => Some(PlanView::Chosen(targets, request, merge)),
        None => None,
    }
}

/// What is listed first to find the routes that a request needs; `None` where they are known, or
/// it needs none.
pub open spec fn route_listing(relay: RelayView, request: ClientRequestView) -> Option<PlanView> {
    match kind_of(request) {
        Some(CallKind::Tool) => listing(
            targets_to_list(
                is_flat(relay.rewrite),
                relay.tool_routes,
                asked_targets(relay.capabilities, CapabilityKind::Tools, relay.targets),
            ),
            ClientRequestView::ListToolsRequest(JsonView::Null),
            MergeView::Tools,
        ),
        Some(CallKind::Prompt) | Some(CallKind::CompletePrompt) => listing(
            targets_to_list(
                is_flat(relay.rewrite),
                relay.prompt_routes,
                asked_targets(relay.capabilities, CapabilityKind::Prompts, relay.targets),
            ),
            ClientRequestView::ListPromptsRequest(JsonView::Null),
            MergeView::Prompts,
        ),
        Some(CallKind::Task) => listing(
            targets_to_list(
                flat_and_shared(relay),
                relay.task_routes,
                asked_targets(relay.capabilities, CapabilityKind::Tasks, relay.targets),
            ),
            ClientRequestView::ListTasksRequest(JsonView::Null),
            MergeView::Tasks,
        ),
        _ => None,
    }
}

/// Why a request goes nowhere.
pub enum NoPlan {
    /// It is not valid, for this reason.
    Invalid(Seq<char>),
    /// Its method is not served.
    Method(Seq<char>),
}

/// The upstream of a request to one upstream, and what it is about there.
pub open spec fn destination(relay: RelayView, kind: CallKind, client_name: Seq<char>) -> Result<
    (Seq<char>, Seq<char>),
    Seq<char>,
> {
    match kind {
        CallKind::Tool => tool_route(relay, client_name),
        CallKind::Prompt => prompt_route(relay, client_name),
        CallKind::CompletePrompt => prompt_route(relay, client_name),
        CallKind::Task => match task_route(relay, client_name) {
            Ok(route) => Ok(route),
            Err(m) => Err("invalid task id: "@ + client_name + ": "@ + m),
        },
        _ => resolved_uri(relay.default_target, client_name, parsed_url(client_name)),
    }
}

/// A list request to those upstreams that may have such things.
pub open spec fn list_plan(
    relay: RelayView,
    kind: CapabilityKind,
    request: ClientRequestView,
    merge: MergeView,
) -> Result<PlanView, NoPlan> {
    Ok(PlanView::Chosen(asked_targets(relay.capabilities, kind, relay.targets), request, merge))
}

/// Where a request goes.
pub open spec fn plan(relay: RelayView, id: RequestIdView, request: ClientRequestView) -> Result<
    PlanView,
    NoPlan,
> {
    match request {
        ClientRequestView::InitializeRequest(info) => Ok(
            PlanView::All(
                ClientRequestView::InitializeRequest(
                    ClientInfoView { capabilities: supported(info.capabilities), ..info },
                ),
                MergeView::Initialize(info.protocol_version),
            ),
        ),
        ClientRequestView::PingRequest => Ok(PlanView::All(request, MergeView::Empty)),
        ClientRequestView::SetLevelRequest(_) => Ok(PlanView::All(request, MergeView::Empty)),
        ClientRequestView::ListToolsRequest(_) => list_plan(
            relay,
            CapabilityKind::Tools,
            request,
            MergeView::Tools,
        ),
        ClientRequestView::ListPromptsRequest(_) => list_plan(
            relay,
            CapabilityKind::Prompts,
            request,
            MergeView::Prompts,
        ),
        ClientRequestView::ListResourcesRequest(_) => list_plan(
            relay,
            CapabilityKind::Resources,
            request,
            MergeView::Resources,
        ),
        ClientRequestView::ListResourceTemplatesRequest(_) => list_plan(
            relay,
            CapabilityKind::Resources,
            request,
            MergeView::ResourceTemplates,
        ),
        ClientRequestView::ListTasksRequest(_) => list_plan(
            relay,
            CapabilityKind::Tasks,
            request,
            MergeView::Tasks,
        ),
        ClientRequestView::CustomRequest(method, _) => Err(NoPlan::Method(method)),
        _ => {
            let kind = kind_of(request)->0;
            match destination(relay, kind, subject_of(request)->0) {
                Ok((target, name)) => Ok(
                    PlanView::Single(fresh_call(id, kind, target, name, request)),
                ),
                Err(m) => Err(NoPlan::Invalid(m)),
            }
        },
    }
}

/// What is recorded of a request to one upstream: what it is about there.
pub open spec fn records_call(before: MCPInfo, after: MCPInfo, call: SingleCallView) -> bool {
    let keeps_rest = after == (MCPInfo {
        tool: after.tool,
        prompt: after.prompt,
        resource: after.resource,
        task: after.task,
        ..before
    });
    &&& keeps_rest
    &&& crate::info::at_most_one_subject(after)
    &&& crate::info::subject(after) == Some((call.target, call.upstream_name))
    &&& match call.kind {
        CallKind::Tool => {
            &&& after.tool is Some
            &&& call.request matches ClientRequestView::CallToolRequest(_, arguments, _)
                && opt_members_view(after.tool->0.arguments) == arguments
            &&& after.tool->0.result == (match before.tool {
                Some(t) => t.result,
                None => None,
            })
            &&& after.tool->0.error == (match before.tool {
                Some(t) => t.error,
                None => None,
            })
        },
        CallKind::Prompt => after.prompt is Some,
        CallKind::CompletePrompt => after.prompt is Some,
        CallKind::Task => after.task is Some,
        _ => after.resource is Some,
    }
}

/// What is recorded when a request was planned.
pub open spec fn records_plan(before: MCPInfo, after: MCPInfo, p: Result<PlanView, NoPlan>) -> bool {
    match p {
        Ok(PlanView::Single(call)) => records_call(before, after, call),
        _ => after == before,
    }
}

/// The outcome of planning is `want`.
pub open spec fn plans(r: Result<Plan, UpstreamError>, want: Result<PlanView, NoPlan>) -> bool {
    match want {
        Ok(p) => r matches Ok(x) && x@ == p,
        Err(NoPlan::Invalid(m)) => r matches Err(e) && invalid_request(e, m),
        Err(NoPlan::Method(m)) => r matches Err(UpstreamError::InvalidMethod(x)) && x@ == m,
    }
}

/// The text of a request id.
pub open spec fn id_text(id: RequestIdView) -> Seq<char> {
    match id {
        RequestIdView::Number(n) => decimal::decimal_text(n),
        RequestIdView::String(s) => s,
    }
}

/// The upstream that a response of the client, or its cancellation of a request of a server, is
/// for, with the id that the server gave.
pub open spec fn response_target(relay: RelayView, id: RequestIdView) -> Option<
    (Seq<char>, RequestIdView),
> {
    match relay.default_target {
        Some(target) => Some((target, id)),
        None => unwrapped_request_id(id),
    }
}

/// Where a notification goes: to one upstream, or to all.
#[derive(Debug, PartialEq, Eq)]
pub enum NotificationPlan {
    One { target: String, notification: ClientNotification },
    All(ClientNotification),
}

/// The mathematical plan for a notification.
pub enum NotificationPlanView {
    One(Seq<char>, ClientNotificationView),
    All(ClientNotificationView),
}

impl View for NotificationPlan {
    type V = NotificationPlanView;

    open spec fn view(&self) -> NotificationPlanView {
        match self {
            NotificationPlan::One { target, notification } => NotificationPlanView::One(
                target@,
                notification@,
            ),
            NotificationPlan::All(notification) => NotificationPlanView::All(notification@),
        }
    }
}

/// Where a notification goes.
///
/// The cancellation of a request of the client goes to the upstream that answers it. That of a
/// request of a server goes to that server, under the server's own id. All else, and a
/// cancellation that fits neither, goes to all upstreams.
pub open spec fn notification_plan(
    relay: RelayView,
    in_flight: Map<RequestIdView, Seq<char>>,
    n: ClientNotificationView,
) -> NotificationPlanView {
    match n {
        ClientNotificationView::CancelledNotification(id, rest) => if in_flight.dom().contains(
            id,
        ) {
            NotificationPlanView::One(in_flight[id], n)
        } else {
            match response_target(relay, id) {
                Some((target, original)) => NotificationPlanView::One(
                    target,
                    ClientNotificationView::CancelledNotification(original, rest),
                ),
                None => NotificationPlanView::All(n),
            }
        },
        _ => NotificationPlanView::All(n),
    }
}

/// The requests that are still being answered after a notification.
pub open spec fn after_notification(
    in_flight: Map<RequestIdView, Seq<char>>,
    n: ClientNotificationView,
) -> Map<RequestIdView, Seq<char>> {
    match n {
        ClientNotificationView::CancelledNotification(id, _) => in_flight.remove(id),
        _ => in_flight,
    }
}

/// A response or an error of the client under another id.
pub open spec fn with_id(
    message: ClientJsonRpcMessageView,
    id: RequestIdView,
) -> ClientJsonRpcMessageView {
    match message {
        ClientJsonRpcMessageView::Response(_, result) => ClientJsonRpcMessageView::Response(
            id,
            result,
        ),
        ClientJsonRpcMessageView::Error(_, error) => ClientJsonRpcMessageView::Error(id, error),
        _ => message,
    }
}

impl Relay {
    /// What is to be listed before a request is planned, so that the name in it can be resolved.
    /// Should the listing fail, the request is planned nevertheless.
    pub fn routes_to_load(&self, request: &ClientRequest) -> (r: Option<Plan>)
        ensures
            match route_listing(self@, request@) {
                Some(p) => r matches Some(x) && x@ == p,
                None => r is None,
            },
    {
        let kind = match call_kind(request) {
            Some(kind) => kind,
            None => {
                return None;
            },
        };
        let (targets, request, merge) = match kind {
            CallKind::Tool => (
                self.tool_routes_to_load(),
                ClientRequest::ListToolsRequest(Json::Null),
                Merge::Tools,
            ),
            CallKind::Prompt | CallKind::CompletePrompt => (
                self.prompt_routes_to_load(),
                ClientRequest::ListPromptsRequest(Json::Null),
                Merge::Prompts,
            ),
            CallKind::Task => (
                self.task_routes_to_load(),
                ClientRequest::ListTasksRequest(Json::Null),
                Merge::Tasks,
            ),
            _ => {
                return None;
            },
        };
        match targets {
            Some(targets) => Some(Plan::Chosen { targets, request, merge }),
            None => None,
        }
    }

    fn resolve(&self, kind: CallKind, client_name: &str) -> (r: Result<
        (String, String),
        UpstreamError,
    >)
        ensures
            resolves_to(r, destination(self@, kind, client_name@)),
    {
        match kind {
            CallKind::Tool => self.resolve_tool_call(client_name),
            CallKind::Prompt | CallKind::CompletePrompt => self.resolve_prompt_call(client_name),
            CallKind::Task => match self.resolve_task_call(client_name) {
                Ok(route) => Ok(route),
                Err(e) => {
                    let inner = e.to_string();
                    let mut m = text::concat3("invalid task id: ", client_name, ": ");
                    m.append(inner.as_str());
                    Err(UpstreamError::InvalidRequest(m))
                },
            },
            _ => self.parse_resource_uri(client_name),
        }
    }

    fn plan_single(
        &self,
        id: RequestId,
        kind: CallKind,
        client_name: String,
        request: ClientRequest,
        log: &mut MCPInfo,
    ) -> (r: Result<Plan, UpstreamError>)
        requires
            kind_of(request@) == Some(kind),
            subject_of(request@) == Some(client_name@),
        ensures
            plans(r, plan(self@, id@, request@)),
            records_plan(*old(log), *final(log), plan(self@, id@, request@)),
    {
        let (target, upstream_name) = match self.resolve(kind, client_name.as_str()) {
            Ok(route) => route,
            Err(e) => {
                return Err(e);
            },
        };
        match kind {
            CallKind::Tool => {
                log.set_tool(target.clone(), upstream_name.clone());
                let arguments = match &request {
                    ClientRequest::CallToolRequest { name: _, arguments, rest: _ } =>
                        match arguments {
                            Some(m) => Some(json::copy_members(m)),
                            None => None,
                        },
                    _ => None,
                };
                log.capture_call_arguments(arguments);
            },
            CallKind::Prompt | CallKind::CompletePrompt => {
                log.set_prompt(target.clone(), upstream_name.clone());
            },
            CallKind::Task => {
                log.set_task(target.clone(), upstream_name.clone());
            },
            _ => {
                log.set_resource(target.clone(), upstream_name.clone());
            },
        }
        let mut request = request;
        request.set_subject(upstream_name.clone());
        Ok(
            Plan::Single(
                SingleCall { id, kind, target, upstream_name, client_name, request, passed: 0 },
            ),
        )
    }

    /// Where a request goes. What it is about is recorded, where it goes to one upstream.
    ///
    /// The routes that its name needs must have been loaded before, where there are any to load.
    pub fn plan_request(&self, id: RequestId, request: ClientRequest, log: &mut MCPInfo) -> (r:
        Result<Plan, UpstreamError>)
        ensures
            plans(r, plan(self@, id@, request@)),
            records_plan(*old(log), *final(log), plan(self@, id@, request@)),
    {
        if let Some(kind) = call_kind(&request) {
            match request.subject() {
                Some(client_name) => {
                    return self.plan_single(id, kind, client_name, request, log);
                },
                None => {},
            }
        }
        match request {
            ClientRequest::InitializeRequest(info) => {
                let mut info = info;
                strip_unsupported_client_capabilities(&mut info.capabilities);
                let pv = info.protocol_version.clone();
                Ok(
                    Plan::All {
                        request: ClientRequest::InitializeRequest(info),
                        merge: Merge::Initialize(pv),
                    },
                )
            },
            ClientRequest::ListToolsRequest(p) => {
                let targets = self.capabilities.upstreams_with_tools(&self.targets);
                Ok(
                    Plan::Chosen {
                        targets,
                        request: ClientRequest::ListToolsRequest(p),
                        merge: Merge::Tools,
                    },
                )
            },
            ClientRequest::ListPromptsRequest(p) => {
                let targets = self.capabilities.upstreams_with_prompts(&self.targets);
                Ok(
                    Plan::Chosen {
                        targets,
                        request: ClientRequest::ListPromptsRequest(p),
                        merge: Merge::Prompts,
                    },
                )
            },
            ClientRequest::ListResourcesRequest(p) => {
                let targets = self.capabilities.upstreams_with_resources(&self.targets);
                Ok(
                    Plan::Chosen {
                        targets,
                        request: ClientRequest::ListResourcesRequest(p),
                        merge: Merge::Resources,
                    },
                )
            },
            ClientRequest::ListResourceTemplatesRequest(p) => {
                let targets = self.capabilities.upstreams_with_resources(&self.targets);
                Ok(
                    Plan::Chosen {
                        targets,
                        request: ClientRequest::ListResourceTemplatesRequest(p),
                        merge: Merge::ResourceTemplates,
                    },
                )
            },
            ClientRequest::ListTasksRequest(p) => {
                let targets = self.capabilities.upstreams_with_tasks(&self.targets);
                Ok(
                    Plan::Chosen {
                        targets,
                        request: ClientRequest::ListTasksRequest(p),
                        merge: Merge::Tasks,
                    },
                )
            },
            ClientRequest::CustomRequest { method, params: _ } => Err(
                UpstreamError::InvalidMethod(method),
            ),
            other => Ok(Plan::All { request: other, merge: Merge::Empty }),
        }
    }

    /// The upstream that a response of the client is for, with the id that the server gave.
    ///
    /// An id that the gateway wrapped says itself where it came from, so that any replica of the
    /// gateway can route the response. It may only name an upstream; whether there is one of that
    /// name is seen when the response is sent.
    pub fn resolve_client_response_target(&self, id: &RequestId) -> (r: Result<
        (String, RequestId),
        UpstreamError,
    >)
        ensures
            match response_target(self@, id@) {
                Some((target, original)) => r matches Ok(p) && p.0@ == target && p.1@ == original,
                None => r matches Err(e) && invalid_request(
                    e,
                    "unknown request id for client response: "@ + id_text(id@),
                ),
            },
    {
        if let Some(default) = &self.default_target_name {
            return Ok((default.clone(), id.copy()));
        }
        match unwrap_server_request_id(id) {
            Some((target, original)) => Ok((target, original)),
            None => {
                let shown = match id {
                    RequestId::Number(n) => decimal::format_i64(*n),
                    RequestId::String(s) => s.clone(),
                };
                Err(
                    UpstreamError::InvalidRequest(
                        text::concat("unknown request id for client response: ", shown.as_str()),
                    ),
                )
            },
        }
    }

    /// Where a notification goes.
    pub fn plan_notification(
        &self,
        in_flight: &mut InFlightRegistry,
        notification: ClientNotification,
    ) -> (r: NotificationPlan)
        ensures
            r@ == notification_plan(self@, old(in_flight)@, notification@),
            final(in_flight)@ == after_notification(old(in_flight)@, notification@),
    {
        match notification {
            ClientNotification::CancelledNotification { request_id, rest } => {
                if let Some(target) = in_flight.cancel(&request_id) {
                    return NotificationPlan::One {
                        target,
                        notification: ClientNotification::CancelledNotification {
                            request_id,
                            rest,
                        },
                    };
                }
                match self.resolve_client_response_target(&request_id) {
                    Ok((target, original)) => NotificationPlan::One {
                        target,
                        notification: ClientNotification::CancelledNotification {
                            request_id: original,
                            rest,
                        },
                    },
                    Err(_) => NotificationPlan::All(
                        ClientNotification::CancelledNotification { request_id, rest },
                    ),
                }
            },
            other => NotificationPlan::All(other),
        }
    }
}

/// Where a message of the client goes.
#[derive(Debug, PartialEq, Eq)]
pub enum MessagePlan {
    Request(Plan),
    Notification(NotificationPlan),
    /// A response or an error of the client, to the server whose request it answers.
    Forward { target: String, message: ClientJsonRpcMessage },
}

/// The name under which a message is recorded.
pub open spec fn message_method(message: ClientJsonRpcMessageView) -> Seq<char> {
    match message {
        ClientJsonRpcMessageView::Request(_, request) => method_of(request),
        ClientJsonRpcMessageView::Notification(n) => notification_method(n),
        ClientJsonRpcMessageView::Response(_, _) => "client_response"@,
        ClientJsonRpcMessageView::Error(_, _) => "client_error"@,
    }
}

/// A response or an error of the client is forwarded as it should be.
pub open spec fn forwards(
    r: Result<MessagePlan, UpstreamError>,
    relay: RelayView,
    id: RequestIdView,
    message: ClientJsonRpcMessageView,
) -> bool {
    match response_target(relay, id) {
        Some((target, original)) => r matches Ok(MessagePlan::Forward { target: t, message: m })
            && t@ == target && m@ == with_id(message, original),
        None => r matches Err(e) && invalid_request(
            e,
            "unknown request id for client response: "@ + id_text(id),
        ),
    }
}

/// What is recorded of a message: the method and the session. For a message of the client that
/// answers a server, only where it is forwarded.
pub open spec fn records_message(log: MCPInfo, method: Seq<char>, session_id: Seq<char>) -> bool {
    &&& log.method_name matches Some(m) && m@ == method
    &&& log.session_id matches Some(s) && s@ == session_id
}

/// What was recorded, with the method and the session that are recorded now.
pub open spec fn with_request_of(before: MCPInfo, after: MCPInfo) -> MCPInfo {
    MCPInfo { method_name: after.method_name, session_id: after.session_id, ..before }
}

impl Relay {
    fn forward(
        &self,
        id: RequestId,
        message: ClientJsonRpcMessage,
        log: &mut MCPInfo,
        method: &str,
        session_id: &str,
    ) -> (r: Result<MessagePlan, UpstreamError>)
        requires
            message@ matches ClientJsonRpcMessageView::Response(i, _) ==> i == id@,
            message@ matches ClientJsonRpcMessageView::Error(i, _) ==> i == id@,
        ensures
            forwards(r, self@, id@, message@),
            r is Ok ==> records_message(*final(log), method@, session_id@) && *final(log)
                == with_request_of(*old(log), *final(log)),
            r is Err ==> *final(log) == *old(log),
    {
        match self.resolve_client_response_target(&id) {
            Err(e) => Err(e),
            Ok((target, original)) => {
                record_request(log, method, session_id);
                let message = match message {
                    ClientJsonRpcMessage::Response { id: _, result } =>
                        ClientJsonRpcMessage::Response { id: original, result },
                    ClientJsonRpcMessage::Error { id: _, error } => ClientJsonRpcMessage::Error {
                        id: original,
                        error,
                    },
                    other => other,
                };
                Ok(MessagePlan::Forward { target, message })
            },
        }
    }

    /// Where a message of the client goes.
    pub fn plan_message(
        &self,
        in_flight: &mut InFlightRegistry,
        message: ClientJsonRpcMessage,
        log: &mut MCPInfo,
        session_id: &str,
    ) -> (r: Result<MessagePlan, UpstreamError>)
        ensures
            match message {
                ClientJsonRpcMessage::Request { id, request } => {
                    &&& match plan(self@, id@, request@) {
                        Ok(p) => r matches Ok(MessagePlan::Request(x)) && x@ == p,
                        Err(NoPlan::Invalid(m)) => r matches Err(e) && invalid_request(e, m),
                        Err(NoPlan::Method(m)) => r matches Err(UpstreamError::InvalidMethod(x))
                            && x@ == m,
                    }
                    &&& final(in_flight)@ == old(in_flight)@
                    &&& records_plan(
                        with_request_of(*old(log), *final(log)),
                        *final(log),
                        plan(self@, id@, request@),
                    )
                },
                ClientJsonRpcMessage::Notification(n) => {
                    &&& *final(log) == with_request_of(*old(log), *final(log))
                    &&& r matches Ok(MessagePlan::Notification(p)) && p@ == notification_plan(
                        self@,
                        old(in_flight)@,
                        n@,
                    )
                    &&& final(in_flight)@ == after_notification(old(in_flight)@, n@)
                },
                ClientJsonRpcMessage::Response { id, result } => {
                    &&& forwards(r, self@, id@, message@)
                    &&& final(in_flight)@ == old(in_flight)@
                },
                ClientJsonRpcMessage::Error { id, error } => {
                    &&& forwards(r, self@, id@, message@)
                    &&& final(in_flight)@ == old(in_flight)@
                },
            },
            r is Ok || message is Request ==> records_message(
                *final(log),
                message_method(message@),
                session_id@,
            ),
            message is Response || message is Error ==> *final(log) == (if r is Ok {
                with_request_of(*old(log), *final(log))
            } else {
                *old(log)
            }),
    {
        match message {
            ClientJsonRpcMessage::Request { id, request } => {
                let method = request.method();
                record_request(log, method.as_str(), session_id);
                match self.plan_request(id, request, log) {
                    Ok(p) => Ok(MessagePlan::Request(p)),
                    Err(e) => Err(e),
                }
            },
            ClientJsonRpcMessage::Notification(n) => {
                let method = n.method();
                record_request(log, method.as_str(), session_id);
                Ok(MessagePlan::Notification(self.plan_notification(in_flight, n)))
            },
            ClientJsonRpcMessage::Response { id, result } => {
                let original = id.copy();
                self.forward(
                    original,
                    ClientJsonRpcMessage::Response { id, result },
                    log,
                    "client_response",
                    session_id,
                )
            },
            ClientJsonRpcMessage::Error { id, error } => {
                let original = id.copy();
                self.forward(
                    original,
                    ClientJsonRpcMessage::Error { id, error },
                    log,
                    "client_error",
                    session_id,
                )
            },
        }
    }
}

/// What a client answers to a request of a server goes to that server alone, under the id that
/// the server gave, for target names without the separator.
pub proof fn law_client_answers_the_asking_server(
    relay: RelayView,
    target: Seq<char>,
    id: RequestIdView,
)
    requires
        relay.default_target is None,
        !text::contains_seq(target, "\u{1f}"@),
        id matches RequestIdView::Number(n) ==> i64::MIN <= n <= i64::MAX,
    ensures
        response_target(
            relay,
            RequestIdView::String(crate::multiplex_naming::wrapped_request_id(target, id)),
        ) == Some((target, id)),
{
    crate::multiplex_naming::law_request_id_round_trip(target, id);
}

/// A request to one upstream is planned with nothing passed, about the thing that its name stands
/// for there.
pub proof fn law_single_call_starts_unchecked(
    relay: RelayView,
    id: RequestIdView,
    request: ClientRequestView,
)
    requires
        kind_of(request) is Some,
        plan(relay, id, request) is Ok,
    ensures
        plan(relay, id, request) matches Ok(PlanView::Single(call)) && call.passed == 0
            && crate::session::single::pending(call) is Some && subject_of(call.request) == Some(
            call.upstream_name,
        ) && kind_of(call.request) == Some(call.kind),
{
}

} // verus!
