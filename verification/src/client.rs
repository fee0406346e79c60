//! Messages from the client, as far as the gateway looks into them.

use crate::info::MCPInfo;
use crate::json::{self, Json, JsonMap, JsonView, MembersView, opt_json_view, opt_members_view};
use crate::model::{ErrorData, ErrorDataView, RequestId, RequestIdView, opt_str};
use vstd::prelude::*;
use vstd::string::*;

verus! {

/// What a client says it can do.
#[derive(Debug, PartialEq, Eq)]
pub struct ClientCapabilities {
    pub roots: Option<Json>,
    pub sampling: Option<Json>,
    pub elicitation: Option<Json>,
    pub rest: Json,
}

/// The mathematical client capabilities.
pub struct ClientCapabilitiesView {
    pub roots: Option<JsonView>,
    pub sampling: Option<JsonView>,
    pub elicitation: Option<JsonView>,
    pub rest: JsonView,
}

impl View for ClientCapabilities {
    type V = ClientCapabilitiesView;

    open spec fn view(&self) -> ClientCapabilitiesView {
        ClientCapabilitiesView {
            roots: opt_json_view(self.roots),
            sampling: opt_json_view(self.sampling),
            elicitation: opt_json_view(self.elicitation),
            rest: self.rest@,
        }
    }
}

/// What a client says of itself when it initializes.
#[derive(Debug, PartialEq, Eq)]
pub struct ClientInfo {
    pub protocol_version: String,
    pub capabilities: ClientCapabilities,
    pub name: String,
    pub version: String,
    pub rest: Json,
}

/// The mathematical client.
pub struct ClientInfoView {
    pub protocol_version: Seq<char>,
    pub capabilities: ClientCapabilitiesView,
    pub name: Seq<char>,
    pub version: Seq<char>,
    pub rest: JsonView,
}

impl View for ClientInfo {
    type V = ClientInfoView;

    open spec fn view(&self) -> ClientInfoView {
        ClientInfoView {
            protocol_version: self.protocol_version@,
            capabilities: self.capabilities@,
            name: self.name@,
            version: self.version@,
            rest: self.rest@,
        }
    }
}

/// What a completion is asked for.
#[derive(Debug, PartialEq, Eq)]
pub enum Reference {
    Prompt { name: String, title: Option<String> },
    Resource { uri: String },
}

/// The mathematical reference.
pub enum ReferenceView {
    Prompt(Seq<char>, Option<Seq<char>>),
    Resource(Seq<char>),
}

impl View for Reference {
    type V = ReferenceView;

    open spec fn view(&self) -> ReferenceView {
        match self {
            Reference::Prompt { name, title } => ReferenceView::Prompt(name@, opt_str(*title)),
            Reference::Resource { uri } => ReferenceView::Resource(uri@),
        }
    }
}

impl Reference {
    /// A reference to a prompt, with no title.
    pub fn for_prompt(name: String) -> (r: Reference)
        ensures
            r@ == ReferenceView::Prompt(name@, None),
    {
        Reference::Prompt { name, title: None }
    }
}

/// A request of the client.
#[derive(Debug, PartialEq, Eq)]
pub enum ClientRequest {
    InitializeRequest(ClientInfo),
    PingRequest,
    SetLevelRequest(Json),
    ListToolsRequest(Json),
    ListPromptsRequest(Json),
    ListResourcesRequest(Json),
    ListResourceTemplatesRequest(Json),
    ListTasksRequest(Json),
    CallToolRequest { name: String, arguments: Option<JsonMap>, rest: Json },
    GetPromptRequest { name: String, rest: Json },
    ReadResourceRequest { uri: String, rest: Json },
    SubscribeRequest { uri: String, rest: Json },
    UnsubscribeRequest { uri: String, rest: Json },
    GetTaskInfoRequest { task_id: String, rest: Json },
    GetTaskResultRequest { task_id: String, rest: Json },
    CancelTaskRequest { task_id: String, rest: Json },
    CompleteRequest { reference: Reference, rest: Json },
    CustomRequest { method: String, params: Json },
}

/// The mathematical request.
pub enum ClientRequestView {
    InitializeRequest(ClientInfoView),
    PingRequest,
    SetLevelRequest(JsonView),
    ListToolsRequest(JsonView),
    ListPromptsRequest(JsonView),
    ListResourcesRequest(JsonView),
    ListResourceTemplatesRequest(JsonView),
    ListTasksRequest(JsonView),
    CallToolRequest(Seq<char>, Option<MembersView>, JsonView),
    GetPromptRequest(Seq<char>, JsonView),
    ReadResourceRequest(Seq<char>, JsonView),
    SubscribeRequest(Seq<char>, JsonView),
    UnsubscribeRequest(Seq<char>, JsonView),
    GetTaskInfoRequest(Seq<char>, JsonView),
    GetTaskResultRequest(Seq<char>, JsonView),
    CancelTaskRequest(Seq<char>, JsonView),
    CompleteRequest(ReferenceView, JsonView),
    CustomRequest(Seq<char>, JsonView),
}

impl View for ClientRequest {
    type V = ClientRequestView;

    open spec fn view(&self) -> ClientRequestView {
        match self {
            ClientRequest::InitializeRequest(info) => ClientRequestView::InitializeRequest(info@),
            ClientRequest::PingRequest => ClientRequestView::PingRequest,
            ClientRequest::SetLevelRequest(p) => ClientRequestView::SetLevelRequest(p@),
            ClientRequest::ListToolsRequest(p) => ClientRequestView::ListToolsRequest(p@),
            ClientRequest::ListPromptsRequest(p) => ClientRequestView::ListPromptsRequest(p@),
            ClientRequest::ListResourcesRequest(p) => ClientRequestView::ListResourcesRequest(p@),
            ClientRequest::ListResourceTemplatesRequest(p) =>
                ClientRequestView::ListResourceTemplatesRequest(p@),
            ClientRequest::ListTasksRequest(p) => ClientRequestView::ListTasksRequest(p@),
            ClientRequest::CallToolRequest { name, arguments, rest } =>
                ClientRequestView::CallToolRequest(name@, opt_members_view(*arguments), rest@),
            ClientRequest::GetPromptRequest { name, rest } => ClientRequestView::GetPromptRequest(
                name@,
                rest@,
            ),
            ClientRequest::ReadResourceRequest { uri, rest } =>
                ClientRequestView::ReadResourceRequest(uri@, rest@),
            ClientRequest::SubscribeRequest { uri, rest } => ClientRequestView::SubscribeRequest(
                uri@,
                rest@,
            ),
            ClientRequest::UnsubscribeRequest { uri, rest } =>
                ClientRequestView::UnsubscribeRequest(uri@, rest@),
            ClientRequest::GetTaskInfoRequest { task_id, rest } =>
                ClientRequestView::GetTaskInfoRequest(task_id@, rest@),
            ClientRequest::GetTaskResultRequest { task_id, rest } =>
                ClientRequestView::GetTaskResultRequest(task_id@, rest@),
            ClientRequest::CancelTaskRequest { task_id, rest } =>
                ClientRequestView::CancelTaskRequest(task_id@, rest@),
            ClientRequest::CompleteRequest { reference, rest } =>
                ClientRequestView::CompleteRequest(reference@, rest@),
            ClientRequest::CustomRequest { method, params } => ClientRequestView::CustomRequest(
                method@,
                params@,
            ),
        }
    }
}

/// The method of a request.
pub open spec fn method_of(request: ClientRequestView) -> Seq<char> {
    match request {
        ClientRequestView::InitializeRequest(_) => "initialize"@,
        ClientRequestView::PingRequest => "ping"@,
        ClientRequestView::SetLevelRequest(_) => "logging/setLevel"@,
        ClientRequestView::ListToolsRequest(_) => "tools/list"@,
        ClientRequestView::ListPromptsRequest(_) => "prompts/list"@,
        ClientRequestView::ListResourcesRequest(_) => "resources/list"@,
        ClientRequestView::ListResourceTemplatesRequest(_) => "resources/templates/list"@,
        ClientRequestView::ListTasksRequest(_) => "tasks/list"@,
        ClientRequestView::CallToolRequest(_, _, _) => "tools/call"@,
        ClientRequestView::GetPromptRequest(_, _) => "prompts/get"@,
        ClientRequestView::ReadResourceRequest(_, _) => "resources/read"@,
        ClientRequestView::SubscribeRequest(_, _) => "resources/subscribe"@,
        ClientRequestView::UnsubscribeRequest(_, _) => "resources/unsubscribe"@,
        ClientRequestView::GetTaskInfoRequest(_, _) => "tasks/get"@,
        ClientRequestView::GetTaskResultRequest(_, _) => "tasks/result"@,
        ClientRequestView::CancelTaskRequest(_, _) => "tasks/cancel"@,
        ClientRequestView::CompleteRequest(_, _) => "completion/complete"@,
        ClientRequestView::CustomRequest(method, _) => method,
    }
}

/// What a request to one upstream is about: the name, the URI or the id by which the client knows
/// it.
pub open spec fn subject_of(request: ClientRequestView) -> Option<Seq<char>> {
    match request {
        ClientRequestView::CallToolRequest(name, _, _) => Some(name),
        ClientRequestView::GetPromptRequest(name, _) => Some(name),
        ClientRequestView::ReadResourceRequest(uri, _) => Some(uri),
        ClientRequestView::SubscribeRequest(uri, _) => Some(uri),
        ClientRequestView::UnsubscribeRequest(uri, _) => Some(uri),
        ClientRequestView::GetTaskInfoRequest(id, _) => Some(id),
        ClientRequestView::GetTaskResultRequest(id, _) => Some(id),
        ClientRequestView::CancelTaskRequest(id, _) => Some(id),
        ClientRequestView::CompleteRequest(ReferenceView::Prompt(name, _), _) => Some(name),
        ClientRequestView::CompleteRequest(ReferenceView::Resource(uri), _) => Some(uri),
        _ => None,
    }
}

/// The same request about something else. The reference of a completion is made anew.
pub open spec fn with_subject(request: ClientRequestView, s: Seq<char>) -> ClientRequestView {
    match request {
        ClientRequestView::CallToolRequest(_, arguments, rest) =>
            ClientRequestView::CallToolRequest(s, arguments, rest),
        ClientRequestView::GetPromptRequest(_, rest) => ClientRequestView::GetPromptRequest(
            s,
            rest,
        ),
        ClientRequestView::ReadResourceRequest(_, rest) => ClientRequestView::ReadResourceRequest(
            s,
            rest,
        ),
        ClientRequestView::SubscribeRequest(_, rest) => ClientRequestView::SubscribeRequest(
            s,
            rest,
        ),
        ClientRequestView::UnsubscribeRequest(_, rest) => ClientRequestView::UnsubscribeRequest(
            s,
            rest,
        ),
        ClientRequestView::GetTaskInfoRequest(_, rest) => ClientRequestView::GetTaskInfoRequest(
            s,
            rest,
        ),
        ClientRequestView::GetTaskResultRequest(_, rest) =>
            ClientRequestView::GetTaskResultRequest(s, rest),
        ClientRequestView::CancelTaskRequest(_, rest) => ClientRequestView::CancelTaskRequest(
            s,
            rest,
        ),
        ClientRequestView::CompleteRequest(ReferenceView::Prompt(_, _), rest) =>
            ClientRequestView::CompleteRequest(ReferenceView::Prompt(s, None), rest),
        ClientRequestView::CompleteRequest(ReferenceView::Resource(_), rest) =>
            ClientRequestView::CompleteRequest(ReferenceView::Resource(s), rest),
        _ => request,
    }
}

impl ClientRequest {
    /// The method of the request.
    pub fn method(&self) -> (r: String)
        ensures
            r@ == method_of(self@),
    {
        match self {
            ClientRequest::InitializeRequest(_) => "initialize".to_owned(),
            ClientRequest::PingRequest => "ping".to_owned(),
            ClientRequest::SetLevelRequest(_) => "logging/setLevel".to_owned(),
            ClientRequest::ListToolsRequest(_) => "tools/list".to_owned(),
            ClientRequest::ListPromptsRequest(_) => "prompts/list".to_owned(),
            ClientRequest::ListResourcesRequest(_) => "resources/list".to_owned(),
            ClientRequest::ListResourceTemplatesRequest(_) => "resources/templates/list".to_owned(),
            ClientRequest::ListTasksRequest(_) => "tasks/list".to_owned(),
            ClientRequest::CallToolRequest { name: _, arguments: _, rest: _ } =>
                "tools/call".to_owned(),
            ClientRequest::GetPromptRequest { name: _, rest: _ } => "prompts/get".to_owned(),
            ClientRequest::ReadResourceRequest { uri: _, rest: _ } => "resources/read".to_owned(),
            ClientRequest::SubscribeRequest { uri: _, rest: _ } => "resources/subscribe".to_owned(),
            ClientRequest::UnsubscribeRequest { uri: _, rest: _ } =>
                "resources/unsubscribe".to_owned(),
            ClientRequest::GetTaskInfoRequest { task_id: _, rest: _ } => "tasks/get".to_owned(),
            ClientRequest::GetTaskResultRequest { task_id: _, rest: _ } =>
                "tasks/result".to_owned(),
            ClientRequest::CancelTaskRequest { task_id: _, rest: _ } => "tasks/cancel".to_owned(),
            ClientRequest::CompleteRequest { reference: _, rest: _ } =>
                "completion/complete".to_owned(),
            ClientRequest::CustomRequest { method, params: _ } => method.clone(),
        }
    }

    /// What the request is about.
    pub fn subject(&self) -> (r: Option<String>)
        ensures
            opt_str(r) == subject_of(self@),
    {
        match self {
            ClientRequest::CallToolRequest { name, arguments: _, rest: _ } => Some(name.clone()),
            ClientRequest::GetPromptRequest { name, rest: _ } => Some(name.clone()),
            ClientRequest::ReadResourceRequest { uri, rest: _ } => Some(uri.clone()),
            ClientRequest::SubscribeRequest { uri, rest: _ } => Some(uri.clone()),
            ClientRequest::UnsubscribeRequest { uri, rest: _ } => Some(uri.clone()),
            ClientRequest::GetTaskInfoRequest { task_id, rest: _ } => Some(task_id.clone()),
            ClientRequest::GetTaskResultRequest { task_id, rest: _ } => Some(task_id.clone()),
            ClientRequest::CancelTaskRequest { task_id, rest: _ } => Some(task_id.clone()),
            ClientRequest::CompleteRequest { reference, rest: _ } => match reference {
                Reference::Prompt { name, title: _ } => Some(name.clone()),
                Reference::Resource { uri } => Some(uri.clone()),
            },
            _ => None,
        }
    }

    /// Makes the request one about `s`.
    pub fn set_subject(&mut self, s: String)
        ensures
            final(self)@ == with_subject(old(self)@, s@),
    {
        match self {
            ClientRequest::CallToolRequest { name, arguments: _, rest: _ } => {
                *name = s;
            },
            ClientRequest::GetPromptRequest { name, rest: _ } => {
                *name = s;
            },
            ClientRequest::ReadResourceRequest { uri, rest: _ } => {
                *uri = s;
            },
            ClientRequest::SubscribeRequest { uri, rest: _ } => {
                *uri = s;
            },
            ClientRequest::UnsubscribeRequest { uri, rest: _ } => {
                *uri = s;
            },
            ClientRequest::GetTaskInfoRequest { task_id, rest: _ } => {
                *task_id = s;
            },
            ClientRequest::GetTaskResultRequest { task_id, rest: _ } => {
                *task_id = s;
            },
            ClientRequest::CancelTaskRequest { task_id, rest: _ } => {
                *task_id = s;
            },
            ClientRequest::CompleteRequest { reference, rest: _ } => {
                match reference {
                    Reference::Prompt { name: _, title: _ } => {
                        *reference = Reference::for_prompt(s);
                    },
                    Reference::Resource { uri: _ } => {
                        *reference = Reference::Resource { uri: s };
                    },
                }
            },
            _ => {},
        }
    }
}

/// What guardrails are told of a request: its method and, for tools, prompts and resources, the
/// name or URI, with no target.
pub open spec fn tells(info: MCPInfo, request: ClientRequestView) -> bool {
    let blank = crate::info::blank_info();
    &&& info.method_name matches Some(m) && m@ == method_of(request)
    &&& info == (MCPInfo {
        method_name: info.method_name,
        tool: info.tool,
        prompt: info.prompt,
        resource: info.resource,
        ..blank
    })
    &&& match request {
        ClientRequestView::CallToolRequest(name, arguments, _) => {
            &&& info.tool matches Some(t) && t.target@ == Seq::<char>::empty() && t.name@ == name
                && opt_members_view(t.arguments) == arguments && t.result is None && t.error is None
            &&& info.prompt is None
            &&& info.resource is None
        },
        ClientRequestView::GetPromptRequest(name, _) => {
            &&& info.prompt matches Some(p) && p.target@ == Seq::<char>::empty() && p.name@ == name
            &&& info.tool is None
            &&& info.resource is None
        },
        ClientRequestView::ReadResourceRequest(uri, _) => {
            &&& info.resource matches Some(p) && p.target@ == Seq::<char>::empty() && p.name@ == uri
            &&& info.tool is None
            &&& info.prompt is None
        },
        _ => info.tool is None && info.prompt is None && info.resource is None,
    }
}

/// What guardrails are told of a request.
pub fn guardrails_mcp_info(request: &ClientRequest) -> (r: MCPInfo)
    ensures
        tells(r, request@),
{
    let mut info = MCPInfo::default();
    info.method_name = Some(request.method());
    match request {
        ClientRequest::CallToolRequest { name, arguments, rest: _ } => {
            info.set_tool(String::new(), name.clone());
            let copied = match arguments {
                Some(m) => Some(json::copy_members(m)),
                None => None,
            };
            info.capture_call_arguments(copied);
        },
        ClientRequest::GetPromptRequest { name, rest: _ } => {
            info.set_prompt(String::new(), name.clone());
        },
        ClientRequest::ReadResourceRequest { uri, rest: _ } => {
            info.set_resource(String::new(), uri.clone());
        },
        _ => {},
    }
    info
}

/// A notification of the client.
#[derive(Debug, PartialEq, Eq)]
pub enum ClientNotification {
    CancelledNotification { request_id: RequestId, rest: Json },
    ProgressNotification(Json),
    InitializedNotification,
    RootsListChangedNotification,
    CustomNotification { method: String, params: Json },
}

/// The mathematical notification.
pub enum ClientNotificationView {
    CancelledNotification(RequestIdView, JsonView),
    ProgressNotification(JsonView),
    InitializedNotification,
    RootsListChangedNotification,
    CustomNotification(Seq<char>, JsonView),
}

impl View for ClientNotification {
    type V = ClientNotificationView;

    open spec fn view(&self) -> ClientNotificationView {
        match self {
            ClientNotification::CancelledNotification { request_id, rest } =>
                ClientNotificationView::CancelledNotification(request_id@, rest@),
            ClientNotification::ProgressNotification(p) =>
                ClientNotificationView::ProgressNotification(p@),
            ClientNotification::InitializedNotification =>
                ClientNotificationView::InitializedNotification,
            ClientNotification::RootsListChangedNotification =>
                ClientNotificationView::RootsListChangedNotification,
            ClientNotification::CustomNotification { method, params } =>
                ClientNotificationView::CustomNotification(method@, params@),
        }
    }
}

/// The method of a notification.
pub open spec fn notification_method(n: ClientNotificationView) -> Seq<char> {
    match n {
        ClientNotificationView::CancelledNotification(_, _) => "notifications/cancelled"@,
        ClientNotificationView::ProgressNotification(_) => "notifications/progress"@,
        ClientNotificationView::InitializedNotification => "notifications/initialized"@,
        ClientNotificationView::RootsListChangedNotification =>
            "notifications/roots/list_changed"@,
        ClientNotificationView::CustomNotification(method, _) => method,
    }
}

impl ClientNotification {
    /// The method of the notification.
    pub fn method(&self) -> (r: String)
        ensures
            r@ == notification_method(self@),
    {
        match self {
            ClientNotification::CancelledNotification { request_id: _, rest: _ } =>
                "notifications/cancelled".to_owned(),
            ClientNotification::ProgressNotification(_) => "notifications/progress".to_owned(),
            ClientNotification::InitializedNotification => "notifications/initialized".to_owned(),
            ClientNotification::RootsListChangedNotification =>
                "notifications/roots/list_changed".to_owned(),
            ClientNotification::CustomNotification { method, params: _ } => method.clone(),
        }
    }
}

/// A message of the client.
#[derive(Debug, PartialEq, Eq)]
pub enum ClientJsonRpcMessage {
    Request { id: RequestId, request: ClientRequest },
    Notification(ClientNotification),
    Response { id: RequestId, result: Json },
    Error { id: RequestId, error: ErrorData },
}

/// The mathematical message.
pub enum ClientJsonRpcMessageView {
    Request(RequestIdView, ClientRequestView),
    Notification(ClientNotificationView),
    Response(RequestIdView, JsonView),
    Error(RequestIdView, ErrorDataView),
}

impl View for ClientJsonRpcMessage {
    type V = ClientJsonRpcMessageView;

    open spec fn view(&self) -> ClientJsonRpcMessageView {
        match self {
            ClientJsonRpcMessage::Request { id, request } => ClientJsonRpcMessageView::Request(
                id@,
                request@,
            ),
            ClientJsonRpcMessage::Notification(n) => ClientJsonRpcMessageView::Notification(n@),
            ClientJsonRpcMessage::Response { id, result } => ClientJsonRpcMessageView::Response(
                id@,
                result@,
            ),
            ClientJsonRpcMessage::Error { id, error } => ClientJsonRpcMessageView::Error(
                id@,
                error@,
            ),
        }
    }
}

/// The mathematical request keeps all that a request holds: requests that differ in any part differ
/// there too.
pub proof fn law_requests_are_told_apart(a: ClientRequest, b: ClientRequest)
    requires
        a@ == b@,
    ensures
        match (a, b) {
            (
                ClientRequest::CallToolRequest { name: n, arguments: x, rest: p },
                ClientRequest::CallToolRequest { name: m, arguments: y, rest: q },
            ) => n@ == m@ && opt_members_view(x) == opt_members_view(y) && p@ == q@,
            (
                ClientRequest::GetPromptRequest { name: n, rest: p },
                ClientRequest::GetPromptRequest { name: m, rest: q },
            ) => n@ == m@ && p@ == q@,
            (
                ClientRequest::ReadResourceRequest { uri: n, rest: p },
                ClientRequest::ReadResourceRequest { uri: m, rest: q },
            ) => n@ == m@ && p@ == q@,
            (
                ClientRequest::SubscribeRequest { uri: n, rest: p },
                ClientRequest::SubscribeRequest { uri: m, rest: q },
            ) => n@ == m@ && p@ == q@,
            (
                ClientRequest::UnsubscribeRequest { uri: n, rest: p },
                ClientRequest::UnsubscribeRequest { uri: m, rest: q },
            ) => n@ == m@ && p@ == q@,
            (
                ClientRequest::GetTaskInfoRequest { task_id: n, rest: p },
                ClientRequest::GetTaskInfoRequest { task_id: m, rest: q },
            ) => n@ == m@ && p@ == q@,
            (
                ClientRequest::GetTaskResultRequest { task_id: n, rest: p },
                ClientRequest::GetTaskResultRequest { task_id: m, rest: q },
            ) => n@ == m@ && p@ == q@,
            (
                ClientRequest::CancelTaskRequest { task_id: n, rest: p },
                ClientRequest::CancelTaskRequest { task_id: m, rest: q },
            ) => n@ == m@ && p@ == q@,
            (
                ClientRequest::CompleteRequest { reference: n, rest: p },
                ClientRequest::CompleteRequest { reference: m, rest: q },
            ) => p@ == q@ && match (n, m) {
                (
                    Reference::Prompt { name: x, title: _ },
                    Reference::Prompt { name: y, title: _ },
                ) => x@ == y@,
                (Reference::Resource { uri: x }, Reference::Resource { uri: y }) => x@ == y@,
                _ => false,
            },
            (
                ClientRequest::CustomRequest { method: n, params: p },
                ClientRequest::CustomRequest { method: m, params: q },
            ) => n@ == m@ && p@ == q@,
            (ClientRequest::InitializeRequest(p), ClientRequest::InitializeRequest(q)) => {
                &&& p.protocol_version@ == q.protocol_version@
                &&& p.name@ == q.name@
                &&& p.version@ == q.version@
                &&& p.rest@ == q.rest@
                &&& opt_json_view(p.capabilities.roots) == opt_json_view(q.capabilities.roots)
                &&& opt_json_view(p.capabilities.sampling) == opt_json_view(q.capabilities.sampling)
                &&& opt_json_view(p.capabilities.elicitation) == opt_json_view(
                    q.capabilities.elicitation,
                )
                &&& p.capabilities.rest@ == q.capabilities.rest@
            },
            (ClientRequest::PingRequest, ClientRequest::PingRequest) => true,
            (ClientRequest::SetLevelRequest(p), ClientRequest::SetLevelRequest(q)) => p@ == q@,
            (ClientRequest::ListToolsRequest(p), ClientRequest::ListToolsRequest(q)) => p@ == q@,
            (ClientRequest::ListPromptsRequest(p), ClientRequest::ListPromptsRequest(q)) => p@ == q@,
            (ClientRequest::ListResourcesRequest(p), ClientRequest::ListResourcesRequest(q)) => p@ == q@,
            (ClientRequest::ListResourceTemplatesRequest(p), ClientRequest::ListResourceTemplatesRequest(q)) => p@ == q@,
            (ClientRequest::ListTasksRequest(p), ClientRequest::ListTasksRequest(q)) => p@ == q@,
            _ => false,
        },
{
}

/// The mathematical notification and the mathematical message keep all that they stand for.
pub proof fn law_messages_are_told_apart(
    a: ClientNotification,
    b: ClientNotification,
    x: ClientJsonRpcMessage,
    y: ClientJsonRpcMessage,
)
    requires
        a@ == b@,
        x@ == y@,
    ensures
        match (a, b) {
            (
                ClientNotification::CancelledNotification { request_id: n, rest: p },
                ClientNotification::CancelledNotification { request_id: m, rest: q },
            ) => n@ == m@ && p@ == q@,
            (
                ClientNotification::ProgressNotification(p),
                ClientNotification::ProgressNotification(q),
            ) => p@ == q@,
            (
                ClientNotification::CustomNotification { method: n, params: p },
                ClientNotification::CustomNotification { method: m, params: q },
            ) => n@ == m@ && p@ == q@,
            (
                ClientNotification::InitializedNotification,
                ClientNotification::InitializedNotification,
            ) => true,
            (
                ClientNotification::RootsListChangedNotification,
                ClientNotification::RootsListChangedNotification,
            ) => true,
            _ => false,
        },
        match (x, y) {
            (
                ClientJsonRpcMessage::Request { id: n, request: p },
                ClientJsonRpcMessage::Request { id: m, request: q },
            ) => n@ == m@ && p@ == q@,
            (ClientJsonRpcMessage::Notification(p), ClientJsonRpcMessage::Notification(q)) => p@
                == q@,
            (
                ClientJsonRpcMessage::Response { id: n, result: p },
                ClientJsonRpcMessage::Response { id: m, result: q },
            ) => n@ == m@ && p@ == q@,
            (
                ClientJsonRpcMessage::Error { id: n, error: p },
                ClientJsonRpcMessage::Error { id: m, error: q },
            ) => n@ == m@ && p.code == q.code && p.message@ == q.message@ && opt_json_view(p.data)
                == opt_json_view(q.data),
            _ => false,
        },
{
}

} // verus!
