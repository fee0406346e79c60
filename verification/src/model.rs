//! The protocol values that the gateway reads and rewrites.
//!
//! Each type holds as plain fields what the gateway looks at. What it only carries through
//! stands in a `rest` field as JSON.

use crate::json::{self, Json, JsonMap, JsonView, MembersView, opt_json_view, opt_members_view};
use vstd::prelude::*;
use vstd::string::*;

verus! {

/// What a string is, where there is one.
pub open spec fn opt_str(s: Option<String>) -> Option<Seq<char>> {
    match s {
        Some(x) => Some(x@),
        None => None,
    }
}

/// What a borrowed string is, where there is one.
pub open spec fn opt_str_ref(s: Option<&String>) -> Option<Seq<char>> {
    match s {
        Some(x) => Some(x@),
        None => None,
    }
}

/// What a string slice is, where there is one.
pub open spec fn opt_slice(s: Option<&str>) -> Option<Seq<char>> {
    match s {
        Some(x) => Some(x@),
        None => None,
    }
}

/// The strings of a vector.
pub open spec fn strs(v: Seq<String>) -> Seq<Seq<char>> {
    Seq::new(v.len(), |i: int| v[i]@)
}

/// A pair of strings.
pub open spec fn pair(p: (String, String)) -> (Seq<char>, Seq<char>) {
    (p.0@, p.1@)
}

/// The pairs of strings of a vector.
pub open spec fn pairs(v: Seq<(String, String)>) -> Seq<(Seq<char>, Seq<char>)> {
    Seq::new(v.len(), |i: int| pair(v[i]))
}

/// A JSON-RPC request id.
#[derive(Debug, PartialEq, Eq)]
pub enum RequestId {
    Number(i64),
    String(String),
}

/// The mathematical request id.
pub enum RequestIdView {
    Number(int),
    String(Seq<char>),
}

impl View for RequestId {
    type V = RequestIdView;

    open spec fn view(&self) -> RequestIdView {
        match self {
            RequestId::Number(n) => RequestIdView::Number(*n as int),
            RequestId::String(s) => RequestIdView::String(s@),
        }
    }
}

impl RequestId {
    /// A copy of the id.
    pub fn copy(&self) -> (r: RequestId)
        ensures
            r@ == self@,
    {
        match self {
            RequestId::Number(n) => RequestId::Number(*n),
            RequestId::String(s) => RequestId::String(s.clone()),
        }
    }

    /// Whether two ids are the same.
    pub fn same(&self, other: &RequestId) -> (r: bool)
        ensures
            r == (self@ == other@),
    {
        match (self, other) {
            (RequestId::Number(a), RequestId::Number(b)) => *a == *b,
            (RequestId::String(a), RequestId::String(b)) => *a == *b,
            _ => false,
        }
    }
}

/// A JSON-RPC error.
#[derive(Debug, PartialEq, Eq)]
pub struct ErrorData {
    pub code: i32,
    pub message: String,
    pub data: Option<Json>,
}

/// The mathematical JSON-RPC error.
pub struct ErrorDataView {
    pub code: int,
    pub message: Seq<char>,
    pub data: Option<JsonView>,
}

impl View for ErrorData {
    type V = ErrorDataView;

    open spec fn view(&self) -> ErrorDataView {
        ErrorDataView {
            code: self.code as int,
            message: self.message@,
            data: opt_json_view(self.data),
        }
    }
}

impl ErrorData {
    /// A copy of the error.
    pub fn copy(&self) -> (r: ErrorData)
        ensures
            r@ == self@,
    {
        ErrorData {
            code: self.code,
            message: self.message.clone(),
            data: json::copy_opt(&self.data),
        }
    }
}

/// The JSON-RPC code of an invalid request.
pub const INVALID_REQUEST: i32 = -32600;

/// The JSON-RPC code of invalid parameters.
pub const INVALID_PARAMS: i32 = -32602;

/// The JSON-RPC code of an internal error.
pub const INTERNAL_ERROR: i32 = -32603;

/// A tool as a server lists it.
#[derive(Debug, PartialEq, Eq)]
pub struct Tool {
    pub name: String,
    pub description: Option<String>,
    pub meta: Option<JsonMap>,
    pub rest: Json,
}

/// The mathematical tool.
pub struct ToolView {
    pub name: Seq<char>,
    pub description: Option<Seq<char>>,
    pub meta: Option<MembersView>,
    pub rest: JsonView,
}

impl View for Tool {
    type V = ToolView;

    open spec fn view(&self) -> ToolView {
        ToolView {
            name: self.name@,
            description: opt_str(self.description),
            meta: opt_members_view(self.meta),
            rest: self.rest@,
        }
    }
}

/// A prompt as a server lists it.
#[derive(Debug, PartialEq, Eq)]
pub struct Prompt {
    pub name: String,
    pub description: Option<String>,
    pub rest: Json,
}

/// The mathematical prompt.
pub struct PromptView {
    pub name: Seq<char>,
    pub description: Option<Seq<char>>,
    pub rest: JsonView,
}

impl View for Prompt {
    type V = PromptView;

    open spec fn view(&self) -> PromptView {
        PromptView {
            name: self.name@,
            description: opt_str(self.description),
            rest: self.rest@,
        }
    }
}

/// A resource as a server lists it.
#[derive(Debug, PartialEq, Eq)]
pub struct Resource {
    pub uri: String,
    pub name: String,
    pub description: Option<String>,
    pub rest: Json,
}

/// The mathematical resource.
pub struct ResourceView {
    pub uri: Seq<char>,
    pub name: Seq<char>,
    pub description: Option<Seq<char>>,
    pub rest: JsonView,
}

impl View for Resource {
    type V = ResourceView;

    open spec fn view(&self) -> ResourceView {
        ResourceView {
            uri: self.uri@,
            name: self.name@,
            description: opt_str(self.description),
            rest: self.rest@,
        }
    }
}

/// A resource template as a server lists it.
#[derive(Debug, PartialEq, Eq)]
pub struct ResourceTemplate {
    pub uri_template: String,
    pub name: String,
    pub rest: Json,
}

/// The mathematical resource template.
pub struct ResourceTemplateView {
    pub uri_template: Seq<char>,
    pub name: Seq<char>,
    pub rest: JsonView,
}

impl View for ResourceTemplate {
    type V = ResourceTemplateView;

    open spec fn view(&self) -> ResourceTemplateView {
        ResourceTemplateView {
            uri_template: self.uri_template@,
            name: self.name@,
            rest: self.rest@,
        }
    }
}

/// A task as a server reports it.
#[derive(Debug, PartialEq, Eq)]
pub struct Task {
    pub task_id: String,
    pub rest: Json,
}

/// The mathematical task.
pub struct TaskView {
    pub task_id: Seq<char>,
    pub rest: JsonView,
}

impl View for Task {
    type V = TaskView;

    open spec fn view(&self) -> TaskView {
        TaskView { task_id: self.task_id@, rest: self.rest@ }
    }
}

/// The contents of a resource: text or a blob, with its URI.
#[derive(Debug, PartialEq, Eq)]
pub enum ResourceContents {
    TextResourceContents { uri: String, rest: Json },
    BlobResourceContents { uri: String, rest: Json },
}

/// The mathematical contents of a resource.
pub struct ResourceContentsView {
    pub blob: bool,
    pub uri: Seq<char>,
    pub rest: JsonView,
}

impl View for ResourceContents {
    type V = ResourceContentsView;

    open spec fn view(&self) -> ResourceContentsView {
        match self {
            ResourceContents::TextResourceContents { uri, rest } => ResourceContentsView {
                blob: false,
                uri: uri@,
                rest: rest@,
            },
            ResourceContents::BlobResourceContents { uri, rest } => ResourceContentsView {
                blob: true,
                uri: uri@,
                rest: rest@,
            },
        }
    }
}

/// One content block of a tool result.
#[derive(Debug, PartialEq, Eq)]
pub enum Content {
    Resource { resource: ResourceContents, rest: Json },
    Text { text: String, rest: Json },
    Other(Json),
}

/// The mathematical content block.
pub enum ContentView {
    Resource(ResourceContentsView, JsonView),
    Text(Seq<char>, JsonView),
    Other(JsonView),
}

impl View for Content {
    type V = ContentView;

    open spec fn view(&self) -> ContentView {
        match self {
            Content::Resource { resource, rest } => ContentView::Resource(resource@, rest@),
            Content::Text { text, rest } => ContentView::Text(text@, rest@),
            Content::Other(j) => ContentView::Other(j@),
        }
    }
}

/// The content blocks of a vector.
pub open spec fn contents_view(v: Seq<Content>) -> Seq<ContentView> {
    Seq::new(v.len(), |i: int| v[i]@)
}

/// The resource contents of a vector.
pub open spec fn resources_view(v: Seq<ResourceContents>) -> Seq<ResourceContentsView> {
    Seq::new(v.len(), |i: int| v[i]@)
}

/// What a tool call returned.
#[derive(Debug, PartialEq, Eq)]
pub struct CallToolResult {
    pub content: Vec<Content>,
    pub is_error: Option<bool>,
    pub meta: Option<JsonMap>,
    pub rest: Json,
}

/// The mathematical tool result.
pub struct CallToolResultView {
    pub content: Seq<ContentView>,
    pub is_error: Option<bool>,
    pub meta: Option<MembersView>,
    pub rest: JsonView,
}

impl View for CallToolResult {
    type V = CallToolResultView;

    open spec fn view(&self) -> CallToolResultView {
        CallToolResultView {
            content: contents_view(self.content@),
            is_error: self.is_error,
            meta: opt_members_view(self.meta),
            rest: self.rest@,
        }
    }
}

/// The result of a request, as far as the gateway looks into it.
#[derive(Debug, PartialEq, Eq)]
pub enum ServerResult {
    InitializeResult(InitializeResult),
    ListToolsResult(Vec<Tool>),
    ListPromptsResult(Vec<Prompt>),
    ListResourcesResult(Vec<Resource>),
    ListResourceTemplatesResult(Vec<ResourceTemplate>),
    ListTasksResult(Vec<Task>),
    CallToolResult(CallToolResult),
    ReadResourceResult { contents: Vec<ResourceContents>, rest: Json },
    CreateTaskResult { task: Task, rest: Json },
    GetTaskResult { task: Task, rest: Json },
    CancelTaskResult { task: Task, rest: Json },
    Empty,
    Other(Json),
}

/// The mathematical result of a request.
pub enum ServerResultView {
    InitializeResult(InitializeResultView),
    ListToolsResult(Seq<ToolView>),
    ListPromptsResult(Seq<PromptView>),
    ListResourcesResult(Seq<ResourceView>),
    ListResourceTemplatesResult(Seq<ResourceTemplateView>),
    ListTasksResult(Seq<TaskView>),
    CallToolResult(CallToolResultView),
    ReadResourceResult(Seq<ResourceContentsView>, JsonView),
    CreateTaskResult(TaskView, JsonView),
    GetTaskResult(TaskView, JsonView),
    CancelTaskResult(TaskView, JsonView),
    Empty,
    Other(JsonView),
}

/// The tools of a vector.
pub open spec fn tools_view(v: Seq<Tool>) -> Seq<ToolView> {
    Seq::new(v.len(), |i: int| v[i]@)
}

/// The prompts of a vector.
pub open spec fn prompts_view(v: Seq<Prompt>) -> Seq<PromptView> {
    Seq::new(v.len(), |i: int| v[i]@)
}

/// The resources of a vector.
pub open spec fn listed_resources_view(v: Seq<Resource>) -> Seq<ResourceView> {
    Seq::new(v.len(), |i: int| v[i]@)
}

/// The resource templates of a vector.
pub open spec fn templates_view(v: Seq<ResourceTemplate>) -> Seq<ResourceTemplateView> {
    Seq::new(v.len(), |i: int| v[i]@)
}

/// The tasks of a vector.
pub open spec fn tasks_view(v: Seq<Task>) -> Seq<TaskView> {
    Seq::new(v.len(), |i: int| v[i]@)
}

impl View for ServerResult {
    type V = ServerResultView;

    open spec fn view(&self) -> ServerResultView {
        match self {
            ServerResult::InitializeResult(r) => ServerResultView::InitializeResult(r@),
            ServerResult::ListToolsResult(v) => ServerResultView::ListToolsResult(tools_view(v@)),
            ServerResult::ListPromptsResult(v) => ServerResultView::ListPromptsResult(
                prompts_view(v@),
            ),
            ServerResult::ListResourcesResult(v) => ServerResultView::ListResourcesResult(
                listed_resources_view(v@),
            ),
            ServerResult::ListResourceTemplatesResult(v) =>
                ServerResultView::ListResourceTemplatesResult(templates_view(v@)),
            ServerResult::ListTasksResult(v) => ServerResultView::ListTasksResult(tasks_view(v@)),
            ServerResult::CallToolResult(r) => ServerResultView::CallToolResult(r@),
            ServerResult::ReadResourceResult { contents, rest } =>
                ServerResultView::ReadResourceResult(resources_view(contents@), rest@),
            ServerResult::CreateTaskResult { task, rest } => ServerResultView::CreateTaskResult(
                task@,
                rest@,
            ),
            ServerResult::GetTaskResult { task, rest } => ServerResultView::GetTaskResult(
                task@,
                rest@,
            ),
            ServerResult::CancelTaskResult { task, rest } => ServerResultView::CancelTaskResult(
                task@,
                rest@,
            ),
            ServerResult::Empty => ServerResultView::Empty,
            ServerResult::Other(j) => ServerResultView::Other(j@),
        }
    }
}

/// A notification from a server, as far as the gateway looks into it.
#[derive(Debug, PartialEq, Eq)]
pub enum ServerNotification {
    ResourceUpdatedNotification { uri: String },
    CustomNotification { method: String, params: Option<Json> },
    Other(Json),
}

/// The mathematical notification.
pub enum ServerNotificationView {
    ResourceUpdatedNotification(Seq<char>),
    CustomNotification(Seq<char>, Option<JsonView>),
    Other(JsonView),
}

impl View for ServerNotification {
    type V = ServerNotificationView;

    open spec fn view(&self) -> ServerNotificationView {
        match self {
            ServerNotification::ResourceUpdatedNotification { uri } =>
                ServerNotificationView::ResourceUpdatedNotification(uri@),
            ServerNotification::CustomNotification { method, params } =>
                ServerNotificationView::CustomNotification(method@, opt_json_view(*params)),
            ServerNotification::Other(j) => ServerNotificationView::Other(j@),
        }
    }
}

/// A message from a server to the client.
#[derive(Debug, PartialEq, Eq)]
pub enum ServerJsonRpcMessage {
    Request { id: RequestId, request: Json },
    Notification(ServerNotification),
    Response { id: RequestId, result: ServerResult },
    Error { id: RequestId, error: ErrorData },
}

/// The mathematical message.
pub enum ServerJsonRpcMessageView {
    Request(RequestIdView, JsonView),
    Notification(ServerNotificationView),
    Response(RequestIdView, ServerResultView),
    Error(RequestIdView, ErrorDataView),
}

impl View for ServerJsonRpcMessage {
    type V = ServerJsonRpcMessageView;

    open spec fn view(&self) -> ServerJsonRpcMessageView {
        match self {
            ServerJsonRpcMessage::Request { id, request } => ServerJsonRpcMessageView::Request(
                id@,
                request@,
            ),
            ServerJsonRpcMessage::Notification(n) => ServerJsonRpcMessageView::Notification(n@),
            ServerJsonRpcMessage::Response { id, result } => ServerJsonRpcMessageView::Response(
                id@,
                result@,
            ),
            ServerJsonRpcMessage::Error { id, error } => ServerJsonRpcMessageView::Error(
                id@,
                error@,
            ),
        }
    }
}

/// The tools part of a server's capabilities.
#[derive(Debug, Clone, Copy, PartialEq, Eq, Structural)]
pub struct ToolsCapability {
    pub list_changed: Option<bool>,
}

/// The prompts part of a server's capabilities.
#[derive(Debug, Clone, Copy, PartialEq, Eq, Structural)]
pub struct PromptsCapability {
    pub list_changed: Option<bool>,
}

/// The resources part of a server's capabilities.
#[derive(Debug, Clone, Copy, PartialEq, Eq, Structural)]
pub struct ResourcesCapability {
    pub subscribe: Option<bool>,
    pub list_changed: Option<bool>,
}

/// The tasks part of a server's capabilities.
#[derive(Debug, Clone, Copy, PartialEq, Eq, Structural)]
pub struct TasksCapability {
    pub list: bool,
    pub cancel: bool,
    pub requests_tools_call: bool,
}

/// What a server says it can do.
#[derive(Debug, Clone, Copy, PartialEq, Eq, Structural)]
pub struct ServerCapabilities {
    pub tools: Option<ToolsCapability>,
    pub prompts: Option<PromptsCapability>,
    pub resources: Option<ResourcesCapability>,
    pub tasks: Option<TasksCapability>,
}

/// What a server answers to `initialize`.
#[derive(Debug, PartialEq, Eq)]
pub struct InitializeResult {
    pub protocol_version: String,
    pub capabilities: ServerCapabilities,
    pub server_name: String,
    pub server_version: String,
    pub instructions: Option<String>,
    /// What else the server says of itself.
    pub rest: Json,
}

/// The mathematical answer to `initialize`.
pub struct InitializeResultView {
    pub protocol_version: Seq<char>,
    pub capabilities: ServerCapabilities,
    pub server_name: Seq<char>,
    pub server_version: Seq<char>,
    pub instructions: Option<Seq<char>>,
    pub rest: JsonView,
}

impl View for InitializeResult {
    type V = InitializeResultView;

    open spec fn view(&self) -> InitializeResultView {
        InitializeResultView {
            protocol_version: self.protocol_version@,
            capabilities: self.capabilities,
            server_name: self.server_name@,
            server_version: self.server_version@,
            instructions: opt_str(self.instructions),
            rest: self.rest@,
        }
    }
}

/// The mathematical items keep all that the items hold: items that differ in any part differ there
/// too.
pub proof fn law_items_are_told_apart(
    tools: (Tool, Tool),
    prompts: (Prompt, Prompt),
    resources: (Resource, Resource),
    templates: (ResourceTemplate, ResourceTemplate),
    tasks: (Task, Task),
)
    requires
        tools.0@ == tools.1@,
        prompts.0@ == prompts.1@,
        resources.0@ == resources.1@,
        templates.0@ == templates.1@,
        tasks.0@ == tasks.1@,
    ensures
        tools.0.name@ == tools.1.name@,
        opt_str(tools.0.description) == opt_str(tools.1.description),
        opt_members_view(tools.0.meta) == opt_members_view(tools.1.meta),
        tools.0.rest@ == tools.1.rest@,
        prompts.0.name@ == prompts.1.name@,
        opt_str(prompts.0.description) == opt_str(prompts.1.description),
        prompts.0.rest@ == prompts.1.rest@,
        resources.0.uri@ == resources.1.uri@,
        resources.0.name@ == resources.1.name@,
        opt_str(resources.0.description) == opt_str(resources.1.description),
        resources.0.rest@ == resources.1.rest@,
        templates.0.uri_template@ == templates.1.uri_template@,
        templates.0.name@ == templates.1.name@,
        templates.0.rest@ == templates.1.rest@,
        tasks.0.task_id@ == tasks.1.task_id@,
        tasks.0.rest@ == tasks.1.rest@,
{
}

/// The mathematical results keep all that the results hold.
pub proof fn law_results_are_told_apart(a: ServerResult, b: ServerResult)
    requires
        a@ == b@,
    ensures
        match (a, b) {
            (ServerResult::ListToolsResult(p), ServerResult::ListToolsResult(q)) => p@.len() == q@.len()
                && forall|i: int| 0 <= i < p@.len() ==> (#[trigger] p@[i])@ == (#[trigger] q@[i])@,
            (ServerResult::ListPromptsResult(p), ServerResult::ListPromptsResult(q)) => p@.len() == q@.len()
                && forall|i: int| 0 <= i < p@.len() ==> (#[trigger] p@[i])@ == (#[trigger] q@[i])@,
            (ServerResult::ListResourcesResult(p), ServerResult::ListResourcesResult(q)) => p@.len() == q@.len()
                && forall|i: int| 0 <= i < p@.len() ==> (#[trigger] p@[i])@ == (#[trigger] q@[i])@,
            (ServerResult::ListResourceTemplatesResult(p), ServerResult::ListResourceTemplatesResult(q)) => p@.len() == q@.len()
                && forall|i: int| 0 <= i < p@.len() ==> (#[trigger] p@[i])@ == (#[trigger] q@[i])@,
            (ServerResult::ListTasksResult(p), ServerResult::ListTasksResult(q)) => p@.len() == q@.len()
                && forall|i: int| 0 <= i < p@.len() ==> (#[trigger] p@[i])@ == (#[trigger] q@[i])@,
            (
                ServerResult::CreateTaskResult { task: t, rest: p },
                ServerResult::CreateTaskResult { task: u, rest: q },
            ) => t@ == u@ && p@ == q@,
            (
                ServerResult::GetTaskResult { task: t, rest: p },
                ServerResult::GetTaskResult { task: u, rest: q },
            ) => t@ == u@ && p@ == q@,
            (
                ServerResult::CancelTaskResult { task: t, rest: p },
                ServerResult::CancelTaskResult { task: u, rest: q },
            ) => t@ == u@ && p@ == q@,
            (
                ServerResult::ReadResourceResult { contents: t, rest: p },
                ServerResult::ReadResourceResult { contents: u, rest: q },
            ) => resources_view(t@) == resources_view(u@) && p@ == q@,
            (ServerResult::CallToolResult(p), ServerResult::CallToolResult(q)) => p.is_error
                == q.is_error && contents_view(p.content@) == contents_view(q.content@)
                && opt_members_view(p.meta) == opt_members_view(q.meta) && p.rest@ == q.rest@,
            (ServerResult::InitializeResult(p), ServerResult::InitializeResult(q)) => {
                &&& p.protocol_version@ == q.protocol_version@
                &&& p.capabilities == q.capabilities
                &&& p.server_name@ == q.server_name@
                &&& p.server_version@ == q.server_version@
                &&& opt_str(p.instructions) == opt_str(q.instructions)
                &&& p.rest@ == q.rest@
            },
            (ServerResult::Empty, ServerResult::Empty) => true,
            (ServerResult::Other(p), ServerResult::Other(q)) => p@ == q@,
            _ => false,
        },
{
    match (a, b) {
        (ServerResult::ListToolsResult(p), ServerResult::ListToolsResult(q)) => {
            assert(tools_view(p@) == tools_view(q@));
            assert(tools_view(p@).len() == p@.len() && tools_view(q@).len() == q@.len());
            assert forall|i: int| 0 <= i < p@.len() implies (#[trigger] p@[i])@ == (
            #[trigger] q@[i])@ by {
                assert(tools_view(p@)[i] == p@[i]@);
                assert(tools_view(q@)[i] == q@[i]@);
            }
        },
        (ServerResult::ListPromptsResult(p), ServerResult::ListPromptsResult(q)) => {
            assert(prompts_view(p@) == prompts_view(q@));
            assert(prompts_view(p@).len() == p@.len() && prompts_view(q@).len() == q@.len());
            assert forall|i: int| 0 <= i < p@.len() implies (#[trigger] p@[i])@ == (
            #[trigger] q@[i])@ by {
                assert(prompts_view(p@)[i] == p@[i]@);
                assert(prompts_view(q@)[i] == q@[i]@);
            }
        },
        (ServerResult::ListResourcesResult(p), ServerResult::ListResourcesResult(q)) => {
            assert(listed_resources_view(p@) == listed_resources_view(q@));
            assert(listed_resources_view(p@).len() == p@.len() && listed_resources_view(q@).len() == q@.len());
            assert forall|i: int| 0 <= i < p@.len() implies (#[trigger] p@[i])@ == (
            #[trigger] q@[i])@ by {
                assert(listed_resources_view(p@)[i] == p@[i]@);
                assert(listed_resources_view(q@)[i] == q@[i]@);
            }
        },
        (ServerResult::ListResourceTemplatesResult(p), ServerResult::ListResourceTemplatesResult(q)) => {
            assert(templates_view(p@) == templates_view(q@));
            assert(templates_view(p@).len() == p@.len() && templates_view(q@).len() == q@.len());
            assert forall|i: int| 0 <= i < p@.len() implies (#[trigger] p@[i])@ == (
            #[trigger] q@[i])@ by {
                assert(templates_view(p@)[i] == p@[i]@);
                assert(templates_view(q@)[i] == q@[i]@);
            }
        },
        (ServerResult::ListTasksResult(p), ServerResult::ListTasksResult(q)) => {
            assert(tasks_view(p@) == tasks_view(q@));
            assert(tasks_view(p@).len() == p@.len() && tasks_view(q@).len() == q@.len());
            assert forall|i: int| 0 <= i < p@.len() implies (#[trigger] p@[i])@ == (
            #[trigger] q@[i])@ by {
                assert(tasks_view(p@)[i] == p@[i]@);
                assert(tasks_view(q@)[i] == q@[i]@);
            }
        },
        _ => {},
    }
}

/// The mathematical content blocks and contents of resources keep all that they stand for.
pub proof fn law_contents_are_told_apart(
    a: Content,
    b: Content,
    x: ResourceContents,
    y: ResourceContents,
)
    requires
        a@ == b@,
        x@ == y@,
    ensures
        match (a, b) {
            (
                Content::Resource { resource: r, rest: p },
                Content::Resource { resource: s, rest: q },
            ) => r@ == s@ && p@ == q@,
            (Content::Text { text: r, rest: p }, Content::Text { text: s, rest: q }) => r@ == s@
                && p@ == q@,
            (Content::Other(p), Content::Other(q)) => p@ == q@,
            _ => false,
        },
        match (x, y) {
            (
                ResourceContents::TextResourceContents { uri: r, rest: p },
                ResourceContents::TextResourceContents { uri: s, rest: q },
            ) => r@ == s@ && p@ == q@,
            (
                ResourceContents::BlobResourceContents { uri: r, rest: p },
                ResourceContents::BlobResourceContents { uri: s, rest: q },
            ) => r@ == s@ && p@ == q@,
            _ => false,
        },
{
}

} // verus!
