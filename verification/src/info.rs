//! What is recorded of a request for logs, metrics and policies, and the errors of the gateway.

use crate::guardrails::denial::Denial;
use crate::json::{Json, JsonMap};
use crate::model::RequestId;
use crate::text;
use crate::upstream::{HttpResponse, format_status, status_text};
use vstd::prelude::*;
use vstd::string::*;
use vstd::utf8::{decode_utf8, encode_utf8, is_char_boundary, valid_utf8};

verus! {

/// What becomes of a request to several upstreams when one of them fails.
#[derive(Debug, Clone, Copy, PartialEq, Eq, Structural)]
pub enum FailureMode {
    /// The whole request fails.
    FailClosed,
    /// The upstream that failed is left out.
    FailOpen,
}

impl Default for FailureMode {
    fn default() -> (r: Self)
        ensures
            r == FailureMode::FailClosed,
    {
        FailureMode::FailClosed
    }
}

/// The idle time after which a session is dropped, in seconds.
pub const DEFAULT_SESSION_IDLE_TTL_SECONDS: u64 = 1800;

/// How the gateway answers a request that it does not serve.
#[derive(Debug, PartialEq, Eq)]
pub enum Error {
    MethodNotAllowed,
    InvalidAccept,
    InvalidAcceptGet,
    InvalidContentType,
    Deserialize(String),
    StartSession(String),
    UnknownSession,
    MissingSessionHeader,
    SessionIdRequired,
    InvalidSessionIdHeader,
    InvalidProtocolVersion,
    Stdio(String),
    UpstreamError(Box<HttpResponse>),
    SendError(Option<RequestId>, String),
    /// The resource is called unknown, so that nobody learns that it exists.
    Authorization(RequestId, String, String),
    McpGuardrails(RequestId, Denial),
    InvalidSessionIdQuery,
    EstablishGetStream(String),
    ForwardLegacySse(String),
    CreateSseUrl(String),
    OpenAPI(String),
    NoBackends,
}

/// The text of an answer.
pub open spec fn error_message(e: Error) -> Seq<char> {
    match e {
        Error::MethodNotAllowed => "method not allowed; must be GET, POST, or DELETE"@,
        Error::InvalidAccept => "client must accept both application/json and text/event-stream"@,
        Error::InvalidAcceptGet => "client must accept text/event-stream"@,
        Error::InvalidContentType => "client must send application/json"@,
        Error::Deserialize(m) => "fail to deserialize request body: "@ + m@,
        Error::StartSession(m) => "fail to create session: "@ + m@,
        Error::UnknownSession => "session not found"@,
        Error::MissingSessionHeader => "session header is required for non-initialize requests"@,
        Error::SessionIdRequired => "session ID is required"@,
        Error::InvalidSessionIdHeader => "invalid session ID header"@,
        Error::InvalidProtocolVersion => "invalid MCP protocol version header"@,
        Error::Stdio(m) => "failed to start stdio server: "@ + m@,
        Error::UpstreamError(resp) => "upstream error: "@ + status_text(resp.status),
        Error::SendError(_, m) => "send error: "@ + m@,
        Error::Authorization(_, kind, name) => "Unknown "@ + kind@ + ": "@ + name@,
        Error::McpGuardrails(_, _) => "mcpGuardrails rejected"@,
        Error::InvalidSessionIdQuery => "failed to process session_id query parameter"@,
        Error::EstablishGetStream(m) => "failed to establish get stream: "@ + m@,
        Error::ForwardLegacySse(m) => "failed to forward message to legacy SSE: "@ + m@,
        Error::CreateSseUrl(m) => "failed to create SSE url: "@ + m@,
        Error::OpenAPI(m) => "failed to parse openapi: "@ + m@,
        Error::NoBackends => "no backends configured"@,
    }
}

impl Error {
    /// The text of the answer.
    pub fn to_string(&self) -> (r: String)
        ensures
            r@ == error_message(*self),
    {
        match self {
            Error::MethodNotAllowed => "method not allowed; must be GET, POST, or DELETE".to_owned(),
            Error::InvalidAccept =>
                "client must accept both application/json and text/event-stream".to_owned(),
            Error::InvalidAcceptGet => "client must accept text/event-stream".to_owned(),
            Error::InvalidContentType => "client must send application/json".to_owned(),
            Error::Deserialize(m) => text::concat("fail to deserialize request body: ", m.as_str()),
            Error::StartSession(m) => text::concat("fail to create session: ", m.as_str()),
            Error::UnknownSession => "session not found".to_owned(),
            Error::MissingSessionHeader =>
                "session header is required for non-initialize requests".to_owned(),
            Error::SessionIdRequired => "session ID is required".to_owned(),
            Error::InvalidSessionIdHeader => "invalid session ID header".to_owned(),
            Error::InvalidProtocolVersion => "invalid MCP protocol version header".to_owned(),
            Error::Stdio(m) => text::concat("failed to start stdio server: ", m.as_str()),
            Error::UpstreamError(resp) => {
                let status = format_status(resp.status);
                text::concat("upstream error: ", status.as_str())
            },
            Error::SendError(_, m) => text::concat("send error: ", m.as_str()),
            Error::Authorization(_, kind, name) => {
                let mut r = text::concat3("Unknown ", kind.as_str(), ": ");
                r.append(name.as_str());
                r
            },
            Error::McpGuardrails(_, _) => "mcpGuardrails rejected".to_owned(),
            Error::InvalidSessionIdQuery => "failed to process session_id query parameter".to_owned(),
            Error::EstablishGetStream(m) => text::concat(
                "failed to establish get stream: ",
                m.as_str(),
            ),
            Error::ForwardLegacySse(m) => text::concat(
                "failed to forward message to legacy SSE: ",
                m.as_str(),
            ),
            Error::CreateSseUrl(m) => text::concat("failed to create SSE url: ", m.as_str()),
            Error::OpenAPI(m) => text::concat("failed to parse openapi: ", m.as_str()),
            Error::NoBackends => "no backends configured".to_owned(),
        }
    }
}

/// A target with a name at that target.
#[derive(Debug, PartialEq, Eq)]
pub struct ResourceId {
    pub target: String,
    pub name: String,
}

impl Clone for ResourceId {
    fn clone(&self) -> (r: Self)
        ensures
            r == *self,
    {
        ResourceId { target: self.target.clone(), name: self.name.clone() }
    }
}

impl ResourceId {
    /// The id of `name` at `target`.
    pub fn new(target: String, name: String) -> (r: ResourceId)
        ensures
            r == (ResourceId { target, name }),
    {
        ResourceId { target, name }
    }

    /// The target.
    pub fn target(&self) -> (r: &str)
        ensures
            r@ == self.target@,
    {
        self.target.as_str()
    }

    /// The name at the target.
    pub fn name(&self) -> (r: &str)
        ensures
            r@ == self.name@,
    {
        self.name.as_str()
    }
}

/// What a policy is asked about.
#[derive(Debug, PartialEq, Eq)]
pub enum ResourceType {
    Tool(ResourceId),
    Prompt(ResourceId),
    Resource(ResourceId),
    Task(ResourceId),
}

/// The kind of thing that a request is about.
#[derive(Debug, Clone, Copy, PartialEq, Eq, Hash, Structural)]
pub enum MCPOperation {
    Tool,
    Prompt,
    Resource,
    ResourceTemplates,
    Task,
}

/// The label of a kind.
pub open spec fn operation_label(op: MCPOperation) -> Seq<char> {
    match op {
        MCPOperation::Tool => "tool"@,
        MCPOperation::Prompt => "prompt"@,
        MCPOperation::Resource => "resource"@,
        MCPOperation::ResourceTemplates => "templates"@,
        MCPOperation::Task => "task"@,
    }
}

impl MCPOperation {
    /// The label of the kind.
    pub fn to_string(&self) -> (r: String)
        ensures
            r@ == operation_label(*self),
    {
        match self {
            MCPOperation::Tool => "tool".to_owned(),
            MCPOperation::Prompt => "prompt".to_owned(),
            MCPOperation::Resource => "resource".to_owned(),
            MCPOperation::ResourceTemplates => "templates".to_owned(),
            MCPOperation::Task => "task".to_owned(),
        }
    }
}

/// A tool call as it is recorded.
#[derive(Debug, PartialEq, Eq)]
pub struct MCPTool {
    /// The target that the call went to.
    pub target: String,
    /// The name of the tool at the target.
    pub name: String,
    /// The arguments of the call.
    pub arguments: Option<JsonMap>,
    /// What the call returned.
    pub result: Option<Json>,
    /// The error with which the call ended.
    pub error: Option<Json>,
}

/// The category and the text of an error as they are recorded.
#[derive(Debug, PartialEq, Eq)]
pub struct McpErrorInfo {
    /// `permission_denied`, `timeout`, `connection_error`, `upstream_error`,
    /// `upstream_tool_error` or `rate_limited`.
    pub error_type: String,
    /// The text, cut to at most 500 bytes.
    pub error_message: String,
    /// The JSON-RPC code, where there was one.
    pub code: Option<i32>,
}

/// What is recorded of a request.
#[derive(Debug, PartialEq, Eq)]
pub struct MCPInfo {
    pub method_name: Option<String>,
    pub session_id: Option<String>,
    pub tool: Option<MCPTool>,
    pub prompt: Option<ResourceId>,
    pub resource: Option<ResourceId>,
    pub task: Option<ResourceId>,
    /// Whether a tool call ended in an error, once that is known.
    pub is_error: Option<bool>,
    /// The outcome, once that is known.
    pub success: Option<bool>,
    /// What went wrong; absent on success.
    pub error: Option<McpErrorInfo>,
    /// The label under which a failed upstream is counted.
    pub upstream_error: Option<String>,
    /// The backend under which the request is counted.
    pub backend_name: Option<String>,
}

/// Nothing is recorded.
pub open spec fn blank_info() -> MCPInfo {
    MCPInfo {
        method_name: None,
        session_id: None,
        tool: None,
        prompt: None,
        resource: None,
        task: None,
        is_error: None,
        success: None,
        error: None,
        upstream_error: None,
        backend_name: None,
    }
}

impl Default for MCPInfo {
    fn default() -> (r: Self)
        ensures
            r == blank_info(),
    {
        MCPInfo {
            method_name: None,
            session_id: None,
            tool: None,
            prompt: None,
            resource: None,
            task: None,
            is_error: None,
            success: None,
            error: None,
            upstream_error: None,
            backend_name: None,
        }
    }
}

/// At most one of tool, prompt, resource and task is recorded.
pub open spec fn at_most_one_subject(info: MCPInfo) -> bool {
    &&& info.tool is Some ==> info.prompt is None && info.resource is None && info.task is None
    &&& info.prompt is Some ==> info.resource is None && info.task is None
    &&& info.resource is Some ==> info.task is None
}

/// The kind of what the request is about.
pub open spec fn subject_kind(info: MCPInfo) -> Option<MCPOperation> {
    if info.tool is Some {
        Some(MCPOperation::Tool)
    } else if info.prompt is Some {
        Some(MCPOperation::Prompt)
    } else if info.resource is Some {
        Some(MCPOperation::Resource)
    } else if info.task is Some {
        Some(MCPOperation::Task)
    } else {
        None
    }
}

/// The target and the name of what the request is about.
pub open spec fn subject(info: MCPInfo) -> Option<(Seq<char>, Seq<char>)> {
    if info.tool is Some {
        Some((info.tool->0.target@, info.tool->0.name@))
    } else if info.prompt is Some {
        Some((info.prompt->0.target@, info.prompt->0.name@))
    } else if info.resource is Some {
        Some((info.resource->0.target@, info.resource->0.name@))
    } else if info.task is Some {
        Some((info.task->0.target@, info.task->0.name@))
    } else {
        None
    }
}

/// The record of a call of `name` at `target`; what was recorded of an earlier call stays.
pub open spec fn tool_record(earlier: Option<MCPTool>, target: String, name: String) -> MCPTool {
    match earlier {
        Some(t) => MCPTool { target, name, arguments: t.arguments, result: t.result, error: t.error },
        None => MCPTool { target, name, arguments: None, result: None, error: None },
    }
}

impl MCPInfo {
    /// Whether nothing is recorded that a policy could read.
    pub fn is_empty(&self) -> (r: bool)
        ensures
            r == (self.method_name is None && self.session_id is None && self.tool is None
                && self.prompt is None && self.resource is None && self.task is None
                && self.is_error is None),
    {
        self.method_name.is_none() && self.session_id.is_none() && self.tool.is_none()
            && self.prompt.is_none() && self.resource.is_none() && self.task.is_none()
            && self.is_error.is_none()
    }

    /// The kind of what the request is about.
    pub fn resource_type(&self) -> (r: Option<MCPOperation>)
        ensures
            r == subject_kind(*self),
    {
        if self.tool.is_some() {
            Some(MCPOperation::Tool)
        } else if self.prompt.is_some() {
            Some(MCPOperation::Prompt)
        } else if self.resource.is_some() {
            Some(MCPOperation::Resource)
        } else if self.task.is_some() {
            Some(MCPOperation::Task)
        } else {
            None
        }
    }

    /// The target of what the request is about.
    pub fn target_name(&self) -> (r: Option<&str>)
        ensures
            match r {
                Some(t) => subject(*self) matches Some(p) && p.0 == t@,
                None => subject(*self) is None,
            },
    {
        match &self.tool {
            Some(tool) => Some(tool.target.as_str()),
            None => match &self.prompt {
                Some(id) => Some(id.target()),
                None => match &self.resource {
                    Some(id) => Some(id.target()),
                    None => match &self.task {
                        Some(id) => Some(id.target()),
                        None => None,
                    },
                },
            },
        }
    }

    /// The name of what the request is about.
    pub fn resource_name(&self) -> (r: Option<&str>)
        ensures
            match r {
                Some(n) => subject(*self) matches Some(p) && p.1 == n@,
                None => subject(*self) is None,
            },
    {
        match &self.tool {
            Some(tool) => Some(tool.name.as_str()),
            None => match &self.prompt {
                Some(id) => Some(id.name()),
                None => match &self.resource {
                    Some(id) => Some(id.name()),
                    None => match &self.task {
                        Some(id) => Some(id.name()),
                        None => None,
                    },
                },
            },
        }
    }

    /// Records a tool as what the request is about.
    pub fn set_tool(&mut self, target: String, name: String)
        ensures
            *final(self) == (MCPInfo {
                tool: Some(tool_record(old(self).tool, target, name)),
                prompt: None,
                resource: None,
                task: None,
                ..*old(self)
            }),
            at_most_one_subject(*final(self)),
    {
        self.prompt = None;
        self.resource = None;
        self.task = None;
        self.tool = match self.tool.take() {
            Some(tool) => Some(
                MCPTool {
                    target,
                    name,
                    arguments: tool.arguments,
                    result: tool.result,
                    error: tool.error,
                },
            ),
            None => Some(MCPTool { target, name, arguments: None, result: None, error: None }),
        };
    }

    /// Records a prompt as what the request is about.
    pub fn set_prompt(&mut self, target: String, name: String)
        ensures
            *final(self) == (MCPInfo {
                tool: None,
                prompt: Some(ResourceId { target, name }),
                resource: None,
                task: None,
                ..*old(self)
            }),
            at_most_one_subject(*final(self)),
    {
        self.tool = None;
        self.resource = None;
        self.task = None;
        self.prompt = Some(ResourceId::new(target, name));
    }

    /// Records a resource as what the request is about.
    pub fn set_resource(&mut self, target: String, name: String)
        ensures
            *final(self) == (MCPInfo {
                tool: None,
                prompt: None,
                resource: Some(ResourceId { target, name }),
                task: None,
                ..*old(self)
            }),
            at_most_one_subject(*final(self)),
    {
        self.tool = None;
        self.prompt = None;
        self.task = None;
        self.resource = Some(ResourceId::new(target, name));
    }

    /// Records a task as what the request is about.
    pub fn set_task(&mut self, target: String, task_id: String)
        ensures
            *final(self) == (MCPInfo {
                tool: None,
                prompt: None,
                resource: None,
                task: Some(ResourceId { target, name: task_id }),
                ..*old(self)
            }),
            at_most_one_subject(*final(self)),
    {
        self.tool = None;
        self.prompt = None;
        self.resource = None;
        self.task = Some(ResourceId::new(target, task_id));
    }

    /// Records the arguments of a tool call, where a tool is recorded.
    pub fn capture_call_arguments(&mut self, arguments: Option<JsonMap>)
        ensures
            *final(self) == (MCPInfo {
                tool: match old(self).tool {
                    Some(t) => Some(MCPTool { arguments, ..t }),
                    None => None,
                },
                ..*old(self)
            }),
    {
        self.tool = match self.tool.take() {
            Some(tool) => {
                let mut tool = tool;
                tool.arguments = arguments;
                Some(tool)
            },
            None => None,
        };
    }

    /// Records what a tool call returned, where a tool is recorded.
    pub fn capture_call_result(&mut self, result: Option<Json>)
        ensures
            *final(self) == (MCPInfo {
                tool: match old(self).tool {
                    Some(t) => Some(MCPTool { result, ..t }),
                    None => None,
                },
                ..*old(self)
            }),
    {
        self.tool = match self.tool.take() {
            Some(tool) => {
                let mut tool = tool;
                tool.result = result;
                Some(tool)
            },
            None => None,
        };
    }

    /// Records the error with which a tool call ended, where a tool is recorded.
    pub fn capture_call_error(&mut self, error: Option<Json>)
        ensures
            *final(self) == (MCPInfo {
                tool: match old(self).tool {
                    Some(t) => Some(MCPTool { error, ..t }),
                    None => None,
                },
                ..*old(self)
            }),
    {
        self.tool = match self.tool.take() {
            Some(tool) => {
                let mut tool = tool;
                tool.error = error;
                Some(tool)
            },
            None => None,
        };
    }

    /// Records the label under which a failed upstream is counted.
    pub fn set_upstream_error(&mut self, error_type: &str)
        ensures
            final(self).upstream_error matches Some(s) && s@ == error_type@,
            *final(self) == (MCPInfo {
                upstream_error: final(self).upstream_error,
                ..*old(self)
            }),
    {
        self.upstream_error = Some(error_type.to_owned());
    }

    /// Records the backend under which the request is counted.
    pub fn set_backend_name(&mut self, name: &str)
        ensures
            final(self).backend_name matches Some(s) && s@ == name@,
            *final(self) == (MCPInfo { backend_name: final(self).backend_name, ..*old(self) }),
    {
        self.backend_name = Some(name.to_owned());
    }

    /// Records that the request succeeded.
    pub fn stamp_success(&mut self)
        ensures
            *final(self) == (MCPInfo { success: Some(true), error: None, ..*old(self) }),
    {
        self.success = Some(true);
        self.error = None;
    }

    /// Records that the request failed, and how.
    pub fn stamp_error(&mut self, error_type: &str, error_message: String, code: Option<i32>)
        ensures
            final(self).error matches Some(e) && e.error_type@ == error_type@ && e.error_message
                == error_message && e.code == code,
            *final(self) == (MCPInfo {
                success: Some(false),
                error: final(self).error,
                ..*old(self)
            }),
    {
        self.success = Some(false);
        self.error = Some(McpErrorInfo { error_type: error_type.to_owned(), error_message, code });
    }
}

/// The record of a request about `value`.
pub open spec fn info_of_resource(value: ResourceType) -> MCPInfo {
    match value {
        ResourceType::Tool(id) => MCPInfo {
            tool: Some(tool_record(None, id.target, id.name)),
            ..blank_info()
        },
        ResourceType::Prompt(id) => MCPInfo { prompt: Some(id), ..blank_info() },
        ResourceType::Resource(id) => MCPInfo { resource: Some(id), ..blank_info() },
        ResourceType::Task(id) => MCPInfo { task: Some(id), ..blank_info() },
    }
}

impl<'a> From<&'a ResourceType> for MCPInfo {
    fn from(value: &'a ResourceType) -> (r: Self) {
        let mut info = MCPInfo::default();
        match value {
            ResourceType::Tool(id) => {
                info.set_tool(id.target.clone(), id.name.clone());
            },
            ResourceType::Prompt(id) => {
                info.prompt = Some(id.clone());
            },
            ResourceType::Resource(id) => {
                info.resource = Some(id.clone());
            },
            ResourceType::Task(id) => {
                info.task = Some(id.clone());
            },
        }
        info
    }
}

impl<'a> vstd::std_specs::convert::FromSpecImpl<&'a ResourceType> for MCPInfo {
    open spec fn obeys_from_spec() -> bool {
        true
    }

    open spec fn from_spec(value: &'a ResourceType) -> Self {
        info_of_resource(*value)
    }
}

/// The record of a resource has that resource as its only subject.
pub proof fn law_info_of_resource(value: ResourceType)
    ensures
        at_most_one_subject(info_of_resource(value)),
        subject(info_of_resource(value)) == Some(
            (resource_id(value).target@, resource_id(value).name@),
        ),
{
}

/// The id that a policy is asked about.
pub open spec fn resource_id(value: ResourceType) -> ResourceId {
    match value {
        ResourceType::Tool(id) => id,
        ResourceType::Prompt(id) => id,
        ResourceType::Resource(id) => id,
        ResourceType::Task(id) => id,
    }
}

/// The largest position at or below `i` where a character of the UTF-8 text begins or the text
/// ends.
pub open spec fn boundary_below(bytes: Seq<u8>, i: int) -> int
    decreases i,
{
    if i <= 0 {
        0
    } else if is_char_boundary(bytes, i) {
        i
    } else {
        boundary_below(bytes, i - 1)
    }
}

/// The length in bytes to which a text is cut.
pub open spec fn cut_length(bytes: Seq<u8>) -> int {
    if bytes.len() <= 500 {
        bytes.len() as int
    } else {
        boundary_below(bytes, 500)
    }
}

/// A text cut to at most 500 bytes, at a character boundary.
pub open spec fn sanitized(s: Seq<char>) -> Seq<char> {
    let bytes = encode_utf8(s);
    decode_utf8(bytes.subrange(0, cut_length(bytes)))
}

proof fn lemma_boundary_below(bytes: Seq<u8>, i: int)
    requires
        valid_utf8(bytes),
        0 <= i <= bytes.len(),
    ensures
        0 <= boundary_below(bytes, i) <= i,
        is_char_boundary(bytes, boundary_below(bytes, i)),
    decreases i,
{
    if i <= 0 {
        vstd::utf8::is_char_boundary_start_end_of_seq(bytes);
    } else if !is_char_boundary(bytes, i) {
        lemma_boundary_below(bytes, i - 1);
    }
}

/// Cuts `s` to at most 500 bytes, at a character boundary.
pub fn sanitize_error_message(s: &str) -> (r: String)
    ensures
        r@ == sanitized(s@),
{
    let ghost bytes = encode_utf8(s@);
    proof {
        vstd::utf8::encode_utf8_valid_utf8(s@);
        vstd::utf8::encode_utf8_decode_utf8(s@);
    }
    let cs = s.as_bytes();
    let n: usize = cs.len();
    if n <= 500 {
        assert(bytes.subrange(0, bytes.len() as int) =~= bytes);
        return s.to_owned();
    }
    let mut end: usize = 500;
    while end > 0 && !s.is_char_boundary(end)
        invariant
            bytes == encode_utf8(s@),
            n == bytes.len(),
            n > 500,
            0 <= end <= 500,
            boundary_below(bytes, 500) == boundary_below(bytes, end as int),
        decreases end,
    {
        end -= 1;
    }
    proof {
        lemma_boundary_below(bytes, 500);
        lemma_boundary_below(bytes, end as int);
    }
    let (head, _) = s.split_at(end);
    proof {
        vstd::utf8::encode_utf8_decode_utf8(head@);
    }
    head.to_owned()
}

/// What is kept of a text is a prefix of it, takes at most 500 bytes, is the whole text where
/// that takes no more, and is not cut again.
pub proof fn law_sanitized(s: Seq<char>)
    ensures
        sanitized(s).is_prefix_of(s),
        encode_utf8(sanitized(s)).len() <= 500,
        encode_utf8(s).len() <= 500 ==> sanitized(s) == s,
        sanitized(sanitized(s)) == sanitized(s),
{
    let bytes = encode_utf8(s);
    vstd::utf8::encode_utf8_valid_utf8(s);
    vstd::utf8::encode_utf8_decode_utf8(s);
    vstd::utf8::is_char_boundary_start_end_of_seq(bytes);
    let cut = cut_length(bytes);
    if bytes.len() > 500 {
        lemma_boundary_below(bytes, 500);
    }
    let head = bytes.subrange(0, cut);
    let tail = bytes.subrange(cut, bytes.len() as int);
    vstd::utf8::valid_utf8_split(bytes, cut);
    vstd::utf8::decode_utf8_split(bytes, cut);
    vstd::utf8::decode_utf8_encode_utf8(head);
    assert(decode_utf8(bytes) == decode_utf8(head) + decode_utf8(tail));
    assert(s.subrange(0, sanitized(s).len() as int) =~= sanitized(s));
    if bytes.len() <= 500 {
        assert(head =~= bytes);
    }
    assert(head.subrange(0, head.len() as int) =~= head);
}

proof fn lemma_encoded_prefix(a: Seq<char>, b: Seq<char>)
    ensures
        encode_utf8(a + b) == encode_utf8(a) + encode_utf8(b),
        is_char_boundary(encode_utf8(a + b), encode_utf8(a).len() as int),
        encode_utf8(a).len() >= a.len(),
    decreases a.len(),
{
    let all = encode_utf8(a + b);
    vstd::utf8::encode_utf8_valid_utf8(a + b);
    if a.len() == 0 {
        assert(a + b =~= b);
        assert(encode_utf8(a) + encode_utf8(b) =~= encode_utf8(b));
        vstd::utf8::is_char_boundary_start_end_of_seq(all);
    } else {
        let rest = a.drop_first();
        assert((a + b).drop_first() =~= rest + b);
        lemma_encoded_prefix(rest, b);
        vstd::utf8::encode_utf8_first_scalar(a + b);
        vstd::utf8::encode_utf8_first_scalar(a);
        let first = vstd::utf8::encode_scalar(a[0] as u32);
        assert(all =~= first + encode_utf8(rest + b));
        assert(encode_utf8(a) =~= first + encode_utf8(rest));
        assert(all =~= encode_utf8(a) + encode_utf8(b));
        assert(vstd::utf8::pop_first_scalar(all) =~= encode_utf8(rest + b));
        assert(first.len() >= 1);
    }
}

proof fn lemma_boundary_is_highest(bytes: Seq<u8>, i: int, k: int)
    requires
        valid_utf8(bytes),
        0 <= k <= i <= bytes.len(),
        is_char_boundary(bytes, k),
    ensures
        k <= boundary_below(bytes, i),
    decreases i,
{
    if i > 0 && !is_char_boundary(bytes, i) {
        lemma_boundary_is_highest(bytes, i - 1, k);
    }
}

/// No more of a text is cut off than must be: what is kept is at least as long as any beginning of
/// the text that takes at most 500 bytes.
pub proof fn law_sanitized_keeps_what_fits(s: Seq<char>, n: int)
    requires
        0 <= n <= s.len(),
        encode_utf8(s.take(n)).len() <= 500,
    ensures
        n <= sanitized(s).len(),
{
    let bytes = encode_utf8(s);
    let part = s.take(n);
    let kept = sanitized(s);
    law_sanitized(s);
    vstd::utf8::encode_utf8_valid_utf8(s);
    assert(s =~= part + s.skip(n));
    lemma_encoded_prefix(part, s.skip(n));
    if bytes.len() > 500 {
        lemma_boundary_is_highest(bytes, 500, encode_utf8(part).len() as int);
        lemma_boundary_below(bytes, 500);
        vstd::utf8::valid_utf8_split(bytes, cut_length(bytes));
        vstd::utf8::decode_utf8_encode_utf8(bytes.subrange(0, cut_length(bytes)));
        assert(encode_utf8(kept).len() == cut_length(bytes));
        if kept.len() < n {
            let more = part.skip(kept.len() as int);
            assert(kept =~= part.take(kept.len() as int)) by {
                assert(kept =~= s.subrange(0, kept.len() as int));
            }
            assert(part =~= kept + more);
            lemma_encoded_prefix(kept, more);
            lemma_encoded_prefix(more, Seq::empty());
            assert(encode_utf8(more).len() >= 1);
            assert(false);
        }
    }
}

} // verus!
