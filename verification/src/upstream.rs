//! What can go wrong between the gateway and an upstream server.

use crate::guardrails::denial::Rejection;
use crate::text;
use vstd::prelude::*;
use vstd::string::*;

verus! {

/// A failure of the proxy below the gateway, as far as its kind matters here.
#[derive(Debug, PartialEq, Eq)]
pub enum ProxyError {
    UpstreamCallTimeout,
    RequestTimeout,
    Other(String),
}

/// An HTTP response that is handed to the client as it came.
#[derive(Debug, PartialEq, Eq)]
pub struct HttpResponse {
    pub status: u16,
    pub headers: Vec<(String, String)>,
    pub body: Vec<u8>,
}

/// Why an HTTP call to an upstream failed.
#[derive(Debug, PartialEq, Eq)]
pub enum ClientError {
    Status(Box<HttpResponse>),
    General(String),
    Proxy(ProxyError),
}

impl ClientError {
    /// A failure with no status and no proxy error behind it.
    pub fn new(error: String) -> (r: ClientError)
        ensures
            r == ClientError::General(error),
    {
        ClientError::General(error)
    }
}

/// Why a request could not be answered by an upstream.
#[derive(Debug, PartialEq, Eq)]
pub enum UpstreamError {
    ServiceError(String),
    OpenAPIError(String),
    Proxy(ProxyError),
    Stdio(String),
    StdioShutdown,
    Send,
    Recv,
    Http(ClientError),
    McpGuardrails(Rejection),
    Authorization { resource_type: String, resource_name: String },
    InvalidRequest(String),
    InvalidMethod(String),
    InvalidMethodWithMultiplexing(String),
    FanoutError { name: String, source: Box<UpstreamError> },
}

/// `e` is a refusal of the request with the message `message`.
pub open spec fn invalid_request(e: UpstreamError, message: Seq<char>) -> bool {
    e matches UpstreamError::InvalidRequest(m) && m@ == message
}

/// The error below any number of fanout wrappers.
pub open spec fn root_cause(e: UpstreamError) -> UpstreamError
    decreases e,
{
    match e {
        UpstreamError::FanoutError { name, source } => root_cause(*source),
        _ => e,
    }
}

/// The text of a proxy failure.
pub open spec fn proxy_text(e: ProxyError) -> Seq<char> {
    match e {
        ProxyError::UpstreamCallTimeout => "upstream call timeout"@,
        ProxyError::RequestTimeout => "request timeout"@,
        ProxyError::Other(m) => m@,
    }
}

impl ProxyError {
    /// The text of the failure.
    pub fn to_string(&self) -> (r: String)
        ensures
            r@ == proxy_text(*self),
    {
        match self {
            ProxyError::UpstreamCallTimeout => "upstream call timeout".to_owned(),
            ProxyError::RequestTimeout => "request timeout".to_owned(),
            ProxyError::Other(m) => m.clone(),
        }
    }
}

/// The phrase that `http::StatusCode::canonical_reason` has for a status, where it has one.
pub uninterp spec fn status_reason(status: u16) -> Option<Seq<char>>;

/// Calls `http::StatusCode::canonical_reason`: the phrase for the status. There is none for a
/// number that is no status or that has no standard phrase.
#[verifier::external_body]
fn canonical_reason(status: u16) -> (r: Option<String>)
    ensures
        crate::model::opt_str(r) == status_reason(status),
{
    let code = http::StatusCode::from_u16(status).ok()?;
    code.canonical_reason().map(|s| s.to_string())
}

/// A status as text: its number and its reason phrase.
pub open spec fn status_text(status: u16) -> Seq<char> {
    crate::decimal::decimal_text(status as int) + " "@ + match status_reason(status) {
        Some(reason) => reason,
        None => "<unknown status code>"@,
    }
}

/// The status as text.
pub fn format_status(status: u16) -> (r: String)
    ensures
        r@ == status_text(status),
{
    let code = crate::decimal::format_u64(status as u64);
    let reason = match canonical_reason(status) {
        Some(reason) => reason,
        None => "<unknown status code>".to_owned(),
    };
    text::concat3(code.as_str(), " ", reason.as_str())
}

/// The text of a failed HTTP call.
pub open spec fn client_error_text(e: ClientError) -> Seq<char> {
    match e {
        ClientError::Status(resp) => "http request failed with code: "@ + status_text(resp.status),
        ClientError::General(m) => "http request failed: "@ + m@,
        ClientError::Proxy(p) => "http request failed: "@ + proxy_text(p),
    }
}

impl ClientError {
    /// The text of the failure.
    pub fn to_string(&self) -> (r: String)
        ensures
            r@ == client_error_text(*self),
    {
        match self {
            ClientError::Status(resp) => {
                let status = format_status(resp.status);
                text::concat("http request failed with code: ", status.as_str())
            },
            ClientError::General(m) => text::concat("http request failed: ", m.as_str()),
            ClientError::Proxy(p) => {
                let m = p.to_string();
                text::concat("http request failed: ", m.as_str())
            },
        }
    }
}

/// The text of an upstream error. That of a fanout names the target that failed.
pub open spec fn error_text(e: UpstreamError) -> Seq<char>
    decreases e,
{
    match e {
        UpstreamError::ServiceError(m) => m@,
        UpstreamError::OpenAPIError(m) => m@,
        UpstreamError::Proxy(p) => proxy_text(p),
        UpstreamError::Stdio(m) => m@,
        UpstreamError::StdioShutdown => "stdio upstream is shut down"@,
        UpstreamError::Send => "upstream closed on send"@,
        UpstreamError::Recv => "upstream closed on receive"@,
        UpstreamError::Http(e) => client_error_text(e),
        UpstreamError::McpGuardrails(_) => "mcpGuardrails rejected"@,
        UpstreamError::Authorization { resource_type, resource_name } => "Unknown "@
            + resource_type@ + ": "@ + resource_name@,
        UpstreamError::InvalidRequest(m) => m@,
        UpstreamError::InvalidMethod(m) => m@,
        UpstreamError::InvalidMethodWithMultiplexing(m) => m@,
        UpstreamError::FanoutError { name, source } => name@ + ": "@ + error_text(*source),
    }
}

impl UpstreamError {
    /// The text of the error.
    pub fn to_string(&self) -> (r: String)
        ensures
            r@ == error_text(*self),
        decreases self,
    {
        match self {
            UpstreamError::ServiceError(m) => m.clone(),
            UpstreamError::OpenAPIError(m) => m.clone(),
            UpstreamError::Proxy(p) => p.to_string(),
            UpstreamError::Stdio(m) => m.clone(),
            UpstreamError::StdioShutdown => "stdio upstream is shut down".to_owned(),
            UpstreamError::Send => "upstream closed on send".to_owned(),
            UpstreamError::Recv => "upstream closed on receive".to_owned(),
            UpstreamError::Http(e) => e.to_string(),
            UpstreamError::McpGuardrails(_) => "mcpGuardrails rejected".to_owned(),
            UpstreamError::Authorization { resource_type, resource_name } => {
                let mut r = text::concat3("Unknown ", resource_type.as_str(), ": ");
                r.append(resource_name.as_str());
                r
            },
            UpstreamError::InvalidRequest(m) => m.clone(),
            UpstreamError::InvalidMethod(m) => m.clone(),
            UpstreamError::InvalidMethodWithMultiplexing(m) => m.clone(),
            UpstreamError::FanoutError { name, source } => {
                let inner = source.to_string();
                text::concat3(name.as_str(), ": ", inner.as_str())
            },
        }
    }
}

/// The category of an upstream error in access logs: a time-out, a lost connection, or any other
/// failure. A fanout error has the category of its cause.
pub open spec fn cel_error_type(e: UpstreamError) -> Seq<char> {
    match root_cause(e) {
        UpstreamError::Proxy(ProxyError::UpstreamCallTimeout) => "timeout"@,
        UpstreamError::Proxy(ProxyError::RequestTimeout) => "timeout"@,
        UpstreamError::Http(ClientError::General(_)) => "connection_error"@,
        UpstreamError::Http(ClientError::Proxy(_)) => "connection_error"@,
        _ => "upstream_error"@,
    }
}

/// The category of `e` in access logs.
pub fn classify_upstream_error_for_cel(e: &UpstreamError) -> (r: &'static str)
    ensures
        r@ == cel_error_type(*e),
    decreases e,
{
    match e {
        UpstreamError::Proxy(ProxyError::UpstreamCallTimeout) => "timeout",
        UpstreamError::Proxy(ProxyError::RequestTimeout) => "timeout",
        UpstreamError::Http(ClientError::General(_)) => "connection_error",
        UpstreamError::Http(ClientError::Proxy(_)) => "connection_error",
        UpstreamError::FanoutError { name: _, source } => classify_upstream_error_for_cel(source),
        _ => "upstream_error",
    }
}

} // verus!
