//! The session of one client: where its messages go, and how failures are answered.

pub mod dispatch;
pub mod forwarding;
pub mod in_flight;
pub mod manager;
pub mod serving;
pub mod single;
pub mod stateless;

use crate::client::{
    ClientCapabilities, ClientCapabilitiesView, ClientJsonRpcMessage, ClientJsonRpcMessageView,
};
use crate::guardrails::denial::{Rejection, denial_message};
use crate::handler::RelayView;
use crate::info::{Error, MCPInfo};
use crate::model::{
    ErrorData, ErrorDataView, INVALID_PARAMS, RequestId, RequestIdView, ServerJsonRpcMessage,
    ServerJsonRpcMessageView,
};
use crate::session::dispatch::{
    MessagePlan, NoPlan, after_notification, id_text, message_method, notification_plan, plan,
    records_message, records_plan, response_target, with_id, with_request_of,
};
use crate::session::manager::{Session, SessionView};
use crate::text;
use crate::upstream::{ClientError, HttpResponse, ProxyError, UpstreamError, error_text, root_cause};
use vstd::prelude::*;
use vstd::string::*;

verus! {

/// Why a message could not be served: an answer of the gateway, or a failure of the proxy below.
#[derive(Debug, PartialEq, Eq)]
pub enum SendFailure {
    Mcp(Error),
    Proxy(ProxyError),
}

/// The response of an upstream that refused the request itself, below any fanout.
pub open spec fn refused_response(e: UpstreamError) -> Option<Box<HttpResponse>> {
    match root_cause(e) {
        UpstreamError::Http(ClientError::Status(resp)) => Some(resp),
        _ => None,
    }
}

/// How a failure is answered.
///
/// An upstream that refused a request with an HTTP status has that response handed on, a fanout
/// to it too. A denial goes to the request that it denies. All else is a failure to send, with
/// the text of the error.
pub open spec fn answers_failure(
    f: SendFailure,
    req_id: Option<RequestId>,
    e: UpstreamError,
) -> bool {
    match refused_response(e) {
        Some(resp) => f == SendFailure::Mcp(Error::UpstreamError(resp)),
        None => match (e, req_id) {
            (UpstreamError::Proxy(p), _) => f == SendFailure::Proxy(p),
            (UpstreamError::Authorization { resource_type, resource_name }, Some(id)) => f
                == SendFailure::Mcp(Error::Authorization(id, resource_type, resource_name)),
            (UpstreamError::McpGuardrails(rejection), Some(id)) => f == SendFailure::Mcp(
                Error::McpGuardrails(id, rejection),
            ),
            _ => f matches SendFailure::Mcp(Error::SendError(id, text)) && id == req_id && text@
                == error_text(e),
        },
    }
}

enum Refusal {
    Response(Box<HttpResponse>),
    Other(UpstreamError),
}

/// The response that an upstream refused the request with, or the error as it was.
fn take_response(e: UpstreamError) -> (r: Refusal)
    ensures
        match r {
            Refusal::Response(resp) => refused_response(e) == Some(resp),
            Refusal::Other(x) => x == e && refused_response(e) is None,
        },
    decreases e,
{
    match e {
        UpstreamError::Http(ClientError::Status(resp)) => Refusal::Response(resp),
        UpstreamError::FanoutError { name, source } => match take_response(*source) {
            Refusal::Response(resp) => Refusal::Response(resp),
            Refusal::Other(x) => Refusal::Other(
                UpstreamError::FanoutError { name, source: Box::new(x) },
            ),
        },
        other => Refusal::Other(other),
    }
}

/// How the outcome of a message is answered.
pub fn handle_error<R>(req_id: Option<RequestId>, d: Result<R, UpstreamError>) -> (r: Result<
    R,
    SendFailure,
>)
    ensures
        match d {
            Ok(x) => r == Ok::<R, SendFailure>(x),
            Err(e) => r matches Err(f) && answers_failure(f, req_id, e),
        },
{
    let e = match d {
        Ok(x) => {
            return Ok(x);
        },
        Err(e) => e,
    };
    let e = match take_response(e) {
        Refusal::Response(resp) => {
            return Err(SendFailure::Mcp(Error::UpstreamError(resp)));
        },
        Refusal::Other(e) => e,
    };
    match (e, req_id) {
        (UpstreamError::Proxy(p), _) => Err(SendFailure::Proxy(p)),
        (UpstreamError::Authorization { resource_type, resource_name }, Some(id)) => Err(
            SendFailure::Mcp(Error::Authorization(id, resource_type, resource_name)),
        ),
        (UpstreamError::McpGuardrails(rejection), Some(id)) => Err(
            SendFailure::Mcp(Error::McpGuardrails(id, rejection)),
        ),
        (e, req_id) => {
            let text = e.to_string();
            Err(SendFailure::Mcp(Error::SendError(req_id, text)))
        },
    }
}

/// The message that answers the request that was denied: that what it asks for is unknown, or what
/// the guardrail has for it. `None` for what is no denial.
pub open spec fn denial_reply_of(e: Error) -> Option<ServerJsonRpcMessageView> {
    match e {
        Error::Authorization(id, resource_type, resource_name) => Some(
            ServerJsonRpcMessageView::Error(
                id@,
                ErrorDataView {
                    code: INVALID_PARAMS as int,
                    message: "Unknown "@ + resource_type@ + ": "@ + resource_name@,
                    data: None,
                },
            ),
        ),
        Error::McpGuardrails(id, denial) => Some(denial_message(denial@, id@)),
        _ => None,
    }
}

/// The message that answers the request that was denied.
pub fn denial_reply(e: &Error) -> (r: Option<ServerJsonRpcMessage>)
    ensures
        match denial_reply_of(*e) {
            Some(reply) => r matches Some(m) && m@ == reply,
            None => r is None,
        },
{
    match e {
        Error::Authorization(id, _, _) => {
            let error = ErrorData { code: INVALID_PARAMS, message: e.to_string(), data: None };
            Some(ServerJsonRpcMessage::Error { id: id.copy(), error })
        },
        Error::McpGuardrails(id, denial) => Some(denial.to_server_json_rpc_message(id.copy())),
        _ => None,
    }
}

/// Records which method was called in which session.
pub fn record_request(log: &mut MCPInfo, method: &str, session_id: &str)
    ensures
        final(log).method_name matches Some(m) && m@ == method@,
        final(log).session_id matches Some(s) && s@ == session_id@,
        *final(log) == (MCPInfo {
            method_name: final(log).method_name,
            session_id: final(log).session_id,
            ..*old(log)
        }),
{
    log.method_name = Some(method.to_owned());
    log.session_id = Some(session_id.to_owned());
}

/// Records the session of a request that has no method: the opening of an event stream, or the
/// end of the session. Such a request is not counted by method.
pub fn record_session(log: &mut MCPInfo, session_id: &str)
    ensures
        final(log).session_id matches Some(s) && s@ == session_id@,
        *final(log) == (MCPInfo { session_id: final(log).session_id, ..*old(log) }),
{
    log.session_id = Some(session_id.to_owned());
}

/// What a response to be forwarded to a separate event stream holds, by its content type.
#[derive(Debug, Clone, Copy, PartialEq, Eq, Structural)]
pub enum LegacyForward {
    /// A stream of events.
    Events,
    /// One JSON message.
    Json,
    /// Nothing to forward.
    Nothing,
}

/// What a response of this content type holds.
pub open spec fn legacy_forward(content_type: Option<Seq<char>>) -> LegacyForward {
    match content_type {
        Some(ct) => if "text/event-stream"@.is_prefix_of(ct) {
            LegacyForward::Events
        } else if "application/json"@.is_prefix_of(ct) {
            LegacyForward::Json
        } else {
            LegacyForward::Nothing
        },
        None => LegacyForward::Nothing,
    }
}

/// Capabilities without those for which requests of a server would have to reach the client: the
/// gateway has no way back for roots and sampling. It has one for elicitation.
pub open spec fn supported(capabilities: ClientCapabilitiesView) -> ClientCapabilitiesView {
    ClientCapabilitiesView { roots: None, sampling: None, ..capabilities }
}

/// Takes out the capabilities that the gateway does not support.
pub fn strip_unsupported_client_capabilities(capabilities: &mut ClientCapabilities)
    ensures
        final(capabilities)@ == supported(old(capabilities)@),
{
    capabilities.roots = None;
    capabilities.sampling = None;
}

impl Session {
    /// Where a message goes, or how it is answered where it goes nowhere.
    pub fn send(&mut self, message: ClientJsonRpcMessage, log: &mut MCPInfo) -> (r: Result<
        MessagePlan,
        SendFailure,
    >)
        ensures
            match message {
                ClientJsonRpcMessage::Request { id, request } => match plan(
                    old(self)@.relay,
                    id@,
                    request@,
                ) {
                    Ok(p) => r matches Ok(MessagePlan::Request(x)) && x@ == p,
                    Err(NoPlan::Invalid(m)) => refuses(r, Some(id@), m),
                    Err(NoPlan::Method(m)) => refuses(r, Some(id@), m),
                },
                ClientJsonRpcMessage::Notification(n) => r matches Ok(MessagePlan::Notification(p))
                    && p@ == notification_plan(old(self)@.relay, old(self)@.in_flight, n@),
                ClientJsonRpcMessage::Response { id, result } => sends_back(
                    r,
                    old(self)@.relay,
                    id@,
                    message@,
                ),
                ClientJsonRpcMessage::Error { id, error } => sends_back(
                    r,
                    old(self)@.relay,
                    id@,
                    message@,
                ),
            },
            final(self)@ == (SessionView {
                in_flight: match message {
                    ClientJsonRpcMessage::Notification(n) => after_notification(
                        old(self)@.in_flight,
                        n@,
                    ),
                    _ => old(self)@.in_flight,
                },
                ..old(self)@
            }),
            match message {
                ClientJsonRpcMessage::Request { id, request } => records_plan(
                    with_request_of(*old(log), *final(log)),
                    *final(log),
                    plan(old(self)@.relay, id@, request@),
                ),
                _ => *final(log) == (if r is Ok {
                    with_request_of(*old(log), *final(log))
                } else {
                    *old(log)
                }),
            },
            r is Ok || message is Request ==> records_message(
                *final(log),
                message_method(message@),
                old(self)@.id,
            ),
    {
        let req_id = match &message {
            ClientJsonRpcMessage::Request { id, request: _ } => Some(id.copy()),
            _ => None,
        };
        let planned = self.relay.plan_message(
            &mut self.in_flight,
            message,
            log,
            self.id.as_str(),
        );
        handle_error(req_id, planned)
    }

    /// Takes the id that holds the sessions of all upstreams, once these were initialized. `encoded`
    /// is that id, where each upstream has a session and they could be encoded; else the session
    /// keeps its own.
    pub fn upstreams_initialized(&mut self, encoded: Option<String>)
        ensures
            final(self)@ == (SessionView {
                id: match encoded {
                    Some(id) => id@,
                    None => old(self)@.id,
                },
                ..old(self)@
            }),
    {
        if let Some(id) = encoded {
            self.id = id;
        }
    }

    /// What is forwarded to the event stream of the session for a response of this content type.
    /// Only a session that has a separate event stream can forward.
    pub fn forward_legacy_sse(&self, content_type: Option<&str>) -> (r: Result<
        LegacyForward,
        ClientError,
    >)
        ensures
            if self@.legacy_sse {
                r matches Ok(f) && f == legacy_forward(crate::model::opt_slice(content_type))
            } else {
                r matches Err(ClientError::General(m)) && m@ == "may only be called for SSE streams"@
            },
    {
        if !self.legacy_sse {
            return Err(ClientError::new("may only be called for SSE streams".to_owned()));
        }
        match content_type {
            Some(ct) => if text::starts_with(ct, "text/event-stream") {
                Ok(LegacyForward::Events)
            } else if text::starts_with(ct, "application/json") {
                Ok(LegacyForward::Json)
            } else {
                Ok(LegacyForward::Nothing)
            },
            None => Ok(LegacyForward::Nothing),
        }
    }
}

/// A message is answered with a failure to send, with this text.
pub open spec fn refuses(
    r: Result<MessagePlan, SendFailure>,
    id: Option<RequestIdView>,
    text: Seq<char>,
) -> bool {
    r matches Err(SendFailure::Mcp(Error::SendError(rid, m))) && m@ == text && (match rid {
        Some(x) => Some(x@),
        None => None,
    }) == id
}

/// A response or an error of the client goes to the server that it answers, or is refused.
pub open spec fn sends_back(
    r: Result<MessagePlan, SendFailure>,
    relay: RelayView,
    id: RequestIdView,
    message: ClientJsonRpcMessageView,
) -> bool {
    match response_target(relay, id) {
        Some((target, original)) => r matches Ok(MessagePlan::Forward { target: t, message: m })
            && t@ == target && m@ == with_id(message, original),
        None => refuses(r, None, "unknown request id for client response: "@ + id_text(id)),
    }
}

/// A request that the policy denies is answered, to its own id, that the thing is unknown under
/// the name that the client gave: not at which target, nor whether it exists there.
pub proof fn law_denial_names_what_the_client_named(
    f: SendFailure,
    id: RequestId,
    resource_type: String,
    resource_name: String,
)
    requires
        answers_failure(
            f,
            Some(id),
            UpstreamError::Authorization { resource_type, resource_name },
        ),
    ensures
        f matches SendFailure::Mcp(error) && {
            &&& crate::info::error_message(error) == "Unknown "@ + resource_type@ + ": "@
                + resource_name@
            &&& denial_reply_of(error) == Some(
                ServerJsonRpcMessageView::Error(
                    id@,
                    ErrorDataView {
                        code: INVALID_PARAMS as int,
                        message: "Unknown "@ + resource_type@ + ": "@ + resource_name@,
                        data: None,
                    },
                ),
            )
        },
{
}

/// A request that a guardrail rejects is answered, to its own id, with what the guardrail has for
/// it.
pub proof fn law_rejection_is_the_answer(f: SendFailure, id: RequestId, rejection: Rejection)
    requires
        answers_failure(f, Some(id), UpstreamError::McpGuardrails(rejection)),
    ensures
        f matches SendFailure::Mcp(error) && denial_reply_of(error) == Some(
            denial_message(rejection@, id@),
        ),
{
}

} // verus!
