//! What a client is answered when a guardrail rejects its request.

use crate::json::{Json, JsonView};
use crate::model::{
    CallToolResult, CallToolResultView, Content, ContentView, ErrorData, ErrorDataView, RequestId,
    RequestIdView, ServerJsonRpcMessage, ServerJsonRpcMessageView, ServerResult, ServerResultView,
    contents_view, pairs,
};
use vstd::prelude::*;
use vstd::string::*;

verus! {

/// The payload of a denial: a protocol error, or the result of a tool that failed.
#[derive(Debug, PartialEq, Eq)]
pub enum McpDenialEnvelope {
    JsonRpc(ErrorData),
    ToolResult { message: String },
}

/// The mathematical payload of a denial.
pub enum McpDenialEnvelopeView {
    JsonRpc(ErrorDataView),
    ToolResult(Seq<char>),
}

impl View for McpDenialEnvelope {
    type V = McpDenialEnvelopeView;

    open spec fn view(&self) -> McpDenialEnvelopeView {
        match self {
            McpDenialEnvelope::JsonRpc(e) => McpDenialEnvelopeView::JsonRpc(e@),
            McpDenialEnvelope::ToolResult { message } => McpDenialEnvelopeView::ToolResult(
                message@,
            ),
        }
    }
}

/// A rejection with the HTTP status and headers that go with it.
#[derive(Debug, PartialEq, Eq)]
pub struct Rejection {
    pub envelope: McpDenialEnvelope,
    pub http_status: Option<u16>,
    pub http_headers: Vec<(String, String)>,
}

/// The mathematical rejection.
pub struct RejectionView {
    pub envelope: McpDenialEnvelopeView,
    pub http_status: Option<u16>,
    pub http_headers: Seq<(Seq<char>, Seq<char>)>,
}

impl View for Rejection {
    type V = RejectionView;

    open spec fn view(&self) -> RejectionView {
        RejectionView {
            envelope: self.envelope@,
            http_status: self.http_status,
            http_headers: pairs(self.http_headers@),
        }
    }
}

/// What a guardrail rejection carries.
pub type Denial = Rejection;

/// The rejection that hands a JSON-RPC error on as it is.
pub open spec fn plain_rejection(error: ErrorDataView) -> RejectionView {
    RejectionView {
        envelope: McpDenialEnvelopeView::JsonRpc(error),
        http_status: None,
        http_headers: Seq::empty(),
    }
}

/// The same error without its data.
pub open spec fn stripped(error: ErrorDataView) -> ErrorDataView {
    ErrorDataView { code: error.code, message: error.message, data: None }
}

/// The message that answers request `id` with this denial.
pub open spec fn denial_message(denial: RejectionView, id: RequestIdView) -> ServerJsonRpcMessageView {
    match denial.envelope {
        McpDenialEnvelopeView::JsonRpc(error) => ServerJsonRpcMessageView::Error(id, error),
        McpDenialEnvelopeView::ToolResult(message) => ServerJsonRpcMessageView::Response(
            id,
            ServerResultView::CallToolResult(
                CallToolResultView {
                    content: seq![ContentView::Text(message, JsonView::Null)],
                    is_error: Some(true),
                    meta: None,
                    rest: JsonView::Null,
                },
            ),
        ),
    }
}

impl Rejection {
    /// A rejection that hands `error` on, with no HTTP overrides.
    pub fn json_rpc(error: ErrorData) -> (r: Rejection)
        ensures
            r@ == plain_rejection(error@),
    {
        let r = Rejection {
            envelope: McpDenialEnvelope::JsonRpc(error),
            http_status: None,
            http_headers: Vec::new(),
        };
        assert(r@.http_headers =~= Seq::empty());
        r
    }

    /// The message that answers request `id`.
    pub fn to_server_json_rpc_message(&self, id: RequestId) -> (r: ServerJsonRpcMessage)
        ensures
            r@ == denial_message(self@, id@),
    {
        match &self.envelope {
            McpDenialEnvelope::JsonRpc(error) => ServerJsonRpcMessage::Error {
                id,
                error: error.copy(),
            },
            McpDenialEnvelope::ToolResult { message } => {
                let mut content: Vec<Content> = Vec::new();
                content.push(Content::Text { text: message.clone(), rest: Json::Null });
                assert(contents_view(content@) =~= seq![ContentView::Text(message@, JsonView::Null)]);
                ServerJsonRpcMessage::Response {
                    id,
                    result: ServerResult::CallToolResult(
                        CallToolResult { content, is_error: Some(true), meta: None, rest: Json::Null },
                    ),
                }
            },
        }
    }
}

/// The denial that hands `error` on.
pub fn denial_from_error(error: ErrorData) -> (r: Denial)
    ensures
        r@ == plain_rejection(error@),
{
    Rejection::json_rpc(error)
}

/// The message that answers request `id` with `denial`.
pub fn denial_to_server_message(denial: Denial, id: RequestId) -> (r: ServerJsonRpcMessage)
    ensures
        r@ == denial_message(denial@, id@),
{
    denial.to_server_json_rpc_message(id)
}

/// Drops what a policy service told the gateway alone: it is not for clients.
pub fn strip_client_error_data(error: ErrorData) -> (r: ErrorData)
    ensures
        r@ == stripped(error@),
{
    ErrorData { code: error.code, message: error.message, data: None }
}

} // verus!
