//! The answer to a request as it is sent to the client, and what is recorded of it.

use crate::info::{MCPInfo, MCPTool, McpErrorInfo, sanitize_error_message, sanitized};
use crate::json::Json;
use crate::metrics::{classify_upstream_error, upstream_error_label};
use crate::model::{
    Content, ContentView, ErrorData, ErrorDataView,
    INTERNAL_ERROR, RequestId, RequestIdView, ServerJsonRpcMessage, ServerJsonRpcMessageView,
    ServerResult, ServerResultView, contents_view,
};
use crate::upstream::{
    ClientError, UpstreamError, cel_error_type, classify_upstream_error_for_cel, client_error_text,
    error_text,
};
use vstd::prelude::*;
use vstd::string::*;

verus! {

/// How a request ended, as far as it is recorded.
pub enum Ending {
    /// It succeeded.
    Success,
    /// A tool reported an error; the text is the first text of its result.
    ToolError(Seq<char>),
    /// It ended in a JSON-RPC error.
    RpcError(Seq<char>, int),
}

/// The first content block of a tool result, where that is text.
pub open spec fn first_text(content: Seq<ContentView>) -> Seq<char> {
    if content.len() > 0 {
        match content[0] {
            ContentView::Text(s, _) => s,
            _ => Seq::empty(),
        }
    } else {
        Seq::empty()
    }
}

/// How a message ends request `id`; `None` where it does not.
pub open spec fn ending(id: RequestIdView, msg: ServerJsonRpcMessageView) -> Option<Ending> {
    match msg {
        ServerJsonRpcMessageView::Response(rid, result) => if rid == id {
            match result {
                ServerResultView::CallToolResult(r) => if r.is_error == Some(true) {
                    Some(Ending::ToolError(first_text(r.content)))
                } else {
                    Some(Ending::Success)
                },
                _ => Some(Ending::Success),
            }
        } else {
            None
        },
        ServerJsonRpcMessageView::Error(rid, error) => if rid == id {
            Some(Ending::RpcError(error.message, error.code))
        } else {
            None
        },
        _ => None,
    }
}

/// The message is the result of a tool call.
pub open spec fn is_tool_result(msg: ServerJsonRpcMessageView) -> bool {
    msg matches ServerJsonRpcMessageView::Response(_, result) && result is CallToolResult
}

/// An error is recorded with this category, text and code.
pub open spec fn records_error(
    error: Option<McpErrorInfo>,
    error_type: Seq<char>,
    message: Seq<char>,
    code: Option<i32>,
) -> bool {
    error matches Some(e) && e.error_type@ == error_type && e.error_message@ == message && e.code
        == code
}

/// What is recorded after a message passed: the outcome, and the result or the error of a tool
/// call, where a tool is recorded. `payload` is the result or the error as JSON.
pub open spec fn recorded(
    before: MCPInfo,
    after: MCPInfo,
    id: RequestIdView,
    msg: ServerJsonRpcMessageView,
    payload: Option<Json>,
) -> bool {
    let keeps_rest = after == (MCPInfo {
        success: after.success,
        error: after.error,
        tool: after.tool,
        ..before
    });
    match ending(id, msg) {
        None => after == before,
        Some(Ending::Success) => {
            &&& keeps_rest
            &&& after.success == Some(true)
            &&& after.error is None
            &&& after.tool == (if is_tool_result(msg) {
                with_result(before.tool, payload)
            } else {
                before.tool
            })
        },
        Some(Ending::ToolError(text)) => {
            &&& keeps_rest
            &&& after.success == Some(false)
            &&& records_error(after.error, "upstream_tool_error"@, sanitized(text), None)
            &&& after.tool == with_result(before.tool, payload)
        },
        Some(Ending::RpcError(text, code)) => {
            &&& keeps_rest
            &&& after.success == Some(false)
            &&& records_error(
                after.error,
                "upstream_tool_error"@,
                sanitized(text),
                Some(code as i32),
            )
            &&& after.tool == with_error(before.tool, payload)
        },
    }
}

/// A recorded tool call with its result.
pub open spec fn with_result(tool: Option<MCPTool>, result: Option<Json>) -> Option<MCPTool> {
    match tool {
        Some(t) => Some(MCPTool { result, ..t }),
        None => None,
    }
}

/// A recorded tool call with its error.
pub open spec fn with_error(tool: Option<MCPTool>, error: Option<Json>) -> Option<MCPTool> {
    match tool {
        Some(t) => Some(MCPTool { error, ..t }),
        None => None,
    }
}

fn first_text_of(content: &Vec<Content>) -> (r: String)
    ensures
        r@ == first_text(contents_view(content@)),
{
    if content.len() > 0 {
        match &content[0] {
            Content::Text { text, rest: _ } => text.clone(),
            _ => String::new(),
        }
    } else {
        String::new()
    }
}

/// Records how a message ends a request. Says whether it does.
pub fn capture_terminal_mcp_payload(
    log: &mut MCPInfo,
    request_id: &RequestId,
    message: &ServerJsonRpcMessage,
    payload: Option<Json>,
) -> (r: bool)
    ensures
        r == (ending(request_id@, message@) is Some),
        recorded(*old(log), *final(log), request_id@, message@, payload),
{
    proof {
        crate::info::law_sanitized(Seq::<char>::empty());
    }
    match message {
        ServerJsonRpcMessage::Response { id, result } => {
            if !id.same(request_id) {
                return false;
            }
            match result {
                ServerResult::CallToolResult(call) => {
                    let failed = match call.is_error {
                        Some(b) => b,
                        None => false,
                    };
                    if failed {
                        let text = first_text_of(&call.content);
                        let message = sanitize_error_message(text.as_str());
                        log.stamp_error("upstream_tool_error", message, None);
                    } else {
                        log.stamp_success();
                    }
                    log.capture_call_result(payload);
                },
                _ => {
                    log.stamp_success();
                },
            }
            true
        },
        ServerJsonRpcMessage::Error { id, error } => {
            if !id.same(request_id) {
                return false;
            }
            let message = sanitize_error_message(error.message.as_str());
            log.stamp_error("upstream_tool_error", message, Some(error.code));
            log.capture_call_error(payload);
            true
        },
        _ => false,
    }
}

/// What is recorded when an upstream could not be reached or failed: the category and the text of
/// the error, and the label under which it is counted, where it is.
pub open spec fn notes_error(before: MCPInfo, after: MCPInfo, e: UpstreamError) -> bool {
    &&& after.success == Some(false)
    &&& records_error(after.error, cel_error_type(e), sanitized(error_text(e)), None)
    &&& match upstream_error_label(e) {
        Some(label) => after.upstream_error matches Some(s) && s@ == label,
        None => after.upstream_error == before.upstream_error,
    }
    &&& after == (MCPInfo {
        success: after.success,
        error: after.error,
        upstream_error: after.upstream_error,
        ..before
    })
}

/// Records that an upstream could not be reached or failed.
pub fn note_upstream_error(log: &mut MCPInfo, e: &UpstreamError)
    ensures
        notes_error(*old(log), *final(log), *e),
{
    if let Some(label) = classify_upstream_error(e) {
        log.set_upstream_error(label);
    }
    let kind = classify_upstream_error_for_cel(e);
    let text = e.to_string();
    let message = sanitize_error_message(text.as_str());
    log.stamp_error(kind, message, None);
}

/// What is recorded when the policy denies a request: that, and the text of the denial. It is no
/// failure of an upstream, and not counted as one.
pub open spec fn notes_denial(before: MCPInfo, after: MCPInfo, e: UpstreamError) -> bool {
    &&& after.success == Some(false)
    &&& records_error(after.error, "permission_denied"@, sanitized(error_text(e)), None)
    &&& after == (MCPInfo { success: after.success, error: after.error, ..before })
}

/// Records that the policy denies a request.
pub fn note_denial(log: &mut MCPInfo, e: &UpstreamError)
    ensures
        notes_denial(*old(log), *final(log), *e),
{
    let text = e.to_string();
    let message = sanitize_error_message(text.as_str());
    log.stamp_error("permission_denied", message, None);
}

/// What the client is sent for one item of the stream that answers request `id`: the message, or
/// an internal error in place of a transport failure.
pub open spec fn answer_message(
    id: RequestIdView,
    item: Result<ServerJsonRpcMessage, ClientError>,
) -> ServerJsonRpcMessageView {
    match item {
        Ok(msg) => msg@,
        Err(e) => ServerJsonRpcMessageView::Error(
            id,
            ErrorDataView { code: INTERNAL_ERROR as int, message: client_error_text(e), data: None },
        ),
    }
}

/// The answer to one request while it is being sent.
pub struct Answer {
    /// The request that is answered.
    pub id: RequestId,
    /// Whether it is recorded how the request ends.
    pub keeps_record: bool,
    /// Whether its end was recorded.
    pub captured_terminal: bool,
}

impl Answer {
    /// The answer to request `id`, of which nothing was sent yet.
    pub fn new(id: RequestId, keeps_record: bool) -> (r: Answer)
        ensures
            r.id == id,
            r.keeps_record == keeps_record,
            !r.captured_terminal,
    {
        Answer { id, keeps_record, captured_terminal: false }
    }

    /// What the client is sent for one item of the stream.
    pub fn to_message(&self, item: Result<ServerJsonRpcMessage, ClientError>) -> (r: (
        ServerJsonRpcMessage,
        bool,
    ))
        ensures
            r.0@ == answer_message(self.id@, item),
            r.1 == (item is Ok),
    {
        match item {
            Ok(msg) => (msg, true),
            Err(e) => {
                let message = e.to_string();
                let error = ErrorData { code: INTERNAL_ERROR, message, data: None };
                (ServerJsonRpcMessage::Error { id: self.id.copy(), error }, false)
            },
        }
    }

    /// Records the end of the request, where it is to be recorded, the first time that a message
    /// of the server brings it. A transport failure is none.
    pub fn record(
        &mut self,
        from_server: bool,
        message: &ServerJsonRpcMessage,
        payload: Option<Json>,
        log: &mut MCPInfo,
    )
        ensures
            final(self).id == old(self).id,
            final(self).keeps_record == old(self).keeps_record,
            if old(self).keeps_record && from_server && !old(self).captured_terminal {
                &&& final(self).captured_terminal == (ending(old(self).id@, message@) is Some)
                &&& recorded(*old(log), *final(log), old(self).id@, message@, payload)
            } else {
                &&& final(self).captured_terminal == old(self).captured_terminal
                &&& *final(log) == *old(log)
            },
    {
        if self.keeps_record && from_server && !self.captured_terminal {
            self.captured_terminal = capture_terminal_mcp_payload(
                log,
                &self.id,
                message,
                payload,
            );
        }
    }
}

/// The position of the first item at or after `i` that is a message of the server which ends
/// request `id`.
pub open spec fn first_ending(
    id: RequestIdView,
    items: Seq<(Result<ServerJsonRpcMessage, ClientError>, Option<Json>)>,
    i: int,
) -> Option<int>
    decreases items.len() - i,
{
    if i < 0 || i >= items.len() {
        None
    } else if items[i].0 matches Ok(msg) && ending(id, msg@) is Some {
        Some(i)
    } else {
        first_ending(id, items, i + 1)
    }
}

/// What is recorded after all items of the stream that answers request `id` passed: how the first
/// message that ends it does so, and nothing of what comes later.
pub open spec fn recorded_of_all(
    before: MCPInfo,
    after: MCPInfo,
    id: RequestIdView,
    items: Seq<(Result<ServerJsonRpcMessage, ClientError>, Option<Json>)>,
) -> bool {
    match first_ending(id, items, 0) {
        Some(k) => recorded(before, after, id, items[k].0->Ok_0@, items[k].1),
        None => after == before,
    }
}

/// What the client is sent for the items of the stream that answers request `id`, each with its
/// payload as JSON; how the request ended is recorded, where that is to be.
pub fn messages_to_response(
    id: RequestId,
    keeps_record: bool,
    items: Vec<(Result<ServerJsonRpcMessage, ClientError>, Option<Json>)>,
    log: &mut MCPInfo,
) -> (r: Vec<ServerJsonRpcMessage>)
    ensures
        r@.len() == items@.len(),
        forall|i: int|
            0 <= i < items@.len() ==> (#[trigger] r@[i])@ == answer_message(id@, items@[i].0),
        if keeps_record {
            recorded_of_all(*old(log), *final(log), id@, items@)
        } else {
            *final(log) == *old(log)
        },
{
    let ghost all = items@;
    let ghost idv = id@;
    let ghost before = *log;
    let mut answer = Answer::new(id, keeps_record);
    let mut out: Vec<ServerJsonRpcMessage> = Vec::new();
    for item in it: items
        invariant
            all == it.seq(),
            answer.id@ == idv,
            answer.keeps_record == keeps_record,
            out@.len() == it.index(),
            forall|i: int|
                0 <= i < it.index() ==> (#[trigger] out@[i])@ == answer_message(idv, all[i].0),
            if !keeps_record {
                *log == before
            } else if answer.captured_terminal {
                first_ending(idv, all, 0) is Some && recorded_of_all(before, *log, idv, all)
            } else {
                *log == before && first_ending(idv, all, 0) == first_ending(idv, all, it.index())
            },
    {
        let ghost i = it.index();
        assert(all[i] == item);
        let (rpc, payload) = item;
        let (msg, from_server) = answer.to_message(rpc);
        answer.record(from_server, &msg, payload, log);
        out.push(msg);
    }
    out
}

} // verus!
