//! Messages from one of several upstream servers on their way to the client.

use crate::handler::{Relay, RelayView, flat_and_shared};
use crate::mcp_apps::routing::{
    outbound_uri_message, rewrap_call_tool_result_content,
    rewrap_outbound_multiplex_server_message, rewrap_read_resource_contents, rewrite_tool_ui_meta,
    ui_meta_wrapped, wrapped_content, wrapped_contents,
};
use crate::model::{
    CallToolResultView, ContentView, RequestIdView, ResourceContentsView, ServerJsonRpcMessage,
    ServerJsonRpcMessageView, ServerResult, ServerResultView, opt_str_ref,
};
use crate::multiplex_naming::{
    outbound_task_message, rewrap_outbound_multiplex_task_message, wrap_server_request_id,
    wrapped_request_id,
};
use crate::rewrite::is_flat;
use crate::routes::with_route;
use vstd::prelude::*;
use vstd::string::*;

verus! {

/// A message whose request id carries its target, where several targets share the client.
pub open spec fn outbound_request(
    default_target: Option<Seq<char>>,
    target: Seq<char>,
    msg: ServerJsonRpcMessageView,
) -> ServerJsonRpcMessageView {
    match msg {
        ServerJsonRpcMessageView::Request(id, request) => if default_target is None {
            ServerJsonRpcMessageView::Request(
                RequestIdView::String(wrapped_request_id(target, id)),
                request,
            )
        } else {
            msg
        },
        _ => msg,
    }
}

/// A message on its way out: request ids, resource URIs and task ids as the client sees them.
pub open spec fn mux_outbound(
    default_target: Option<Seq<char>>,
    flat: bool,
    target: Seq<char>,
    msg: ServerJsonRpcMessageView,
) -> ServerJsonRpcMessageView {
    outbound_task_message(
        default_target,
        flat,
        target,
        outbound_uri_message(
            default_target,
            target,
            outbound_request(default_target, target, msg),
        ),
    )
}

/// Makes a message what the client sees.
pub fn map_mux_outbound_message(
    default_target_name: Option<&String>,
    flat: bool,
    upstream_target: &str,
    msg: &mut ServerJsonRpcMessage,
)
    ensures
        final(msg)@ == mux_outbound(
            opt_str_ref(default_target_name),
            flat,
            upstream_target@,
            old(msg)@,
        ),
{
    if default_target_name.is_none() {
        match msg {
            ServerJsonRpcMessage::Request { id, request: _ } => {
                let wrapped = wrap_server_request_id(upstream_target, &*id);
                *id = wrapped;
            },
            _ => {},
        }
    }
    rewrap_outbound_multiplex_server_message(default_target_name, upstream_target, msg);
    rewrap_outbound_multiplex_task_message(default_target_name, flat, upstream_target, msg);
}

/// The task that a message says was created.
pub open spec fn created_task(msg: ServerJsonRpcMessageView) -> Option<Seq<char>> {
    match msg {
        ServerJsonRpcMessageView::Response(_, ServerResultView::CreateTaskResult(task, _)) => Some(
            task.task_id,
        ),
        _ => None,
    }
}

/// The relay after a message of `target` passed: under flat names it knows where a task is that
/// the message says was created.
pub open spec fn with_created_task(
    relay: RelayView,
    target: Seq<char>,
    msg: ServerJsonRpcMessageView,
) -> RelayView {
    match created_task(msg) {
        Some(id) => if flat_and_shared(relay) {
            RelayView { task_routes: with_route(relay.task_routes, target, id, id), ..relay }
        } else {
            relay
        },
        None => relay,
    }
}

/// Remembers where a task is that a message says was created. The message must not be on its way
/// out yet, so that the id is the server's.
pub fn record_create_task_route_if_flat(
    relay: &mut Relay,
    target: &str,
    msg: &ServerJsonRpcMessage,
)
    ensures
        final(relay)@ == with_created_task(old(relay)@, target@, msg@),
{
    match msg {
        ServerJsonRpcMessage::Response { id: _, result } => {
            match result {
                ServerResult::CreateTaskResult { task, rest: _ } => {
                    relay.record_flat_task_route(target, task.task_id.as_str());
                },
                _ => {},
            }
        },
        _ => {},
    }
}

/// How messages of an upstream become what the client sees, by the request that they answer.
#[derive(Debug, Clone, Copy, PartialEq, Eq, Structural)]
pub enum OutboundMap {
    /// A request to one upstream that needs nothing more.
    Single,
    /// A tool call.
    ToolsCall,
    /// A subscription or a request about a task.
    Mux,
    /// The reading of a resource.
    ReadResource,
    /// A request to all upstreams.
    All,
    /// A request to chosen upstreams.
    Chosen,
}

/// The result of a tool call with the URIs in it as the client sees them.
pub open spec fn outbound_tool_result(
    default_target: Option<Seq<char>>,
    target: Seq<char>,
    r: CallToolResultView,
) -> CallToolResultView {
    CallToolResultView {
        content: r.content.map_values(
            |c: ContentView| wrapped_content(default_target, target, c),
        ),
        meta: match r.meta {
            Some(m) => Some(ui_meta_wrapped(default_target, target, m)),
            None => None,
        },
        ..r
    }
}

/// A message with the URIs in the result of a tool call as the client sees them.
pub open spec fn outbound_tool_message(
    default_target: Option<Seq<char>>,
    target: Seq<char>,
    msg: ServerJsonRpcMessageView,
) -> ServerJsonRpcMessageView {
    match msg {
        ServerJsonRpcMessageView::Response(id, ServerResultView::CallToolResult(r)) =>
            ServerJsonRpcMessageView::Response(
                id,
                ServerResultView::CallToolResult(outbound_tool_result(default_target, target, r)),
            ),
        _ => msg,
    }
}

/// A message with the URIs in the contents of a resource as the client sees them.
pub open spec fn outbound_read_message(
    default_target: Option<Seq<char>>,
    target: Seq<char>,
    msg: ServerJsonRpcMessageView,
) -> ServerJsonRpcMessageView {
    match msg {
        ServerJsonRpcMessageView::Response(
            id,
            ServerResultView::ReadResourceResult(contents, rest),
        ) => ServerJsonRpcMessageView::Response(
            id,
            ServerResultView::ReadResourceResult(
                contents.map_values(
                    |c: ResourceContentsView| wrapped_contents(default_target, target, c),
                ),
                rest,
            ),
        ),
        _ => msg,
    }
}

/// A message of `target` as the guardrails see it.
pub open spec fn outbound_inner(
    relay: RelayView,
    map: OutboundMap,
    target: Seq<char>,
    msg: ServerJsonRpcMessageView,
) -> ServerJsonRpcMessageView {
    let d = relay.default_target;
    let flat = is_flat(relay.rewrite);
    match map {
        OutboundMap::Single => outbound_uri_message(d, target, msg),
        OutboundMap::ToolsCall => outbound_tool_message(
            d,
            target,
            mux_outbound(d, flat, target, msg),
        ),
        OutboundMap::Mux => mux_outbound(d, flat, target, msg),
        OutboundMap::ReadResource => outbound_read_message(d, target, msg),
        OutboundMap::All => outbound_uri_message(d, target, msg),
        OutboundMap::Chosen => msg,
    }
}

/// A message that the guardrails let pass, as the client sees it.
pub open spec fn outbound_outer(
    relay: RelayView,
    map: OutboundMap,
    target: Seq<char>,
    msg: ServerJsonRpcMessageView,
) -> ServerJsonRpcMessageView {
    match map {
        OutboundMap::Single => mux_outbound(
            relay.default_target,
            is_flat(relay.rewrite),
            target,
            msg,
        ),
        _ => msg,
    }
}

/// Makes a message of a tool call what the client sees, and remembers a task that it created.
pub fn map_tools_call_outbound(relay: &mut Relay, target: &str, msg: &mut ServerJsonRpcMessage)
    ensures
        final(msg)@ == outbound_inner(old(relay)@, OutboundMap::ToolsCall, target@, old(msg)@),
        final(relay)@ == with_created_task(old(relay)@, target@, old(msg)@),
{
    record_create_task_route_if_flat(relay, target, &*msg);
    let flat = relay.mcp_rewrite.flat();
    let default_target = relay.default_target_name.as_ref();
    map_mux_outbound_message(default_target, flat, target, msg);
    match msg {
        ServerJsonRpcMessage::Response { id: _, result } => {
            match result {
                ServerResult::CallToolResult(call) => {
                    rewrite_tool_ui_meta(default_target, target, &mut call.meta);
                    rewrap_call_tool_result_content(default_target, target, &mut call.content);
                },
                _ => {},
            }
        },
        _ => {},
    }
}

/// Makes a message of an upstream what the guardrails see.
pub fn map_outbound_inner(
    relay: &mut Relay,
    map: OutboundMap,
    target: &str,
    msg: &mut ServerJsonRpcMessage,
)
    ensures
        final(msg)@ == outbound_inner(old(relay)@, map, target@, old(msg)@),
        final(relay)@ == (if map == OutboundMap::ToolsCall {
            with_created_task(old(relay)@, target@, old(msg)@)
        } else {
            old(relay)@
        }),
{
    let flat = relay.mcp_rewrite.flat();
    match map {
        OutboundMap::ToolsCall => {
            map_tools_call_outbound(relay, target, msg);
        },
        OutboundMap::Mux => {
            map_mux_outbound_message(relay.default_target_name.as_ref(), flat, target, msg);
        },
        OutboundMap::Single | OutboundMap::All => {
            relay.rewrite_outbound_server_messages(target, msg);
        },
        OutboundMap::Chosen => {},
        OutboundMap::ReadResource => {
            let default_target = relay.default_target_name.as_ref();
            match msg {
                ServerJsonRpcMessage::Response { id: _, result } => {
                    match result {
                        ServerResult::ReadResourceResult { contents, rest: _ } => {
                            rewrap_read_resource_contents(default_target, target, contents);
                        },
                        _ => {},
                    }
                },
                _ => {},
            }
        },
    }
}

/// Makes a message that the guardrails let pass what the client sees.
pub fn map_outbound_outer(
    relay: &Relay,
    map: OutboundMap,
    target: &str,
    msg: &mut ServerJsonRpcMessage,
)
    ensures
        final(msg)@ == outbound_outer(relay@, map, target@, old(msg)@),
{
    match map {
        OutboundMap::Single => {
            let flat = relay.mcp_rewrite.flat();
            map_mux_outbound_message(relay.default_target_name.as_ref(), flat, target, msg);
        },
        _ => {},
    }
}

impl Relay {
    /// Makes the resource URIs in a message of an upstream what the client sees.
    pub fn rewrite_outbound_server_messages(&self, target: &str, msg: &mut ServerJsonRpcMessage)
        ensures
            final(msg)@ == outbound_uri_message(self@.default_target, target@, old(msg)@),
    {
        rewrap_outbound_multiplex_server_message(self.default_target_name.as_ref(), target, msg);
    }
}

/// A request of a server that was sent to the client finds its way back: the id that the client
/// echoes gives the target and the server's own id, for target names without the separator.
pub proof fn law_server_request_finds_back(
    flat: bool,
    target: Seq<char>,
    id: RequestIdView,
    request: crate::json::JsonView,
)
    requires
        !crate::text::contains_seq(target, "\u{1f}"@),
        id matches RequestIdView::Number(n) ==> i64::MIN <= n <= i64::MAX,
    ensures
        ({
            let msg = mux_outbound(
                None,
                flat,
                target,
                ServerJsonRpcMessageView::Request(id, request),
            );
            msg matches ServerJsonRpcMessageView::Request(seen, _)
                && crate::multiplex_naming::unwrapped_request_id(seen) == Some((target, id))
        }),
{
    crate::multiplex_naming::law_request_id_round_trip(target, id);
}

/// With one backend, messages go through unchanged.
pub proof fn law_single_backend_messages_pass(
    default_target: Seq<char>,
    flat: bool,
    target: Seq<char>,
    msg: ServerJsonRpcMessageView,
)
    ensures
        mux_outbound(Some(default_target), flat, target, msg) == msg,
{
}

} // verus!
