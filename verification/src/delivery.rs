//! What holds of the messages of upstreams on their way to the client.

use crate::client::ClientRequestView;
use crate::federation_outbound::{
    OutboundMap, mux_outbound, outbound_inner, outbound_outer, with_created_task,
};
use crate::handler::RelayView;
use crate::json::{self, JsonView, MembersView, distinct_keys};
use crate::mcp_apps::percent::percent_encoded;
use crate::mcp_apps::routing::{
    encoded_template, is_ui, literal_prefix, ui_member_wrapped, ui_meta_wrapped, wrapped_content,
    wrapped_contents, wrapped_template, wrapped_uri,
};
use crate::model::{
    CallToolResultView, ContentView, ErrorDataView, RequestIdView, ResourceContentsView,
    ServerJsonRpcMessageView, ServerNotificationView, ServerResultView, TaskView,
};
use crate::multiplex_naming::{outbound_json, outbound_member, wrapped_request_id};
use crate::rewrite::is_flat;
use crate::session::dispatch::{MergeView, PlanView, plan_map};
use crate::session::single::{CallKind, SingleCallView, kind_map};
use crate::text;
use vstd::prelude::*;
use vstd::string::*;

verus! {

proof fn lemma_same_value(members: MembersView, key: Seq<char>, value: JsonView)
    requires
        json::member(members, key) == Some(value),
    ensures
        json::with_member(members, key, value) == members,
{
    json::lemma_key_index_from(members, key, 0);
    assert(json::with_member(members, key, value) =~= members);
}

proof fn lemma_one_target_meta(only: Seq<char>, target: Seq<char>, meta: MembersView)
    ensures
        ui_meta_wrapped(Some(only), target, meta) == meta,
{
    if let Some(JsonView::Object(ui)) = json::member(meta, "ui"@) {
        lemma_one_target_member(only, target, ui, "resourceUri"@);
        lemma_same_value(meta, "ui"@, JsonView::Object(ui));
    }
    lemma_one_target_member(only, target, meta, "ui/resourceUri"@);
}

proof fn lemma_one_target_member(
    only: Seq<char>,
    target: Seq<char>,
    members: MembersView,
    key: Seq<char>,
)
    ensures
        ui_member_wrapped(Some(only), target, members, key) == members,
{
    if let Some(JsonView::Str(uri)) = json::member(members, key) {
        lemma_same_value(members, key, JsonView::Str(uri));
    }
}

/// With one target, every message reaches the client as the target sent it.
pub proof fn law_one_target_is_heard_as_it_speaks(
    relay: RelayView,
    map: OutboundMap,
    target: Seq<char>,
    msg: ServerJsonRpcMessageView,
)
    requires
        relay.default_target is Some,
    ensures
        outbound_inner(relay, map, target, msg) == msg,
        outbound_outer(relay, map, target, msg) == msg,
{
    let d = relay.default_target;
    if let ServerJsonRpcMessageView::Response(id, ServerResultView::CallToolResult(r)) = msg {
        assert(r.content.map_values(|c: ContentView| wrapped_content(d, target, c)) =~= r.content)
            by {
            assert forall|i: int| 0 <= i < r.content.len() implies wrapped_content(
                d,
                target,
                #[trigger] r.content[i],
            ) == r.content[i] by {}
        }
        if let Some(m) = r.meta {
            lemma_one_target_meta(d->0, target, m);
        }
    }
    if let ServerJsonRpcMessageView::Response(
        id,
        ServerResultView::ReadResourceResult(contents, rest),
    ) = msg {
        assert(contents.map_values(|c: ResourceContentsView| wrapped_contents(d, target, c))
            =~= contents);
    }
}

/// An error reaches the client as the upstream sent it, and a response under the id that it has.
pub proof fn law_errors_and_ids_are_kept(
    relay: RelayView,
    map: OutboundMap,
    target: Seq<char>,
    id: RequestIdView,
    error: ErrorDataView,
    result: ServerResultView,
)
    ensures
        ({
            let e = ServerJsonRpcMessageView::Error(id, error);
            let r = ServerJsonRpcMessageView::Response(id, result);
            &&& outbound_inner(relay, map, target, e) == e
            &&& outbound_outer(relay, map, target, e) == e
            &&& outbound_inner(relay, map, target, r) matches ServerJsonRpcMessageView::Response(
                seen,
                _,
            ) && seen == id
            &&& outbound_outer(relay, map, target, r) matches ServerJsonRpcMessageView::Response(
                seen,
                _,
            ) && seen == id
        }),
{
}

/// A result reaches the client as the upstream sent it unless it is of a tool, of a read or of one
/// task.
pub proof fn law_other_results_are_kept(
    relay: RelayView,
    map: OutboundMap,
    target: Seq<char>,
    id: RequestIdView,
    result: ServerResultView,
)
    requires
        !(result is CallToolResult || result is ReadResourceResult || result is CreateTaskResult
            || result is GetTaskResult || result is CancelTaskResult),
    ensures
        ({
            let r = ServerJsonRpcMessageView::Response(id, result);
            outbound_inner(relay, map, target, r) == r && outbound_outer(relay, map, target, r) == r
        }),
{
}

/// A request of an upstream among several reaches the client with all that the upstream asks,
/// under an id that carries the upstream.
pub proof fn law_only_the_id_of_a_request_changes(
    flat: bool,
    target: Seq<char>,
    id: RequestIdView,
    request: JsonView,
)
    ensures
        mux_outbound(None, flat, target, ServerJsonRpcMessageView::Request(id, request))
            == ServerJsonRpcMessageView::Request(
            RequestIdView::String(wrapped_request_id(target, id)),
            request,
        ),
{
}

/// Of the task that an upstream among several reports, only the id changes: it says which upstream
/// has the task, unless names are flat.
pub proof fn law_only_the_id_of_a_task_changes(
    flat: bool,
    target: Seq<char>,
    id: RequestIdView,
    task: TaskView,
    rest: JsonView,
)
    ensures
        ({
            let seen = TaskView {
                task_id: if flat {
                    task.task_id
                } else {
                    target + "_"@ + task.task_id
                },
                rest: task.rest,
            };
            &&& mux_outbound(
                None,
                flat,
                target,
                ServerJsonRpcMessageView::Response(
                    id,
                    ServerResultView::CreateTaskResult(task, rest),
                ),
            ) == ServerJsonRpcMessageView::Response(
                id,
                ServerResultView::CreateTaskResult(seen, rest),
            )
            &&& mux_outbound(
                None,
                flat,
                target,
                ServerJsonRpcMessageView::Response(id, ServerResultView::GetTaskResult(task, rest)),
            ) == ServerJsonRpcMessageView::Response(id, ServerResultView::GetTaskResult(seen, rest))
            &&& mux_outbound(
                None,
                flat,
                target,
                ServerJsonRpcMessageView::Response(
                    id,
                    ServerResultView::CancelTaskResult(task, rest),
                ),
            ) == ServerJsonRpcMessageView::Response(
                id,
                ServerResultView::CancelTaskResult(seen, rest),
            )
        }),
{
}

/// A notification of an upstream among several reaches the client as it is, but for the URI of a
/// resource that changed and the ids in the status of a task.
pub proof fn law_notifications_are_kept(
    flat: bool,
    target: Seq<char>,
    uri: Seq<char>,
    method: Seq<char>,
    params: Option<JsonView>,
    other: JsonView,
)
    ensures
        mux_outbound(
            None,
            flat,
            target,
            ServerJsonRpcMessageView::Notification(
                ServerNotificationView::ResourceUpdatedNotification(uri),
            ),
        ) == ServerJsonRpcMessageView::Notification(
            ServerNotificationView::ResourceUpdatedNotification(wrapped_uri(None, target, uri)),
        ),
        mux_outbound(
            None,
            flat,
            target,
            ServerJsonRpcMessageView::Notification(ServerNotificationView::Other(other)),
        ) == ServerJsonRpcMessageView::Notification(ServerNotificationView::Other(other)),
        mux_outbound(
            None,
            flat,
            target,
            ServerJsonRpcMessageView::Notification(
                ServerNotificationView::CustomNotification(method, params),
            ),
        ) == ServerJsonRpcMessageView::Notification(
            ServerNotificationView::CustomNotification(
                method,
                if method == "notifications/tasks/status"@ {
                    match params {
                        Some(p) => Some(outbound_json(None, flat, target, p)),
                        None => None,
                    }
                } else {
                    params
                },
            ),
        ),
{
}

proof fn lemma_outbound_member(
    flat: bool,
    target: Seq<char>,
    members: MembersView,
    key: Seq<char>,
)
    requires
        distinct_keys(members),
    ensures
        ({
            let after = outbound_member(None, flat, target, members, key);
            &&& after.len() == members.len()
            &&& distinct_keys(after)
            &&& flat ==> after == members
            &&& forall|i: int|
                0 <= i < members.len() ==> (#[trigger] after[i]).0 == members[i].0 && after[i].1
                    == (if members[i].0 == key && !flat && members[i].1 is Str {
                    JsonView::Str(target + "_"@ + members[i].1->Str_0)
                } else {
                    members[i].1
                })
        }),
{
    let after = outbound_member(None, flat, target, members, key);
    json::lemma_key_index_from(members, key, 0);
    if let Some(JsonView::Str(s)) = json::member(members, key) {
        if flat {
            lemma_same_value(members, key, JsonView::Str(s));
        }
    }
    if let Some(k) = json::key_index(members, key) {
        assert forall|i: int| 0 <= i < members.len() && i != k implies (#[trigger] members[i]).0
            != key by {
            if i > k {
                assert(members[k].0 != members[i].0);
            } else {
                assert(members[i].0 != members[k].0);
            }
        }
    }
}

/// In the status of a task of an upstream among several, the ids of the task say which upstream
/// has it: `taskId` and `task_id`, and those in what stands under `task`. Nothing else changes, no
/// member comes or goes, and where names are flat nothing changes at all.
pub proof fn law_only_task_ids_change_in_a_status(
    flat: bool,
    target: Seq<char>,
    members: MembersView,
    i: int,
)
    requires
        distinct_keys(members),
        0 <= i < members.len(),
    ensures
        outbound_json(None, flat, target, JsonView::Object(members)) matches JsonView::Object(after)
            && {
            let (key, value) = members[i];
            &&& after.len() == members.len()
            &&& after[i].0 == key
            &&& after[i].1 == if key == "task"@ {
                outbound_json(None, flat, target, value)
            } else if !flat && (key == "taskId"@ || key == "task_id"@) && value is Str {
                JsonView::Str(target + "_"@ + value->Str_0)
            } else {
                value
            }
        },
{
    reveal_strlit("taskId");
    reveal_strlit("task_id");
    reveal_strlit("task");
    assert("taskId"@.len() == 6);
    assert("task_id"@.len() == 7);
    assert("task"@.len() == 4);
    let a = outbound_member(None, flat, target, members, "taskId"@);
    lemma_outbound_member(flat, target, members, "taskId"@);
    let b = outbound_member(None, flat, target, a, "task_id"@);
    lemma_outbound_member(flat, target, a, "task_id"@);
    assert(b[i].0 == a[i].0 && a[i].0 == members[i].0);
    json::lemma_key_index_from(members, "task"@, 0);
    json::lemma_key_index_from(b, "task"@, 0);
    if let Some(k) = json::key_index(members, "task"@) {
        assert(b[k].0 == a[k].0);
        assert(b[k].0 == "task"@);
        if let Some(l) = json::key_index(b, "task"@) {
            assert(b[l].0 == a[l].0);
            if l < k {
                assert(members[l].0 != members[k].0);
            } else if k < l {
                assert(members[k].0 != members[l].0);
            }
            assert(l == k);
        }
        if i < k {
            assert(members[i].0 != members[k].0);
        } else if k < i {
            assert(members[k].0 != members[i].0);
        }
    } else {
        assert(members[i].0 != "task"@);
    }
}

/// What is no object holds no task ids.
pub proof fn law_no_object_holds_no_task_ids(flat: bool, target: Seq<char>, value: JsonView)
    requires
        !(value is Object),
    ensures
        outbound_json(None, flat, target, value) == value,
{
}

/// The result of a tool of an upstream among several reaches the client block by block, as it is
/// but for the URIs: those of the resources in it, and those of the metadata.
pub proof fn law_only_uris_change_in_a_tool_result(
    relay: RelayView,
    target: Seq<char>,
    id: RequestIdView,
    r: CallToolResultView,
)
    requires
        relay.default_target is None,
    ensures
        outbound_inner(
            relay,
            OutboundMap::ToolsCall,
            target,
            ServerJsonRpcMessageView::Response(id, ServerResultView::CallToolResult(r)),
        ) matches ServerJsonRpcMessageView::Response(
            seen_id,
            ServerResultView::CallToolResult(seen),
        ) && {
            &&& seen_id == id
            &&& seen.is_error == r.is_error
            &&& seen.rest == r.rest
            &&& r.meta is None ==> seen.meta is None
            &&& r.meta matches Some(m) ==> seen.meta == Some(ui_meta_wrapped(None, target, m))
            &&& seen.content.len() == r.content.len()
            &&& forall|i: int|
                0 <= i < r.content.len() ==> #[trigger] seen.content[i] == match r.content[i] {
                    ContentView::Resource(c, rest) => ContentView::Resource(
                        ResourceContentsView {
                            blob: c.blob,
                            uri: wrapped_uri(None, target, c.uri),
                            rest: c.rest,
                        },
                        rest,
                    ),
                    other => other,
                }
        },
{
}

/// What was read of an upstream among several reaches the client piece by piece, as it is but for
/// the URIs.
pub proof fn law_only_uris_change_in_what_is_read(
    relay: RelayView,
    target: Seq<char>,
    id: RequestIdView,
    contents: Seq<ResourceContentsView>,
    rest: JsonView,
)
    requires
        relay.default_target is None,
    ensures
        outbound_inner(
            relay,
            OutboundMap::ReadResource,
            target,
            ServerJsonRpcMessageView::Response(
                id,
                ServerResultView::ReadResourceResult(contents, rest),
            ),
        ) matches ServerJsonRpcMessageView::Response(
            seen_id,
            ServerResultView::ReadResourceResult(seen, seen_rest),
        ) && {
            &&& seen_id == id
            &&& seen_rest == rest
            &&& seen.len() == contents.len()
            &&& forall|i: int|
                0 <= i < contents.len() ==> #[trigger] seen[i] == (ResourceContentsView {
                    blob: contents[i].blob,
                    uri: wrapped_uri(None, target, contents[i].uri),
                    rest: contents[i].rest,
                })
        },
{
}

/// What a message passes through on its way out, by the call that it is for: that of a tool call,
/// a subscription or a task has its ids and URIs made the client's before it is recorded, any
/// other of one call after; what a read returned has its URIs made the client's, and the answers
/// that are merged go into the merge as they are.
pub proof fn law_each_call_has_its_way_out(
    relay: RelayView,
    target: Seq<char>,
    msg: ServerJsonRpcMessageView,
)
    ensures
        ({
            let muxed = mux_outbound(relay.default_target, is_flat(relay.rewrite), target, msg);
            &&& outbound_inner(relay, kind_map(CallKind::Subscription), target, msg) == muxed
            &&& outbound_inner(relay, kind_map(CallKind::Task), target, msg) == muxed
            &&& !(msg matches ServerJsonRpcMessageView::Response(_, r) && r is CallToolResult)
                ==> outbound_inner(relay, kind_map(CallKind::Tool), target, msg) == muxed
            &&& outbound_outer(relay, kind_map(CallKind::Prompt), target, msg) == muxed
            &&& outbound_outer(relay, kind_map(CallKind::CompletePrompt), target, msg) == muxed
            &&& outbound_outer(relay, kind_map(CallKind::CompleteResource), target, msg) == muxed
            &&& outbound_outer(relay, kind_map(CallKind::Subscription), target, msg) == msg
            &&& outbound_outer(relay, kind_map(CallKind::Task), target, msg) == msg
            &&& outbound_outer(relay, kind_map(CallKind::Tool), target, msg) == msg
            &&& outbound_outer(relay, kind_map(CallKind::ReadResource), target, msg) == msg
            &&& kind_map(CallKind::Tool) == OutboundMap::ToolsCall
            &&& kind_map(CallKind::ReadResource) == OutboundMap::ReadResource
            &&& outbound_inner(relay, OutboundMap::Chosen, target, msg) == msg
            &&& !(msg is Response) && !(msg is Notification) ==> outbound_inner(
                relay,
                OutboundMap::All,
                target,
                msg,
            ) == msg
        }),
{
}

/// A task that an upstream creates can be found by its id at once where ids are flat: the id leads
/// to that upstream, unless it led somewhere before. No other message, and no other way of naming,
/// changes what is known.
pub proof fn law_created_task_is_remembered(
    relay: RelayView,
    target: Seq<char>,
    id: RequestIdView,
    task: TaskView,
    rest: JsonView,
    other: ServerJsonRpcMessageView,
)
    requires
        !(other matches ServerJsonRpcMessageView::Response(_, r) && r is CreateTaskResult),
    ensures
        with_created_task(relay, target, other) == relay,
        ({
            let msg = ServerJsonRpcMessageView::Response(
                id,
                ServerResultView::CreateTaskResult(task, rest),
            );
            let after = with_created_task(relay, target, msg);
            &&& !is_flat(relay.rewrite) || relay.default_target is Some ==> after == relay
            &&& is_flat(relay.rewrite) && relay.default_target is None ==> {
                &&& after == (RelayView { task_routes: after.task_routes, ..relay })
                &&& relay.task_routes.contains_key(task.task_id) ==> after.task_routes
                    == relay.task_routes
                &&& !relay.task_routes.contains_key(task.task_id) ==> after.task_routes
                    == relay.task_routes.insert(task.task_id, (target, task.task_id))
            }
        }),
{
}

/// The URI that clients see of a resource of one of several targets: one with a scheme of its own
/// has the target in front of it, one without a scheme stays as it is. A `ui://` URI stays one.
pub proof fn law_wrapped_uri_names_its_target(target: Seq<char>, uri: Seq<char>)
    ensures
        !"ui://"@.is_prefix_of(uri) && text::contains_seq(uri, "://"@) ==> wrapped_uri(
            None,
            target,
            uri,
        ) == target + "+"@ + uri,
        !"ui://"@.is_prefix_of(uri) && !text::contains_seq(uri, "://"@) ==> wrapped_uri(
            None,
            target,
            uri,
        ) == uri,
        "ui://"@.is_prefix_of(uri) ==> "ui://"@.is_prefix_of(wrapped_uri(None, target, uri)),
{
    reveal_strlit("ui://");
    let w = wrapped_uri(None, target, uri);
    if is_ui(uri) {
        assert("ui://"@ =~= w.subrange(0, 5));
    }
}

/// A URI template of one of several targets that is no `ui://` template has the target in front of
/// it where it has a scheme and no expression before that, and else stays as it is. A `ui://`
/// template stays one, with the target in it.
pub proof fn law_wrapped_template_names_its_target(target: Seq<char>, template: Seq<char>)
    ensures
        !"ui://"@.is_prefix_of(template) && !text::contains_seq(template, "{"@)
            && text::contains_seq(template, "://"@) ==> wrapped_template(None, target, template)
            == target + "+"@ + template,
        !text::contains_seq(template, "://"@) && !"ui://"@.is_prefix_of(template)
            ==> wrapped_template(None, target, template) == template,
        "ui://"@.is_prefix_of(template) && !text::contains_seq(template, "{"@)
            ==> "ui://"@.is_prefix_of(wrapped_template(None, target, template)),
{
    reveal_strlit("ui://");
    reveal_strlit("{");
    let prefix = literal_prefix(template);
    text::lemma_find_from(template, "{"@, 0);
    if is_ui(prefix) {
        assert("ui://"@ =~= prefix.subrange(0, 5));
        assert("ui://"@ =~= template.subrange(0, 5));
    }
    let w = wrapped_template(None, target, template);
    if is_ui(prefix) {
        assert("ui://"@ =~= w.subrange(0, 5));
    }
}

/// In a `ui://` template, an expression and all that it holds stays as it is, between what was
/// literal before and after it, which is encoded: `literal` holds no `{`, and `expression` is a
/// `{` and what follows it up to a `}`. A template without expressions is all literal.
pub proof fn law_expressions_are_kept(
    literal: Seq<char>,
    expression: Seq<char>,
    tail: Seq<char>,
)
    requires
        !text::contains_seq(literal, "{"@),
        expression.len() > 0,
        expression[0] == '{',
        !text::contains_seq(expression, "}"@),
    ensures
        encoded_template(literal) == percent_encoded(literal),
        encoded_template(literal + expression + "}"@ + tail) == percent_encoded(literal)
            + expression + "}"@ + encoded_template(tail),
{
    reveal_strlit("{");
    reveal_strlit("}");
    let template = literal + expression + "}"@ + tail;
    let inner = expression.subrange(1, expression.len() as int);
    let after = inner + "}"@ + tail;
    text::lemma_split_at_delimiter(literal, "{"@, after);
    assert(expression =~= "{"@ + inner);
    assert(template =~= literal + "{"@ + after);
    text::lemma_find_from(template, "{"@, 0);
    let open = text::first_index(template, "{"@)->0;
    assert(template.subrange(0, open) == literal);
    assert(open == literal.len());
    let rest = template.subrange(open, template.len() as int);
    assert(rest =~= expression + "}"@ + tail);
    text::lemma_split_at_delimiter(expression, "}"@, tail);
    text::lemma_find_from(rest, "}"@, 0);
    let close = text::first_index(rest, "}"@)->0;
    assert(rest.subrange(0, close) == expression);
    assert(close == expression.len());
    assert(rest.subrange(0, close + 1) =~= expression + "}"@);
    assert(rest.subrange(close + 1, rest.len() as int) =~= tail);
    assert(encoded_template(template) =~= percent_encoded(literal) + expression + "}"@
        + encoded_template(tail));
}

/// In the metadata of a tool of one of several targets, and of what it returned, only the `ui://`
/// URIs change: that under `ui/resourceUri`, and that under `resourceUri` of the object under
/// `ui`. No member comes or goes.
pub proof fn law_only_ui_uris_change_in_metadata(
    target: Seq<char>,
    meta: MembersView,
    i: int,
)
    requires
        distinct_keys(meta),
        0 <= i < meta.len(),
    ensures
        ({
            let after = ui_meta_wrapped(None, target, meta);
            let (key, value) = meta[i];
            &&& after.len() == meta.len()
            &&& after[i].0 == key
            &&& key != "ui"@ && key != "ui/resourceUri"@ ==> after[i].1 == value
            &&& key == "ui/resourceUri"@ ==> after[i].1 == match value {
                JsonView::Str(uri) => if "ui://"@.is_prefix_of(uri) {
                    JsonView::Str(wrapped_uri(None, target, uri))
                } else {
                    value
                },
                _ => value,
            }
            &&& key == "ui"@ && !(value is Object) ==> after[i].1 == value
            &&& key == "ui"@ && value is Object ==> after[i].1 is Object
                && after[i].1->Object_0.len() == value->Object_0.len() && forall|j: int|
                0 <= j < value->Object_0.len() && distinct_keys(value->Object_0) ==> {
                    let (inner, old_value) = value->Object_0[j];
                    let seen = #[trigger] after[i].1->Object_0[j];
                    &&& seen.0 == inner
                    &&& seen.1 == if inner == "resourceUri"@ && old_value is Str
                        && "ui://"@.is_prefix_of(old_value->Str_0) {
                        JsonView::Str(wrapped_uri(None, target, old_value->Str_0))
                    } else {
                        old_value
                    }
                }
        }),
{
    reveal_strlit("ui");
    reveal_strlit("ui/resourceUri");
    assert("ui"@.len() == 2);
    assert("ui/resourceUri"@.len() == 14);
    json::lemma_key_index_from(meta, "ui"@, 0);
    let a = match json::member(meta, "ui"@) {
        Some(JsonView::Object(ui)) => json::with_member(
            meta,
            "ui"@,
            JsonView::Object(ui_member_wrapped(None, target, ui, "resourceUri"@)),
        ),
        _ => meta,
    };
    if let Some(JsonView::Object(ui)) = json::member(meta, "ui"@) {
        let k = json::key_index(meta, "ui"@)->0;
        json::lemma_with_member(
            meta,
            "ui"@,
            JsonView::Object(ui_member_wrapped(None, target, ui, "resourceUri"@)),
        );
        if i < k {
            assert(meta[i].0 != meta[k].0);
        } else if k < i {
            assert(meta[k].0 != meta[i].0);
        }
        json::lemma_key_index_from(ui, "resourceUri"@, 0);
        if distinct_keys(ui) {
            lemma_wrapped_member(target, ui, "resourceUri"@);
        }
    } else if let Some(k) = json::key_index(meta, "ui"@) {
        if i < k {
            assert(meta[i].0 != meta[k].0);
        } else if k < i {
            assert(meta[k].0 != meta[i].0);
        }
    } else {
        assert(meta[i].0 != "ui"@);
    }
    assert(a.len() == meta.len() && a[i].0 == meta[i].0);
    lemma_wrapped_member(target, a, "ui/resourceUri"@);
    let after = ui_meta_wrapped(None, target, meta);
    assert(after[i].0 == a[i].0);
}

proof fn lemma_wrapped_member(target: Seq<char>, members: MembersView, key: Seq<char>)
    requires
        distinct_keys(members),
    ensures
        ({
            let after = ui_member_wrapped(None, target, members, key);
            &&& after.len() == members.len()
            &&& forall|i: int|
                0 <= i < members.len() ==> (#[trigger] after[i]).0 == members[i].0 && after[i].1
                    == (if members[i].0 == key && members[i].1 is Str && is_ui(
                    members[i].1->Str_0,
                ) {
                    JsonView::Str(wrapped_uri(None, target, members[i].1->Str_0))
                } else {
                    members[i].1
                })
        }),
{
    json::lemma_key_index_from(members, key, 0);
    if let Some(k) = json::key_index(members, key) {
        assert forall|i: int| 0 <= i < members.len() && i != k implies (#[trigger] members[i]).0
            != key by {
            if i > k {
                assert(members[k].0 != members[i].0);
            } else {
                assert(members[i].0 != members[k].0);
            }
        }
    }
}

/// A URI template of one of several targets whose scheme stands before any expression has the
/// target in front of it, however many expressions follow; one with an expression before its
/// scheme, or in place of it, stays as it is. `ui://` templates are not meant.
pub proof fn law_scheme_before_expressions_names_the_target(
    target: Seq<char>,
    template: Seq<char>,
    scheme: int,
)
    requires
        !"ui://"@.is_prefix_of(template),
        text::occurs_at(template, "://"@, scheme),
        forall|j: int| 0 <= j < scheme ==> !#[trigger] text::occurs_at(template, "://"@, j),
    ensures
        (forall|j: int| 0 <= j < scheme ==> #[trigger] template[j] != '{') ==> wrapped_template(
            None,
            target,
            template,
        ) == target + "+"@ + template,
        (exists|j: int| 0 <= j < scheme && #[trigger] template[j] == '{') ==> wrapped_template(
            None,
            target,
            template,
        ) == template,
{
    reveal_strlit("ui://");
    reveal_strlit("://");
    reveal_strlit("{");
    let prefix = literal_prefix(template);
    text::lemma_find_from(template, "{"@, 0);
    text::lemma_find_from(template, "://"@, 0);
    if is_ui(prefix) {
        assert("ui://"@ =~= prefix.subrange(0, 5));
        assert("ui://"@ =~= template.subrange(0, 5));
    }
    let sep = text::first_index(template, "://"@);
    assert(sep == Some(scheme));
    assert(template[scheme] == ':') by {
        assert(template.subrange(scheme, scheme + 3)[0] == template[scheme]);
        assert("://"@[0] == ':');
    }
    if exists|j: int| 0 <= j < scheme && #[trigger] template[j] == '{' {
        let j = choose|j: int| 0 <= j < scheme && #[trigger] template[j] == '{';
        assert(template.subrange(j, j + 1) =~= "{"@);
        assert(text::occurs_at(template, "{"@, j));
    }
    if forall|j: int| 0 <= j < scheme ==> #[trigger] template[j] != '{' {
        if let Some(open) = text::first_index(template, "{"@) {
            assert(template.subrange(open, open + 1)[0] == template[open]);
            assert(template[open] == '{');
        }
    }
}

/// What a planned request passes through on its way out: that of one call by the kind of the call,
/// and that of several upstreams by whether all were asked or some.
pub proof fn law_each_plan_has_its_way_out(
    request: ClientRequestView,
    merge: MergeView,
    targets: Seq<Seq<char>>,
    call: SingleCallView,
)
    ensures
        plan_map(PlanView::All(request, merge)) == OutboundMap::All,
        plan_map(PlanView::Chosen(targets, request, merge)) == OutboundMap::Chosen,
        plan_map(PlanView::Single(call)) == kind_map(call.kind),
{
}

} // verus!
