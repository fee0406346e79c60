//! Names of tools, prompts and tasks when several servers stand behind one gateway
//! (`target_localName`), and request ids that carry the target they came from.

use crate::decimal;
use crate::json::{self, Json, JsonView, MembersView, members_view, opt_json_view};
use crate::model::{
    RequestId, RequestIdView, ServerJsonRpcMessage, ServerJsonRpcMessageView, ServerNotification,
    ServerNotificationView, ServerResult, ServerResultView, TaskView, opt_slice, opt_str_ref, pair,
};
use crate::text;
use crate::upstream::{UpstreamError, invalid_request};
use vstd::prelude::*;
use vstd::string::*;

verus! {

/// What stands between the target and the local name.
pub const DELIMITER: &'static str = "_";

/// The name that clients see.
pub open spec fn exposed_name(
    default_target: Option<Seq<char>>,
    target: Seq<char>,
    name: Seq<char>,
) -> Seq<char> {
    match default_target {
        Some(_) => name,
        None => target + "_"@ + name,
    }
}

/// The target and the local name that a client-visible name stands for.
pub open spec fn parsed_name(default_target: Option<Seq<char>>, res: Seq<char>) -> Option<
    (Seq<char>, Seq<char>),
> {
    match default_target {
        Some(d) => Some((d, res)),
        None => text::split_first(res, "_"@),
    }
}

/// The name that clients see for `name` of `target`.
pub fn resource_name(default_target_name: Option<&String>, target: &str, name: &str) -> (r: String)
    ensures
        r@ == exposed_name(opt_str_ref(default_target_name), target@, name@),
{
    if default_target_name.is_none() {
        text::concat3(target, DELIMITER, name)
    } else {
        name.to_owned()
    }
}

/// The target and the local name that `res` stands for.
pub fn parse_resource_name<'a, 'b: 'a>(
    default_target_name: Option<&'a String>,
    res: &'b str,
) -> (r: Result<(&'a str, &'b str), UpstreamError>)
    ensures
        match r {
            Ok((target, name)) => parsed_name(opt_str_ref(default_target_name), res@) == Some(
                (target@, name@),
            ),
            Err(e) => parsed_name(opt_str_ref(default_target_name), res@) is None
                && invalid_request(e, "invalid resource name"@),
        },
{
    match default_target_name {
        Some(default) => Ok((default.as_str(), res)),
        None => match text::split_once(res, DELIMITER) {
            Some((target, name)) => Ok((target, name)),
            None => Err(UpstreamError::InvalidRequest("invalid resource name".to_owned())),
        },
    }
}

/// The task id that clients see.
pub fn wrap_client_task_id(
    default_target_name: Option<&String>,
    target: &str,
    upstream_id: &str,
) -> (r: String)
    ensures
        r@ == exposed_name(opt_str_ref(default_target_name), target@, upstream_id@),
{
    resource_name(default_target_name, target, upstream_id)
}

/// The target and the upstream task id behind a client-visible task id.
///
/// The first `_` ends the target, so a target name holds none; an upstream id may.
pub fn unwrap_client_task_id(default_target_name: Option<&String>, client_id: &str) -> (r: Result<
    (String, String),
    UpstreamError,
>)
    ensures
        match r {
            Ok(p) => parsed_name(opt_str_ref(default_target_name), client_id@) == Some(pair(p)),
            Err(e) => parsed_name(opt_str_ref(default_target_name), client_id@) is None
                && invalid_request(e, "invalid resource name"@),
        },
{
    match parse_resource_name(default_target_name, client_id) {
        Ok((target, upstream)) => Ok((target.to_owned(), upstream.to_owned())),
        Err(e) => Err(e),
    }
}

/// Where a client task id goes, or the message with which it is refused.
pub open spec fn resolved_task_id(
    default_target: Option<Seq<char>>,
    client_id: Seq<char>,
    upstream_count: nat,
    single_upstream: Option<Seq<char>>,
) -> Result<(Seq<char>, Seq<char>), Seq<char>> {
    match parsed_name(default_target, client_id) {
        Some(route) => Ok(route),
        None => if upstream_count >= 2 {
            Err("flat task id requires task creation via tools/call: "@ + client_id)
        } else if upstream_count == 1 && single_upstream is Some {
            Ok((single_upstream->0, client_id))
        } else {
            Err("unknown task id: "@ + client_id)
        },
    }
}

/// Where a client task id goes: by its prefix, or, where it has none, to the only upstream.
pub fn resolve_client_task_id(
    default_target_name: Option<&String>,
    client_id: &str,
    upstream_count: usize,
    single_upstream_name: Option<&str>,
) -> (r: Result<(String, String), UpstreamError>)
    ensures
        match resolved_task_id(
            opt_str_ref(default_target_name),
            client_id@,
            upstream_count as nat,
            opt_slice(single_upstream_name),
        ) {
            Ok(route) => r matches Ok(p) && pair(p) == route,
            Err(message) => r matches Err(e) && invalid_request(e, message),
        },
{
    match unwrap_client_task_id(default_target_name, client_id) {
        Ok(route) => Ok(route),
        Err(_) => {
            if upstream_count >= 2 {
                return Err(
                    UpstreamError::InvalidRequest(
                        text::concat(
                            "flat task id requires task creation via tools/call: ",
                            client_id,
                        ),
                    ),
                );
            }
            if upstream_count == 1 {
                if let Some(name) = single_upstream_name {
                    return Ok((name.to_owned(), client_id.to_owned()));
                }
            }
            Err(UpstreamError::InvalidRequest(text::concat("unknown task id: ", client_id)))
        },
    }
}

/// The target and the URI in `target+scheme://...`, or the message with which it is refused.
pub open spec fn plus_parts(uri: Seq<char>) -> Result<(Seq<char>, Seq<char>), Seq<char>> {
    match text::split_first(uri, "+"@) {
        None => Err("invalid multiplex resource URI (missing target)"@),
        Some((target, remainder)) => if text::contains_seq(remainder, "://"@) {
            Ok((target, remainder))
        } else {
            Err("invalid multiplex resource URI (missing scheme)"@)
        },
    }
}

/// Splits `target+scheme://...`.
pub fn unwrap_plus_scheme_multiplex(uri: &str) -> (r: Result<(String, String), UpstreamError>)
    ensures
        match plus_parts(uri@) {
            Ok(parts) => r matches Ok(p) && pair(p) == parts,
            Err(message) => r matches Err(e) && invalid_request(e, message),
        },
{
    match text::split_once(uri, "+") {
        None => Err(
            UpstreamError::InvalidRequest(
                "invalid multiplex resource URI (missing target)".to_owned(),
            ),
        ),
        Some((target, remainder)) => if text::contains(remainder, "://") {
            Ok((target.to_owned(), remainder.to_owned()))
        } else {
            Err(
                UpstreamError::InvalidRequest(
                    "invalid multiplex resource URI (missing scheme)".to_owned(),
                ),
            )
        },
    }
}

/// The target and the URI behind a federated URI, where no MCP Apps URIs are in use.
pub fn parse_multiplex_resource_uri(default_target_name: Option<&String>, uri: &str) -> (r: Result<
    (String, String),
    UpstreamError,
>)
    ensures
        match default_target_name {
            Some(default) => r matches Ok(p) && pair(p) == (default@, uri@),
            None => match plus_parts(uri@) {
                Ok(parts) => r matches Ok(p) && pair(p) == parts,
                Err(message) => r matches Err(e) && invalid_request(e, message),
            },
        },
{
    match default_target_name {
        Some(default) => Ok((default.clone(), uri.to_owned())),
        None => unwrap_plus_scheme_multiplex(uri),
    }
}

/// The notification that reports the state of a task.
pub const TASK_STATUS_NOTIFICATION_METHOD: &'static str = "notifications/tasks/status";

/// Task ids are prefixed on the way out when several targets share one namespace that is not flat.
pub open spec fn rewraps_task_ids(default_target: Option<Seq<char>>, flat: bool) -> bool {
    default_target is None && !flat
}

/// The task id on its way out.
pub open spec fn outbound_task_id(
    default_target: Option<Seq<char>>,
    flat: bool,
    target: Seq<char>,
    task_id: Seq<char>,
) -> Seq<char> {
    if rewraps_task_ids(default_target, flat) {
        target + "_"@ + task_id
    } else {
        task_id
    }
}

fn should_rewrap_task_ids(default_target_name: Option<&String>, flat: bool) -> (r: bool)
    ensures
        r == rewraps_task_ids(opt_str_ref(default_target_name), flat),
{
    default_target_name.is_none() && !flat
}

/// Prefixes an upstream task id for the client.
pub fn rewrap_outbound_task_id(
    default_target_name: Option<&String>,
    flat: bool,
    upstream_target: &str,
    task_id: &mut String,
)
    ensures
        final(task_id)@ == outbound_task_id(
            opt_str_ref(default_target_name),
            flat,
            upstream_target@,
            old(task_id)@,
        ),
{
    if !should_rewrap_task_ids(default_target_name, flat) {
        return;
    }
    let upstream_id = task_id.clone();
    *task_id = wrap_client_task_id(default_target_name, upstream_target, upstream_id.as_str());
}

/// Prefixes the id of a task that an upstream created.
pub fn rewrap_create_task_id(
    default_target_name: Option<&String>,
    flat: bool,
    target: &str,
    task_id: &mut String,
)
    ensures
        final(task_id)@ == outbound_task_id(
            opt_str_ref(default_target_name),
            flat,
            target@,
            old(task_id)@,
        ),
{
    rewrap_outbound_task_id(default_target_name, flat, target, task_id);
}

/// The members of an object with the string under `key` taken as a task id on its way out.
pub open spec fn outbound_member(
    default_target: Option<Seq<char>>,
    flat: bool,
    target: Seq<char>,
    members: MembersView,
    key: Seq<char>,
) -> MembersView {
    match json::member(members, key) {
        Some(JsonView::Str(id)) => json::with_member(
            members,
            key,
            JsonView::Str(outbound_task_id(default_target, flat, target, id)),
        ),
        _ => members,
    }
}

/// A JSON value with the task ids in it on their way out: `taskId` and `task_id` of the object,
/// and the same in the object under `task`.
pub open spec fn outbound_json(
    default_target: Option<Seq<char>>,
    flat: bool,
    target: Seq<char>,
    value: JsonView,
) -> JsonView
    decreases value,
{
    match value {
        JsonView::Object(members) => {
            let a = outbound_member(default_target, flat, target, members, "taskId"@);
            let b = outbound_member(default_target, flat, target, a, "task_id"@);
            match json::key_index(members, "task"@) {
                Some(i) => if 0 <= i < members.len() {
                    JsonView::Object(
                        json::with_member(
                            b,
                            "task"@,
                            outbound_json(default_target, flat, target, members[i].1),
                        ),
                    )
                } else {
                    JsonView::Object(b)
                },
                None => JsonView::Object(b),
            }
        },
        _ => value,
    }
}

proof fn lemma_same_keys(a: MembersView, b: MembersView, key: Seq<char>, i: int)
    requires
        a.len() == b.len(),
        forall|k: int| 0 <= k < a.len() ==> (#[trigger] a[k]).0 == (#[trigger] b[k]).0,
        0 <= i,
    ensures
        json::key_index_from(a, key, i) == json::key_index_from(b, key, i),
    decreases a.len() - i,
{
    if i < a.len() && a[i].0 != key {
        lemma_same_keys(a, b, key, i + 1);
    }
}

proof fn lemma_outbound_member(
    default_target: Option<Seq<char>>,
    flat: bool,
    target: Seq<char>,
    members: MembersView,
    key: Seq<char>,
    other: Seq<char>,
)
    requires
        key != other,
    ensures
        ({
            let after = outbound_member(default_target, flat, target, members, key);
            &&& json::key_index(after, other) == json::key_index(members, other)
            &&& json::member(after, other) == json::member(members, other)
        }),
{
    let after = outbound_member(default_target, flat, target, members, key);
    json::lemma_key_index_from(members, key, 0);
    json::lemma_key_index_from(members, other, 0);
    assert(after.len() == members.len());
    assert(forall|k: int|
        0 <= k < members.len() ==> (#[trigger] after[k]).0 == (#[trigger] members[k]).0);
    lemma_same_keys(after, members, other, 0);
}

fn rewrap_member(
    default_target_name: Option<&String>,
    flat: bool,
    upstream_target: &str,
    members: &mut json::JsonMap,
    key: &str,
)
    ensures
        members_view(final(members)@) == outbound_member(
            opt_str_ref(default_target_name),
            flat,
            upstream_target@,
            members_view(old(members)@),
            key@,
        ),
        final(members)@.len() == old(members)@.len(),
        forall|i: int|
            0 <= i < old(members)@.len() ==> (#[trigger] final(members)@[i]).0@ == old(
                members,
            )@[i].0@ && (old(members)@[i].0@ != key@ ==> final(members)@[i] == old(members)@[i]),
{
    let ghost before = members_view(members@);
    match json::position(members, key) {
        Some(i) => {
            let wrapped: Option<String> = match &members[i].1 {
                Json::Str(id) => {
                    let mut id = id.clone();
                    rewrap_outbound_task_id(default_target_name, flat, upstream_target, &mut id);
                    Some(id)
                },
                _ => None,
            };
            if let Some(id) = wrapped {
                let name = members[i].0.clone();
                members.set(i, (name, Json::Str(id)));
            }
        },
        None => {},
    }
    assert(members_view(members@) =~= outbound_member(
        opt_str_ref(default_target_name),
        flat,
        upstream_target@,
        before,
        key@,
    ));
}

fn rewrap_task_id_in_json_value(
    default_target_name: Option<&String>,
    flat: bool,
    upstream_target: &str,
    value: &mut Json,
)
    ensures
        final(value)@ == outbound_json(
            opt_str_ref(default_target_name),
            flat,
            upstream_target@,
            old(value)@,
        ),
    decreases *old(value),
{
    broadcast use json::lemma_json_view;

    let ghost before = value@;
    let ghost d = opt_str_ref(default_target_name);
    let ghost t = upstream_target@;
    proof {
        reveal_strlit("taskId");
        reveal_strlit("task_id");
        reveal_strlit("task");
        assert("taskId"@.len() != "task"@.len());
        assert("task_id"@.len() != "task"@.len());
        assert("task_id"@.len() != "taskId"@.len());
    }
    match value {
        Json::Object(members) => {
            let ghost m0 = members_view(members@);
            let ghost raw = members@;
            rewrap_member(default_target_name, flat, upstream_target, members, "taskId");
            let ghost raw1 = members@;
            rewrap_member(default_target_name, flat, upstream_target, members, "task_id");
            proof {
                lemma_outbound_member(d, flat, t, m0, "taskId"@, "task"@);
                let m1 = outbound_member(d, flat, t, m0, "taskId"@);
                lemma_outbound_member(d, flat, t, m1, "task_id"@, "task"@);
            }
            let ghost m2 = members_view(members@);
            match json::position(members, "task") {
                Some(i) => {
                    assert(members@[i as int] == raw1[i as int]);
                    assert(raw1[i as int] == raw[i as int]);
                    let mut task = Json::Null;
                    std::mem::swap(&mut task, &mut members[i].1);
                    assert(task == raw[i as int].1);
                    rewrap_task_id_in_json_value(
                        default_target_name,
                        flat,
                        upstream_target,
                        &mut task,
                    );
                    let name = members[i].0.clone();
                    members.set(i, (name, task));
                    assert(members_view(members@) =~= json::with_member(m2, "task"@, task@));
                },
                None => {},
            }
        },
        _ => {},
    }
}


/// Prefixes the task ids in the parameters of a task status notification.
pub fn rewrap_task_status_notification_params(
    default_target_name: Option<&String>,
    flat: bool,
    upstream_target: &str,
    params: &mut Option<Json>,
)
    ensures
        opt_json_view(*final(params)) == outbound_params(
            opt_str_ref(default_target_name),
            flat,
            upstream_target@,
            opt_json_view(*old(params)),
        ),
{
    match params {
        Some(p) => {
            rewrap_task_id_in_json_value(default_target_name, flat, upstream_target, p);
        },
        None => {},
    }
}

/// The parameters of a task status notification on their way out.
pub open spec fn outbound_params(
    default_target: Option<Seq<char>>,
    flat: bool,
    target: Seq<char>,
    params: Option<JsonView>,
) -> Option<JsonView> {
    match params {
        Some(p) => Some(outbound_json(default_target, flat, target, p)),
        None => None,
    }
}

/// A task on its way out.
pub open spec fn outbound_task(
    default_target: Option<Seq<char>>,
    flat: bool,
    target: Seq<char>,
    task: TaskView,
) -> TaskView {
    TaskView {
        task_id: outbound_task_id(default_target, flat, target, task.task_id),
        rest: task.rest,
    }
}

/// A result on its way out, as far as task ids go.
pub open spec fn outbound_result(
    default_target: Option<Seq<char>>,
    flat: bool,
    target: Seq<char>,
    result: ServerResultView,
) -> ServerResultView {
    match result {
        ServerResultView::CreateTaskResult(task, rest) => ServerResultView::CreateTaskResult(
            outbound_task(default_target, flat, target, task),
            rest,
        ),
        ServerResultView::GetTaskResult(task, rest) => ServerResultView::GetTaskResult(
            outbound_task(default_target, flat, target, task),
            rest,
        ),
        ServerResultView::CancelTaskResult(task, rest) => ServerResultView::CancelTaskResult(
            outbound_task(default_target, flat, target, task),
            rest,
        ),
        _ => result,
    }
}

/// Prefixes the task id in a result that reports one task.
pub fn rewrap_server_result_task_ids(
    default_target_name: Option<&String>,
    flat: bool,
    upstream_target: &str,
    result: &mut ServerResult,
)
    ensures
        final(result)@ == outbound_result(
            opt_str_ref(default_target_name),
            flat,
            upstream_target@,
            old(result)@,
        ),
{
    match result {
        ServerResult::CreateTaskResult { task, rest: _ } => {
            rewrap_outbound_task_id(default_target_name, flat, upstream_target, &mut task.task_id);
        },
        ServerResult::GetTaskResult { task, rest: _ } => {
            rewrap_outbound_task_id(default_target_name, flat, upstream_target, &mut task.task_id);
        },
        ServerResult::CancelTaskResult { task, rest: _ } => {
            rewrap_outbound_task_id(default_target_name, flat, upstream_target, &mut task.task_id);
        },
        _ => {},
    }
}

/// A message on its way out, as far as task ids go.
pub open spec fn outbound_task_message(
    default_target: Option<Seq<char>>,
    flat: bool,
    target: Seq<char>,
    msg: ServerJsonRpcMessageView,
) -> ServerJsonRpcMessageView {
    match msg {
        ServerJsonRpcMessageView::Notification(
            ServerNotificationView::CustomNotification(method, params),
        ) if default_target is None && method == "notifications/tasks/status"@ =>
            ServerJsonRpcMessageView::Notification(
                ServerNotificationView::CustomNotification(
                    method,
                    outbound_params(default_target, flat, target, params),
                ),
            ),
        ServerJsonRpcMessageView::Response(id, result) => ServerJsonRpcMessageView::Response(
            id,
            outbound_result(default_target, flat, target, result),
        ),
        _ => msg,
    }
}

/// Prefixes the task ids in a notification or a response.
pub fn rewrap_outbound_multiplex_task_message(
    default_target_name: Option<&String>,
    flat: bool,
    upstream_target: &str,
    msg: &mut ServerJsonRpcMessage,
)
    ensures
        final(msg)@ == outbound_task_message(
            opt_str_ref(default_target_name),
            flat,
            upstream_target@,
            old(msg)@,
        ),
{
    match msg {
        ServerJsonRpcMessage::Notification(n) => {
            match n {
                ServerNotification::CustomNotification { method, params } => {
                    if default_target_name.is_none() && text::same(
                        method.as_str(),
                        TASK_STATUS_NOTIFICATION_METHOD,
                    ) {
                        rewrap_task_status_notification_params(
                            default_target_name,
                            flat,
                            upstream_target,
                            params,
                        );
                    }
                },
                _ => {},
            }
        },
        ServerJsonRpcMessage::Response { id: _, result } => {
            rewrap_server_result_task_ids(default_target_name, flat, upstream_target, result);
        },
        _ => {},
    }
}

/// The character that parts the pieces of a wrapped request id.
pub const SEPARATOR: &'static str = "\u{1f}";

/// The first piece of a wrapped request id.
pub const PREFIX: &'static str = "mcpgw";

/// The text of a request id, and whether it is a number.
pub open spec fn tagged_payload(id: RequestIdView) -> (Seq<char>, Seq<char>) {
    match id {
        RequestIdView::Number(n) => ("N"@, decimal::decimal_text(n)),
        RequestIdView::String(s) => ("S"@, s),
    }
}

/// A request id that carries the target it came from.
pub open spec fn wrapped_request_id(target: Seq<char>, id: RequestIdView) -> Seq<char> {
    let (tag, payload) = tagged_payload(id);
    "mcpgw"@ + "\u{1f}"@ + (target + "\u{1f}"@ + (tag + "\u{1f}"@ + payload))
}

/// The id behind a tag and a payload.
pub open spec fn untagged(tag: Seq<char>, payload: Seq<char>) -> Option<RequestIdView> {
    if tag == "N"@ {
        match decimal::parse_spec(payload) {
            Some(n) => Some(RequestIdView::Number(n)),
            None => None,
        }
    } else if tag == "S"@ {
        Some(RequestIdView::String(payload))
    } else {
        None
    }
}

/// The target and the id behind a wrapped id. The payload is all that stands behind the third
/// separator.
pub open spec fn unwrapped_request_id(id: RequestIdView) -> Option<(Seq<char>, RequestIdView)> {
    match id {
        RequestIdView::Number(_) => None,
        RequestIdView::String(s) => match text::split_first(s, "\u{1f}"@) {
            Some((prefix, rest)) if prefix == "mcpgw"@ => match text::split_first(
                rest,
                "\u{1f}"@,
            ) {
                Some((target, rest)) => match text::split_first(rest, "\u{1f}"@) {
                    Some((tag, payload)) => match untagged(tag, payload) {
                        Some(original) => Some((target, original)),
                        None => None,
                    },
                    None => None,
                },
                None => None,
            },
            _ => None,
        },
    }
}

/// Makes a server's request id carry the target, so that the client's reply finds its way back.
pub fn wrap_server_request_id(target: &str, id: &RequestId) -> (r: RequestId)
    ensures
        r@ == RequestIdView::String(wrapped_request_id(target@, id@)),
{
    let (tag, payload): (&'static str, String) = match id {
        RequestId::Number(n) => ("N", decimal::format_i64(*n)),
        RequestId::String(s) => ("S", s.clone()),
    };
    let inner = text::concat3(tag, SEPARATOR, payload.as_str());
    let middle = text::concat3(target, SEPARATOR, inner.as_str());
    RequestId::String(text::concat3(PREFIX, SEPARATOR, middle.as_str()))
}

/// The target and the server's request id behind an id that a client sent back.
pub fn unwrap_server_request_id(id: &RequestId) -> (r: Option<(String, RequestId)>)
    ensures
        match r {
            Some((target, original)) => unwrapped_request_id(id@) == Some((target@, original@)),
            None => unwrapped_request_id(id@) is None,
        },
{
    let s = match id {
        RequestId::Number(_) => {
            return None;
        },
        RequestId::String(s) => s,
    };
    let (prefix, rest) = match text::split_once(s.as_str(), SEPARATOR) {
        Some(parts) => parts,
        None => {
            return None;
        },
    };
    if !text::same(prefix, PREFIX) {
        return None;
    }
    let (target, rest) = match text::split_once(rest, SEPARATOR) {
        Some(parts) => parts,
        None => {
            return None;
        },
    };
    let (tag, payload) = match text::split_once(rest, SEPARATOR) {
        Some(parts) => parts,
        None => {
            return None;
        },
    };
    proof {
        reveal_strlit("N");
        reveal_strlit("S");
        assert("N"@[0] != "S"@[0]);
    }
    if text::same(tag, "N") {
        match decimal::parse_i64(payload) {
            Some(n) => Some((target.to_owned(), RequestId::Number(n))),
            None => None,
        }
    } else if text::same(tag, "S") {
        Some((target.to_owned(), RequestId::String(payload.to_owned())))
    } else {
        None
    }
}

/// A wrapped name or task id is parsed back into the target and the local name, for every target
/// name without a `_`.
pub proof fn law_name_round_trip(target: Seq<char>, name: Seq<char>)
    requires
        !text::contains_seq(target, "_"@),
    ensures
        parsed_name(None, exposed_name(None, target, name)) == Some((target, name)),
{
    reveal_strlit("_");
    text::lemma_split_at_delimiter(target, "_"@, name);
}

/// Two local names of two targets never share an exposed name, for target names without a `_`.
pub proof fn law_exposed_names_are_distinct(
    target: Seq<char>,
    name: Seq<char>,
    other_target: Seq<char>,
    other_name: Seq<char>,
)
    requires
        !text::contains_seq(target, "_"@),
        !text::contains_seq(other_target, "_"@),
        exposed_name(None, target, name) == exposed_name(None, other_target, other_name),
    ensures
        target == other_target,
        name == other_name,
{
    law_name_round_trip(target, name);
    law_name_round_trip(other_target, other_name);
}

/// With one backend, names go through unchanged in both directions.
pub proof fn law_single_backend_passthrough(
    default_target: Seq<char>,
    target: Seq<char>,
    name: Seq<char>,
)
    ensures
        exposed_name(Some(default_target), target, name) == name,
        parsed_name(Some(default_target), name) == Some((default_target, name)),
{
}

/// A task id that was prefixed on its way out resolves to the target it came from and to the
/// server's own id, however many upstreams there are.
pub proof fn law_outbound_task_id_resolves(
    target: Seq<char>,
    task_id: Seq<char>,
    upstream_count: nat,
    single_upstream: Option<Seq<char>>,
)
    requires
        !text::contains_seq(target, "_"@),
    ensures
        resolved_task_id(
            None,
            outbound_task_id(None, false, target, task_id),
            upstream_count,
            single_upstream,
        ) == Ok::<(Seq<char>, Seq<char>), Seq<char>>((target, task_id)),
{
    law_name_round_trip(target, task_id);
}

/// A wrapped request id gives back the target and the id, for every target name without the
/// separator; the id may hold it.
pub proof fn law_request_id_round_trip(target: Seq<char>, id: RequestIdView)
    requires
        !text::contains_seq(target, "\u{1f}"@),
        id matches RequestIdView::Number(n) ==> i64::MIN <= n <= i64::MAX,
    ensures
        unwrapped_request_id(RequestIdView::String(wrapped_request_id(target, id))) == Some(
            (target, id),
        ),
{
    let sep = "\u{1f}"@;
    let (tag, payload) = tagged_payload(id);
    reveal_strlit("\u{1f}");
    reveal_strlit("mcpgw");
    reveal_strlit("N");
    reveal_strlit("S");
    assert("N"@[0] != "S"@[0]);
    let inner = tag + sep + payload;
    let middle = target + sep + inner;
    assert(!text::contains_seq("mcpgw"@, sep)) by {
        text::lemma_find_from("mcpgw"@, sep, 0);
        if text::contains_seq("mcpgw"@, sep) {
            let k = text::first_index("mcpgw"@, sep)->0;
            assert("mcpgw"@.subrange(k, k + 1)[0] == sep[0]);
        }
    }
    assert(!text::contains_seq(tag, sep)) by {
        text::lemma_find_from(tag, sep, 0);
        if text::contains_seq(tag, sep) {
            let k = text::first_index(tag, sep)->0;
            assert(tag.subrange(k, k + 1)[0] == sep[0]);
        }
    }
    text::lemma_split_at_delimiter("mcpgw"@, sep, middle);
    text::lemma_split_at_delimiter(target, sep, inner);
    text::lemma_split_at_delimiter(tag, sep, payload);
    match id {
        RequestIdView::Number(n) => {
            decimal::lemma_parse_of_text(n);
        },
        RequestIdView::String(_) => {},
    }
}

} // verus!
