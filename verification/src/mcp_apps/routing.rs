//! Resource URIs when several servers stand behind one gateway.
//!
//! A `ui://` URI of a target becomes `ui://{target}/?u={uri}`, both percent-encoded; any other
//! URI becomes `target+scheme://...`.

use crate::json::{
    self, Json, JsonMap, JsonView, MembersView, member, members_view, opt_members_view, with_member,
};
use crate::mcp_apps::percent::{
    UrlParts, UrlPartsView, law_percent_round_trip, parse_url, parsed_url, parses_as_ui_url,
    percent_decode, percent_decoded, percent_encode, percent_encoded, ui_url, url_outcome,
};
use crate::model::{
    Content, ContentView, Resource, ResourceContents, ResourceContentsView, ResourceTemplate,
    ResourceTemplateView, ResourceView, ServerJsonRpcMessage, ServerJsonRpcMessageView,
    ServerNotification, ServerNotificationView, contents_view, opt_str_ref, pair, pairs,
    resources_view,
};
use crate::multiplex_naming::{
    exposed_name, parse_resource_name, parsed_name, plus_parts, resource_name,
    unwrap_plus_scheme_multiplex,
};
use crate::text;
use crate::upstream::{UpstreamError, invalid_request};
use vstd::prelude::*;
use vstd::string::*;

verus! {

/// `uri` is an MCP Apps URI.
pub open spec fn is_ui(uri: Seq<char>) -> bool {
    "ui://"@.is_prefix_of(uri)
}

/// `target+uri`, where the URI has a scheme.
pub open spec fn plus_wrapped(target: Seq<char>, uri: Seq<char>) -> Seq<char> {
    if text::contains_seq(uri, "://"@) {
        target + "+"@ + uri
    } else {
        uri
    }
}

/// The URI that clients see.
pub open spec fn wrapped_uri(
    default_target: Option<Seq<char>>,
    target: Seq<char>,
    uri: Seq<char>,
) -> Seq<char> {
    if default_target is Some {
        uri
    } else if is_ui(uri) {
        ui_url(percent_encoded(target), percent_encoded(uri))
    } else {
        plus_wrapped(target, uri)
    }
}

fn wrap_plus_scheme_multiplex(target: &str, uri: &str) -> (r: String)
    ensures
        r@ == plus_wrapped(target@, uri@),
{
    if text::contains(uri, "://") {
        text::concat3(target, "+", uri)
    } else {
        uri.to_owned()
    }
}

/// `ui://{encoded target}/?u=`.
fn ui_prefix(target: &str) -> (r: String)
    ensures
        r@ == "ui://"@ + percent_encoded(target@) + "/?u="@,
{
    let encoded_target = percent_encode(target);
    text::concat3("ui://", encoded_target.as_str(), "/?u=")
}

/// The URI that clients see for `uri` of `target`.
pub fn wrap_resource_uri_mixed(
    default_target_name: Option<&String>,
    target: &str,
    uri: &str,
) -> (r: String)
    ensures
        r@ == wrapped_uri(opt_str_ref(default_target_name), target@, uri@),
{
    if default_target_name.is_some() {
        return uri.to_owned();
    }
    if text::starts_with(uri, "ui://") {
        let mut r = ui_prefix(target);
        let encoded_uri = percent_encode(uri);
        r.append(encoded_uri.as_str());
        return r;
    }
    wrap_plus_scheme_multiplex(target, uri)
}

/// A URI template with its literal parts percent-encoded. An expression `{...}` stays as it is;
/// a `{` that is never closed is literal text.
pub open spec fn encoded_template(rest: Seq<char>) -> Seq<char>
    decreases rest.len(),
{
    match text::first_index(rest, "{"@) {
        Some(open) => if 0 <= open < rest.len() {
            let literal = rest.subrange(0, open);
            let tail = rest.subrange(open, rest.len() as int);
            match text::first_index(tail, "}"@) {
                Some(close) => if 0 <= close < tail.len() {
                    percent_encoded(literal) + tail.subrange(0, close + 1) + encoded_template(
                        tail.subrange(close + 1, tail.len() as int),
                    )
                } else {
                    percent_encoded(rest)
                },
                None => percent_encoded(literal) + percent_encoded(tail),
            }
        } else {
            percent_encoded(rest)
        },
        None => percent_encoded(rest),
    }
}

/// The literal text before the first expression of a template.
pub open spec fn literal_prefix(template: Seq<char>) -> Seq<char> {
    match text::first_index(template, "{"@) {
        Some(open) => template.subrange(0, open),
        None => template,
    }
}

/// The URI template that clients see.
pub open spec fn wrapped_template(
    default_target: Option<Seq<char>>,
    target: Seq<char>,
    template: Seq<char>,
) -> Seq<char> {
    if default_target is Some {
        template
    } else if is_ui(literal_prefix(template)) {
        "ui://"@ + percent_encoded(target) + "/?u="@ + encoded_template(template)
    } else if has_plain_scheme(template) {
        target + "+"@ + template
    } else {
        template
    }
}

/// The template has a scheme separator, and no expression begins before it.
pub open spec fn has_plain_scheme(template: Seq<char>) -> bool {
    match (text::first_index(template, "{"@), text::first_index(template, "://"@)) {
        (_, None) => false,
        (None, Some(_)) => true,
        (Some(open), Some(sep)) => sep <= open,
    }
}

fn encode_template(template: &str) -> (r: String)
    ensures
        r@ == encoded_template(template@),
{
    let mut result = String::new();
    let mut rest: &str = template;
    loop
        invariant
            encoded_template(template@) == result@ + encoded_template(rest@),
        decreases rest@.len(),
    {
        let n: usize = rest.unicode_len();
        match text::find(rest, "{") {
            Some(open) => {
                proof {
                    reveal_strlit("{");
                    reveal_strlit("}");
                }
                let literal = rest.substring_char(0, open);
                let tail = rest.substring_char(open, n);
                let encoded = percent_encode(literal);
                match text::find(tail, "}") {
                    Some(close) => {
                        let expression = tail.substring_char(0, close + 1);
                        let m: usize = tail.unicode_len();
                        let next = tail.substring_char(close + 1, m);
                        let ghost before = result@;
                        result.append(encoded.as_str());
                        result.append(expression);
                        assert(before + (encoded@ + expression@ + encoded_template(next@))
                            =~= result@ + encoded_template(next@));
                        rest = next;
                    },
                    None => {
                        let last = percent_encode(tail);
                        let ghost before = result@;
                        result.append(encoded.as_str());
                        result.append(last.as_str());
                        assert(before + (encoded@ + last@) =~= result@);
                        return result;
                    },
                }
            },
            None => {
                let last = percent_encode(rest);
                result.append(last.as_str());
                return result;
            },
        }
    }
}

/// The URI template that clients see for `uri_template` of `target`.
pub fn wrap_resource_template_uri_mixed(
    default_target_name: Option<&String>,
    target: &str,
    uri_template: &str,
) -> (r: String)
    ensures
        r@ == wrapped_template(opt_str_ref(default_target_name), target@, uri_template@),
{
    if default_target_name.is_some() {
        return uri_template.to_owned();
    }
    let open = text::find(uri_template, "{");
    let prefix: &str = match open {
        Some(i) => uri_template.substring_char(0, i),
        None => uri_template,
    };
    assert(prefix@ == literal_prefix(uri_template@));
    if text::starts_with(prefix, "ui://") {
        let mut r = ui_prefix(target);
        let encoded = encode_template(uri_template);
        r.append(encoded.as_str());
        return r;
    }
    let sep = match text::find(uri_template, "://") {
        Some(i) => i,
        None => {
            return uri_template.to_owned();
        },
    };
    match open {
        Some(o) => {
            if o < sep {
                return uri_template.to_owned();
            }
        },
        None => {},
    }
    text::concat3(target, "+", uri_template)
}

/// The value of the first query pair called `key`.
pub open spec fn first_value(query: Seq<(Seq<char>, Seq<char>)>, key: Seq<char>) -> Option<Seq<char>>
    decreases query.len(),
{
    if query.len() == 0 {
        None
    } else if query[0].0 == key {
        Some(query[0].1)
    } else {
        first_value(query.subrange(1, query.len() as int), key)
    }
}

/// The target and the URI that the parts of a wrapped `ui://` URI stand for, or the message with
/// which it is refused.
pub open spec fn ui_parts(parsed: Result<UrlPartsView, Seq<char>>) -> Result<
    (Seq<char>, Seq<char>),
    Seq<char>,
> {
    match parsed {
        Err(message) => Err("invalid multiplex URI: "@ + message),
        Ok(parts) => if parts.scheme != "ui"@ {
            Err("URI is not a ui multiplex resource URI"@)
        } else {
            match parts.host {
                None => Err("multiplex URI has no host"@),
                Some(host) => match (percent_decoded(host), first_value(parts.query, "u"@)) {
                    (None, _) => Err("invalid multiplex URI encoding"@),
                    (Some(_), None) => Err("multiplex URI missing 'u' query param"@),
                    (Some(target), Some(uri)) => Ok((target, uri)),
                },
            }
        },
    }
}

fn find_value<'a>(query: &'a Vec<(String, String)>, key: &str) -> (r: Option<&'a String>)
    ensures
        match r {
            Some(v) => first_value(pairs(query@), key@) == Some(v@),
            None => first_value(pairs(query@), key@) is None,
        },
{
    let mut i: usize = 0;
    assert(pairs(query@).subrange(0, query@.len() as int) =~= pairs(query@));
    while i < query.len()
        invariant
            i <= query@.len(),
            first_value(pairs(query@), key@) == first_value(
                pairs(query@).subrange(i as int, query@.len() as int),
                key@,
            ),
        decreases query@.len() - i,
    {
        let ghost all = pairs(query@);
        let ghost rest = all.subrange(i as int, query@.len() as int);
        assert(rest[0] == pair(query@[i as int]));
        assert(rest.subrange(1, rest.len() as int) =~= all.subrange(i + 1, query@.len() as int));
        if text::same(query[i].0.as_str(), key) {
            return Some(&query[i].1);
        }
        i += 1;
    }
    None
}

/// The target and the URI behind the parts of a wrapped `ui://` URI.
pub fn ui_target_of_url(parsed: Result<UrlParts, String>) -> (r: Result<
    (String, String),
    UpstreamError,
>)
    ensures
        match ui_parts(url_outcome(parsed)) {
            Ok(parts) => r matches Ok(p) && pair(p) == parts,
            Err(message) => r matches Err(e) && invalid_request(e, message),
        },
{
    let url = match parsed {
        Ok(url) => url,
        Err(message) => {
            return Err(
                UpstreamError::InvalidRequest(
                    text::concat("invalid multiplex URI: ", message.as_str()),
                ),
            );
        },
    };
    if !text::same(url.scheme.as_str(), "ui") {
        return Err(
            UpstreamError::InvalidRequest("URI is not a ui multiplex resource URI".to_owned()),
        );
    }
    let host = match &url.host {
        Some(host) => host,
        None => {
            return Err(UpstreamError::InvalidRequest("multiplex URI has no host".to_owned()));
        },
    };
    let target = match percent_decode(host.as_str()) {
        Some(target) => target,
        None => {
            return Err(UpstreamError::InvalidRequest("invalid multiplex URI encoding".to_owned()));
        },
    };
    match find_value(&url.query, "u") {
        Some(uri) => Ok((target, uri.clone())),
        None => Err(
            UpstreamError::InvalidRequest("multiplex URI missing 'u' query param".to_owned()),
        ),
    }
}

/// Where a client-visible URI goes, given what the URL parser makes of it.
pub open spec fn resolved_uri(
    default_target: Option<Seq<char>>,
    uri: Seq<char>,
    parsed: Result<UrlPartsView, Seq<char>>,
) -> Result<(Seq<char>, Seq<char>), Seq<char>> {
    match default_target {
        Some(default) => Ok((default, uri)),
        None => if is_ui(uri) {
            ui_parts(parsed)
        } else {
            plus_parts(uri)
        },
    }
}

/// A wrapped `ui://` URI that comes back as it went, escapes included: the target has a name, and
/// the wrapped form fits a URL.
pub open spec fn ui_round_trips(target: Seq<char>, uri: Seq<char>) -> bool {
    &&& is_ui(uri)
    &&& target.len() > 0
    &&& wrapped_uri(None, target, uri).len() <= u32::MAX
}

fn unwrap_ui_multiplex_uri(uri: &str) -> (r: Result<(String, String), UpstreamError>)
    ensures
        match ui_parts(parsed_url(uri@)) {
            Ok(parts) => r matches Ok(p) && pair(p) == parts,
            Err(message) => r matches Err(e) && invalid_request(e, message),
        },
        forall|target: Seq<char>, original: Seq<char>|
            uri@ == #[trigger] wrapped_uri(None, target, original) && ui_round_trips(
                target,
                original,
            ) ==> (r matches Ok(p) && pair(p) == (target, original)),
{
    let parsed = parse_url(uri);
    let ghost outcome = url_outcome(parsed);
    let r = ui_target_of_url(parsed);
    proof {
        assert forall|target: Seq<char>, original: Seq<char>|
            uri@ == #[trigger] wrapped_uri(None, target, original) && ui_round_trips(
                target,
                original,
            ) implies (r matches Ok(p) && pair(p) == (target, original)) by {
            law_ui_round_trip(target, original, outcome);
            lemma_wrapped_ui_is_ui(target, original);
        }
    }
    r
}

/// Where a client-visible URI goes: the target and the URI at that target.
///
/// A `ui://` URI that was wrapped for a target comes back as that target and that URI, under the
/// conditions of [`ui_round_trips`].
pub fn parse_resource_uri_mixed(default_target_name: Option<&String>, uri: &str) -> (r: Result<
    (String, String),
    UpstreamError,
>)
    ensures
        match resolved_uri(opt_str_ref(default_target_name), uri@, parsed_url(uri@)) {
            Ok(route) => r matches Ok(p) && pair(p) == route,
            Err(message) => r matches Err(e) && invalid_request(e, message),
        },
        forall|target: Seq<char>, original: Seq<char>|
            default_target_name is None && uri@ == #[trigger] wrapped_uri(None, target, original)
                && ui_round_trips(target, original) ==> (r matches Ok(p) && pair(p) == (
                target,
                original,
            )),
{
    match default_target_name {
        Some(default) => Ok((default.clone(), uri.to_owned())),
        None => {
            if text::starts_with(uri, "ui://") {
                return unwrap_ui_multiplex_uri(uri);
            }
            proof {
                assert forall|target: Seq<char>, original: Seq<char>|
                    uri@ == #[trigger] wrapped_uri(None, target, original) implies !ui_round_trips(
                    target,
                    original,
                ) by {
                    if is_ui(original) {
                        lemma_wrapped_ui_is_ui(target, original);
                    }
                }
            }
            unwrap_plus_scheme_multiplex(uri)
        },
    }
}

proof fn lemma_wrapped_ui_is_ui(target: Seq<char>, uri: Seq<char>)
    requires
        is_ui(uri),
    ensures
        is_ui(wrapped_uri(None, target, uri)),
{
    let w = wrapped_uri(None, target, uri);
    assert(w.subrange(0, "ui://"@.len() as int) =~= "ui://"@);
}

/// The target and the upstream id behind a client-visible task id.
pub fn parse_task_id(default_target_name: Option<&String>, id: &str) -> (r: Result<
    (String, String),
    UpstreamError,
>)
    ensures
        match r {
            Ok(p) => parsed_name(opt_str_ref(default_target_name), id@) == Some(pair(p)),
            Err(e) => parsed_name(opt_str_ref(default_target_name), id@) is None
                && invalid_request(e, "invalid resource name"@),
        },
{
    match parse_resource_name(default_target_name, id) {
        Ok((t, rest)) => Ok((t.to_owned(), rest.to_owned())),
        Err(e) => Err(e),
    }
}

/// A wrapped URI that is no `ui://` URI resolves to the target and the URI, for every target
/// without a `+` that does not itself begin with `ui://`, and every URI with a scheme.
pub proof fn law_plus_round_trip(
    target: Seq<char>,
    uri: Seq<char>,
    parsed: Result<UrlPartsView, Seq<char>>,
)
    requires
        !is_ui(uri),
        text::contains_seq(uri, "://"@),
        !text::contains_seq(target, "+"@),
        !is_ui(target),
    ensures
        resolved_uri(None, wrapped_uri(None, target, uri), parsed) == Ok::<
            (Seq<char>, Seq<char>),
            Seq<char>,
        >((target, uri)),
{
    reveal_strlit("+");
    reveal_strlit("ui://");
    let w = target + "+"@ + uri;
    text::lemma_split_at_delimiter(target, "+"@, uri);
    if is_ui(w) {
        if target.len() >= 5 {
            assert(target.subrange(0, 5) =~= w.subrange(0, 5));
        } else {
            assert(w.subrange(0, 5)[target.len() as int] == '+');
        }
    }
}

/// A wrapped `ui://` URI resolves to the target and the URI, under the conditions of
/// [`ui_round_trips`], where the parser takes it as [`parses_as_ui_url`] says.
pub proof fn law_ui_round_trip(
    target: Seq<char>,
    uri: Seq<char>,
    parsed: Result<UrlPartsView, Seq<char>>,
)
    requires
        ui_round_trips(target, uri),
        parses_as_ui_url(wrapped_uri(None, target, uri), parsed),
    ensures
        resolved_uri(None, wrapped_uri(None, target, uri), parsed) == Ok::<
            (Seq<char>, Seq<char>),
            Seq<char>,
        >((target, uri)),
{
    law_percent_round_trip(target);
    law_percent_round_trip(uri);
    let w = wrapped_uri(None, target, uri);
    assert(w == ui_url(percent_encoded(target), percent_encoded(uri)));
    let query = seq![("u"@, uri)];
    assert(parsed->Ok_0.query == query);
    assert(query[0] == ("u"@, uri));
    assert(first_value(query, "u"@) == Some(uri));
    lemma_wrapped_ui_is_ui(target, uri);
}

/// With one backend, URIs and URI templates go through unchanged in both directions.
pub proof fn law_single_backend_uri_passthrough(
    default_target: Seq<char>,
    target: Seq<char>,
    uri: Seq<char>,
    parsed: Result<UrlPartsView, Seq<char>>,
)
    ensures
        wrapped_uri(Some(default_target), target, uri) == uri,
        wrapped_template(Some(default_target), target, uri) == uri,
        resolved_uri(Some(default_target), uri, parsed) == Ok::<
            (Seq<char>, Seq<char>),
            Seq<char>,
        >((default_target, uri)),
{
}

/// A template without expressions is wrapped as the URI that it is.
pub proof fn law_template_without_expressions(
    default_target: Option<Seq<char>>,
    target: Seq<char>,
    template: Seq<char>,
)
    requires
        !text::contains_seq(template, "{"@),
    ensures
        wrapped_template(default_target, target, template) == wrapped_uri(
            default_target,
            target,
            template,
        ),
{
}

/// A message on its way out, as far as resource URIs go.
pub open spec fn outbound_uri_message(
    default_target: Option<Seq<char>>,
    target: Seq<char>,
    msg: ServerJsonRpcMessageView,
) -> ServerJsonRpcMessageView {
    match msg {
        ServerJsonRpcMessageView::Notification(
            ServerNotificationView::ResourceUpdatedNotification(uri),
        ) => ServerJsonRpcMessageView::Notification(
            ServerNotificationView::ResourceUpdatedNotification(
                wrapped_uri(default_target, target, uri),
            ),
        ),
        _ => msg,
    }
}

/// Wraps the URI of a resource that changed, for the client.
pub fn rewrap_outbound_multiplex_server_message(
    default_target_name: Option<&String>,
    upstream_target: &str,
    msg: &mut ServerJsonRpcMessage,
)
    ensures
        final(msg)@ == outbound_uri_message(
            opt_str_ref(default_target_name),
            upstream_target@,
            old(msg)@,
        ),
{
    match msg {
        ServerJsonRpcMessage::Notification(n) => {
            match n {
                ServerNotification::ResourceUpdatedNotification { uri } => {
                    let wrapped = wrap_resource_uri_mixed(
                        default_target_name,
                        upstream_target,
                        uri.as_str(),
                    );
                    *uri = wrapped;
                },
                _ => {},
            }
        },
        _ => {},
    }
}

/// The wrapped form of a `ui://` URI; `None` for any other.
pub fn wrap_tool_ui_uri(default_target_name: Option<&String>, target: &str, uri: &str) -> (r: Option<
    String,
>)
    ensures
        match r {
            Some(w) => is_ui(uri@) && w@ == wrapped_uri(
                opt_str_ref(default_target_name),
                target@,
                uri@,
            ),
            None => !is_ui(uri@),
        },
{
    if text::starts_with(uri, "ui://") {
        Some(wrap_resource_uri_mixed(default_target_name, target, uri))
    } else {
        None
    }
}

/// The members of an object with a `ui://` URI under `key` wrapped.
pub open spec fn ui_member_wrapped(
    default_target: Option<Seq<char>>,
    target: Seq<char>,
    members: MembersView,
    key: Seq<char>,
) -> MembersView {
    match member(members, key) {
        Some(JsonView::Str(uri)) => if is_ui(uri) {
            with_member(members, key, JsonView::Str(wrapped_uri(default_target, target, uri)))
        } else {
            members
        },
        _ => members,
    }
}

/// The metadata of a tool with its `ui://` URIs wrapped: `resourceUri` of the object under `ui`,
/// and `ui/resourceUri`.
pub open spec fn ui_meta_wrapped(
    default_target: Option<Seq<char>>,
    target: Seq<char>,
    meta: MembersView,
) -> MembersView {
    let a = match member(meta, "ui"@) {
        Some(JsonView::Object(ui)) => with_member(
            meta,
            "ui"@,
            JsonView::Object(ui_member_wrapped(default_target, target, ui, "resourceUri"@)),
        ),
        _ => meta,
    };
    ui_member_wrapped(default_target, target, a, "ui/resourceUri"@)
}

fn wrap_ui_member(
    default_target_name: Option<&String>,
    target: &str,
    members: &mut JsonMap,
    key: &str,
)
    ensures
        members_view(final(members)@) == ui_member_wrapped(
            opt_str_ref(default_target_name),
            target@,
            members_view(old(members)@),
            key@,
        ),
{
    let ghost before = members_view(members@);
    match json::position(members, key) {
        Some(i) => {
            let wrapped: Option<String> = match &members[i].1 {
                Json::Str(uri) => wrap_tool_ui_uri(default_target_name, target, uri.as_str()),
                _ => None,
            };
            if let Some(w) = wrapped {
                let name = members[i].0.clone();
                members.set(i, (name, Json::Str(w)));
            }
        },
        None => {},
    }
    assert(members_view(members@) =~= ui_member_wrapped(
        opt_str_ref(default_target_name),
        target@,
        before,
        key@,
    ));
}

/// Wraps the `ui://` URIs in the metadata of a tool, or of what it returned.
///
/// Both keys are wrapped: a host may read either, and reads the resource under what it finds.
pub fn rewrite_tool_ui_meta(
    default_target_name: Option<&String>,
    target: &str,
    meta: &mut Option<JsonMap>,
)
    ensures
        opt_members_view(*final(meta)) == (match opt_members_view(*old(meta)) {
            Some(m) => Some(ui_meta_wrapped(opt_str_ref(default_target_name), target@, m)),
            None => None,
        }),
{
    broadcast use json::lemma_json_view;

    match meta {
        Some(members) => {
            let ghost before = members_view(members@);
            match json::position(members, "ui") {
                Some(i) => {
                    let mut ui = Json::Null;
                    std::mem::swap(&mut ui, &mut members[i].1);
                    match &mut ui {
                        Json::Object(inner) => {
                            wrap_ui_member(default_target_name, target, inner, "resourceUri");
                        },
                        _ => {},
                    }
                    let name = members[i].0.clone();
                    members.set(i, (name, ui));
                    assert(members_view(members@) =~= before.update(i as int, ("ui"@, ui@)));
                    assert(before.update(i as int, before[i as int]) =~= before);
                },
                None => {},
            }
            wrap_ui_member(default_target_name, target, members, "ui/resourceUri");
        },
        None => {},
    }
}

/// The contents of a resource with the URI that clients see.
pub open spec fn wrapped_contents(
    default_target: Option<Seq<char>>,
    target: Seq<char>,
    c: ResourceContentsView,
) -> ResourceContentsView {
    ResourceContentsView { blob: c.blob, uri: wrapped_uri(default_target, target, c.uri), rest: c.rest }
}

/// A content block of a tool result with the URI of an embedded resource wrapped.
pub open spec fn wrapped_content(
    default_target: Option<Seq<char>>,
    target: Seq<char>,
    c: ContentView,
) -> ContentView {
    match c {
        ContentView::Resource(resource, rest) => ContentView::Resource(
            wrapped_contents(default_target, target, resource),
            rest,
        ),
        _ => c,
    }
}

fn rewrap_contents(default_target_name: Option<&String>, target: &str, c: ResourceContents) -> (r:
    ResourceContents)
    ensures
        r@ == wrapped_contents(opt_str_ref(default_target_name), target@, c@),
{
    match c {
        ResourceContents::TextResourceContents { uri, rest } => {
            let uri = wrap_resource_uri_mixed(default_target_name, target, uri.as_str());
            ResourceContents::TextResourceContents { uri, rest }
        },
        ResourceContents::BlobResourceContents { uri, rest } => {
            let uri = wrap_resource_uri_mixed(default_target_name, target, uri.as_str());
            ResourceContents::BlobResourceContents { uri, rest }
        },
    }
}

/// Wraps the URIs of the resources that a tool result embeds.
pub fn rewrap_call_tool_result_content(
    default_target_name: Option<&String>,
    target: &str,
    content: &mut Vec<Content>,
)
    ensures
        contents_view(final(content)@) == contents_view(old(content)@).map_values(
            |c: ContentView| wrapped_content(opt_str_ref(default_target_name), target@, c),
        ),
{
    let ghost before = contents_view(content@);
    let ghost f = |c: ContentView| wrapped_content(opt_str_ref(default_target_name), target@, c);
    let mut i: usize = 0;
    while i < content.len()
        invariant
            i <= content@.len(),
            content@.len() == before.len(),
            forall|k: int| 0 <= k < i ==> (#[trigger] content@[k])@ == wrapped_content(
                opt_str_ref(default_target_name),
                target@,
                before[k],
            ),
            forall|k: int| i <= k < before.len() ==> (#[trigger] content@[k])@ == before[k],
        decreases content@.len() - i,
    {
        let mut slot = Content::Other(Json::Null);
        std::mem::swap(&mut slot, &mut content[i]);
        let item = match slot {
            Content::Resource { resource, rest } => {
                let resource = rewrap_contents(default_target_name, target, resource);
                Content::Resource { resource, rest }
            },
            other => other,
        };
        content.set(i, item);
        i += 1;
    }
    assert(contents_view(content@) =~= before.map_values(f));
}

/// Wraps the URIs of resource contents that an upstream returned.
pub fn rewrap_read_resource_contents(
    default_target_name: Option<&String>,
    target: &str,
    contents: &mut Vec<ResourceContents>,
)
    ensures
        resources_view(final(contents)@) == resources_view(old(contents)@).map_values(
            |c: ResourceContentsView|
                wrapped_contents(opt_str_ref(default_target_name), target@, c),
        ),
{
    let ghost before = resources_view(contents@);
    let ghost f = |c: ResourceContentsView|
        wrapped_contents(opt_str_ref(default_target_name), target@, c);
    let mut i: usize = 0;
    while i < contents.len()
        invariant
            i <= contents@.len(),
            contents@.len() == before.len(),
            forall|k: int| 0 <= k < i ==> (#[trigger] contents@[k])@ == wrapped_contents(
                opt_str_ref(default_target_name),
                target@,
                before[k],
            ),
            forall|k: int| i <= k < before.len() ==> (#[trigger] contents@[k])@ == before[k],
        decreases contents@.len() - i,
    {
        let mut slot = ResourceContents::TextResourceContents {
            uri: String::new(),
            rest: Json::Null,
        };
        std::mem::swap(&mut slot, &mut contents[i]);
        let item = rewrap_contents(default_target_name, target, slot);
        contents.set(i, item);
        i += 1;
    }
    assert(resources_view(contents@) =~= before.map_values(f));
}

/// The name under which a resource or a template is listed.
pub open spec fn listed_name(
    default_target: Option<Seq<char>>,
    target: Seq<char>,
    name: Seq<char>,
    flat: bool,
) -> Seq<char> {
    if flat {
        name
    } else {
        exposed_name(default_target, target, name)
    }
}

/// A resource as clients see it in a list.
pub open spec fn listed_resource(
    default_target: Option<Seq<char>>,
    target: Seq<char>,
    r: ResourceView,
    flat: bool,
) -> ResourceView {
    ResourceView {
        uri: wrapped_uri(default_target, target, r.uri),
        name: listed_name(default_target, target, r.name, flat),
        description: r.description,
        rest: r.rest,
    }
}

/// Makes a resource what clients see in a list.
pub fn apply_multiplex_to_listed_resource(
    default_target_name: Option<&String>,
    target: &str,
    resource: Resource,
    flat: bool,
) -> (r: Resource)
    ensures
        r@ == listed_resource(opt_str_ref(default_target_name), target@, resource@, flat),
{
    let uri = wrap_resource_uri_mixed(default_target_name, target, resource.uri.as_str());
    let name = if flat {
        resource.name
    } else {
        resource_name(default_target_name, target, resource.name.as_str())
    };
    Resource { uri, name, description: resource.description, rest: resource.rest }
}

/// A resource template as clients see it in a list.
pub open spec fn listed_template(
    default_target: Option<Seq<char>>,
    target: Seq<char>,
    t: ResourceTemplateView,
    flat: bool,
) -> ResourceTemplateView {
    ResourceTemplateView {
        uri_template: wrapped_template(default_target, target, t.uri_template),
        name: listed_name(default_target, target, t.name, flat),
        rest: t.rest,
    }
}

/// Makes a resource template what clients see in a list.
pub fn apply_multiplex_to_resource_template(
    default_target_name: Option<&String>,
    target: &str,
    template: ResourceTemplate,
    flat: bool,
) -> (r: ResourceTemplate)
    ensures
        r@ == listed_template(opt_str_ref(default_target_name), target@, template@, flat),
{
    let uri_template = wrap_resource_template_uri_mixed(
        default_target_name,
        target,
        template.uri_template.as_str(),
    );
    let name = if flat {
        template.name
    } else {
        resource_name(default_target_name, target, template.name.as_str())
    };
    ResourceTemplate { uri_template, name, rest: template.rest }
}

} // verus!
