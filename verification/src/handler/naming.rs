//! What holds of the names, ids and URIs that clients send: which target they lead to, and when
//! they are refused.

use crate::handler::listing::{has_no_rules, has_rules_at, lemma_no_rules, lemma_rules_at};
use crate::handler::{RelayView, prompt_route, targets_to_list, task_route, tool_route};
use crate::mcp_apps::percent::{UrlPartsView, percent_decoded};
use crate::mcp_apps::routing::{first_value, resolved_uri};
use crate::rewrite::policies::{law_flat_name_of_none_or_two, law_flat_name_of_one_target};
use crate::rewrite::{flat_hit, gives_name, is_flat};
use crate::routes::RoutesView;
use crate::text;
use vstd::prelude::*;
use vstd::string::*;

verus! {

/// A prefixed name leads to the target in front of the first `_`, by the name behind it, or, where
/// a rule of that target gave that name, by the one that the rule is for.
pub proof fn law_prefixed_name_leads_to_its_target(
    relay: RelayView,
    server: Seq<char>,
    exposed: Seq<char>,
    k: int,
)
    requires
        !is_flat(relay.rewrite),
        relay.default_target is None,
        !text::contains_seq(server, "_"@),
        has_no_rules(relay, server) || has_rules_at(relay, server, k),
    ensures
        ({
            let name = server + "_"@ + exposed;
            let there = if has_no_rules(relay, server) {
                exposed
            } else {
                let back = relay.rewrite.targets[k].1.reverse;
                if back.contains_key(exposed) {
                    back[exposed]
                } else {
                    exposed
                }
            };
            &&& tool_route(relay, name) == Ok::<(Seq<char>, Seq<char>), Seq<char>>((server, there))
            &&& prompt_route(relay, name) == Ok::<(Seq<char>, Seq<char>), Seq<char>>(
                (server, there),
            )
        }),
{
    reveal_strlit("_");
    text::lemma_split_at_delimiter(server, "_"@, exposed);
    if has_no_rules(relay, server) {
        lemma_no_rules(relay.rewrite.targets, server, 0);
    } else {
        lemma_rules_at(relay.rewrite.targets, server, 0, k);
    }
}

/// With one target, every name leads to it, whatever stands in it: by itself, or, where a rule of
/// the target gave it, by the one that the rule is for.
pub proof fn law_name_leads_to_the_only_target(
    relay: RelayView,
    only: Seq<char>,
    name: Seq<char>,
    k: int,
)
    requires
        !is_flat(relay.rewrite),
        relay.default_target == Some(only),
        has_no_rules(relay, only) || has_rules_at(relay, only, k),
    ensures
        ({
            let there = if has_no_rules(relay, only) {
                name
            } else {
                let back = relay.rewrite.targets[k].1.reverse;
                if back.contains_key(name) {
                    back[name]
                } else {
                    name
                }
            };
            &&& tool_route(relay, name) == Ok::<(Seq<char>, Seq<char>), Seq<char>>((only, there))
            &&& prompt_route(relay, name) == Ok::<(Seq<char>, Seq<char>), Seq<char>>((only, there))
        }),
{
    if has_no_rules(relay, only) {
        lemma_no_rules(relay.rewrite.targets, only, 0);
    } else {
        lemma_rules_at(relay.rewrite.targets, only, 0, k);
    }
}

/// Among several targets, a name that says no target is refused, unless names are flat.
pub proof fn law_name_without_target_is_refused(relay: RelayView, name: Seq<char>)
    requires
        !is_flat(relay.rewrite),
        relay.default_target is None,
        !text::contains_seq(name, "_"@),
    ensures
        tool_route(relay, name) == Err::<(Seq<char>, Seq<char>), Seq<char>>(
            "invalid resource name"@,
        ),
        prompt_route(relay, name) == Err::<(Seq<char>, Seq<char>), Seq<char>>(
            "invalid resource name"@,
        ),
{
}

/// Where names are flat, a name that was listed leads where the list says, and so does the id of a
/// task among several targets.
pub proof fn law_listed_name_leads_there(relay: RelayView, name: Seq<char>)
    requires
        is_flat(relay.rewrite),
    ensures
        relay.tool_routes.contains_key(name) ==> tool_route(relay, name) == Ok::<
            (Seq<char>, Seq<char>),
            Seq<char>,
        >(relay.tool_routes[name]),
        relay.prompt_routes.contains_key(name) ==> prompt_route(relay, name) == Ok::<
            (Seq<char>, Seq<char>),
            Seq<char>,
        >(relay.prompt_routes[name]),
        relay.default_target is None && relay.task_routes.contains_key(name) ==> task_route(
            relay,
            name,
        ) == Ok::<(Seq<char>, Seq<char>), Seq<char>>(relay.task_routes[name]),
{
}

/// The id of a task leads to the only target where there is one. Among several, where ids are not
/// flat, it leads to the target in front of the first `_`; one without a `_` leads to the target
/// where the gateway has just one, and is refused where it has more or none.
pub proof fn law_task_id_leads_to_its_target(
    relay: RelayView,
    server: Seq<char>,
    id: Seq<char>,
)
    requires
        !text::contains_seq(server, "_"@),
    ensures
        relay.default_target matches Some(only) ==> task_route(relay, id) == Ok::<
            (Seq<char>, Seq<char>),
            Seq<char>,
        >((only, id)),
        relay.default_target is None && !is_flat(relay.rewrite) ==> {
            &&& task_route(relay, server + "_"@ + id) == Ok::<(Seq<char>, Seq<char>), Seq<char>>(
                (server, id),
            )
            &&& relay.targets.len() == 1 ==> task_route(relay, server) == Ok::<
                (Seq<char>, Seq<char>),
                Seq<char>,
            >((relay.targets[0], server))
            &&& relay.targets.len() == 0 ==> task_route(relay, server) == Err::<
                (Seq<char>, Seq<char>),
                Seq<char>,
            >("unknown task id: "@ + server)
            &&& relay.targets.len() > 1 ==> task_route(relay, server) == Err::<
                (Seq<char>, Seq<char>),
                Seq<char>,
            >("flat task id requires task creation via tools/call: "@ + server)
        },
{
    reveal_strlit("_");
    text::lemma_split_at_delimiter(server, "_"@, id);
}

/// Where flat names are not listed yet, the targets that may have such items are listed before a
/// call is planned: all of them, and only then.
pub proof fn law_lists_come_before_flat_calls(
    needed: bool,
    routes: RoutesView,
    asked: Seq<Seq<char>>,
)
    ensures
        needed && routes.dom() =~= Set::empty() && asked.len() > 0 ==> targets_to_list(
            needed,
            routes,
            asked,
        ) == Some(asked),
        !needed || asked.len() == 0 || routes.dom() != Set::<Seq<char>>::empty()
            ==> targets_to_list(needed, routes, asked) is None,
{
    if routes.dom() =~= Set::empty() {
        assert(routes =~= RoutesView::empty());
    }
}

/// Among several targets, a URI that is no `ui://` URI leads to the target in front of the first
/// `+`, by the URI behind it. It is refused where there is no `+`, or no scheme behind it.
pub proof fn law_plus_uri_leads_to_its_target(
    target: Seq<char>,
    uri: Seq<char>,
    parsed: Result<UrlPartsView, Seq<char>>,
)
    requires
        !text::contains_seq(target, "+"@),
        !"ui://"@.is_prefix_of(target + "+"@ + uri),
        !"ui://"@.is_prefix_of(target),
    ensures
        text::contains_seq(uri, "://"@) ==> resolved_uri(None, target + "+"@ + uri, parsed) == Ok::<
            (Seq<char>, Seq<char>),
            Seq<char>,
        >((target, uri)),
        !text::contains_seq(uri, "://"@) ==> resolved_uri(None, target + "+"@ + uri, parsed)
            == Err::<(Seq<char>, Seq<char>), Seq<char>>(
            "invalid multiplex resource URI (missing scheme)"@,
        ),
        resolved_uri(None, target, parsed) == Err::<(Seq<char>, Seq<char>), Seq<char>>(
            "invalid multiplex resource URI (missing target)"@,
        ),
{
    reveal_strlit("+");
    text::lemma_split_at_delimiter(target, "+"@, uri);
}

proof fn lemma_first_value(
    query: Seq<(Seq<char>, Seq<char>)>,
    key: Seq<char>,
    k: int,
)
    requires
        0 <= k <= query.len(),
        k < query.len() ==> query[k].0 == key,
        forall|j: int| 0 <= j < k ==> (#[trigger] query[j]).0 != key,
    ensures
        first_value(query, key) == if k < query.len() {
            Some(query[k].1)
        } else {
            None
        },
    decreases query.len(),
{
    if k > 0 {
        let rest = query.subrange(1, query.len() as int);
        assert(query[0].0 != key);
        assert forall|j: int| 0 <= j < k - 1 implies (#[trigger] rest[j]).0 != key by {
            assert(rest[j] == query[j + 1]);
        }
        lemma_first_value(rest, key, k - 1);
    }
}

/// Among several targets, a `ui://` URI leads to the target that its host stands for, by the first
/// value of `u` in its query, which is query pair `k`. It is refused where it is no URL, where it
/// has no host, where the host stands for nothing, and where `u` is missing.
pub proof fn law_ui_uri_leads_to_its_target(
    uri: Seq<char>,
    parts: UrlPartsView,
    message: Seq<char>,
    k: int,
)
    requires
        "ui://"@.is_prefix_of(uri),
        parts.scheme == "ui"@,
        0 <= k <= parts.query.len(),
        k < parts.query.len() ==> parts.query[k].0 == "u"@,
        forall|j: int| 0 <= j < k ==> (#[trigger] parts.query[j]).0 != "u"@,
    ensures
        ({
            let r = resolved_uri(None, uri, Ok(parts));
            let target = if parts.host is Some {
                percent_decoded(parts.host->0)
            } else {
                None
            };
            if target is Some && k < parts.query.len() {
                r == Ok::<(Seq<char>, Seq<char>), Seq<char>>((target->0, parts.query[k].1))
            } else if parts.host is None {
                r == Err::<(Seq<char>, Seq<char>), Seq<char>>("multiplex URI has no host"@)
            } else if target is None {
                r == Err::<(Seq<char>, Seq<char>), Seq<char>>("invalid multiplex URI encoding"@)
            } else {
                r == Err::<(Seq<char>, Seq<char>), Seq<char>>(
                    "multiplex URI missing 'u' query param"@,
                )
            }
        }),
        resolved_uri(None, uri, Err(message)) == Err::<(Seq<char>, Seq<char>), Seq<char>>(
            "invalid multiplex URI: "@ + message,
        ),
{
    lemma_first_value(parts.query, "u"@, k);
}

/// Where names are flat, a tool name that was not listed and that the rules of two targets give is
/// ambiguous, whether anything was listed or not.
pub proof fn law_tool_name_given_twice_is_ambiguous(
    relay: RelayView,
    name: Seq<char>,
    i: int,
    j: int,
    k: int,
    l: int,
)
    requires
        is_flat(relay.rewrite),
        !relay.tool_routes.contains_key(name),
        0 <= i < j < relay.targets.len(),
        has_rules_at(relay, relay.targets[i], k),
        has_rules_at(relay, relay.targets[j], l),
        relay.rewrite.targets[k].1.reverse.contains_key(name),
        relay.rewrite.targets[l].1.reverse.contains_key(name),
    ensures
        tool_route(relay, name) == Err::<(Seq<char>, Seq<char>), Seq<char>>(
            "ambiguous flat "@ + "tool name"@ + ": "@ + name,
        ),
{
    lemma_rules_at(relay.rewrite.targets, relay.targets[i], 0, k);
    lemma_rules_at(relay.rewrite.targets, relay.targets[j], 0, l);
    law_flat_name_of_none_or_two(relay.rewrite, name, relay.tool_routes, relay.targets, i, j);
    assert(gives_name(relay.rewrite, name, relay.targets[i]));
}

/// Where names are flat and no target has rules, a tool name that was not listed leads to the only
/// target; among several it is unknown while nothing was listed, and ambiguous once something was.
pub proof fn law_unlisted_tool_without_rules(relay: RelayView, name: Seq<char>)
    requires
        is_flat(relay.rewrite),
        !relay.tool_routes.contains_key(name),
        forall|i: int|
            0 <= i < relay.targets.len() ==> has_no_rules(relay, #[trigger] relay.targets[i]),
    ensures
        relay.targets.len() == 1 ==> tool_route(relay, name) == Ok::<
            (Seq<char>, Seq<char>),
            Seq<char>,
        >((relay.targets[0], name)),
        relay.targets.len() > 1 ==> tool_route(relay, name) == Err::<
            (Seq<char>, Seq<char>),
            Seq<char>,
        >(
            if relay.tool_routes == RoutesView::empty() {
                "unknown flat tool name: "@ + name
            } else {
                "ambiguous flat "@ + "tool name"@ + ": "@ + name
            },
        ),
{
    assert forall|i: int| 0 <= i < relay.targets.len() implies !gives_name(
        relay.rewrite,
        name,
        #[trigger] relay.targets[i],
    ) && flat_hit(relay.rewrite, name, relay.targets[i]) == Some((relay.targets[i], name)) by {
        lemma_no_rules(relay.rewrite.targets, relay.targets[i], 0);
    }
    if relay.targets.len() == 1 {
        law_flat_name_of_one_target(relay.rewrite, name, relay.tool_routes, relay.targets, 0);
    }
    if relay.targets.len() > 1 {
        assert(flat_hit(relay.rewrite, name, relay.targets[0]) is Some);
        assert(flat_hit(relay.rewrite, name, relay.targets[1]) is Some);
        law_flat_name_of_none_or_two(relay.rewrite, name, relay.tool_routes, relay.targets, 0, 1);
    }
}

} // verus!
