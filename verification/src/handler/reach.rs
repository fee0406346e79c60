//! What clients see in lists can be reached: each name leads back to the server that listed it.

use crate::client::ClientRequestView;
use crate::handler::merge::{
    entries_of, lemma_listed_item, lemma_shown_visible, listed_prompts, listed_tasks, listed_tools, merged_list,
    shown_prompt, shown_prompts, shown_resource, shown_task, shown_tasks, shown_tool, shown_tools,
};
use crate::handler::{RelayView, flat_and_shared, prompt_route, task_route, tool_route};
use crate::json::JsonView;
use crate::mcp_apps::percent::{parsed_url, parses_as_ui_url};
use crate::mcp_apps::routing::{is_ui, law_plus_round_trip, law_ui_round_trip, ui_round_trips};
use crate::model::{
    Prompt, PromptView, RequestIdView, ResourceView, ServerResultView, Task, TaskView, Tool,
    ToolView,
};
use crate::multiplex_naming::law_name_round_trip;
use crate::rewrite::{
    RuleView, TargetView, is_flat, is_own_name, law_presented_name_resolves_back, presented_name,
    target_rules, well_compiled,
};
use crate::routes::{
    EntryView, RoutesView, law_routes_are_kept, route_index, with_route, with_routes,
};
use crate::session::dispatch::{PlanView, plan};
use crate::text;
use vstd::prelude::*;
use vstd::string::*;

verus! {

/// Under flat names, each tool of the merged list can be called by its name there, which no other
/// tool of the list has. The call goes to the first server that listed a tool which clients see
/// under this name and which the policy did not deny, under the name that this server gave it.
pub proof fn law_visible_tool_is_callable(
    relay: RelayView,
    streams: Seq<(Seq<char>, ServerResultView)>,
    denied: Seq<(Seq<char>, Seq<char>)>,
    k: int,
)
    requires
        is_flat(relay.rewrite),
        0 <= k < merged_list(true, shown_tools(relay, streams, denied)).len(),
    ensures
        ({
            let shown = shown_tools(relay, streams, denied);
            let after = RelayView { tool_routes: route_index(entries_of(shown)), ..relay };
            let tool = merged_list(true, shown)[k];
            exists|j: int|
                0 <= j < shown.len() && (#[trigger] shown[j]).1 == tool && tool_route(
                    after,
                    tool.name,
                ) == Ok::<(Seq<char>, Seq<char>), Seq<char>>((shown[j].0.0, shown[j].0.1))
                    && !denied.contains((shown[j].0.0, shown[j].0.1)) && forall|i: int|
                    0 <= i < j ==> (#[trigger] shown[i]).1.name != tool.name
        }),
        ({
            let list = merged_list(true, shown_tools(relay, streams, denied));
            forall|l: int|
                0 <= l < list.len() && l != k ==> (#[trigger] list[l]).name != list[k].name
        }),
{
    let j = lemma_listed_item::<Tool>(relay, listed_tools(streams), denied, k);
    let shown = shown_tools(relay, streams, denied);
    assert(shown[j].1 == merged_list(true, shown)[k]);
    lemma_shown_visible::<Tool>(relay, listed_tools(streams), denied);
    assert forall|i: int| 0 <= i < j implies (#[trigger] shown[i]).1.name != shown[j].1.name by {
        assert(shown[i].0.2 == shown[i].1.name);
    }
}

/// Under flat names, each prompt of the merged list can be asked for by its name there, which no
/// other prompt of the list has. The request goes to the first server that listed a prompt which
/// clients see under this name and which the policy did not deny, under the name that this server
/// gave it.
pub proof fn law_visible_prompt_is_callable(
    relay: RelayView,
    streams: Seq<(Seq<char>, ServerResultView)>,
    denied: Seq<(Seq<char>, Seq<char>)>,
    k: int,
)
    requires
        is_flat(relay.rewrite),
        0 <= k < merged_list(true, shown_prompts(relay, streams, denied)).len(),
    ensures
        ({
            let shown = shown_prompts(relay, streams, denied);
            let after = RelayView { prompt_routes: route_index(entries_of(shown)), ..relay };
            let prompt = merged_list(true, shown)[k];
            exists|j: int|
                0 <= j < shown.len() && (#[trigger] shown[j]).1 == prompt && prompt_route(
                    after,
                    prompt.name,
                ) == Ok::<(Seq<char>, Seq<char>), Seq<char>>((shown[j].0.0, shown[j].0.1))
                    && !denied.contains((shown[j].0.0, shown[j].0.1)) && forall|i: int|
                    0 <= i < j ==> (#[trigger] shown[i]).1.name != prompt.name
        }),
        ({
            let list = merged_list(true, shown_prompts(relay, streams, denied));
            forall|l: int|
                0 <= l < list.len() && l != k ==> (#[trigger] list[l]).name != list[k].name
        }),
{
    let j = lemma_listed_item::<Prompt>(relay, listed_prompts(streams), denied, k);
    let shown = shown_prompts(relay, streams, denied);
    assert(shown[j].1 == merged_list(true, shown)[k]);
    lemma_shown_visible::<Prompt>(relay, listed_prompts(streams), denied);
    assert forall|i: int| 0 <= i < j implies (#[trigger] shown[i]).1.name != shown[j].1.name by {
        assert(shown[i].0.2 == shown[i].1.name);
    }
}

/// Under flat names that several targets share, where no task was known before, each task of the
/// merged list is found by its id there, which no other task of the list has: at the first server
/// that listed a task which clients see under this id and which the policy did not deny.
pub proof fn law_listed_task_is_found(
    relay: RelayView,
    streams: Seq<(Seq<char>, ServerResultView)>,
    denied: Seq<(Seq<char>, Seq<char>)>,
    k: int,
)
    requires
        flat_and_shared(relay),
        relay.task_routes == RoutesView::empty(),
        0 <= k < merged_list(true, shown_tasks(relay, streams, denied)).len(),
    ensures
        ({
            let shown = shown_tasks(relay, streams, denied);
            let after = RelayView {
                task_routes: with_routes(relay.task_routes, entries_of(shown)),
                ..relay
            };
            let task = merged_list(true, shown)[k];
            exists|j: int|
                0 <= j < shown.len() && (#[trigger] shown[j]).1 == task && task_route(
                    after,
                    task.task_id,
                ) == Ok::<(Seq<char>, Seq<char>), Seq<char>>((shown[j].0.0, shown[j].0.1))
                    && !denied.contains((shown[j].0.0, shown[j].0.1)) && forall|i: int|
                    0 <= i < j ==> (#[trigger] shown[i]).1.task_id != task.task_id
        }),
        ({
            let list = merged_list(true, shown_tasks(relay, streams, denied));
            forall|l: int|
                0 <= l < list.len() && l != k ==> (#[trigger] list[l]).task_id != list[k].task_id
        }),
{
    let j = lemma_listed_item::<Task>(relay, listed_tasks(streams), denied, k);
    let shown = shown_tasks(relay, streams, denied);
    assert(shown[j].1 == merged_list(true, shown)[k]);
    lemma_shown_visible::<Task>(relay, listed_tasks(streams), denied);
    assert forall|i: int| 0 <= i < j implies (#[trigger] shown[i]).1.task_id != shown[j].1.task_id by {
        assert(shown[i].0.2 == shown[i].1.task_id);
    }
}

/// The rules of a server are compiled, and present `name` under a name of its own. `of_kind` takes
/// those for things of the kind of `name` out of them.
pub open spec fn has_own_name(
    relay: RelayView,
    server: Seq<char>,
    of_kind: spec_fn(TargetView) -> Seq<RuleView>,
    name: Seq<char>,
) -> bool {
    target_rules(relay.rewrite.targets, server) matches Some(rules) ==> well_compiled(rules)
        && is_own_name(rules, of_kind(rules), name)
}

/// A prefix leads back to the server: it is the only one, or its name holds no `_`.
pub open spec fn prefix_leads_to(relay: RelayView, server: Seq<char>) -> bool {
    match relay.default_target {
        Some(default) => default == server,
        None => !text::contains_seq(server, "_"@),
    }
}

/// With prefixed names, a tool that a server listed is called under its visible name at that
/// server, by the server's own name for it.
pub proof fn law_prefixed_tool_is_callable(relay: RelayView, server: Seq<char>, t: ToolView)
    requires
        !is_flat(relay.rewrite),
        prefix_leads_to(relay, server),
        has_own_name(relay, server, |rules: TargetView| rules.tools, t.name),
    ensures
        tool_route(relay, shown_tool(relay, server, t).name) == Ok::<
            (Seq<char>, Seq<char>),
            Seq<char>,
        >((server, t.name)),
{
    let presented = match target_rules(relay.rewrite.targets, server) {
        Some(rules) => {
            law_presented_name_resolves_back(rules, rules.tools, t.name);
            presented_name(rules.tools, t.name)
        },
        None => t.name,
    };
    if relay.default_target is None {
        law_name_round_trip(server, presented);
    }
}

/// With prefixed names, a prompt that a server listed is asked for under its visible name at that
/// server, by the server's own name for it.
pub proof fn law_prefixed_prompt_is_callable(relay: RelayView, server: Seq<char>, p: PromptView)
    requires
        !is_flat(relay.rewrite),
        prefix_leads_to(relay, server),
        has_own_name(relay, server, |rules: TargetView| rules.prompts, p.name),
    ensures
        prompt_route(relay, shown_prompt(relay, server, p).name) == Ok::<
            (Seq<char>, Seq<char>),
            Seq<char>,
        >((server, p.name)),
{
    let presented = match target_rules(relay.rewrite.targets, server) {
        Some(rules) => {
            law_presented_name_resolves_back(rules, rules.prompts, p.name);
            presented_name(rules.prompts, p.name)
        },
        None => p.name,
    };
    if relay.default_target is None {
        law_name_round_trip(server, presented);
    }
}

/// With prefixed names, a task that a server listed is found by its visible id at that server.
pub proof fn law_prefixed_task_is_found(relay: RelayView, server: Seq<char>, t: TaskView)
    requires
        !is_flat(relay.rewrite),
        prefix_leads_to(relay, server),
    ensures
        task_route(relay, shown_task(relay, server, t).task_id) == Ok::<
            (Seq<char>, Seq<char>),
            Seq<char>,
        >((server, t.task_id)),
{
    if relay.default_target is None {
        law_name_round_trip(server, t.task_id);
    }
}

/// A resource that a server listed is read under its visible URI at that server, by the server's
/// own URI for it. Where several servers share the gateway, the URI has a scheme; one that is no
/// `ui://` URI needs a server name that cannot be mistaken for a part of it, and a `ui://` URI
/// comes back as [`ui_round_trips`] says, from a parser that takes it as [`parses_as_ui_url`] says.
pub proof fn law_listed_resource_is_readable(
    relay: RelayView,
    id: RequestIdView,
    server: Seq<char>,
    r: ResourceView,
    rest: JsonView,
)
    requires
        match relay.default_target {
            Some(default) => default == server,
            None => if is_ui(r.uri) {
                let visible = shown_resource(relay, server, r).uri;
                ui_round_trips(server, r.uri) && parses_as_ui_url(visible, parsed_url(visible))
            } else {
                &&& text::contains_seq(r.uri, "://"@)
                &&& !text::contains_seq(server, "+"@)
                &&& !is_ui(server)
            },
        },
    ensures
        plan(
            relay,
            id,
            ClientRequestView::ReadResourceRequest(shown_resource(relay, server, r).uri, rest),
        ) matches Ok(PlanView::Single(call)) && call.target == server && call.upstream_name
            == r.uri,
{
    let visible = shown_resource(relay, server, r).uri;
    if relay.default_target is None {
        if is_ui(r.uri) {
            law_ui_round_trip(server, r.uri, parsed_url(visible));
        } else {
            law_plus_round_trip(server, r.uri, parsed_url(visible));
        }
    }
}

/// A task that was created under flat names is found again, whatever tasks are listed afterwards.
pub proof fn law_created_task_is_found(
    relay: RelayView,
    target: Seq<char>,
    task_id: Seq<char>,
    listed: Seq<EntryView>,
)
    requires
        flat_and_shared(relay),
        !relay.task_routes.contains_key(task_id),
    ensures
        task_route(
            RelayView {
                task_routes: with_routes(
                    with_route(relay.task_routes, target, task_id, task_id),
                    listed,
                ),
                ..relay
            },
            task_id,
        ) == Ok::<(Seq<char>, Seq<char>), Seq<char>>((target, task_id)),
{
    law_routes_are_kept(with_route(relay.task_routes, target, task_id, task_id), listed, task_id);
}

} // verus!
