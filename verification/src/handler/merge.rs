//! Merging what several upstream servers answered into one answer.

use crate::handler::{Relay, RelayView, flat_and_shared};
use crate::info::ResourceId;
use crate::mcp_apps::capabilities::CapabilitiesView;
use crate::mcp_apps::routing::{
    apply_multiplex_to_listed_resource, apply_multiplex_to_resource_template, listed_resource,
    listed_template, rewrite_tool_ui_meta, ui_meta_wrapped,
};
use crate::mcp_apps::server_info::{build_server_info, server_info};
use crate::model::{
    InitializeResult, InitializeResultView, Prompt, PromptView, Resource, ResourceTemplate,
    ResourceTemplateView, ResourceView, ServerResult, ServerResultView, Task, TaskView, Tool,
    ToolView, listed_resources_view, pairs, prompts_view, tasks_view, templates_view, tools_view,
};
use crate::multiplex_naming::{exposed_name, resource_name, wrap_client_task_id};
use crate::rewrite::{
    apply_prompt_rewrite, apply_resource_rewrite, apply_tool_rewrite, copy_opt_server,
    filter_flat_prompt_collisions, filter_flat_resource_collisions,
    filter_flat_resource_template_collisions, filter_flat_task_collisions,
    filter_flat_tool_collisions, is_flat, presented_prompt, presented_resource, presented_tool,
    target_rules,
};
use crate::routes::{
    EntryView, Named, add_routes, build_flat_route_index, entries_view, entry_view, keep_first,
    law_keep_first, law_visible_is_routable, lemma_keep_first_map, names_of, route_index,
    visible_names, with_routes,
};
use crate::text;
use vstd::prelude::*;
use vstd::string::*;

verus! {

/// The targets and names that the policy denies to a request.
pub open spec fn denials(denied: Seq<ResourceId>) -> Seq<(Seq<char>, Seq<char>)> {
    Seq::new(denied.len(), |i: int| (denied[i].target@, denied[i].name@))
}

/// Something that upstream servers list and clients see.
pub trait Listable: Named + View {
    /// The name under which the policy is asked, which is the one at the target.
    spec fn upstream_name(v: Self::V) -> Seq<char>;

    /// What clients see.
    spec fn shown(relay: RelayView, server: Seq<char>, v: Self::V) -> Self::V;

    /// The name that clients see.
    spec fn visible(v: Self::V) -> Seq<char>;

    /// The name under which the policy is asked.
    fn get_upstream_name(&self) -> (r: &String)
        ensures
            r@ == Self::upstream_name(self@),
    ;

    /// Makes the item what clients see.
    fn show(self, relay: &Relay, server: &str) -> (r: Self)
        ensures
            r@ == Self::shown(relay@, server@, self@),
    ;

    /// The two views of the visible name agree.
    proof fn lemma_visible(&self)
        ensures
            self.name_view() == Self::visible(self@),
    ;
}

/// The items of a vector.
pub open spec fn items_view<T: Listable>(v: Seq<T>) -> Seq<T::V> {
    Seq::new(v.len(), |i: int| v[i]@)
}

/// An item that clients see, with the offer of its route.
pub open spec fn shown_entry<T: Listable>(relay: RelayView, server: Seq<char>, v: T::V) -> (
    EntryView,
    T::V,
) {
    let s = T::shown(relay, server, v);
    ((server, T::upstream_name(v), T::visible(s)), s)
}

/// What clients see of the items of one server: those that the policy does not deny.
pub open spec fn shown_of_server<T: Listable>(
    relay: RelayView,
    server: Seq<char>,
    items: Seq<T::V>,
    denied: Seq<(Seq<char>, Seq<char>)>,
) -> Seq<(EntryView, T::V)>
    decreases items.len(),
{
    if items.len() == 0 {
        Seq::empty()
    } else {
        let before = shown_of_server::<T>(relay, server, items.drop_last(), denied);
        if denied.contains((server, T::upstream_name(items.last()))) {
            before
        } else {
            before.push(shown_entry::<T>(relay, server, items.last()))
        }
    }
}

/// What clients see of the items of all servers, in order.
pub open spec fn shown_of_all<T: Listable>(
    relay: RelayView,
    lists: Seq<(Seq<char>, Seq<T::V>)>,
    denied: Seq<(Seq<char>, Seq<char>)>,
) -> Seq<(EntryView, T::V)>
    decreases lists.len(),
{
    if lists.len() == 0 {
        Seq::empty()
    } else {
        shown_of_all::<T>(relay, lists.drop_last(), denied) + shown_of_server::<T>(
            relay,
            lists.last().0,
            lists.last().1,
            denied,
        )
    }
}

/// The offers of routes among what clients see.
pub open spec fn entries_of<V>(shown: Seq<(EntryView, V)>) -> Seq<EntryView> {
    Seq::new(shown.len(), |i: int| shown[i].0)
}

/// The items among what clients see.
pub open spec fn items_of<V>(shown: Seq<(EntryView, V)>) -> Seq<V> {
    Seq::new(shown.len(), |i: int| shown[i].1)
}

/// The visible names among what clients see.
pub open spec fn visible_of<V>(shown: Seq<(EntryView, V)>) -> Seq<Seq<char>> {
    Seq::new(shown.len(), |i: int| shown[i].0.2)
}

/// The list that clients see: of equal names only the first, where names are flat.
pub open spec fn merged_list<V>(flat: bool, shown: Seq<(EntryView, V)>) -> Seq<V> {
    if flat {
        keep_first(items_of(shown), visible_of(shown))
    } else {
        items_of(shown)
    }
}

/// The lists of a vector.
pub open spec fn lists_view<T: Listable>(v: Seq<(String, Vec<T>)>) -> Seq<(Seq<char>, Seq<T::V>)> {
    Seq::new(v.len(), |i: int| (v[i].0@, items_view::<T>(v[i].1@)))
}

/// The answers of the servers, in order.
pub open spec fn streams_view(v: Seq<(String, ServerResult)>) -> Seq<(Seq<char>, ServerResultView)> {
    Seq::new(v.len(), |i: int| (v[i].0@, v[i].1@))
}

fn is_denied(denied: &Vec<ResourceId>, server: &str, name: &str) -> (r: bool)
    ensures
        r == denials(denied@).contains((server@, name@)),
{
    let mut i: usize = 0;
    while i < denied.len()
        invariant
            i <= denied@.len(),
            forall|k: int| 0 <= k < i ==> #[trigger] denials(denied@)[k] != (server@, name@),
        decreases denied@.len() - i,
    {
        if text::same(denied[i].target.as_str(), server) && text::same(
            denied[i].name.as_str(),
            name,
        ) {
            assert(denials(denied@)[i as int] == (server@, name@));
            return true;
        }
        i += 1;
    }
    false
}

/// What has been collected so far: the items, and the offers of their routes.
struct Collected<T> {
    items: Vec<T>,
    entries: Vec<(String, String, String)>,
}

spec fn collected_view<T: Listable>(c: Collected<T>) -> Seq<(EntryView, T::V)> {
    Seq::new(c.items@.len(), |i: int| (entry_view(c.entries@[i]), c.items@[i]@))
}

spec fn collected_ok<T: Listable>(c: Collected<T>) -> bool {
    &&& c.items@.len() == c.entries@.len()
    &&& forall|i: int|
        0 <= i < c.items@.len() ==> (#[trigger] c.items@[i]).name_view() == c.entries@[i].2@
}

fn collect_server<T: Listable>(
    out: &mut Collected<T>,
    relay: &Relay,
    server: &String,
    items: Vec<T>,
    denied: &Vec<ResourceId>,
)
    requires
        collected_ok(*old(out)),
    ensures
        collected_ok(*final(out)),
        collected_view(*final(out)) == collected_view(*old(out)) + shown_of_server::<T>(
            relay@,
            server@,
            items_view::<T>(items@),
            denials(denied@),
        ),
{
    let ghost start = collected_view(*out);
    let ghost all = items_view::<T>(items@);
    let ghost bad = denials(denied@);
    let n: usize = items.len();
    assert(all.take(0) =~= Seq::<T::V>::empty());
    assert(start + Seq::<(EntryView, T::V)>::empty() =~= start);
    for item in it: items
        invariant
            all == items_view::<T>(it.seq()),
            bad == denials(denied@),
            collected_ok(*out),
            collected_view(*out) == start + shown_of_server::<T>(
                relay@,
                server@,
                all.take(it.index()),
                bad,
            ),
    {
        let ghost i = it.index();
        assert(all.take(i + 1).drop_last() =~= all.take(i));
        assert(all.take(i + 1).last() == item@);
        let ghost before = collected_view(*out);
        let ghost value = item@;
        let upstream = item.get_upstream_name().clone();
        if !is_denied(denied, server.as_str(), upstream.as_str()) {
            let shown = item.show(relay, server.as_str());
            proof {
                shown.lemma_visible();
            }
            let visible = shown.visible_name().clone();
            out.items.push(shown);
            out.entries.push((server.clone(), upstream, visible));
            assert(collected_view(*out) =~= before.push(
                shown_entry::<T>(relay@, server@, value),
            ));
            assert(collected_ok(*out));
            assert(start + shown_of_server::<T>(relay@, server@, all.take(i), bad).push(
                shown_entry::<T>(relay@, server@, value),
            ) =~= (start + shown_of_server::<T>(relay@, server@, all.take(i), bad)).push(
                shown_entry::<T>(relay@, server@, value),
            ));
        }
    }
    assert(all.take(n as int) =~= all);
}

fn collect_all<T: Listable>(
    relay: &Relay,
    lists: Vec<(String, Vec<T>)>,
    denied: &Vec<ResourceId>,
) -> (r: Collected<T>)
    ensures
        collected_ok(r),
        collected_view(r) == shown_of_all::<T>(
            relay@,
            lists_view::<T>(lists@),
            denials(denied@),
        ),
{
    let ghost all = lists_view::<T>(lists@);
    let ghost bad = denials(denied@);
    let n: usize = lists.len();
    let mut out: Collected<T> = Collected { items: Vec::new(), entries: Vec::new() };
    assert(all.take(0) =~= Seq::<(Seq<char>, Seq<T::V>)>::empty());
    assert(collected_view(out) =~= Seq::<(EntryView, T::V)>::empty());
    for list in it: lists
        invariant
            all == lists_view::<T>(it.seq()),
            bad == denials(denied@),
            collected_ok(out),
            collected_view(out) == shown_of_all::<T>(relay@, all.take(it.index()), bad),
    {
        let ghost i = it.index();
        assert(all.take(i + 1).drop_last() =~= all.take(i));
        assert(all.take(i + 1).last() == (list.0@, items_view::<T>(list.1@)));
        let (server, items) = list;
        collect_server(&mut out, relay, &server, items, denied);
    }
    assert(all.take(n as int) =~= all);
    out
}

proof fn lemma_collected<T: Listable>(c: Collected<T>)
    requires
        collected_ok(c),
    ensures
        entries_view(c.entries@) == entries_of(collected_view(c)),
        items_view::<T>(c.items@) == items_of(collected_view(c)),
        names_of(c.items@) == visible_of(collected_view(c)),
        items_view::<T>(keep_first(c.items@, names_of(c.items@))) == merged_list(
            true,
            collected_view(c),
        ),
{
    assert(entries_view(c.entries@) =~= entries_of(collected_view(c)));
    assert(items_view::<T>(c.items@) =~= items_of(collected_view(c)));
    assert(names_of(c.items@) =~= visible_of(collected_view(c)));
    let f = |t: T| t@;
    lemma_keep_first_map(c.items@, names_of(c.items@), f);
    assert(c.items@.map_values(f) =~= items_view::<T>(c.items@));
    let kept = keep_first(c.items@, names_of(c.items@));
    assert(kept.map_values(f) =~= items_view::<T>(kept));
}

/// A tool as clients see it: presented by the rules of its server, under its exposed name, with
/// the `ui://` URIs in its metadata wrapped.
pub open spec fn shown_tool(relay: RelayView, server: Seq<char>, t: ToolView) -> ToolView {
    let p = match target_rules(relay.rewrite.targets, server) {
        Some(rules) => presented_tool(t, rules.tools),
        None => t,
    };
    ToolView {
        name: if is_flat(relay.rewrite) {
            p.name
        } else {
            exposed_name(relay.default_target, server, p.name)
        },
        meta: match p.meta {
            Some(m) => Some(ui_meta_wrapped(relay.default_target, server, m)),
            None => None,
        },
        ..p
    }
}

impl Listable for Tool {
    open spec fn upstream_name(v: ToolView) -> Seq<char> {
        v.name
    }

    open spec fn shown(relay: RelayView, server: Seq<char>, v: ToolView) -> ToolView {
        shown_tool(relay, server, v)
    }

    open spec fn visible(v: ToolView) -> Seq<char> {
        v.name
    }

    fn get_upstream_name(&self) -> (r: &String) {
        &self.name
    }

    fn show(self, relay: &Relay, server: &str) -> (r: Self) {
        let mut t = self;
        if let Some(rules) = relay.mcp_rewrite.target(server) {
            apply_tool_rewrite(&mut t, rules.tool_rules());
        }
        if !relay.mcp_rewrite.flat() {
            let exposed = resource_name(
                relay.default_target_name.as_ref(),
                server,
                t.name.as_str(),
            );
            t.name = exposed;
        }
        rewrite_tool_ui_meta(relay.default_target_name.as_ref(), server, &mut t.meta);
        t
    }

    proof fn lemma_visible(&self) {
    }
}

/// A prompt as clients see it: presented by the rules of its server, under its exposed name.
pub open spec fn shown_prompt(relay: RelayView, server: Seq<char>, p: PromptView) -> PromptView {
    let p = match target_rules(relay.rewrite.targets, server) {
        Some(rules) => presented_prompt(p, rules.prompts),
        None => p,
    };
    PromptView {
        name: if is_flat(relay.rewrite) {
            p.name
        } else {
            exposed_name(relay.default_target, server, p.name)
        },
        ..p
    }
}

impl Listable for Prompt {
    open spec fn upstream_name(v: PromptView) -> Seq<char> {
        v.name
    }

    open spec fn shown(relay: RelayView, server: Seq<char>, v: PromptView) -> PromptView {
        shown_prompt(relay, server, v)
    }

    open spec fn visible(v: PromptView) -> Seq<char> {
        v.name
    }

    fn get_upstream_name(&self) -> (r: &String) {
        &self.name
    }

    fn show(self, relay: &Relay, server: &str) -> (r: Self) {
        let mut p = self;
        if let Some(rules) = relay.mcp_rewrite.target(server) {
            apply_prompt_rewrite(&mut p, rules.prompt_rules());
        }
        if !relay.mcp_rewrite.flat() {
            let exposed = resource_name(
                relay.default_target_name.as_ref(),
                server,
                p.name.as_str(),
            );
            p.name = exposed;
        }
        p
    }

    proof fn lemma_visible(&self) {
    }
}

/// A resource as clients see it: presented by the rules of its server, under its listed name and
/// its wrapped URI.
pub open spec fn shown_resource(relay: RelayView, server: Seq<char>, r: ResourceView) -> ResourceView {
    let p = match target_rules(relay.rewrite.targets, server) {
        Some(rules) => presented_resource(r, rules.resources),
        None => r,
    };
    listed_resource(relay.default_target, server, p, is_flat(relay.rewrite))
}

impl Listable for Resource {
    open spec fn upstream_name(v: ResourceView) -> Seq<char> {
        v.uri
    }

    open spec fn shown(relay: RelayView, server: Seq<char>, v: ResourceView) -> ResourceView {
        shown_resource(relay, server, v)
    }

    open spec fn visible(v: ResourceView) -> Seq<char> {
        v.name
    }

    fn get_upstream_name(&self) -> (r: &String) {
        &self.uri
    }

    fn show(self, relay: &Relay, server: &str) -> (r: Self) {
        let mut p = self;
        if let Some(rules) = relay.mcp_rewrite.target(server) {
            apply_resource_rewrite(&mut p, rules.resource_rules());
        }
        apply_multiplex_to_listed_resource(
            relay.default_target_name.as_ref(),
            server,
            p,
            relay.mcp_rewrite.flat(),
        )
    }

    proof fn lemma_visible(&self) {
    }
}

impl Listable for ResourceTemplate {
    open spec fn upstream_name(v: ResourceTemplateView) -> Seq<char> {
        v.uri_template
    }

    open spec fn shown(
        relay: RelayView,
        server: Seq<char>,
        v: ResourceTemplateView,
    ) -> ResourceTemplateView {
        listed_template(relay.default_target, server, v, is_flat(relay.rewrite))
    }

    open spec fn visible(v: ResourceTemplateView) -> Seq<char> {
        v.name
    }

    fn get_upstream_name(&self) -> (r: &String) {
        &self.uri_template
    }

    fn show(self, relay: &Relay, server: &str) -> (r: Self) {
        apply_multiplex_to_resource_template(
            relay.default_target_name.as_ref(),
            server,
            self,
            relay.mcp_rewrite.flat(),
        )
    }

    proof fn lemma_visible(&self) {
    }
}

/// A task as clients see it.
pub open spec fn shown_task(relay: RelayView, server: Seq<char>, t: TaskView) -> TaskView {
    TaskView {
        task_id: if is_flat(relay.rewrite) {
            t.task_id
        } else {
            exposed_name(relay.default_target, server, t.task_id)
        },
        rest: t.rest,
    }
}

impl Listable for Task {
    open spec fn upstream_name(v: TaskView) -> Seq<char> {
        v.task_id
    }

    open spec fn shown(relay: RelayView, server: Seq<char>, v: TaskView) -> TaskView {
        shown_task(relay, server, v)
    }

    open spec fn visible(v: TaskView) -> Seq<char> {
        v.task_id
    }

    fn get_upstream_name(&self) -> (r: &String) {
        &self.task_id
    }

    fn show(self, relay: &Relay, server: &str) -> (r: Self) {
        let mut t = self;
        if !relay.mcp_rewrite.flat() {
            let exposed = wrap_client_task_id(
                relay.default_target_name.as_ref(),
                server,
                t.task_id.as_str(),
            );
            t.task_id = exposed;
        }
        t
    }

    proof fn lemma_visible(&self) {
    }
}

/// The tools that each server listed; none for an answer of another kind.
pub open spec fn listed_tools(streams: Seq<(Seq<char>, ServerResultView)>) -> Seq<
    (Seq<char>, Seq<ToolView>),
> {
    Seq::new(
        streams.len(),
        |i: int|
            (
                streams[i].0,
                match streams[i].1 {
                    ServerResultView::ListToolsResult(v) => v,
                    _ => Seq::empty(),
                },
            ),
    )
}

fn take_tools(streams: Vec<(String, ServerResult)>) -> (r: Vec<(String, Vec<Tool>)>)
    ensures
        lists_view::<Tool>(r@) == listed_tools(streams_view(streams@)),
{
    let ghost all = listed_tools(streams_view(streams@));
    let mut out: Vec<(String, Vec<Tool>)> = Vec::new();
    for stream in it: streams
        invariant
            all == listed_tools(streams_view(it.seq())),
            out@.len() == it.index(),
            forall|k: int|
                0 <= k < it.index() ==> (#[trigger] out@[k]).0@ == all[k].0 && items_view::<Tool>(
                    out@[k].1@,
                ) == all[k].1,
    {
        let ghost i = it.index();
        assert(all[i].0 == stream.0@);
        let (server, result) = stream;
        let items = match result {
            ServerResult::ListToolsResult(v) => v,
            _ => Vec::new(),
        };
        assert(items_view::<Tool>(items@) =~= all[i].1);
        out.push((server, items));
    }
    assert(lists_view::<Tool>(out@) =~= all);
    out
}

/// What clients see of the tools that the servers listed.
pub open spec fn shown_tools(
    relay: RelayView,
    streams: Seq<(Seq<char>, ServerResultView)>,
    denied: Seq<(Seq<char>, Seq<char>)>,
) -> Seq<(EntryView, ToolView)> {
    shown_of_all::<Tool>(relay, listed_tools(streams), denied)
}

/// The prompts that each server listed; none for an answer of another kind.
pub open spec fn listed_prompts(streams: Seq<(Seq<char>, ServerResultView)>) -> Seq<
    (Seq<char>, Seq<PromptView>),
> {
    Seq::new(
        streams.len(),
        |i: int|
            (
                streams[i].0,
                match streams[i].1 {
                    ServerResultView::ListPromptsResult(v) => v,
                    _ => Seq::empty(),
                },
            ),
    )
}

fn take_prompts(streams: Vec<(String, ServerResult)>) -> (r: Vec<(String, Vec<Prompt>)>)
    ensures
        lists_view::<Prompt>(r@) == listed_prompts(streams_view(streams@)),
{
    let ghost all = listed_prompts(streams_view(streams@));
    let mut out: Vec<(String, Vec<Prompt>)> = Vec::new();
    for stream in it: streams
        invariant
            all == listed_prompts(streams_view(it.seq())),
            out@.len() == it.index(),
            forall|k: int|
                0 <= k < it.index() ==> (#[trigger] out@[k]).0@ == all[k].0 && items_view::<Prompt>(
                    out@[k].1@,
                ) == all[k].1,
    {
        let ghost i = it.index();
        assert(all[i].0 == stream.0@);
        let (server, result) = stream;
        let items = match result {
            ServerResult::ListPromptsResult(v) => v,
            _ => Vec::new(),
        };
        assert(items_view::<Prompt>(items@) =~= all[i].1);
        out.push((server, items));
    }
    assert(lists_view::<Prompt>(out@) =~= all);
    out
}

/// What clients see of the prompts that the servers listed.
pub open spec fn shown_prompts(
    relay: RelayView,
    streams: Seq<(Seq<char>, ServerResultView)>,
    denied: Seq<(Seq<char>, Seq<char>)>,
) -> Seq<(EntryView, PromptView)> {
    shown_of_all::<Prompt>(relay, listed_prompts(streams), denied)
}

/// The resources that each server listed; none for an answer of another kind.
pub open spec fn listed_resources(streams: Seq<(Seq<char>, ServerResultView)>) -> Seq<
    (Seq<char>, Seq<ResourceView>),
> {
    Seq::new(
        streams.len(),
        |i: int|
            (
                streams[i].0,
                match streams[i].1 {
                    ServerResultView::ListResourcesResult(v) => v,
                    _ => Seq::empty(),
                },
            ),
    )
}

fn take_resources(streams: Vec<(String, ServerResult)>) -> (r: Vec<(String, Vec<Resource>)>)
    ensures
        lists_view::<Resource>(r@) == listed_resources(streams_view(streams@)),
{
    let ghost all = listed_resources(streams_view(streams@));
    let mut out: Vec<(String, Vec<Resource>)> = Vec::new();
    for stream in it: streams
        invariant
            all == listed_resources(streams_view(it.seq())),
            out@.len() == it.index(),
            forall|k: int|
                0 <= k < it.index() ==> (#[trigger] out@[k]).0@ == all[k].0 && items_view::<Resource>(
                    out@[k].1@,
                ) == all[k].1,
    {
        let ghost i = it.index();
        assert(all[i].0 == stream.0@);
        let (server, result) = stream;
        let items = match result {
            ServerResult::ListResourcesResult(v) => v,
            _ => Vec::new(),
        };
        assert(items_view::<Resource>(items@) =~= all[i].1);
        out.push((server, items));
    }
    assert(lists_view::<Resource>(out@) =~= all);
    out
}

/// What clients see of the resources that the servers listed.
pub open spec fn shown_resources(
    relay: RelayView,
    streams: Seq<(Seq<char>, ServerResultView)>,
    denied: Seq<(Seq<char>, Seq<char>)>,
) -> Seq<(EntryView, ResourceView)> {
    shown_of_all::<Resource>(relay, listed_resources(streams), denied)
}

/// The resource templates that each server listed; none for an answer of another kind.
pub open spec fn listed_resource_templates(streams: Seq<(Seq<char>, ServerResultView)>) -> Seq<
    (Seq<char>, Seq<ResourceTemplateView>),
> {
    Seq::new(
        streams.len(),
        |i: int|
            (
                streams[i].0,
                match streams[i].1 {
                    ServerResultView::ListResourceTemplatesResult(v) => v,
                    _ => Seq::empty(),
                },
            ),
    )
}

fn take_resource_templates(streams: Vec<(String, ServerResult)>) -> (r: Vec<(String, Vec<ResourceTemplate>)>)
    ensures
        lists_view::<ResourceTemplate>(r@) == listed_resource_templates(streams_view(streams@)),
{
    let ghost all = listed_resource_templates(streams_view(streams@));
    let mut out: Vec<(String, Vec<ResourceTemplate>)> = Vec::new();
    for stream in it: streams
        invariant
            all == listed_resource_templates(streams_view(it.seq())),
            out@.len() == it.index(),
            forall|k: int|
                0 <= k < it.index() ==> (#[trigger] out@[k]).0@ == all[k].0 && items_view::<ResourceTemplate>(
                    out@[k].1@,
                ) == all[k].1,
    {
        let ghost i = it.index();
        assert(all[i].0 == stream.0@);
        let (server, result) = stream;
        let items = match result {
            ServerResult::ListResourceTemplatesResult(v) => v,
            _ => Vec::new(),
        };
        assert(items_view::<ResourceTemplate>(items@) =~= all[i].1);
        out.push((server, items));
    }
    assert(lists_view::<ResourceTemplate>(out@) =~= all);
    out
}

/// What clients see of the resource templates that the servers listed.
pub open spec fn shown_resource_templates(
    relay: RelayView,
    streams: Seq<(Seq<char>, ServerResultView)>,
    denied: Seq<(Seq<char>, Seq<char>)>,
) -> Seq<(EntryView, ResourceTemplateView)> {
    shown_of_all::<ResourceTemplate>(relay, listed_resource_templates(streams), denied)
}

/// The tasks that each server listed; none for an answer of another kind.
pub open spec fn listed_tasks(streams: Seq<(Seq<char>, ServerResultView)>) -> Seq<
    (Seq<char>, Seq<TaskView>),
> {
    Seq::new(
        streams.len(),
        |i: int|
            (
                streams[i].0,
                match streams[i].1 {
                    ServerResultView::ListTasksResult(v) => v,
                    _ => Seq::empty(),
                },
            ),
    )
}

fn take_tasks(streams: Vec<(String, ServerResult)>) -> (r: Vec<(String, Vec<Task>)>)
    ensures
        lists_view::<Task>(r@) == listed_tasks(streams_view(streams@)),
{
    let ghost all = listed_tasks(streams_view(streams@));
    let mut out: Vec<(String, Vec<Task>)> = Vec::new();
    for stream in it: streams
        invariant
            all == listed_tasks(streams_view(it.seq())),
            out@.len() == it.index(),
            forall|k: int|
                0 <= k < it.index() ==> (#[trigger] out@[k]).0@ == all[k].0 && items_view::<Task>(
                    out@[k].1@,
                ) == all[k].1,
    {
        let ghost i = it.index();
        assert(all[i].0 == stream.0@);
        let (server, result) = stream;
        let items = match result {
            ServerResult::ListTasksResult(v) => v,
            _ => Vec::new(),
        };
        assert(items_view::<Task>(items@) =~= all[i].1);
        out.push((server, items));
    }
    assert(lists_view::<Task>(out@) =~= all);
    out
}

/// What clients see of the tasks that the servers listed.
pub open spec fn shown_tasks(
    relay: RelayView,
    streams: Seq<(Seq<char>, ServerResultView)>,
    denied: Seq<(Seq<char>, Seq<char>)>,
) -> Seq<(EntryView, TaskView)> {
    shown_of_all::<Task>(relay, listed_tasks(streams), denied)
}

impl Relay {
    /// Merges the tools that the servers listed. What the policy denies is left out, by the name that
    /// the server gave it. Where names are flat, the routes of the tools are kept, and of equal names
    /// the first stays in the list.
    pub fn merge_tools(
        &mut self,
        streams: Vec<(String, ServerResult)>,
        denied: &Vec<ResourceId>,
    ) -> (r: ServerResult)
        ensures
            r@ == ServerResultView::ListToolsResult(
                merged_list(
                    is_flat(old(self)@.rewrite),
                    shown_tools(old(self)@, streams_view(streams@), denials(denied@)),
                ),
            ),
            final(self)@ == (RelayView {
                tool_routes: if is_flat(old(self)@.rewrite) {
                    route_index(
                        entries_of(
                            shown_tools(old(self)@, streams_view(streams@), denials(denied@)),
                        ),
                    )
                } else {
                    old(self)@.tool_routes
                },
                ..old(self)@
            }),
    {
        let lists = take_tools(streams);
        let collected = collect_all(&*self, lists, denied);
        proof {
            lemma_collected(collected);
        }
        if self.mcp_rewrite.flat() {
            self.flat_tool_routes = build_flat_route_index(collected.entries);
            let kept = filter_flat_tool_collisions(collected.items);
            assert(tools_view(kept@) =~= items_view::<Tool>(kept@));
            ServerResult::ListToolsResult(kept)
        } else {
            assert(tools_view(collected.items@) =~= items_view::<Tool>(collected.items@));
            ServerResult::ListToolsResult(collected.items)
        }
    }

    /// Merges the prompts that the servers listed, in the same way as tools.
    pub fn merge_prompts(
        &mut self,
        streams: Vec<(String, ServerResult)>,
        denied: &Vec<ResourceId>,
    ) -> (r: ServerResult)
        ensures
            r@ == ServerResultView::ListPromptsResult(
                merged_list(
                    is_flat(old(self)@.rewrite),
                    shown_prompts(old(self)@, streams_view(streams@), denials(denied@)),
                ),
            ),
            final(self)@ == (RelayView {
                prompt_routes: if is_flat(old(self)@.rewrite) {
                    route_index(
                        entries_of(
                            shown_prompts(old(self)@, streams_view(streams@), denials(denied@)),
                        ),
                    )
                } else {
                    old(self)@.prompt_routes
                },
                ..old(self)@
            }),
    {
        let lists = take_prompts(streams);
        let collected = collect_all(&*self, lists, denied);
        proof {
            lemma_collected(collected);
        }
        if self.mcp_rewrite.flat() {
            self.flat_prompt_routes = build_flat_route_index(collected.entries);
            let kept = filter_flat_prompt_collisions(collected.items);
            assert(prompts_view(kept@) =~= items_view::<Prompt>(kept@));
            ServerResult::ListPromptsResult(kept)
        } else {
            assert(prompts_view(collected.items@) =~= items_view::<Prompt>(collected.items@));
            ServerResult::ListPromptsResult(collected.items)
        }
    }

    /// Merges the resources that the servers listed. What the policy denies is left out, by the URI
    /// that the server gave it. Where names are flat, of equal names the first stays in the list.
    pub fn merge_resources(
        &self,
        streams: Vec<(String, ServerResult)>,
        denied: &Vec<ResourceId>,
    ) -> (r: ServerResult)
        ensures
            r@ == ServerResultView::ListResourcesResult(
                merged_list(
                    is_flat(self@.rewrite),
                    shown_resources(self@, streams_view(streams@), denials(denied@)),
                ),
            ),
    {
        let lists = take_resources(streams);
        let collected = collect_all(self, lists, denied);
        proof {
            lemma_collected(collected);
        }
        if self.mcp_rewrite.flat() {
            let kept = filter_flat_resource_collisions(collected.items);
            assert(listed_resources_view(kept@) =~= items_view::<Resource>(kept@));
            ServerResult::ListResourcesResult(kept)
        } else {
            assert(listed_resources_view(collected.items@) =~= items_view::<Resource>(collected.items@));
            ServerResult::ListResourcesResult(collected.items)
        }
    }

    /// Merges the resource templates that the servers listed. What the policy denies is left out, by the URI
    /// that the server gave it. Where names are flat, of equal names the first stays in the list.
    pub fn merge_resource_templates(
        &self,
        streams: Vec<(String, ServerResult)>,
        denied: &Vec<ResourceId>,
    ) -> (r: ServerResult)
        ensures
            r@ == ServerResultView::ListResourceTemplatesResult(
                merged_list(
                    is_flat(self@.rewrite),
                    shown_resource_templates(self@, streams_view(streams@), denials(denied@)),
                ),
            ),
    {
        let lists = take_resource_templates(streams);
        let collected = collect_all(self, lists, denied);
        proof {
            lemma_collected(collected);
        }
        if self.mcp_rewrite.flat() {
            let kept = filter_flat_resource_template_collisions(collected.items);
            assert(templates_view(kept@) =~= items_view::<ResourceTemplate>(kept@));
            ServerResult::ListResourceTemplatesResult(kept)
        } else {
            assert(templates_view(collected.items@) =~= items_view::<ResourceTemplate>(collected.items@));
            ServerResult::ListResourceTemplatesResult(collected.items)
        }
    }

    /// Merges the tasks that the servers listed. Where names are flat and several targets share
    /// them, the routes of the tasks join those that are known, of which none is lost: a task that
    /// was just created may not be in the list yet.
    pub fn merge_tasks(
        &mut self,
        streams: Vec<(String, ServerResult)>,
        denied: &Vec<ResourceId>,
    ) -> (r: ServerResult)
        ensures
            r@ == ServerResultView::ListTasksResult(
                merged_list(
                    flat_and_shared(old(self)@),
                    shown_tasks(old(self)@, streams_view(streams@), denials(denied@)),
                ),
            ),
            final(self)@ == (RelayView {
                task_routes: if flat_and_shared(old(self)@) {
                    with_routes(
                        old(self)@.task_routes,
                        entries_of(
                            shown_tasks(old(self)@, streams_view(streams@), denials(denied@)),
                        ),
                    )
                } else {
                    old(self)@.task_routes
                },
                ..old(self)@
            }),
    {
        let lists = take_tasks(streams);
        let collected = collect_all(&*self, lists, denied);
        proof {
            lemma_collected(collected);
        }
        if self.mcp_rewrite.flat() && self.default_target_name.is_none() {
            add_routes(&mut self.flat_task_routes, collected.entries);
            let kept = filter_flat_task_collisions(collected.items);
            assert(tasks_view(kept@) =~= items_view::<Task>(kept@));
            ServerResult::ListTasksResult(kept)
        } else {
            assert(tasks_view(collected.items@) =~= items_view::<Task>(collected.items@));
            ServerResult::ListTasksResult(collected.items)
        }
    }

    /// The answer to a request whose answers carry nothing.
    pub fn merge_empty(&self) -> (r: ServerResult)
        ensures
            r@ == ServerResultView::Empty,
    {
        ServerResult::Empty
    }
}

/// The answers to `initialize` among the answers, with the servers that gave them.
pub open spec fn initialized(streams: Seq<(Seq<char>, ServerResultView)>) -> Seq<
    (Seq<char>, InitializeResultView),
>
    decreases streams.len(),
{
    if streams.len() == 0 {
        Seq::empty()
    } else {
        let before = initialized(streams.drop_last());
        match streams.last().1 {
            ServerResultView::InitializeResult(r) => before.push((streams.last().0, r)),
            _ => before,
        }
    }
}

/// The lowest protocol version among the client's and the servers'.
pub open spec fn lowest_version(
    pv: Seq<char>,
    answers: Seq<(Seq<char>, InitializeResultView)>,
) -> Seq<char>
    decreases answers.len(),
{
    if answers.len() == 0 {
        pv
    } else {
        let before = lowest_version(pv, answers.drop_last());
        let version = answers.last().1.protocol_version;
        if text::comes_before(version, before) {
            version
        } else {
            before
        }
    }
}

/// The instructions that servers gave, with their names.
pub open spec fn given_instructions(answers: Seq<(Seq<char>, InitializeResultView)>) -> Seq<
    (Seq<char>, Seq<char>),
>
    decreases answers.len(),
{
    if answers.len() == 0 {
        Seq::empty()
    } else {
        let before = given_instructions(answers.drop_last());
        match answers.last().1.instructions {
            Some(text) => if text.len() > 0 {
                before.push((answers.last().0, text))
            } else {
                before
            },
            None => before,
        }
    }
}

/// The known capabilities after the answers came in.
pub open spec fn with_answers(
    known: CapabilitiesView,
    answers: Seq<(Seq<char>, InitializeResultView)>,
) -> CapabilitiesView
    decreases answers.len(),
{
    if answers.len() == 0 {
        known
    } else {
        with_answers(known, answers.drop_last()).insert(
            answers.last().0,
            answers.last().1.capabilities,
        )
    }
}

/// The answer to `initialize`: that of the only server as it is, or, where several share the
/// endpoint or the only one failed, that of the gateway.
pub open spec fn merged_initialize(
    relay: RelayView,
    pv: Seq<char>,
    multiplexing: bool,
    streams: Seq<(Seq<char>, ServerResultView)>,
    build_version: Seq<char>,
) -> InitializeResultView {
    if multiplexing {
        server_info(
            lowest_version(pv, initialized(streams)),
            true,
            relay.stateful,
            given_instructions(initialized(streams)),
            relay.rewrite.server,
            build_version,
        )
    } else if streams.len() > 0 && streams[0].1 is InitializeResult {
        streams[0].1->InitializeResult_0
    } else {
        server_info(pv, false, relay.stateful, Seq::empty(), relay.rewrite.server, build_version)
    }
}

impl Relay {
    /// Merges the answers to `initialize`.
    ///
    /// The answer of a single server is forwarded. Where several share the endpoint, the gateway
    /// answers for them: with the lowest protocol version that all support, and with the
    /// instructions of those that gave some. What each can do is remembered.
    pub fn merge_initialize(
        &mut self,
        pv: String,
        multiplexing: bool,
        streams: Vec<(String, ServerResult)>,
        build_version: &str,
    ) -> (r: ServerResult)
        ensures
            r@ == ServerResultView::InitializeResult(
                merged_initialize(
                    old(self)@,
                    pv@,
                    multiplexing,
                    streams_view(streams@),
                    build_version@,
                ),
            ),
            final(self)@ == (RelayView {
                capabilities: if multiplexing {
                    with_answers(
                        old(self)@.capabilities,
                        initialized(streams_view(streams@)),
                    )
                } else {
                    old(self)@.capabilities
                },
                ..old(self)@
            }),
    {
        let ghost all = streams_view(streams@);
        let n: usize = streams.len();
        let server = copy_opt_server(self.mcp_rewrite.server_rewrite());
        if !multiplexing {
            let mut first: Option<ServerResult> = None;
            for stream in it: streams
                invariant
                    all == streams_view(it.seq()),
                    it.index() == 0 ==> first is None,
                    it.index() > 0 ==> (first matches Some(x) && x@ == all[0].1),
            {
                if first.is_none() {
                    let (_, result) = stream;
                    first = Some(result);
                }
            }
            if let Some(ServerResult::InitializeResult(ir)) = first {
                return ServerResult::InitializeResult(ir);
            }
            let none: Vec<(String, String)> = Vec::new();
            assert(pairs(none@) =~= Seq::empty());
            return ServerResult::InitializeResult(
                build_server_info(pv, false, self.stateful, none, server, build_version),
            );
        }
        let ghost known = self@.capabilities;
        let mut lowest = pv;
        let mut instructions: Vec<(String, String)> = Vec::new();
        assert(all.take(0) =~= Seq::<(Seq<char>, ServerResultView)>::empty());
        assert(pairs(instructions@) =~= Seq::empty());
        for stream in it: streams
            invariant
                all == streams_view(it.seq()),
                known == old(self)@.capabilities,
                self@ == (RelayView {
                    capabilities: with_answers(known, initialized(all.take(it.index()))),
                    ..old(self)@
                }),
                lowest@ == lowest_version(pv@, initialized(all.take(it.index()))),
                pairs(instructions@) == given_instructions(initialized(all.take(it.index()))),
        {
            let ghost i = it.index();
            let ghost head = initialized(all.take(i));
            assert(all.take(i + 1).drop_last() =~= all.take(i));
            assert(all.take(i + 1).last() == (stream.0@, stream.1@));
            let (name, result) = stream;
            if let ServerResult::InitializeResult(answer) = result {
                proof {
                    let longer = head.push((name@, answer@));
                    assert(longer.drop_last() =~= head);
                    assert(initialized(all.take(i + 1)) == longer);
                }
                self.capabilities.store(name.as_str(), answer.capabilities);
                if text::less_than(answer.protocol_version.as_str(), lowest.as_str()) {
                    lowest = answer.protocol_version;
                }
                let ghost before = pairs(instructions@);
                if let Some(words) = answer.instructions {
                    if !words.as_str().is_empty() {
                        instructions.push((name, words));
                        assert(pairs(instructions@) =~= before.push((name@, words@)));
                    }
                }
            }
        }
        assert(all.take(n as int) =~= all);
        ServerResult::InitializeResult(
            build_server_info(lowest, true, self.stateful, instructions, server, build_version),
        )
    }
}

/// Nothing that the policy denies is ever listed.
pub proof fn law_denied_is_not_listed<T: Listable>(
    relay: RelayView,
    lists: Seq<(Seq<char>, Seq<T::V>)>,
    denied: Seq<(Seq<char>, Seq<char>)>,
)
    ensures
        forall|i: int|
            0 <= i < shown_of_all::<T>(relay, lists, denied).len() ==> {
                let e = (#[trigger] shown_of_all::<T>(relay, lists, denied)[i]).0;
                !denied.contains((e.0, e.1))
            },
    decreases lists.len(),
{
    if lists.len() > 0 {
        let head = lists.drop_last();
        let (server, items) = lists.last();
        law_denied_is_not_listed::<T>(relay, head, denied);
        lemma_denied_of_server::<T>(relay, server, items, denied);
        let a = shown_of_all::<T>(relay, head, denied);
        let b = shown_of_server::<T>(relay, server, items, denied);
        assert forall|i: int| 0 <= i < (a + b).len() implies {
            let e = (#[trigger] (a + b)[i]).0;
            !denied.contains((e.0, e.1))
        } by {
            if i < a.len() {
                assert((a + b)[i] == a[i]);
            } else {
                assert((a + b)[i] == b[i - a.len()]);
            }
        }
    }
}

proof fn lemma_denied_of_server<T: Listable>(
    relay: RelayView,
    server: Seq<char>,
    items: Seq<T::V>,
    denied: Seq<(Seq<char>, Seq<char>)>,
)
    ensures
        forall|i: int|
            0 <= i < shown_of_server::<T>(relay, server, items, denied).len() ==> {
                let e = (#[trigger] shown_of_server::<T>(relay, server, items, denied)[i]).0;
                !denied.contains((e.0, e.1))
            },
    decreases items.len(),
{
    if items.len() > 0 {
        lemma_denied_of_server::<T>(relay, server, items.drop_last(), denied);
        let before = shown_of_server::<T>(relay, server, items.drop_last(), denied);
        let all = shown_of_server::<T>(relay, server, items, denied);
        assert forall|i: int| 0 <= i < all.len() implies {
            let e = (#[trigger] all[i]).0;
            !denied.contains((e.0, e.1))
        } by {
            if i < before.len() {
                assert(all[i] == before[i]);
            } else {
                assert(all[i] == shown_entry::<T>(relay, server, items.last()));
            }
        }
    }
}

/// What clients see carries its visible name.
pub(crate) proof fn lemma_shown_visible<T: Listable>(
    relay: RelayView,
    lists: Seq<(Seq<char>, Seq<T::V>)>,
    denied: Seq<(Seq<char>, Seq<char>)>,
)
    ensures
        forall|i: int|
            0 <= i < shown_of_all::<T>(relay, lists, denied).len() ==> {
                let e = #[trigger] shown_of_all::<T>(relay, lists, denied)[i];
                e.0.2 == T::visible(e.1)
            },
    decreases lists.len(),
{
    if lists.len() > 0 {
        let (server, items) = lists.last();
        let a = shown_of_all::<T>(relay, lists.drop_last(), denied);
        let b = shown_of_server::<T>(relay, server, items, denied);
        lemma_shown_visible::<T>(relay, lists.drop_last(), denied);
        lemma_shown_visible_of_server::<T>(relay, server, items, denied);
        assert forall|i: int| 0 <= i < (a + b).len() implies {
            let e = #[trigger] (a + b)[i];
            e.0.2 == T::visible(e.1)
        } by {
            if i < a.len() {
                assert((a + b)[i] == a[i]);
            } else {
                assert((a + b)[i] == b[i - a.len()]);
            }
        }
    }
}

proof fn lemma_shown_visible_of_server<T: Listable>(
    relay: RelayView,
    server: Seq<char>,
    items: Seq<T::V>,
    denied: Seq<(Seq<char>, Seq<char>)>,
)
    ensures
        forall|i: int|
            0 <= i < shown_of_server::<T>(relay, server, items, denied).len() ==> {
                let e = #[trigger] shown_of_server::<T>(relay, server, items, denied)[i];
                e.0.2 == T::visible(e.1)
            },
    decreases items.len(),
{
    if items.len() > 0 {
        lemma_shown_visible_of_server::<T>(relay, server, items.drop_last(), denied);
        let before = shown_of_server::<T>(relay, server, items.drop_last(), denied);
        let all = shown_of_server::<T>(relay, server, items, denied);
        assert forall|i: int| 0 <= i < all.len() implies {
            let e = #[trigger] all[i];
            e.0.2 == T::visible(e.1)
        } by {
            if i < before.len() {
                assert(all[i] == before[i]);
            }
        }
    }
}

pub(crate) proof fn lemma_kept_is_from<A>(items: Seq<A>, names: Seq<Seq<char>>, k: int) -> (j: int)
    requires
        items.len() == names.len(),
        0 <= k < keep_first(items, names).len(),
    ensures
        0 <= j < items.len(),
        items[j] == keep_first(items, names)[k],
        !names.take(j).contains(names[j]),
        k < keep_first(names, names).len(),
        keep_first(names, names)[k] == names[j],
    decreases items.len(),
{
    let head = names.drop_last();
    let kept = keep_first(items.drop_last(), head);
    lemma_kept_len(items.drop_last(), head);
    if k < kept.len() {
        let j = lemma_kept_is_from(items.drop_last(), head, k);
        assert(head.take(j) =~= names.take(j));
        j
    } else {
        assert(names.take(names.len() - 1) =~= head);
        items.len() - 1
    }
}

proof fn lemma_kept_len<A>(items: Seq<A>, names: Seq<Seq<char>>)
    requires
        items.len() == names.len(),
    ensures
        keep_first(items, names).len() == keep_first(names, names).len(),
    decreases items.len(),
{
    if items.len() > 0 {
        lemma_kept_len(items.drop_last(), names.drop_last());
    }
}

/// The offer behind the `k`-th item of a merged list: the first of that name, whose route leads to
/// the server that listed the item. No other item of the list has the name.
pub(crate) proof fn lemma_listed_item<T: Listable>(
    relay: RelayView,
    lists: Seq<(Seq<char>, Seq<T::V>)>,
    denied: Seq<(Seq<char>, Seq<char>)>,
    k: int,
) -> (j: int)
    requires
        0 <= k < merged_list(true, shown_of_all::<T>(relay, lists, denied)).len(),
    ensures
        ({
            let shown = shown_of_all::<T>(relay, lists, denied);
            let routes = route_index(entries_of(shown));
            &&& 0 <= j < shown.len()
            &&& shown[j].1 == merged_list(true, shown)[k]
            &&& shown[j].0.2 == T::visible(shown[j].1)
            &&& routes.contains_key(shown[j].0.2)
            &&& routes[shown[j].0.2] == (shown[j].0.0, shown[j].0.1)
            &&& !denied.contains((shown[j].0.0, shown[j].0.1))
            &&& forall|i: int| 0 <= i < j ==> (#[trigger] shown[i]).0.2 != shown[j].0.2
            &&& forall|l: int|
                0 <= l < merged_list(true, shown).len() && l != k ==> T::visible(
                    #[trigger] merged_list(true, shown)[l],
                ) != shown[j].0.2
        }),
{
    let shown = shown_of_all::<T>(relay, lists, denied);
    let names = visible_of(shown);
    let entries = entries_of(shown);
    let item = |p: (EntryView, T::V)| p.1;
    let entry = |p: (EntryView, T::V)| p.0;
    lemma_keep_first_map(shown, names, item);
    lemma_keep_first_map(shown, names, entry);
    assert(shown.map_values(item) =~= items_of(shown));
    assert(shown.map_values(entry) =~= entries);
    let j = lemma_kept_is_from(shown, names, k);
    assert(keep_first(shown, names).map_values(entry)[k] == shown[j].0);
    assert(visible_names(entries) =~= names);
    law_visible_is_routable(entries);
    assert(keep_first(entries, names)[k] == shown[j].0);
    lemma_shown_visible::<T>(relay, lists, denied);
    law_denied_is_not_listed::<T>(relay, lists, denied);
    assert forall|i: int| 0 <= i < j implies (#[trigger] shown[i]).0.2 != shown[j].0.2 by {
        assert(names.take(j)[i] == shown[i].0.2);
    }
    law_keep_first(names, names);
    let list = merged_list(true, shown);
    assert forall|l: int| 0 <= l < list.len() && l != k implies T::visible(#[trigger] list[l])
        != shown[j].0.2 by {
        let i = lemma_kept_is_from(shown, names, l);
        assert(shown[i].1 == list[l]);
    }
    j
}

} // verus!
