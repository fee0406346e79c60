//! What holds of the merged lists of several upstreams, and of the items in them as clients see
//! them.

use crate::handler::merge::{
    Listable, denials, items_of, lemma_shown_visible, listed_prompts, listed_resource_templates,
    listed_resources, listed_tasks, listed_tools, merged_list, shown_entry, shown_of_all,
    shown_of_server, shown_prompt, shown_prompts, shown_resource, shown_resource_templates,
    shown_resources, shown_task, shown_tasks, shown_tool, shown_tools, streams_view, visible_of,
};
use crate::handler::{RelayView, flat_and_shared};
use crate::info::ResourceId;
use crate::mcp_apps::routing::{listed_template, ui_meta_wrapped, wrapped_template, wrapped_uri};
use crate::model::{
    Prompt, PromptView, Resource, ResourceTemplate, ResourceTemplateView, ResourceView,
    ServerResult, ServerResultView, Task, TaskView, Tool, ToolView,
};
use crate::rewrite::{
    TargetView, is_flat, presented_prompt, presented_resource, presented_tool, target_index_from,
};
use crate::routes::{EntryView, law_keep_first};
use vstd::prelude::*;
use vstd::string::*;

verus! {

/// A resource template as clients see it.
pub open spec fn shown_template(
    relay: RelayView,
    server: Seq<char>,
    t: ResourceTemplateView,
) -> ResourceTemplateView {
    listed_template(relay.default_target, server, t, is_flat(relay.rewrite))
}

proof fn lemma_one_more<T: Listable>(
    relay: RelayView,
    lists: Seq<(Seq<char>, Seq<T::V>)>,
    server: Seq<char>,
    items: Seq<T::V>,
    item: T::V,
    denied: Seq<(Seq<char>, Seq<char>)>,
)
    ensures
        shown_of_all::<T>(relay, Seq::empty(), denied) == Seq::<(EntryView, T::V)>::empty(),
        shown_of_all::<T>(relay, lists.push((server, Seq::empty())), denied) == shown_of_all::<T>(
            relay,
            lists,
            denied,
        ),
        ({
            let less = shown_of_all::<T>(relay, lists.push((server, items)), denied);
            let more = shown_of_all::<T>(relay, lists.push((server, items.push(item))), denied);
            more == if denied.contains((server, T::upstream_name(item))) {
                less
            } else {
                less.push(shown_entry::<T>(relay, server, item))
            }
        }),
{
    let none = lists.push((server, Seq::<T::V>::empty()));
    let less = lists.push((server, items));
    let more = lists.push((server, items.push(item)));
    assert(none.drop_last() =~= lists);
    assert(less.drop_last() =~= lists);
    assert(more.drop_last() =~= lists);
    assert(items.push(item).drop_last() =~= items);
    assert(shown_of_all::<T>(relay, none, denied) =~= shown_of_all::<T>(relay, lists, denied));
    let a = shown_of_all::<T>(relay, lists, denied);
    let b = shown_of_server::<T>(relay, server, items, denied);
    assert(shown_of_all::<T>(relay, less, denied) == a + b);
    let e = shown_entry::<T>(relay, server, item);
    assert(a + b.push(e) =~= (a + b).push(e));
}

proof fn lemma_shown_by_server<T: Listable>(
    relay: RelayView,
    server: Seq<char>,
    items: Seq<T::V>,
    denied: Seq<(Seq<char>, Seq<char>)>,
    j: int,
)
    requires
        0 <= j < items.len(),
        !denied.contains((server, T::upstream_name(items[j]))),
    ensures
        shown_of_server::<T>(relay, server, items, denied).contains(
            shown_entry::<T>(relay, server, items[j]),
        ),
    decreases items.len(),
{
    let head = items.drop_last();
    let before = shown_of_server::<T>(relay, server, head, denied);
    let all = shown_of_server::<T>(relay, server, items, denied);
    let e = shown_entry::<T>(relay, server, items[j]);
    if j < head.len() {
        assert(head[j] == items[j]);
        lemma_shown_by_server::<T>(relay, server, head, denied, j);
        let k = choose|k: int| 0 <= k < before.len() && before[k] == e;
        assert(all[k] == e);
    } else {
        assert(all.last() == e);
    }
}

proof fn lemma_all_shown<T: Listable>(
    relay: RelayView,
    lists: Seq<(Seq<char>, Seq<T::V>)>,
    denied: Seq<(Seq<char>, Seq<char>)>,
    i: int,
    j: int,
)
    requires
        0 <= i < lists.len(),
        0 <= j < lists[i].1.len(),
        !denied.contains((lists[i].0, T::upstream_name(lists[i].1[j]))),
    ensures
        shown_of_all::<T>(relay, lists, denied).contains(
            shown_entry::<T>(relay, lists[i].0, lists[i].1[j]),
        ),
    decreases lists.len(),
{
    let head = lists.drop_last();
    let e = shown_entry::<T>(relay, lists[i].0, lists[i].1[j]);
    let a = shown_of_all::<T>(relay, head, denied);
    let b = shown_of_server::<T>(relay, lists.last().0, lists.last().1, denied);
    assert(shown_of_all::<T>(relay, lists, denied) == a + b);
    if i < head.len() {
        assert(head[i] == lists[i]);
        lemma_all_shown::<T>(relay, head, denied, i, j);
        let k = choose|k: int| 0 <= k < a.len() && a[k] == e;
        assert((a + b)[k] == e);
    } else {
        lemma_shown_by_server::<T>(relay, lists.last().0, lists.last().1, denied, j);
        let k = choose|k: int| 0 <= k < b.len() && b[k] == e;
        assert((a + b)[a.len() + k] == e);
    }
}

/// Entry `e` is what clients see of an item of some list that the policy does not deny.
pub open spec fn is_of_a_list<T: Listable>(
    relay: RelayView,
    lists: Seq<(Seq<char>, Seq<T::V>)>,
    denied: Seq<(Seq<char>, Seq<char>)>,
    e: (EntryView, T::V),
) -> bool {
    exists|i: int, j: int|
        0 <= i < lists.len() && 0 <= j < lists[i].1.len() && e == #[trigger] shown_entry::<T>(
            relay,
            lists[i].0,
            lists[i].1[j],
        ) && !denied.contains((lists[i].0, T::upstream_name(lists[i].1[j])))
}

proof fn lemma_of_a_server<T: Listable>(
    relay: RelayView,
    server: Seq<char>,
    items: Seq<T::V>,
    denied: Seq<(Seq<char>, Seq<char>)>,
    k: int,
) -> (j: int)
    requires
        0 <= k < shown_of_server::<T>(relay, server, items, denied).len(),
    ensures
        0 <= j < items.len(),
        shown_of_server::<T>(relay, server, items, denied)[k] == shown_entry::<T>(
            relay,
            server,
            items[j],
        ),
        !denied.contains((server, T::upstream_name(items[j]))),
    decreases items.len(),
{
    let head = items.drop_last();
    if k < shown_of_server::<T>(relay, server, head, denied).len() {
        lemma_of_a_server::<T>(relay, server, head, denied, k)
    } else {
        items.len() - 1
    }
}

proof fn lemma_of_a_list<T: Listable>(
    relay: RelayView,
    lists: Seq<(Seq<char>, Seq<T::V>)>,
    denied: Seq<(Seq<char>, Seq<char>)>,
    k: int,
)
    requires
        0 <= k < shown_of_all::<T>(relay, lists, denied).len(),
    ensures
        is_of_a_list::<T>(relay, lists, denied, shown_of_all::<T>(relay, lists, denied)[k]),
    decreases lists.len(),
{
    let head = lists.drop_last();
    let a = shown_of_all::<T>(relay, head, denied);
    let (server, items) = lists.last();
    let b = shown_of_server::<T>(relay, server, items, denied);
    assert(shown_of_all::<T>(relay, lists, denied) == a + b);
    if k < a.len() {
        lemma_of_a_list::<T>(relay, head, denied, k);
        let (i, j) = choose|i: int, j: int|
            0 <= i < head.len() && 0 <= j < head[i].1.len() && a[k] == #[trigger] shown_entry::<T>(
                relay,
                head[i].0,
                head[i].1[j],
            ) && !denied.contains((head[i].0, T::upstream_name(head[i].1[j])));
        assert(head[i] == lists[i]);
        assert(a[k] == shown_entry::<T>(relay, lists[i].0, lists[i].1[j]));
    } else {
        let j = lemma_of_a_server::<T>(relay, server, items, denied, k - a.len());
        let i = lists.len() - 1;
        assert((a + b)[k] == shown_entry::<T>(relay, lists[i].0, lists[i].1[j]));
    }
}

/// A merged list holds the items that are shown, one by one in their order. Where names are flat,
/// an item whose name was shown before is left out, and no other is.
pub proof fn law_a_merged_list_grows<V>(flat: bool, shown: Seq<(EntryView, V)>, e: (EntryView, V))
    ensures
        merged_list(flat, Seq::<(EntryView, V)>::empty()) == Seq::<V>::empty(),
        merged_list(flat, shown.push(e)) == if flat && exists|i: int|
            0 <= i < shown.len() && (#[trigger] shown[i]).0.2 == e.0.2 {
            merged_list(flat, shown)
        } else {
            merged_list(flat, shown).push(e.1)
        },
{
    let empty = Seq::<(EntryView, V)>::empty();
    assert(items_of(empty) =~= Seq::<V>::empty());
    assert(visible_of(empty) =~= Seq::<Seq<char>>::empty());
    let more = shown.push(e);
    assert(items_of(more) =~= items_of(shown).push(e.1));
    assert(visible_of(more) =~= visible_of(shown).push(e.0.2));
    assert(items_of(more).drop_last() =~= items_of(shown));
    assert(visible_of(more).drop_last() =~= visible_of(shown));
    let names = visible_of(shown);
    if names.contains(e.0.2) {
        let i = choose|i: int| 0 <= i < names.len() && names[i] == e.0.2;
        assert(shown[i].0.2 == e.0.2);
    }
    if exists|i: int| 0 <= i < shown.len() && (#[trigger] shown[i]).0.2 == e.0.2 {
        let i = choose|i: int| 0 <= i < shown.len() && (#[trigger] shown[i]).0.2 == e.0.2;
        assert(names[i] == e.0.2);
    }
}

proof fn lemma_first_of_its_name(names: Seq<Seq<char>>, k: int) -> (f: int)
    requires
        0 <= k < names.len(),
    ensures
        0 <= f <= k,
        names[f] == names[k],
        !names.take(f).contains(names[f]),
    decreases k,
{
    if names.take(k).contains(names[k]) {
        let i = choose|i: int| 0 <= i < k && names.take(k)[i] == names[k];
        assert(names[i] == names[k]);
        lemma_first_of_its_name(names, i)
    } else {
        k
    }
}

proof fn lemma_merged_holds<T: Listable>(
    relay: RelayView,
    lists: Seq<(Seq<char>, Seq<T::V>)>,
    denied: Seq<(Seq<char>, Seq<char>)>,
    flat: bool,
    e: (EntryView, T::V),
)
    requires
        shown_of_all::<T>(relay, lists, denied).contains(e),
        e.0.2 == T::visible(e.1),
    ensures
        ({
            let list = merged_list(flat, shown_of_all::<T>(relay, lists, denied));
            &&& !flat ==> list.contains(e.1)
            &&& exists|l: int| 0 <= l < list.len() && T::visible(#[trigger] list[l]) == e.0.2
        }),
{
    let shown = shown_of_all::<T>(relay, lists, denied);
    let list = merged_list(flat, shown);
    let k = choose|k: int| 0 <= k < shown.len() && shown[k] == e;
    lemma_shown_visible::<T>(relay, lists, denied);
    let names = visible_of(shown);
    let items = items_of(shown);
    if flat {
        let f = lemma_first_of_its_name(names, k);
        law_keep_first(items, names);
        assert(list.contains(items[f]));
        let l = choose|l: int| 0 <= l < list.len() && list[l] == items[f];
        assert(shown[f].0.2 == e.0.2);
        assert(T::visible(list[l]) == e.0.2);
    } else {
        assert(list[k] == e.1);
        assert(T::visible(list[k]) == e.0.2);
    }
}

proof fn lemma_merged_is_of_a_list<T: Listable>(
    relay: RelayView,
    lists: Seq<(Seq<char>, Seq<T::V>)>,
    denied: Seq<(Seq<char>, Seq<char>)>,
    flat: bool,
    l: int,
) -> (at: (int, int))
    requires
        0 <= l < merged_list(flat, shown_of_all::<T>(relay, lists, denied)).len(),
    ensures
        0 <= at.0 < lists.len(),
        0 <= at.1 < lists[at.0].1.len(),
        merged_list(flat, shown_of_all::<T>(relay, lists, denied))[l] == T::shown(
            relay,
            lists[at.0].0,
            lists[at.0].1[at.1],
        ),
        !denied.contains((lists[at.0].0, T::upstream_name(lists[at.0].1[at.1]))),
{
    let shown = shown_of_all::<T>(relay, lists, denied);
    let k: int = if flat {
        crate::handler::merge::lemma_kept_is_from(items_of(shown), visible_of(shown), l)
    } else {
        l
    };
    lemma_of_a_list::<T>(relay, lists, denied, k);
    let (i, j) = choose|i: int, j: int|
        0 <= i < lists.len() && 0 <= j < lists[i].1.len() && shown[k]
            == #[trigger] shown_entry::<T>(relay, lists[i].0, lists[i].1[j]) && !denied.contains(
            (lists[i].0, T::upstream_name(lists[i].1[j])),
        );
    (i, j)
}

/// The list of tools grows as the answers do: one more tool at the end of the last answer is one
/// more entry at the end, as clients see it, unless the policy denies it; an answer without tools,
/// or of another kind, adds nothing.
pub proof fn law_tools_are_listed_in_order(
    relay: RelayView,
    streams: Seq<(Seq<char>, ServerResultView)>,
    server: Seq<char>,
    items: Seq<ToolView>,
    item: ToolView,
    other: ServerResultView,
    denied: Seq<(Seq<char>, Seq<char>)>,
)
    requires
        !(other is ListToolsResult),
    ensures
        shown_tools(relay, Seq::empty(), denied).len() == 0,
        shown_tools(relay, streams.push((server, other)), denied) == shown_tools(
            relay,
            streams,
            denied,
        ),
        shown_tools(
            relay,
            streams.push((server, ServerResultView::ListToolsResult(Seq::empty()))),
            denied,
        ) == shown_tools(relay, streams, denied),
        ({
            let less = shown_tools(
                relay,
                streams.push((server, ServerResultView::ListToolsResult(items))),
                denied,
            );
            let more = shown_tools(
                relay,
                streams.push((server, ServerResultView::ListToolsResult(items.push(item)))),
                denied,
            );
            let seen = shown_tool(relay, server, item);
            more == if denied.contains((server, item.name)) {
                less
            } else {
                less.push(((server, item.name, seen.name), seen))
            }
        }),
{
    let lists = listed_tools(streams);
    let none = Seq::<ToolView>::empty();
    lemma_one_more::<Tool>(relay, lists, server, items, item, denied);
    assert(listed_tools(Seq::empty()) =~= Seq::<(Seq<char>, Seq<ToolView>)>::empty());
    assert(listed_tools(streams.push((server, other))) =~= lists.push((server, none)));
    assert(listed_tools(streams.push((server, ServerResultView::ListToolsResult(none))))
        =~= lists.push((server, none)));
    assert(listed_tools(streams.push((server, ServerResultView::ListToolsResult(items))))
        =~= lists.push((server, items)));
    assert(listed_tools(
        streams.push((server, ServerResultView::ListToolsResult(items.push(item)))),
    ) =~= lists.push((server, items.push(item))));
}

/// Every tool that an upstream answered with and that the policy does not deny is in the merged
/// list, as clients see it: tool `j` of answer `i`. Where names are flat, the list has one under
/// its visible name, which may be that of an upstream before.
pub proof fn law_every_tool_is_listed(
    relay: RelayView,
    streams: Seq<(Seq<char>, ServerResultView)>,
    denied: Seq<(Seq<char>, Seq<char>)>,
    i: int,
    j: int,
)
    requires
        0 <= i < streams.len(),
        streams[i].1 matches ServerResultView::ListToolsResult(v) && 0 <= j < v.len()
            && !denied.contains((streams[i].0, v[j].name)),
    ensures
        ({
            let v = streams[i].1->ListToolsResult_0;
            let seen = shown_tool(relay, streams[i].0, v[j]);
            let shown = shown_tools(relay, streams, denied);
            let list = merged_list(is_flat(relay.rewrite), shown);
            &&& shown.contains(((streams[i].0, v[j].name, seen.name), seen))
            &&& !is_flat(relay.rewrite) ==> list.contains(seen)
            &&& exists|l: int| 0 <= l < list.len() && (#[trigger] list[l]).name == seen.name
        }),
{
    let lists = listed_tools(streams);
    let v = streams[i].1->ListToolsResult_0;
    let seen = shown_tool(relay, streams[i].0, v[j]);
    let e = ((streams[i].0, v[j].name, seen.name), seen);
    assert(lists[i] == (streams[i].0, v));
    lemma_all_shown::<Tool>(relay, lists, denied, i, j);
    assert(shown_entry::<Tool>(relay, lists[i].0, lists[i].1[j]) == e);
    lemma_merged_holds::<Tool>(relay, lists, denied, is_flat(relay.rewrite), e);
    let list = merged_list(is_flat(relay.rewrite), shown_tools(relay, streams, denied));
    let l = choose|l: int|
        0 <= l < list.len() && <Tool as Listable>::visible(#[trigger] list[l]) == e.0.2;
    assert(list[l].name == seen.name);
}

/// Every entry of the merged list is a tool that some upstream answered with and that the policy
/// does not deny, as clients see it.
pub proof fn law_every_listed_tool_is_served(
    relay: RelayView,
    streams: Seq<(Seq<char>, ServerResultView)>,
    denied: Seq<(Seq<char>, Seq<char>)>,
    l: int,
) -> (at: (int, int))
    requires
        0 <= l < merged_list(is_flat(relay.rewrite), shown_tools(relay, streams, denied)).len(),
    ensures
        0 <= at.0 < streams.len(),
        streams[at.0].1 matches ServerResultView::ListToolsResult(v) && 0 <= at.1 < v.len()
            && !denied.contains((streams[at.0].0, v[at.1].name)) && merged_list(
            is_flat(relay.rewrite),
            shown_tools(relay, streams, denied),
        )[l] == shown_tool(relay, streams[at.0].0, v[at.1]),
{
    lemma_merged_is_of_a_list::<Tool>(
        relay,
        listed_tools(streams),
        denied,
        is_flat(relay.rewrite),
        l,
    )
}

/// The list of prompts grows as the answers do: one more prompt at the end of the last answer is
/// one more entry at the end, as clients see it, unless the policy denies it; an answer without
/// prompts, or of another kind, adds nothing.
pub proof fn law_prompts_are_listed_in_order(
    relay: RelayView,
    streams: Seq<(Seq<char>, ServerResultView)>,
    server: Seq<char>,
    items: Seq<PromptView>,
    item: PromptView,
    other: ServerResultView,
    denied: Seq<(Seq<char>, Seq<char>)>,
)
    requires
        !(other is ListPromptsResult),
    ensures
        shown_prompts(relay, Seq::empty(), denied).len() == 0,
        shown_prompts(relay, streams.push((server, other)), denied) == shown_prompts(
            relay,
            streams,
            denied,
        ),
        shown_prompts(
            relay,
            streams.push((server, ServerResultView::ListPromptsResult(Seq::empty()))),
            denied,
        ) == shown_prompts(relay, streams, denied),
        ({
            let less = shown_prompts(
                relay,
                streams.push((server, ServerResultView::ListPromptsResult(items))),
                denied,
            );
            let more = shown_prompts(
                relay,
                streams.push((server, ServerResultView::ListPromptsResult(items.push(item)))),
                denied,
            );
            let seen = shown_prompt(relay, server, item);
            more == if denied.contains((server, item.name)) {
                less
            } else {
                less.push(((server, item.name, seen.name), seen))
            }
        }),
{
    let lists = listed_prompts(streams);
    let none = Seq::<PromptView>::empty();
    lemma_one_more::<Prompt>(relay, lists, server, items, item, denied);
    assert(listed_prompts(Seq::empty()) =~= Seq::<(Seq<char>, Seq<PromptView>)>::empty());
    assert(listed_prompts(streams.push((server, other))) =~= lists.push((server, none)));
    assert(listed_prompts(streams.push((server, ServerResultView::ListPromptsResult(none))))
        =~= lists.push((server, none)));
    assert(listed_prompts(streams.push((server, ServerResultView::ListPromptsResult(items))))
        =~= lists.push((server, items)));
    assert(listed_prompts(
        streams.push((server, ServerResultView::ListPromptsResult(items.push(item)))),
    ) =~= lists.push((server, items.push(item))));
}

/// Every prompt that an upstream answered with and that the policy does not deny is in the merged
/// list, as clients see it: prompt `j` of answer `i`. Where names are flat, the list has one under
/// its visible name, which may be that of an upstream before.
pub proof fn law_every_prompt_is_listed(
    relay: RelayView,
    streams: Seq<(Seq<char>, ServerResultView)>,
    denied: Seq<(Seq<char>, Seq<char>)>,
    i: int,
    j: int,
)
    requires
        0 <= i < streams.len(),
        streams[i].1 matches ServerResultView::ListPromptsResult(v) && 0 <= j < v.len()
            && !denied.contains((streams[i].0, v[j].name)),
    ensures
        ({
            let v = streams[i].1->ListPromptsResult_0;
            let seen = shown_prompt(relay, streams[i].0, v[j]);
            let shown = shown_prompts(relay, streams, denied);
            let list = merged_list(is_flat(relay.rewrite), shown);
            &&& shown.contains(((streams[i].0, v[j].name, seen.name), seen))
            &&& !is_flat(relay.rewrite) ==> list.contains(seen)
            &&& exists|l: int| 0 <= l < list.len() && (#[trigger] list[l]).name == seen.name
        }),
{
    let lists = listed_prompts(streams);
    let v = streams[i].1->ListPromptsResult_0;
    let seen = shown_prompt(relay, streams[i].0, v[j]);
    let e = ((streams[i].0, v[j].name, seen.name), seen);
    assert(lists[i] == (streams[i].0, v));
    lemma_all_shown::<Prompt>(relay, lists, denied, i, j);
    assert(shown_entry::<Prompt>(relay, lists[i].0, lists[i].1[j]) == e);
    lemma_merged_holds::<Prompt>(relay, lists, denied, is_flat(relay.rewrite), e);
    let list = merged_list(is_flat(relay.rewrite), shown_prompts(relay, streams, denied));
    let l = choose|l: int|
        0 <= l < list.len() && <Prompt as Listable>::visible(#[trigger] list[l]) == e.0.2;
    assert(list[l].name == seen.name);
}

/// Every entry of the merged list is a prompt that some upstream answered with and that the policy
/// does not deny, as clients see it.
pub proof fn law_every_listed_prompt_is_served(
    relay: RelayView,
    streams: Seq<(Seq<char>, ServerResultView)>,
    denied: Seq<(Seq<char>, Seq<char>)>,
    l: int,
) -> (at: (int, int))
    requires
        0 <= l < merged_list(is_flat(relay.rewrite), shown_prompts(relay, streams, denied)).len(),
    ensures
        0 <= at.0 < streams.len(),
        streams[at.0].1 matches ServerResultView::ListPromptsResult(v) && 0 <= at.1 < v.len()
            && !denied.contains((streams[at.0].0, v[at.1].name)) && merged_list(
            is_flat(relay.rewrite),
            shown_prompts(relay, streams, denied),
        )[l] == shown_prompt(relay, streams[at.0].0, v[at.1]),
{
    lemma_merged_is_of_a_list::<Prompt>(
        relay,
        listed_prompts(streams),
        denied,
        is_flat(relay.rewrite),
        l,
    )
}

/// The list of resources grows as the answers do: one more resource at the end of the last answer
/// is one more entry at the end, as clients see it, unless the policy denies it; an answer without
/// resources, or of another kind, adds nothing.
pub proof fn law_resources_are_listed_in_order(
    relay: RelayView,
    streams: Seq<(Seq<char>, ServerResultView)>,
    server: Seq<char>,
    items: Seq<ResourceView>,
    item: ResourceView,
    other: ServerResultView,
    denied: Seq<(Seq<char>, Seq<char>)>,
)
    requires
        !(other is ListResourcesResult),
    ensures
        shown_resources(relay, Seq::empty(), denied).len() == 0,
        shown_resources(relay, streams.push((server, other)), denied) == shown_resources(
            relay,
            streams,
            denied,
        ),
        shown_resources(
            relay,
            streams.push((server, ServerResultView::ListResourcesResult(Seq::empty()))),
            denied,
        ) == shown_resources(relay, streams, denied),
        ({
            let less = shown_resources(
                relay,
                streams.push((server, ServerResultView::ListResourcesResult(items))),
                denied,
            );
            let more = shown_resources(
                relay,
                streams.push((server, ServerResultView::ListResourcesResult(items.push(item)))),
                denied,
            );
            let seen = shown_resource(relay, server, item);
            more == if denied.contains((server, item.uri)) {
                less
            } else {
                less.push(((server, item.uri, seen.name), seen))
            }
        }),
{
    let lists = listed_resources(streams);
    let none = Seq::<ResourceView>::empty();
    lemma_one_more::<Resource>(relay, lists, server, items, item, denied);
    assert(listed_resources(Seq::empty()) =~= Seq::<(Seq<char>, Seq<ResourceView>)>::empty());
    assert(listed_resources(streams.push((server, other))) =~= lists.push((server, none)));
    assert(listed_resources(streams.push((server, ServerResultView::ListResourcesResult(none))))
        =~= lists.push((server, none)));
    assert(listed_resources(streams.push((server, ServerResultView::ListResourcesResult(items))))
        =~= lists.push((server, items)));
    assert(listed_resources(
        streams.push((server, ServerResultView::ListResourcesResult(items.push(item)))),
    ) =~= lists.push((server, items.push(item))));
}

/// Every resource that an upstream answered with and that the policy does not deny is in the merged
/// list, as clients see it: resource `j` of answer `i`. Where names are flat, the list has one
/// under its visible name, which may be that of an upstream before.
pub proof fn law_every_resource_is_listed(
    relay: RelayView,
    streams: Seq<(Seq<char>, ServerResultView)>,
    denied: Seq<(Seq<char>, Seq<char>)>,
    i: int,
    j: int,
)
    requires
        0 <= i < streams.len(),
        streams[i].1 matches ServerResultView::ListResourcesResult(v) && 0 <= j < v.len()
            && !denied.contains((streams[i].0, v[j].uri)),
    ensures
        ({
            let v = streams[i].1->ListResourcesResult_0;
            let seen = shown_resource(relay, streams[i].0, v[j]);
            let shown = shown_resources(relay, streams, denied);
            let list = merged_list(is_flat(relay.rewrite), shown);
            &&& shown.contains(((streams[i].0, v[j].uri, seen.name), seen))
            &&& !is_flat(relay.rewrite) ==> list.contains(seen)
            &&& exists|l: int| 0 <= l < list.len() && (#[trigger] list[l]).name == seen.name
        }),
{
    let lists = listed_resources(streams);
    let v = streams[i].1->ListResourcesResult_0;
    let seen = shown_resource(relay, streams[i].0, v[j]);
    let e = ((streams[i].0, v[j].uri, seen.name), seen);
    assert(lists[i] == (streams[i].0, v));
    lemma_all_shown::<Resource>(relay, lists, denied, i, j);
    assert(shown_entry::<Resource>(relay, lists[i].0, lists[i].1[j]) == e);
    lemma_merged_holds::<Resource>(relay, lists, denied, is_flat(relay.rewrite), e);
    let list = merged_list(is_flat(relay.rewrite), shown_resources(relay, streams, denied));
    let l = choose|l: int|
        0 <= l < list.len() && <Resource as Listable>::visible(#[trigger] list[l]) == e.0.2;
    assert(list[l].name == seen.name);
}

/// Every entry of the merged list is a resource that some upstream answered with and that the
/// policy does not deny, as clients see it.
pub proof fn law_every_listed_resource_is_served(
    relay: RelayView,
    streams: Seq<(Seq<char>, ServerResultView)>,
    denied: Seq<(Seq<char>, Seq<char>)>,
    l: int,
) -> (at: (int, int))
    requires
        0 <= l < merged_list(is_flat(relay.rewrite), shown_resources(relay, streams, denied)).len(),
    ensures
        0 <= at.0 < streams.len(),
        streams[at.0].1 matches ServerResultView::ListResourcesResult(v) && 0 <= at.1 < v.len()
            && !denied.contains((streams[at.0].0, v[at.1].uri)) && merged_list(
            is_flat(relay.rewrite),
            shown_resources(relay, streams, denied),
        )[l] == shown_resource(relay, streams[at.0].0, v[at.1]),
{
    lemma_merged_is_of_a_list::<Resource>(
        relay,
        listed_resources(streams),
        denied,
        is_flat(relay.rewrite),
        l,
    )
}

/// The list of resource templates grows as the answers do: one more resource template at the end of
/// the last answer is one more entry at the end, as clients see it, unless the policy denies it; an
/// answer without resource templates, or of another kind, adds nothing.
pub proof fn law_resource_templates_are_listed_in_order(
    relay: RelayView,
    streams: Seq<(Seq<char>, ServerResultView)>,
    server: Seq<char>,
    items: Seq<ResourceTemplateView>,
    item: ResourceTemplateView,
    other: ServerResultView,
    denied: Seq<(Seq<char>, Seq<char>)>,
)
    requires
        !(other is ListResourceTemplatesResult),
    ensures
        shown_resource_templates(relay, Seq::empty(), denied).len() == 0,
        shown_resource_templates(relay, streams.push((server, other)), denied) == shown_resource_templates(
            relay,
            streams,
            denied,
        ),
        shown_resource_templates(
            relay,
            streams.push((server, ServerResultView::ListResourceTemplatesResult(Seq::empty()))),
            denied,
        ) == shown_resource_templates(relay, streams, denied),
        ({
            let less = shown_resource_templates(
                relay,
                streams.push((server, ServerResultView::ListResourceTemplatesResult(items))),
                denied,
            );
            let more = shown_resource_templates(
                relay,
                streams.push((server, ServerResultView::ListResourceTemplatesResult(items.push(item)))),
                denied,
            );
            let seen = shown_template(relay, server, item);
            more == if denied.contains((server, item.uri_template)) {
                less
            } else {
                less.push(((server, item.uri_template, seen.name), seen))
            }
        }),
{
    let lists = listed_resource_templates(streams);
    let none = Seq::<ResourceTemplateView>::empty();
    lemma_one_more::<ResourceTemplate>(relay, lists, server, items, item, denied);
    assert(listed_resource_templates(Seq::empty()) =~= Seq::<(Seq<char>, Seq<ResourceTemplateView>)>::empty());
    assert(listed_resource_templates(streams.push((server, other))) =~= lists.push((server, none)));
    assert(listed_resource_templates(
        streams.push((server, ServerResultView::ListResourceTemplatesResult(none))),
    ) =~= lists.push((server, none)));
    assert(listed_resource_templates(
        streams.push((server, ServerResultView::ListResourceTemplatesResult(items))),
    ) =~= lists.push((server, items)));
    assert(listed_resource_templates(
        streams.push((server, ServerResultView::ListResourceTemplatesResult(items.push(item)))),
    ) =~= lists.push((server, items.push(item))));
}

/// Every resource template that an upstream answered with and that the policy does not deny is in
/// the merged list, as clients see it: resource template `j` of answer `i`. Where names are flat,
/// the list has one under its visible name, which may be that of an upstream before.
pub proof fn law_every_resource_template_is_listed(
    relay: RelayView,
    streams: Seq<(Seq<char>, ServerResultView)>,
    denied: Seq<(Seq<char>, Seq<char>)>,
    i: int,
    j: int,
)
    requires
        0 <= i < streams.len(),
        streams[i].1 matches ServerResultView::ListResourceTemplatesResult(v) && 0 <= j < v.len()
            && !denied.contains((streams[i].0, v[j].uri_template)),
    ensures
        ({
            let v = streams[i].1->ListResourceTemplatesResult_0;
            let seen = shown_template(relay, streams[i].0, v[j]);
            let shown = shown_resource_templates(relay, streams, denied);
            let list = merged_list(is_flat(relay.rewrite), shown);
            &&& shown.contains(((streams[i].0, v[j].uri_template, seen.name), seen))
            &&& !is_flat(relay.rewrite) ==> list.contains(seen)
            &&& exists|l: int| 0 <= l < list.len() && (#[trigger] list[l]).name == seen.name
        }),
{
    let lists = listed_resource_templates(streams);
    let v = streams[i].1->ListResourceTemplatesResult_0;
    let seen = shown_template(relay, streams[i].0, v[j]);
    let e = ((streams[i].0, v[j].uri_template, seen.name), seen);
    assert(lists[i] == (streams[i].0, v));
    lemma_all_shown::<ResourceTemplate>(relay, lists, denied, i, j);
    assert(shown_entry::<ResourceTemplate>(relay, lists[i].0, lists[i].1[j]) == e);
    lemma_merged_holds::<ResourceTemplate>(relay, lists, denied, is_flat(relay.rewrite), e);
    let list = merged_list(is_flat(relay.rewrite), shown_resource_templates(relay, streams, denied));
    let l = choose|l: int|
        0 <= l < list.len() && <ResourceTemplate as Listable>::visible(#[trigger] list[l]) == e.0.2;
    assert(list[l].name == seen.name);
}

/// Every entry of the merged list is a resource template that some upstream answered with and that
/// the policy does not deny, as clients see it.
pub proof fn law_every_listed_resource_template_is_served(
    relay: RelayView,
    streams: Seq<(Seq<char>, ServerResultView)>,
    denied: Seq<(Seq<char>, Seq<char>)>,
    l: int,
) -> (at: (int, int))
    requires
        0 <= l < merged_list(is_flat(relay.rewrite), shown_resource_templates(relay, streams, denied)).len(),
    ensures
        0 <= at.0 < streams.len(),
        streams[at.0].1 matches ServerResultView::ListResourceTemplatesResult(v) && 0 <= at.1 < v.len()
            && !denied.contains((streams[at.0].0, v[at.1].uri_template)) && merged_list(
            is_flat(relay.rewrite),
            shown_resource_templates(relay, streams, denied),
        )[l] == shown_template(relay, streams[at.0].0, v[at.1]),
{
    lemma_merged_is_of_a_list::<ResourceTemplate>(
        relay,
        listed_resource_templates(streams),
        denied,
        is_flat(relay.rewrite),
        l,
    )
}

/// The list of tasks grows as the answers do: one more task at the end of the last answer is one
/// more entry at the end, as clients see it, unless the policy denies it; an answer without tasks,
/// or of another kind, adds nothing.
pub proof fn law_tasks_are_listed_in_order(
    relay: RelayView,
    streams: Seq<(Seq<char>, ServerResultView)>,
    server: Seq<char>,
    items: Seq<TaskView>,
    item: TaskView,
    other: ServerResultView,
    denied: Seq<(Seq<char>, Seq<char>)>,
)
    requires
        !(other is ListTasksResult),
    ensures
        shown_tasks(relay, Seq::empty(), denied).len() == 0,
        shown_tasks(relay, streams.push((server, other)), denied) == shown_tasks(
            relay,
            streams,
            denied,
        ),
        shown_tasks(
            relay,
            streams.push((server, ServerResultView::ListTasksResult(Seq::empty()))),
            denied,
        ) == shown_tasks(relay, streams, denied),
        ({
            let less = shown_tasks(
                relay,
                streams.push((server, ServerResultView::ListTasksResult(items))),
                denied,
            );
            let more = shown_tasks(
                relay,
                streams.push((server, ServerResultView::ListTasksResult(items.push(item)))),
                denied,
            );
            let seen = shown_task(relay, server, item);
            more == if denied.contains((server, item.task_id)) {
                less
            } else {
                less.push(((server, item.task_id, seen.task_id), seen))
            }
        }),
{
    let lists = listed_tasks(streams);
    let none = Seq::<TaskView>::empty();
    lemma_one_more::<Task>(relay, lists, server, items, item, denied);
    assert(listed_tasks(Seq::empty()) =~= Seq::<(Seq<char>, Seq<TaskView>)>::empty());
    assert(listed_tasks(streams.push((server, other))) =~= lists.push((server, none)));
    assert(listed_tasks(streams.push((server, ServerResultView::ListTasksResult(none))))
        =~= lists.push((server, none)));
    assert(listed_tasks(streams.push((server, ServerResultView::ListTasksResult(items))))
        =~= lists.push((server, items)));
    assert(listed_tasks(
        streams.push((server, ServerResultView::ListTasksResult(items.push(item)))),
    ) =~= lists.push((server, items.push(item))));
}

/// Every task that an upstream answered with and that the policy does not deny is in the merged
/// list, as clients see it: task `j` of answer `i`. Where names are flat, the list has one under
/// its visible name, which may be that of an upstream before.
pub proof fn law_every_task_is_listed(
    relay: RelayView,
    streams: Seq<(Seq<char>, ServerResultView)>,
    denied: Seq<(Seq<char>, Seq<char>)>,
    i: int,
    j: int,
)
    requires
        0 <= i < streams.len(),
        streams[i].1 matches ServerResultView::ListTasksResult(v) && 0 <= j < v.len()
            && !denied.contains((streams[i].0, v[j].task_id)),
    ensures
        ({
            let v = streams[i].1->ListTasksResult_0;
            let seen = shown_task(relay, streams[i].0, v[j]);
            let shown = shown_tasks(relay, streams, denied);
            let list = merged_list(flat_and_shared(relay), shown);
            &&& shown.contains(((streams[i].0, v[j].task_id, seen.task_id), seen))
            &&& !flat_and_shared(relay) ==> list.contains(seen)
            &&& exists|l: int| 0 <= l < list.len() && (#[trigger] list[l]).task_id == seen.task_id
        }),
{
    let lists = listed_tasks(streams);
    let v = streams[i].1->ListTasksResult_0;
    let seen = shown_task(relay, streams[i].0, v[j]);
    let e = ((streams[i].0, v[j].task_id, seen.task_id), seen);
    assert(lists[i] == (streams[i].0, v));
    lemma_all_shown::<Task>(relay, lists, denied, i, j);
    assert(shown_entry::<Task>(relay, lists[i].0, lists[i].1[j]) == e);
    lemma_merged_holds::<Task>(relay, lists, denied, flat_and_shared(relay), e);
    let list = merged_list(flat_and_shared(relay), shown_tasks(relay, streams, denied));
    let l = choose|l: int|
        0 <= l < list.len() && <Task as Listable>::visible(#[trigger] list[l]) == e.0.2;
    assert(list[l].task_id == seen.task_id);
}

/// Every entry of the merged list is a task that some upstream answered with and that the policy
/// does not deny, as clients see it.
pub proof fn law_every_listed_task_is_served(
    relay: RelayView,
    streams: Seq<(Seq<char>, ServerResultView)>,
    denied: Seq<(Seq<char>, Seq<char>)>,
    l: int,
) -> (at: (int, int))
    requires
        0 <= l < merged_list(flat_and_shared(relay), shown_tasks(relay, streams, denied)).len(),
    ensures
        0 <= at.0 < streams.len(),
        streams[at.0].1 matches ServerResultView::ListTasksResult(v) && 0 <= at.1 < v.len()
            && !denied.contains((streams[at.0].0, v[at.1].task_id)) && merged_list(
            flat_and_shared(relay),
            shown_tasks(relay, streams, denied),
        )[l] == shown_task(relay, streams[at.0].0, v[at.1]),
{
    lemma_merged_is_of_a_list::<Task>(
        relay,
        listed_tasks(streams),
        denied,
        flat_and_shared(relay),
        l,
    )
}

/// What is merged is what the upstreams answered, each under its name, in the order in which they
/// answered; what is left out is what the policy denied, at the target at which it did.
pub proof fn law_answers_are_seen_whole(
    streams: Seq<(String, ServerResult)>,
    denied: Seq<ResourceId>,
    i: int,
)
    ensures
        streams_view(streams).len() == streams.len(),
        0 <= i < streams.len() ==> streams_view(streams)[i] == (streams[i].0@, streams[i].1@),
        denials(denied).len() == denied.len(),
        0 <= i < denied.len() ==> denials(denied)[i] == (denied[i].target@, denied[i].name@),
{
}

/// The name that clients see of what `server` calls `name`.
pub open spec fn is_seen_as(
    relay: RelayView,
    server: Seq<char>,
    name: Seq<char>,
    seen: Seq<char>,
) -> bool {
    if is_flat(relay.rewrite) || relay.default_target is Some {
        seen == name
    } else {
        seen == server + "_"@ + name
    }
}

/// Target `k` is the first that is called `server`.
pub open spec fn has_rules_at(relay: RelayView, server: Seq<char>, k: int) -> bool {
    &&& 0 <= k < relay.rewrite.targets.len()
    &&& relay.rewrite.targets[k].0 == server
    &&& forall|i: int| 0 <= i < k ==> (#[trigger] relay.rewrite.targets[i]).0 != server
}

/// No target with rules is called `server`.
pub open spec fn has_no_rules(relay: RelayView, server: Seq<char>) -> bool {
    forall|i: int|
        0 <= i < relay.rewrite.targets.len() ==> (#[trigger] relay.rewrite.targets[i]).0 != server
}

pub(crate) proof fn lemma_rules_at(targets: Seq<(Seq<char>, TargetView)>, server: Seq<char>, i: int, k: int)
    requires
        0 <= i <= k < targets.len(),
        targets[k].0 == server,
        forall|j: int| 0 <= j < k ==> (#[trigger] targets[j]).0 != server,
    ensures
        target_index_from(targets, server, i) == Some(k),
    decreases k - i,
{
    if i < k {
        assert(targets[i].0 != server);
        lemma_rules_at(targets, server, i + 1, k);
    }
}

pub(crate) proof fn lemma_no_rules(targets: Seq<(Seq<char>, TargetView)>, server: Seq<char>, i: int)
    requires
        0 <= i,
        forall|j: int| 0 <= j < targets.len() ==> (#[trigger] targets[j]).0 != server,
    ensures
        target_index_from(targets, server, i) is None,
    decreases targets.len() - i,
{
    if i < targets.len() {
        assert(targets[i].0 != server);
        lemma_no_rules(targets, server, i + 1);
    }
}

/// What clients see of the items of a server without rules is what the server has, under a name
/// that says which server it is of, and with URIs that do.
pub proof fn law_items_without_rules_are_seen_as_they_are(
    relay: RelayView,
    server: Seq<char>,
    tool: ToolView,
    prompt: PromptView,
    resource: ResourceView,
)
    requires
        has_no_rules(relay, server),
    ensures
        ({
            let t = shown_tool(relay, server, tool);
            let p = shown_prompt(relay, server, prompt);
            let r = shown_resource(relay, server, resource);
            &&& is_seen_as(relay, server, tool.name, t.name)
            &&& t.description == tool.description
            &&& t.rest == tool.rest
            &&& tool.meta is None ==> t.meta is None
            &&& tool.meta matches Some(m) ==> t.meta == Some(
                ui_meta_wrapped(relay.default_target, server, m),
            )
            &&& is_seen_as(relay, server, prompt.name, p.name)
            &&& p.description == prompt.description
            &&& p.rest == prompt.rest
            &&& is_seen_as(relay, server, resource.name, r.name)
            &&& r.uri == wrapped_uri(relay.default_target, server, resource.uri)
            &&& r.description == resource.description
            &&& r.rest == resource.rest
        }),
{
    lemma_no_rules(relay.rewrite.targets, server, 0);
}

/// What clients see of the items of a server with rules is what the server's own rules make of
/// them, under a name that says which server it is of, and with URIs that do. The rules for tools
/// are for tools alone, and so are those for prompts and resources.
pub proof fn law_items_are_seen_by_their_rules(
    relay: RelayView,
    server: Seq<char>,
    tool: ToolView,
    prompt: PromptView,
    resource: ResourceView,
    k: int,
)
    requires
        has_rules_at(relay, server, k),
    ensures
        ({
            let rules = relay.rewrite.targets[k].1;
            let t = shown_tool(relay, server, tool);
            let p = shown_prompt(relay, server, prompt);
            let r = shown_resource(relay, server, resource);
            let t0 = presented_tool(tool, rules.tools);
            let p0 = presented_prompt(prompt, rules.prompts);
            let r0 = presented_resource(resource, rules.resources);
            &&& is_seen_as(relay, server, t0.name, t.name)
            &&& t.description == t0.description
            &&& t.rest == t0.rest
            &&& t0.meta is None ==> t.meta is None
            &&& t0.meta matches Some(m) ==> t.meta == Some(
                ui_meta_wrapped(relay.default_target, server, m),
            )
            &&& is_seen_as(relay, server, p0.name, p.name)
            &&& p.description == p0.description
            &&& p.rest == p0.rest
            &&& is_seen_as(relay, server, r0.name, r.name)
            &&& r.uri == wrapped_uri(relay.default_target, server, r0.uri)
            &&& r.description == r0.description
            &&& r.rest == r0.rest
        }),
{
    lemma_rules_at(relay.rewrite.targets, server, 0, k);
}

/// No rule is for templates and tasks: clients see what the server has, under a name or an id that
/// says which server it is of.
pub proof fn law_templates_and_tasks_are_seen_as_they_are(
    relay: RelayView,
    server: Seq<char>,
    template: ResourceTemplateView,
    task: TaskView,
)
    ensures
        ({
            let t = shown_template(relay, server, template);
            let k = shown_task(relay, server, task);
            &&& is_seen_as(relay, server, template.name, t.name)
            &&& t.uri_template == wrapped_template(
                relay.default_target,
                server,
                template.uri_template,
            )
            &&& t.rest == template.rest
            &&& is_seen_as(relay, server, task.task_id, k.task_id)
            &&& k.rest == task.rest
        }),
{
}

} // verus!
