//! Where a client-visible name goes, and which of several equal names stays visible.

use crate::model::pair;
use vstd::hash_map::StringHashMap;
use vstd::prelude::*;
use vstd::string::*;

verus! {

/// A map from client-visible names to the target and the name at that target.
pub struct RouteIndex {
    map: StringHashMap<(String, String)>,
}

/// The mathematical route index.
pub type RoutesView = Map<Seq<char>, (Seq<char>, Seq<char>)>;

impl View for RouteIndex {
    type V = RoutesView;

    closed spec fn view(&self) -> RoutesView {
        self.map@.map_values(|p: (String, String)| pair(p))
    }
}

impl RouteIndex {
    /// An index without routes.
    pub fn new() -> (r: RouteIndex)
        ensures
            r@ == RoutesView::empty(),
    {
        let r = RouteIndex { map: StringHashMap::new() };
        assert(r@ =~= RoutesView::empty());
        r
    }

    /// Whether there is no route.
    pub fn is_empty(&self) -> (r: bool)
        ensures
            r == (self@ == RoutesView::empty()),
    {
        let r = self.map.is_empty();
        proof {
            if r {
                assert(self@ =~= RoutesView::empty());
            } else {
                assert(self.map@ != Map::<Seq<char>, (String, String)>::empty());
                if self@ == RoutesView::empty() {
                    assert forall|k: Seq<char>| !self.map@.contains_key(k) by {
                        assert(!self@.contains_key(k));
                    }
                    assert(self.map@ =~= Map::<Seq<char>, (String, String)>::empty());
                }
            }
        }
        r
    }

    /// Whether `exposed` has a route.
    pub fn contains_key(&self, exposed: &str) -> (r: bool)
        ensures
            r == self@.contains_key(exposed@),
    {
        self.map.contains_key(exposed)
    }

    /// The route of `exposed`.
    pub fn get(&self, exposed: &str) -> (r: Option<&(String, String)>)
        ensures
            match r {
                Some(p) => self@.contains_key(exposed@) && self@[exposed@] == pair(*p),
                None => !self@.contains_key(exposed@),
            },
    {
        self.map.get(exposed)
    }

    /// Gives `exposed` a route, in place of the one it had.
    pub fn insert(&mut self, exposed: String, target: String, upstream: String)
        ensures
            final(self)@ == old(self)@.insert(exposed@, (target@, upstream@)),
    {
        self.map.insert(exposed, (target, upstream));
        assert(self@ =~= old(self)@.insert(exposed@, (target@, upstream@)));
    }

    /// Gives `exposed` a route unless it has one.
    pub fn insert_first(&mut self, exposed: String, target: String, upstream: String)
        ensures
            final(self)@ == with_route(old(self)@, target@, upstream@, exposed@),
    {
        if !self.contains_key(exposed.as_str()) {
            self.insert(exposed, target, upstream);
        }
    }
}

/// The routes after `exposed` was offered one: the first offer stays.
pub open spec fn with_route(
    routes: RoutesView,
    target: Seq<char>,
    upstream: Seq<char>,
    exposed: Seq<char>,
) -> RoutesView {
    if routes.contains_key(exposed) {
        routes
    } else {
        routes.insert(exposed, (target, upstream))
    }
}

/// An offer of a route: the target, the name there, and the name that clients see.
pub type EntryView = (Seq<char>, Seq<char>, Seq<char>);

/// What an offer of a route is.
pub open spec fn entry_view(e: (String, String, String)) -> EntryView {
    (e.0@, e.1@, e.2@)
}

/// What the offers of a vector are.
pub open spec fn entries_view(v: Seq<(String, String, String)>) -> Seq<EntryView> {
    Seq::new(v.len(), |i: int| entry_view(v[i]))
}

/// The routes after each offer was made in turn, starting from `routes`.
pub open spec fn with_routes(routes: RoutesView, entries: Seq<EntryView>) -> RoutesView
    decreases entries.len(),
{
    if entries.len() == 0 {
        routes
    } else {
        let before = with_routes(routes, entries.drop_last());
        let e = entries.last();
        with_route(before, e.0, e.1, e.2)
    }
}

/// The routes that a list of offers makes: of equal names the first keeps its route.
pub open spec fn route_index(entries: Seq<EntryView>) -> RoutesView {
    with_routes(RoutesView::empty(), entries)
}

/// Makes each offer in turn.
pub fn add_routes(routes: &mut RouteIndex, entries: Vec<(String, String, String)>)
    ensures
        final(routes)@ == with_routes(old(routes)@, entries_view(entries@)),
{
    let ghost all = entries_view(entries@);
    let ghost start = routes@;
    let n: usize = entries.len();
    assert(all.take(0) =~= Seq::<EntryView>::empty());
    for e in it: entries
        invariant
            all == entries_view(it.seq()),
            routes@ == with_routes(start, all.take(it.index())),
    {
        let ghost i = it.index();
        assert(all.take(i + 1).drop_last() =~= all.take(i));
        assert(all.take(i + 1).last() == entry_view(e));
        let (target, upstream, exposed) = e;
        routes.insert_first(exposed, target, upstream);
    }
    assert(all.take(n as int) =~= all);
}

/// Builds the route index of a list of offers.
pub fn build_flat_route_index(entries: Vec<(String, String, String)>) -> (r: RouteIndex)
    ensures
        r@ == route_index(entries_view(entries@)),
{
    let mut out = RouteIndex::new();
    add_routes(&mut out, entries);
    out
}

/// The items whose name no earlier item has.
pub open spec fn keep_first<A>(items: Seq<A>, names: Seq<Seq<char>>) -> Seq<A>
    decreases items.len(),
{
    if items.len() == 0 {
        items
    } else {
        let kept = keep_first(items.drop_last(), names.drop_last());
        if names.drop_last().contains(names.last()) {
            kept
        } else {
            kept.push(items.last())
        }
    }
}

/// Something with a client-visible name.
pub trait Named: Sized {
    /// The name.
    spec fn name_view(&self) -> Seq<char>;

    /// The name.
    fn visible_name(&self) -> (r: &String)
        ensures
            r@ == self.name_view(),
    ;
}

/// The names of a list.
pub open spec fn names_of<T: Named>(items: Seq<T>) -> Seq<Seq<char>> {
    Seq::new(items.len(), |i: int| items[i].name_view())
}

/// Leaves out each item whose name an earlier item has.
pub fn filter_first<T: Named>(items: Vec<T>) -> (r: Vec<T>)
    ensures
        r@ == keep_first(items@, names_of(items@)),
{
    let ghost all = items@;
    let ghost names = names_of(items@);
    let n: usize = items.len();
    let mut seen: StringHashMap<()> = StringHashMap::new();
    let mut out: Vec<T> = Vec::new();
    assert(all.take(0) =~= Seq::<T>::empty());
    for item in it: items
        invariant
            all == it.seq(),
            names == names_of(all),
            out@ == keep_first(all.take(it.index()), names.take(it.index())),
            forall|k: Seq<char>| #[trigger]
                seen@.contains_key(k) <==> names.take(it.index()).contains(k),
    {
        let ghost i = it.index();
        assert(all.take(i + 1).drop_last() =~= all.take(i));
        assert(names.take(i + 1).drop_last() =~= names.take(i));
        assert(names.take(i + 1).last() == item.name_view());
        let name = item.visible_name().clone();
        let ghost before = seen@;
        let known = seen.contains_key(name.as_str());
        seen.insert(name, ());
        if !known {
            out.push(item);
        }
        assert forall|k: Seq<char>| #[trigger]
            seen@.contains_key(k) <==> names.take(i + 1).contains(k) by {
            let a = names.take(i);
            let b = names.take(i + 1);
            assert(b =~= a.push(item.name_view()));
            if a.contains(k) {
                let j = choose|j: int| 0 <= j < a.len() && a[j] == k;
                assert(b[j] == k);
            }
            if b.contains(k) {
                let j = choose|j: int| 0 <= j < b.len() && b[j] == k;
                if j < a.len() {
                    assert(a[j] == k);
                }
            }
            assert(b[i] == item.name_view());
            assert(before.contains_key(k) <==> a.contains(k));
        }
    }
    assert(all.take(n as int) =~= all);
    assert(names.take(n as int) =~= names);
    out
}

/// Mapping commutes with leaving out the later of equal names.
pub proof fn lemma_keep_first_map<A, B>(items: Seq<A>, names: Seq<Seq<char>>, f: spec_fn(A) -> B)
    requires
        items.len() == names.len(),
    ensures
        keep_first(items, names).map_values(f) == keep_first(items.map_values(f), names),
    decreases items.len(),
{
    if items.len() == 0 {
        assert(keep_first(items, names).map_values(f) =~= keep_first(items.map_values(f), names));
    } else {
        lemma_keep_first_map(items.drop_last(), names.drop_last(), f);
        assert(items.map_values(f).drop_last() =~= items.drop_last().map_values(f));
        assert(keep_first(items, names).map_values(f) =~= keep_first(items.map_values(f), names));
    }
}

/// Each name of the list is kept exactly once, with the first item that has it.
pub proof fn law_keep_first<A>(items: Seq<A>, names: Seq<Seq<char>>)
    requires
        items.len() == names.len(),
    ensures
        keep_first(names, names).no_duplicates(),
        forall|i: int|
            0 <= i < items.len() && !names.take(i).contains(names[i]) ==> keep_first(
                items,
                names,
            ).contains(#[trigger] items[i]),
        forall|name: Seq<char>| #[trigger]
            keep_first(names, names).contains(name) <==> names.contains(name),
    decreases items.len(),
{
    if items.len() > 0 {
        let n = items.len() - 1;
        let inames = names.drop_last();
        law_keep_first(items.drop_last(), inames);
        law_keep_first_names(names);
        let kept = keep_first(items, names);
        let before = keep_first(items.drop_last(), inames);
        assert forall|i: int|
            0 <= i < items.len() && !names.take(i).contains(names[i]) implies kept.contains(
            #[trigger] items[i],
        ) by {
            if i < n {
                assert(inames.take(i) =~= names.take(i));
                assert(before.contains(items.drop_last()[i]));
                let j = choose|j: int| 0 <= j < before.len() && before[j] == items[i];
                assert(kept[j] == items[i]);
            } else {
                assert(names.take(i) =~= inames);
                assert(kept.last() == items[i]);
            }
        }
    }
}

proof fn law_keep_first_names(names: Seq<Seq<char>>)
    ensures
        keep_first(names, names).no_duplicates(),
        forall|name: Seq<char>| #[trigger]
            keep_first(names, names).contains(name) <==> names.contains(name),
    decreases names.len(),
{
    if names.len() > 0 {
        let head = names.drop_last();
        let last = names.last();
        law_keep_first_names(head);
        let before = keep_first(head, head);
        let kept = keep_first(names, names);
        assert(names =~= head.push(last));
        assert forall|name: Seq<char>| #[trigger]
            kept.contains(name) <==> names.contains(name) by {
            assert(before.contains(name) <==> head.contains(name));
            lemma_push_contains(head, last, name);
            if !head.contains(last) {
                lemma_push_contains(before, last, name);
            }
        }
        if !head.contains(last) {
            assert(!before.contains(last));
            assert forall|i: int, j: int|
                0 <= i < kept.len() && 0 <= j < kept.len() && i != j implies kept[i]
                != kept[j] by {
                if i < before.len() && j < before.len() {
                    assert(before[i] != before[j]);
                } else if i < before.len() {
                    assert(before.contains(before[i]));
                } else {
                    assert(before.contains(before[j]));
                }
            }
        }
    }
}

proof fn lemma_push_contains<A>(s: Seq<A>, a: A, x: A)
    ensures
        s.push(a).contains(x) <==> (s.contains(x) || x == a),
{
    let t = s.push(a);
    if s.contains(x) {
        let j = choose|j: int| 0 <= j < s.len() && s[j] == x;
        assert(t[j] == x);
    }
    if x == a {
        assert(t[s.len() as int] == x);
    }
    if t.contains(x) {
        let j = choose|j: int| 0 <= j < t.len() && t[j] == x;
        if j < s.len() {
            assert(s[j] == x);
        }
    }
}

proof fn lemma_routed_entry(entries: Seq<EntryView>, i: int)
    requires
        0 <= i < entries.len(),
    ensures
        route_index(entries).contains_key(entries[i].2),
        !visible_names(entries).take(i).contains(entries[i].2) ==> route_index(
            entries,
        )[entries[i].2] == (entries[i].0, entries[i].1),
    decreases entries.len(),
{
    let head = entries.drop_last();
    let n = entries.len() - 1;
    let names = visible_names(entries);
    if i < n {
        lemma_routed_entry(head, i);
        assert(visible_names(head).take(i) =~= names.take(i));
    } else {
        assert(visible_names(head) =~= names.take(n));
        if route_index(head).contains_key(entries[n].2) {
            lemma_routed_name(head, entries[n].2);
        }
    }
}

proof fn lemma_routed_name(entries: Seq<EntryView>, name: Seq<char>)
    requires
        route_index(entries).contains_key(name),
    ensures
        visible_names(entries).contains(name),
    decreases entries.len(),
{
    if entries.len() > 0 {
        let head = entries.drop_last();
        let names = visible_names(entries);
        assert(names =~= visible_names(head).push(entries.last().2));
        lemma_push_contains(visible_names(head), entries.last().2, name);
        if route_index(head).contains_key(name) {
            lemma_routed_name(head, name);
        }
    }
}

/// The routes hold exactly the offered names, each with the route that was offered first.
pub proof fn law_route_index_first_wins(entries: Seq<EntryView>)
    ensures
        forall|i: int|
            0 <= i < entries.len() ==> #[trigger] route_index(entries).contains_key(entries[i].2),
        forall|i: int|
            0 <= i < entries.len() && !visible_names(entries).take(i).contains(
                (#[trigger] entries[i]).2,
            ) ==> route_index(entries)[entries[i].2] == (entries[i].0, entries[i].1),
        forall|name: Seq<char>| #[trigger]
            route_index(entries).contains_key(name) ==> visible_names(entries).contains(name),
{
    assert forall|i: int| 0 <= i < entries.len() implies #[trigger] route_index(
        entries,
    ).contains_key(entries[i].2) by {
        lemma_routed_entry(entries, i);
    }
    assert forall|i: int|
        0 <= i < entries.len() && !visible_names(entries).take(i).contains(
            (#[trigger] entries[i]).2,
        ) implies route_index(entries)[entries[i].2] == (entries[i].0, entries[i].1) by {
        lemma_routed_entry(entries, i);
    }
    assert forall|name: Seq<char>| #[trigger] route_index(entries).contains_key(
        name,
    ) implies visible_names(entries).contains(name) by {
        lemma_routed_name(entries, name);
    }
}

/// The names that the offers are for.
pub open spec fn visible_names(entries: Seq<EntryView>) -> Seq<Seq<char>> {
    Seq::new(entries.len(), |i: int| entries[i].2)
}

/// What is visible in a list can be called, and leads to the item that is visible: the routes
/// hold exactly the names that stay in the list, each with the target of the item that stayed.
pub proof fn law_visible_is_routable(entries: Seq<EntryView>)
    ensures
        forall|name: Seq<char>| #[trigger]
            keep_first(visible_names(entries), visible_names(entries)).contains(name)
                <==> route_index(entries).contains_key(name),
        forall|k: int|
            0 <= k < keep_first(entries, visible_names(entries)).len() ==> {
                let e = #[trigger] keep_first(entries, visible_names(entries))[k];
                route_index(entries).contains_key(e.2) && route_index(entries)[e.2] == (e.0, e.1)
            },
    decreases entries.len(),
{
    let names = visible_names(entries);
    law_route_index_first_wins(entries);
    law_keep_first_names(names);
    assert forall|name: Seq<char>| #[trigger]
        keep_first(names, names).contains(name) <==> route_index(entries).contains_key(name) by {
        if names.contains(name) {
            let j = choose|j: int| 0 <= j < names.len() && names[j] == name;
            assert(route_index(entries).contains_key(entries[j].2));
        }
        if route_index(entries).contains_key(name) {
            assert(visible_names(entries).contains(name));
        }
    }
    if entries.len() > 0 {
        let head = entries.drop_last();
        law_visible_is_routable(head);
        assert(names.drop_last() =~= visible_names(head));
        let kept = keep_first(entries, names);
        let before = keep_first(head, visible_names(head));
        assert forall|k: int| 0 <= k < kept.len() implies {
            let e = #[trigger] kept[k];
            route_index(entries).contains_key(e.2) && route_index(entries)[e.2] == (e.0, e.1)
        } by {
            if k < before.len() {
                assert(kept[k] == before[k]);
                assert(route_index(head).contains_key(before[k].2));
            } else {
                let n = entries.len() - 1;
                assert(kept[k] == entries[n]);
                assert(names.take(n) =~= names.drop_last());
                assert(!names.take(n).contains(entries[n].2));
            }
        }
    }
}

/// Further offers never change a route that is there.
pub proof fn law_routes_are_kept(routes: RoutesView, entries: Seq<EntryView>, name: Seq<char>)
    requires
        routes.contains_key(name),
    ensures
        with_routes(routes, entries).contains_key(name),
        with_routes(routes, entries)[name] == routes[name],
    decreases entries.len(),
{
    if entries.len() > 0 {
        law_routes_are_kept(routes, entries.drop_last(), name);
    }
}

} // verus!
