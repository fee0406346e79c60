//! The requests of a session that are being answered and that the client may cancel.

use crate::model::{RequestId, RequestIdView};
use vstd::prelude::*;
use vstd::string::*;

verus! {

/// Requests that are being answered, each with the upstream that answers it.
#[derive(Debug)]
pub struct InFlightRegistry {
    entries: Vec<(RequestId, String)>,
}

/// The upstreams by request: of equal ids the later entry counts.
pub open spec fn entries_view(entries: Seq<(RequestId, String)>) -> Map<RequestIdView, Seq<char>>
    decreases entries.len(),
{
    if entries.len() == 0 {
        Map::empty()
    } else {
        entries_view(entries.drop_last()).insert(entries.last().0@, entries.last().1@)
    }
}

impl View for InFlightRegistry {
    type V = Map<RequestIdView, Seq<char>>;

    closed spec fn view(&self) -> Map<RequestIdView, Seq<char>> {
        entries_view(self.entries@)
    }
}

/// Takes out the entries with id `id`, and hands back the upstream of the last.
fn without(entries: Vec<(RequestId, String)>, id: &RequestId) -> (r: (
    Vec<(RequestId, String)>,
    Option<String>,
))
    ensures
        entries_view(r.0@) == entries_view(entries@).remove(id@),
        match r.1 {
            Some(target) => entries_view(entries@).dom().contains(id@) && entries_view(
                entries@,
            )[id@] == target@,
            None => !entries_view(entries@).dom().contains(id@),
        },
{
    let ghost all = entries@;
    let mut out: Vec<(RequestId, String)> = Vec::new();
    let mut found: Option<String> = None;
    assert(all.take(0) =~= Seq::<(RequestId, String)>::empty());
    assert(entries_view(out@) =~= entries_view(all.take(0)).remove(id@));
    for entry in it: entries
        invariant
            all == it.seq(),
            entries_view(out@) == entries_view(all.take(it.index())).remove(id@),
            match found {
                Some(target) => entries_view(all.take(it.index())).dom().contains(id@)
                    && entries_view(all.take(it.index()))[id@] == target@,
                None => !entries_view(all.take(it.index())).dom().contains(id@),
            },
    {
        let ghost i = it.index();
        let ghost before = entries_view(all.take(i));
        assert(all.take(i + 1).drop_last() =~= all.take(i));
        assert(all.take(i + 1).last() == entry);
        let ghost kept = out@;
        if entry.0.same(id) {
            found = Some(entry.1);
            assert(entries_view(out@) =~= entries_view(all.take(i + 1)).remove(id@));
        } else {
            out.push(entry);
            assert(out@.drop_last() =~= kept);
            assert(entries_view(out@) =~= entries_view(all.take(i + 1)).remove(id@));
        }
    }
    assert(all.take(all.len() as int) =~= all);
    (out, found)
}

impl InFlightRegistry {
    /// No request is being answered.
    pub fn new() -> (r: InFlightRegistry)
        ensures
            r@ == Map::<RequestIdView, Seq<char>>::empty(),
    {
        InFlightRegistry { entries: Vec::new() }
    }

    /// Remembers that `target` answers request `id`.
    pub fn register(&mut self, id: RequestId, target: String)
        ensures
            final(self)@ == old(self)@.insert(id@, target@),
    {
        let mut entries: Vec<(RequestId, String)> = Vec::new();
        std::mem::swap(&mut entries, &mut self.entries);
        let (mut entries, _) = without(entries, &id);
        let ghost kept = entries@;
        entries.push((id, target));
        assert(entries@.drop_last() =~= kept);
        self.entries = entries;
        assert(self@ =~= old(self)@.insert(id@, target@));
    }

    /// Forgets request `id`, and says which upstream answers it, where one does.
    pub fn cancel(&mut self, id: &RequestId) -> (r: Option<String>)
        ensures
            final(self)@ == old(self)@.remove(id@),
            match r {
                Some(target) => old(self)@.dom().contains(id@) && old(self)@[id@] == target@,
                None => !old(self)@.dom().contains(id@),
            },
    {
        let mut entries: Vec<(RequestId, String)> = Vec::new();
        std::mem::swap(&mut entries, &mut self.entries);
        let (entries, found) = without(entries, id);
        self.entries = entries;
        found
    }
}

} // verus!
