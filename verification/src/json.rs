//! JSON values as plain data, with the operations on objects that the gateway needs.

use crate::text;
use vstd::prelude::*;
use vstd::string::*;

verus! {

/// A JSON value. A number is kept as its text; an object keeps its members in order.
#[derive(Debug, PartialEq, Eq)]
pub enum Json {
    Null,
    Bool(bool),
    Number(String),
    Str(String),
    Array(Vec<Json>),
    Object(Vec<(String, Json)>),
}

/// The members of a JSON object.
pub type JsonMap = Vec<(String, Json)>;

/// The mathematical JSON value.
pub enum JsonView {
    Null,
    Bool(bool),
    Number(Seq<char>),
    Str(Seq<char>),
    Array(Seq<JsonView>),
    Object(Seq<(Seq<char>, JsonView)>),
}

/// The mathematical members of a JSON object.
pub type MembersView = Seq<(Seq<char>, JsonView)>;

impl View for Json {
    type V = JsonView;

    open spec fn view(&self) -> JsonView
        decreases self,
    {
        match self {
            Json::Null => JsonView::Null,
            Json::Bool(b) => JsonView::Bool(*b),
            Json::Number(n) => JsonView::Number(n@),
            Json::Str(s) => JsonView::Str(s@),
            Json::Array(items) => JsonView::Array(
                Seq::new(
                    items@.len(),
                    |i: int|
                        if 0 <= i < items@.len() {
                            items@[i].view()
                        } else {
                            JsonView::Null
                        },
                ),
            ),
            Json::Object(members) => JsonView::Object(
                Seq::new(
                    members@.len(),
                    |i: int|
                        (
                            members@[i].0@,
                            if 0 <= i < members@.len() {
                                members@[i].1.view()
                            } else {
                                JsonView::Null
                            },
                        ),
                ),
            ),
        }
    }
}

/// The mathematical members of an object held as a vector.
pub open spec fn members_view(members: Seq<(String, Json)>) -> MembersView {
    Seq::new(members.len(), |i: int| (members[i].0@, members[i].1@))
}

/// The mathematical values of an array held as a vector.
pub open spec fn items_view(items: Seq<Json>) -> Seq<JsonView> {
    Seq::new(items.len(), |i: int| items[i]@)
}

/// What a map of members is, where there is one.
pub open spec fn opt_members_view(members: Option<JsonMap>) -> Option<MembersView> {
    match members {
        Some(m) => Some(members_view(m@)),
        None => None,
    }
}

/// What a value is, where there is one.
pub open spec fn opt_json_view(value: Option<Json>) -> Option<JsonView> {
    match value {
        Some(v) => Some(v@),
        None => None,
    }
}

/// The view of an object is the view of its members, and that of an array the view of its items.
pub broadcast proof fn lemma_json_view(j: Json)
    ensures
        j matches Json::Object(m) ==> #[trigger] j@ == JsonView::Object(members_view(m@)),
        j matches Json::Array(a) ==> j@ == JsonView::Array(items_view(a@)),
{
    match j {
        Json::Object(m) => {
            assert(j@->Object_0 =~= members_view(m@));
        },
        Json::Array(a) => {
            assert(j@->Array_0 =~= items_view(a@));
        },
        _ => {},
    }
}

/// The position of the first member at or after `i` that is called `key`.
pub open spec fn key_index_from(members: MembersView, key: Seq<char>, i: int) -> Option<int>
    decreases members.len() - i,
{
    if i < 0 || i >= members.len() {
        None
    } else if members[i].0 == key {
        Some(i)
    } else {
        key_index_from(members, key, i + 1)
    }
}

/// The position of the member called `key`.
pub open spec fn key_index(members: MembersView, key: Seq<char>) -> Option<int> {
    key_index_from(members, key, 0)
}

/// The value of the member called `key`.
pub open spec fn member(members: MembersView, key: Seq<char>) -> Option<JsonView> {
    match key_index(members, key) {
        Some(i) => Some(members[i].1),
        None => None,
    }
}

/// The members after `key` got the value `value`: in its place, or at the end.
pub open spec fn with_member(members: MembersView, key: Seq<char>, value: JsonView) -> MembersView {
    match key_index(members, key) {
        Some(i) => members.update(i, (key, value)),
        None => members.push((key, value)),
    }
}

/// The members without the one called `key`.
pub open spec fn without_member(members: MembersView, key: Seq<char>) -> MembersView {
    match key_index(members, key) {
        Some(i) => members.remove(i),
        None => members,
    }
}

/// No name stands twice.
pub open spec fn distinct_keys(members: MembersView) -> bool {
    forall|i: int, j: int|
        0 <= i < j < members.len() ==> (#[trigger] members[i]).0 != (#[trigger] members[j]).0
}

/// What `key_index_from` returns is in range and is the first such position.
pub proof fn lemma_key_index_from(members: MembersView, key: Seq<char>, i: int)
    requires
        0 <= i,
    ensures
        match key_index_from(members, key, i) {
            Some(k) => i <= k < members.len() && members[k].0 == key && forall|j: int|
                i <= j < k ==> (#[trigger] members[j]).0 != key,
            None => forall|j: int| i <= j < members.len() ==> (#[trigger] members[j]).0 != key,
        },
    decreases members.len() - i,
{
    if i < members.len() && members[i].0 != key {
        lemma_key_index_from(members, key, i + 1);
    }
}

/// Reading a member back gives what was written, and no other member changes.
pub proof fn lemma_with_member(members: MembersView, key: Seq<char>, value: JsonView)
    ensures
        member(with_member(members, key, value), key) == Some(value),
        forall|other: Seq<char>|
            other != key ==> #[trigger] member(with_member(members, key, value), other) == member(
                members,
                other,
            ),
        distinct_keys(members) ==> distinct_keys(with_member(members, key, value)),
{
    let after = with_member(members, key, value);
    lemma_key_index_from(members, key, 0);
    lemma_key_index_from(after, key, 0);
    assert forall|other: Seq<char>| other != key implies #[trigger] member(after, other) == member(
        members,
        other,
    ) by {
        lemma_key_index_from(members, other, 0);
        lemma_key_index_from(after, other, 0);
        match key_index(members, other) {
            Some(k) => {
                assert(after[k].0 == other);
                assert(forall|j: int| 0 <= j < k ==> (#[trigger] after[j]).0 != other) by {
                    assert(forall|j: int| 0 <= j < k ==> (#[trigger] members[j]).0 != other);
                }
            },
            None => {
                assert forall|j: int| 0 <= j < after.len() implies (#[trigger] after[j]).0
                    != other by {
                    if j < members.len() {
                        assert(members[j].0 != other);
                    }
                }
            },
        }
    }
    match key_index(members, key) {
        Some(k) => {
            assert(after[k].0 == key);
            assert(forall|j: int| 0 <= j < k ==> (#[trigger] members[j]).0 != key);
        },
        None => {
            assert(after[members.len() as int].0 == key);
            assert(forall|j: int| 0 <= j < members.len() ==> (#[trigger] members[j]).0 != key);
        },
    }
}

/// The position of the member called `key`.
pub fn position(members: &JsonMap, key: &str) -> (r: Option<usize>)
    ensures
        match r {
            Some(i) => key_index(members_view(members@), key@) == Some(i as int) && i
                < members@.len() && members@[i as int].0@ == key@,
            None => key_index(members_view(members@), key@) is None,
        },
{
    let mut i: usize = 0;
    while i < members.len()
        invariant
            i <= members@.len(),
            key_index(members_view(members@), key@) == key_index_from(
                members_view(members@),
                key@,
                i as int,
            ),
        decreases members@.len() - i,
    {
        if text::same(members[i].0.as_str(), key) {
            return Some(i);
        }
        i += 1;
    }
    None
}

/// The value of the member called `key`.
pub fn get<'a>(members: &'a JsonMap, key: &str) -> (r: Option<&'a Json>)
    ensures
        match r {
            Some(v) => member(members_view(members@), key@) == Some(v@),
            None => member(members_view(members@), key@) is None,
        },
{
    match position(members, key) {
        Some(i) => Some(&members[i].1),
        None => None,
    }
}

/// Gives `key` the value `value`.
pub fn insert(members: &mut JsonMap, key: String, value: Json)
    ensures
        members_view(final(members)@) == with_member(members_view(old(members)@), key@, value@),
{
    match position(members, key.as_str()) {
        Some(i) => {
            members.set(i, (key, value));
        },
        None => {
            members.push((key, value));
        },
    }
    assert(members_view(members@) =~= with_member(members_view(old(members)@), key@, value@));
}

/// Removes the member called `key`.
pub fn remove(members: &mut JsonMap, key: &str)
    ensures
        members_view(final(members)@) == without_member(members_view(old(members)@), key@),
{
    match position(members, key) {
        Some(i) => {
            let _ = members.remove(i);
        },
        None => {},
    }
    assert(members_view(members@) =~= without_member(members_view(old(members)@), key@));
}

/// A copy of the members.
pub fn copy_members(members: &JsonMap) -> (r: JsonMap)
    ensures
        members_view(r@) == members_view(members@),
    decreases members,
{
    let mut out: JsonMap = Vec::new();
    let mut i: usize = 0;
    while i < members.len()
        invariant
            i <= members@.len(),
            out@.len() == i,
            forall|k: int|
                0 <= k < i ==> (#[trigger] out@[k]).0@ == members@[k].0@ && out@[k].1@
                    == members@[k].1@,
        decreases members@.len() - i,
    {
        let v = members[i].1.copy();
        out.push((members[i].0.clone(), v));
        i += 1;
    }
    assert(members_view(out@) =~= members_view(members@));
    out
}

impl Json {
    /// A copy of the value.
    pub fn copy(&self) -> (r: Json)
        ensures
            r@ == self@,
        decreases self,
    {
        broadcast use lemma_json_view;

        match self {
            Json::Null => Json::Null,
            Json::Bool(b) => Json::Bool(*b),
            Json::Number(n) => Json::Number(n.clone()),
            Json::Str(s) => Json::Str(s.clone()),
            Json::Array(items) => {
                let mut out: Vec<Json> = Vec::new();
                let mut i: usize = 0;
                while i < items.len()
                    invariant
                        i <= items@.len(),
                        out@.len() == i,
                        self matches Json::Array(x) && x == items,
                        forall|k: int| 0 <= k < i ==> (#[trigger] out@[k])@ == items@[k]@,
                    decreases items@.len() - i,
                {
                    out.push(items[i].copy());
                    i += 1;
                }
                assert(items_view(out@) =~= items_view(items@));
                let r = Json::Array(out);
                r
            },
            Json::Object(members) => {
                let out = copy_members(members);
                Json::Object(out)
            },
        }
    }
}

/// A copy of the value, where there is one.
pub fn copy_opt(value: &Option<Json>) -> (r: Option<Json>)
    ensures
        opt_json_view(r) == opt_json_view(*value),
{
    match value {
        Some(v) => Some(v.copy()),
        None => None,
    }
}

} // verus!
