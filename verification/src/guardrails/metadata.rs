//! What guardrails attach to a request for the policies that run after them.

use crate::json::{
    self, Json, JsonMap, JsonView, MembersView, lemma_json_view, members_view, with_member,
};
use crate::json_value::{self, parsed_json};
use vstd::prelude::*;
use vstd::string::*;

verus! {

/// Values that guardrails attached to a request. Several write into the same bag; of equal keys
/// the last counts.
#[derive(Debug, PartialEq, Eq)]
pub struct McpGuardrailsDynamicMetadata(pub JsonMap);

impl McpGuardrailsDynamicMetadata {
    /// Whether nothing is attached.
    pub fn is_empty(&self) -> (r: bool)
        ensures
            r == (self.0@.len() == 0),
    {
        self.0.len() == 0
    }
}

/// What a bag holds; one that is not there holds nothing.
pub open spec fn bag_view(bag: Option<McpGuardrailsDynamicMetadata>) -> MembersView {
    match bag {
        Some(b) => members_view(b.0@),
        None => Seq::empty(),
    }
}

/// A bag with further values. A value that could not be converted is left out.
pub open spec fn with_values(bag: MembersView, fields: Seq<(String, Option<Json>)>) -> MembersView
    decreases fields.len(),
{
    if fields.len() == 0 {
        bag
    } else {
        let before = with_values(bag, fields.drop_last());
        match fields.last().1 {
            Some(v) => with_member(before, fields.last().0@, v@),
            None => before,
        }
    }
}

fn take_bag(bag: &mut Option<McpGuardrailsDynamicMetadata>) -> (r: JsonMap)
    ensures
        members_view(r@) == bag_view(*old(bag)),
        *final(bag) is None,
{
    match bag.take() {
        Some(b) => b.0,
        None => {
            let r: JsonMap = Vec::new();
            assert(members_view(r@) =~= Seq::empty());
            r
        },
    }
}

/// Attaches the values that a guardrail answered with. A bag with nothing in it is not kept.
pub fn merge_metadata_into_extensions(
    fields: Vec<(String, Option<Json>)>,
    bag: &mut Option<McpGuardrailsDynamicMetadata>,
)
    ensures
        bag_view(*final(bag)) == with_values(bag_view(*old(bag)), fields@),
        *final(bag) is Some <==> with_values(bag_view(*old(bag)), fields@).len() > 0,
{
    let ghost all = fields@;
    let ghost first = bag_view(*bag);
    let mut acc = take_bag(bag);
    assert(all.take(0) =~= Seq::<(String, Option<Json>)>::empty());
    for field in it: fields
        invariant
            all == it.seq(),
            members_view(acc@) == with_values(first, all.take(it.index())),
    {
        let ghost i = it.index();
        assert(all.take(i + 1).drop_last() =~= all.take(i));
        assert(all.take(i + 1).last() == field);
        let (key, value) = field;
        match value {
            Some(v) => {
                json::insert(&mut acc, key, v);
            },
            None => {},
        }
    }
    assert(all.take(all.len() as int) =~= all);
    assert(members_view(acc@).len() == acc@.len());
    if acc.len() > 0 {
        *bag = Some(McpGuardrailsDynamicMetadata(acc));
    } else {
        assert(members_view(acc@) =~= bag_view(None));
    }
}

/// Attaches the status of a rate limit under `rateLimit`. Anything but an object is ignored.
pub fn merge_rate_limit_status_into_extensions(
    status: Json,
    bag: &mut Option<McpGuardrailsDynamicMetadata>,
)
    ensures
        if status is Object {
            &&& *final(bag) is Some
            &&& bag_view(*final(bag)) == with_member(
                bag_view(*old(bag)),
                "rateLimit"@,
                status@,
            )
        } else {
            *final(bag) == *old(bag)
        },
{
    match status {
        Json::Object(members) => {
            let mut acc = take_bag(bag);
            json::insert(&mut acc, "rateLimit".to_owned(), Json::Object(members));
            *bag = Some(McpGuardrailsDynamicMetadata(acc));
        },
        _ => {},
    }
}

/// What a bag holds after the text of an error was attached to it, if that is the text of an
/// object.
pub open spec fn with_rate_limit_error(bag: MembersView, parsed: Option<JsonView>) -> MembersView {
    match parsed {
        Some(JsonView::Object(members)) => with_member(
            bag,
            "rateLimit"@,
            JsonView::Object(members),
        ),
        _ => bag,
    }
}

/// Attaches the details of an error that a rate limit answered with. They are for policies only.
/// Bytes that are not the text of a JSON object are ignored.
pub fn merge_rate_limit_mcp_error_into_extensions(
    mcp_error: &[u8],
    bag: &mut Option<McpGuardrailsDynamicMetadata>,
)
    ensures
        bag_view(*final(bag)) == with_rate_limit_error(
            bag_view(*old(bag)),
            parsed_json(mcp_error@),
        ),
        *final(bag) is Some <==> *old(bag) is Some || (parsed_json(mcp_error@) matches Some(j)
            && j is Object),
{
    broadcast use lemma_json_view;

    match json_value::parse(mcp_error) {
        Some(status) => {
            merge_rate_limit_status_into_extensions(status, bag);
        },
        None => {},
    }
}

/// What one guardrail attached stays attached when another attaches something else.
pub proof fn law_attached_values_stay(
    bag: MembersView,
    fields: Seq<(String, Option<Json>)>,
    key: Seq<char>,
)
    requires
        forall|i: int| 0 <= i < fields.len() ==> (#[trigger] fields[i]).0@ != key,
    ensures
        json::member(with_values(bag, fields), key) == json::member(bag, key),
    decreases fields.len(),
{
    if fields.len() > 0 {
        let head = fields.drop_last();
        assert forall|i: int| 0 <= i < head.len() implies (#[trigger] head[i]).0@ != key by {
            assert(head[i] == fields[i]);
        }
        law_attached_values_stay(bag, head, key);
        assert(fields[fields.len() - 1].0@ != key);
        match fields.last().1 {
            Some(v) => {
                json::lemma_with_member(with_values(bag, head), fields.last().0@, v@);
            },
            None => {},
        }
    }
}

} // verus!
