//! Reading JSON text.

use crate::json::{Json, JsonView, items_view, lemma_json_view, members_view};
use vstd::prelude::*;
use vstd::string::*;

verus! {

/// A parsed JSON value of `serde_json`.
#[verifier::external_type_specification]
#[verifier::external_body]
pub struct ExValue(serde_json::Value);

/// What a `serde_json::Value` holds: its variant, with the items of an array and the members of an
/// object in the order in which it hands them out.
pub uninterp spec fn value_view(v: serde_json::Value) -> JsonView;

/// What `serde_json::from_slice` reads out of bytes; `None` where they are no JSON text.
pub uninterp spec fn parsed_json(bytes: Seq<u8>) -> Option<JsonView>;

/// One level of a `serde_json::Value`.
pub enum ValueParts {
    Null,
    Bool(bool),
    Number(String),
    Str(String),
    Array(Vec<serde_json::Value>),
    Object(Vec<(String, serde_json::Value)>),
}

/// What one level of a value holds.
pub open spec fn parts_view(parts: ValueParts) -> JsonView {
    match parts {
        ValueParts::Null => JsonView::Null,
        ValueParts::Bool(b) => JsonView::Bool(b),
        ValueParts::Number(n) => JsonView::Number(n@),
        ValueParts::Str(s) => JsonView::Str(s@),
        ValueParts::Array(items) => JsonView::Array(
            Seq::new(items@.len(), |i: int| value_view(items@[i])),
        ),
        ValueParts::Object(members) => JsonView::Object(
            Seq::new(members@.len(), |i: int| (members@[i].0@, value_view(members@[i].1))),
        ),
    }
}

/// Tells the variants of `serde_json::Value` apart: what is handed back holds what the value
/// held. A number becomes the text that `serde_json::Number` has for it.
#[verifier::external_body]
fn value_parts(v: serde_json::Value) -> (r: ValueParts)
    ensures
        parts_view(r) == value_view(v),
{
    match v {
        serde_json::Value::Null => ValueParts::Null,
        serde_json::Value::Bool(b) => ValueParts::Bool(b),
        serde_json::Value::Number(n) => ValueParts::Number(n.to_string()),
        serde_json::Value::String(s) => ValueParts::Str(s),
        serde_json::Value::Array(items) => ValueParts::Array(items),
        serde_json::Value::Object(members) => ValueParts::Object(members.into_iter().collect()),
    }
}

/// Calls `serde_json::from_slice`: the value that the bytes are the text of, if they are that.
#[verifier::external_body]
fn from_slice(bytes: &[u8]) -> (r: Option<serde_json::Value>)
    ensures
        match r {
            Some(v) => parsed_json(bytes@) == Some(value_view(v)),
            None => parsed_json(bytes@) is None,
        },
{
    serde_json::from_slice(bytes).ok()
}

/// A `serde_json::Value` as plain data.
pub fn json_of(v: serde_json::Value) -> (r: Json)
    ensures
        r@ == value_view(v),
    decreases value_view(v),
{
    broadcast use lemma_json_view;

    let ghost whole = value_view(v);
    match value_parts(v) {
        ValueParts::Null => Json::Null,
        ValueParts::Bool(b) => Json::Bool(b),
        ValueParts::Number(n) => Json::Number(n),
        ValueParts::Str(s) => Json::Str(s),
        ValueParts::Array(items) => {
            let ghost all = items@;
            let mut out: Vec<Json> = Vec::new();
            for item in it: items
                invariant
                    all == it.seq(),
                    whole == value_view(v),
                    whole matches JsonView::Array(views) && views.len() == all.len() && forall|i: int|
                        0 <= i < all.len() ==> #[trigger] views[i] == value_view(all[i]),
                    out@.len() == it.index(),
                    forall|i: int| 0 <= i < it.index() ==> (#[trigger] out@[i])@ == value_view(all[i]),
            {
                let ghost i = it.index();
                assert(all[i] == item);
                proof {
                    let views = whole->Array_0;
                    assert(views[i] == value_view(item));
                    assert(decreases_to!(whole => views));
                    assert(decreases_to!(views => views[i]));
                }
                out.push(json_of(item));
            }
            assert(items_view(out@) =~= whole->Array_0);
            Json::Array(out)
        },
        ValueParts::Object(members) => {
            let ghost all = members@;
            let mut out: Vec<(String, Json)> = Vec::new();
            for member in it: members
                invariant
                    all == it.seq(),
                    whole == value_view(v),
                    whole matches JsonView::Object(views) && views.len() == all.len()
                        && forall|i: int|
                        0 <= i < all.len() ==> #[trigger] views[i] == (
                            all[i].0@,
                            value_view(all[i].1),
                        ),
                    out@.len() == it.index(),
                    forall|i: int|
                        0 <= i < it.index() ==> (#[trigger] out@[i]).0@ == all[i].0@ && out@[i].1@
                            == value_view(all[i].1),
            {
                let ghost i = it.index();
                assert(all[i] == member);
                let (name, value) = member;
                proof {
                    let views = whole->Object_0;
                    assert(views[i] == (name@, value_view(value)));
                    assert(decreases_to!(whole => views));
                    assert(decreases_to!(views => views[i]));
                    assert(decreases_to!(views[i] => views[i].1));
                }
                let value = json_of(value);
                out.push((name, value));
            }
            assert(members_view(out@) =~= whole->Object_0);
            Json::Object(out)
        },
    }
}

/// The JSON value that the bytes are the text of; `None` where they are no JSON text.
pub fn parse(bytes: &[u8]) -> (r: Option<Json>)
    ensures
        match r {
            Some(j) => parsed_json(bytes@) == Some(j@),
            None => parsed_json(bytes@) is None,
        },
{
    match from_slice(bytes) {
        Some(v) => Some(json_of(v)),
        None => None,
    }
}

} // verus!
