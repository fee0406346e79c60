//! What holds of tools, prompts and resources as the rules of their target present them.

use crate::json::{
    JsonView, MembersView, distinct_keys, key_index, lemma_key_index_from, opt_members_view,
    with_member, without_member,
};
use crate::model::{PromptView, ResourceView, ToolView, opt_str, strs};
use crate::rewrite::{
    CompiledItemRule, CompiledServerRewrite, ItemMatcher, ItemMatcherView, RuleView,
    first_rule_from, presented_prompt, presented_resource, presented_tool, regex_matches,
    rewritten_meta, with_members, without_members,
};
use vstd::prelude::*;
use vstd::string::*;

verus! {

/// Rule `r` is the first of the rules that is for `name`: it has that very name, or a pattern that
/// the name matches, and no rule before it has.
pub open spec fn applies(rules: Seq<RuleView>, name: Seq<char>, r: int) -> bool {
    &&& 0 <= r < rules.len()
    &&& match rules[r].matcher {
        ItemMatcherView::Exact(n) => n == name,
        ItemMatcherView::Pattern(p) => regex_matches(p, name),
    }
    &&& forall|i: int|
        0 <= i < r ==> match (#[trigger] rules[i]).matcher {
            ItemMatcherView::Exact(n) => n != name,
            ItemMatcherView::Pattern(p) => !regex_matches(p, name),
        }
}

/// No rule is for `name`.
pub open spec fn none_applies(rules: Seq<RuleView>, name: Seq<char>) -> bool {
    forall|i: int|
        0 <= i < rules.len() ==> match (#[trigger] rules[i]).matcher {
            ItemMatcherView::Exact(n) => n != name,
            ItemMatcherView::Pattern(p) => !regex_matches(p, name),
        }
}

/// Some member is called `key`.
pub open spec fn has_key(members: MembersView, key: Seq<char>) -> bool {
    exists|i: int| 0 <= i < members.len() && (#[trigger] members[i]).0 == key
}

/// `x` is among the members, and none after it has its key.
pub open spec fn given_last(members: MembersView, x: (Seq<char>, JsonView)) -> bool {
    exists|i: int|
        0 <= i < members.len() && #[trigger] members[i] == x && forall|j: int|
            i < j < members.len() ==> (#[trigger] members[j]).0 != x.0
}

/// The members of the metadata; none where there is no metadata.
pub open spec fn members_or_none(meta: Option<MembersView>) -> MembersView {
    match meta {
        Some(m) => m,
        None => Seq::empty(),
    }
}

proof fn lemma_first(rules: Seq<RuleView>, name: Seq<char>, i: int, r: int)
    requires
        applies(rules, name, r),
        0 <= i <= r,
    ensures
        first_rule_from(rules, name, i) == Some(rules[r]),
    decreases r - i,
{
    if i < r {
        assert(rules[i].matcher == rules[i].matcher);
        lemma_first(rules, name, i + 1, r);
    }
}

proof fn lemma_none(rules: Seq<RuleView>, name: Seq<char>, i: int)
    requires
        none_applies(rules, name),
        0 <= i,
    ensures
        first_rule_from(rules, name, i) is None,
    decreases rules.len() - i,
{
    if i < rules.len() {
        assert(rules[i].matcher == rules[i].matcher);
        lemma_none(rules, name, i + 1);
    }
}

proof fn lemma_without_member(members: MembersView, key: Seq<char>)
    requires
        distinct_keys(members),
    ensures
        distinct_keys(without_member(members, key)),
        forall|x: (Seq<char>, JsonView)| #[trigger]
            without_member(members, key).contains(x) <==> members.contains(x) && x.0 != key,
{
    let after = without_member(members, key);
    lemma_key_index_from(members, key, 0);
    assert forall|x: (Seq<char>, JsonView)| #[trigger]
        after.contains(x) <==> members.contains(x) && x.0 != key by {
        match key_index(members, key) {
            Some(k) => {
                if after.contains(x) {
                    let i = choose|i: int| 0 <= i < after.len() && after[i] == x;
                    let from: int = if i < k {
                        i
                    } else {
                        i + 1
                    };
                    assert(members[from] == x);
                    assert(members[k].0 == key);
                }
                if members.contains(x) && x.0 != key {
                    let i = choose|i: int| 0 <= i < members.len() && members[i] == x;
                    let to: int = if i < k {
                        i
                    } else {
                        i - 1
                    };
                    assert(after[to] == x);
                }
            },
            None => {
                if members.contains(x) {
                    let i = choose|i: int| 0 <= i < members.len() && members[i] == x;
                    assert(members[i].0 != key);
                }
            },
        }
    }
}

proof fn lemma_without_members(members: MembersView, keys: Seq<Seq<char>>)
    requires
        distinct_keys(members),
    ensures
        distinct_keys(without_members(members, keys)),
        forall|x: (Seq<char>, JsonView)| #[trigger]
            without_members(members, keys).contains(x) <==> members.contains(x) && !keys.contains(
                x.0,
            ),
    decreases keys.len(),
{
    if keys.len() > 0 {
        let head = keys.drop_last();
        lemma_without_members(members, head);
        lemma_without_member(without_members(members, head), keys.last());
        assert forall|x: (Seq<char>, JsonView)| #[trigger]
            without_members(members, keys).contains(x) <==> members.contains(x) && !keys.contains(
                x.0,
            ) by {
            assert(without_members(members, head).contains(x) <==> members.contains(x)
                && !head.contains(x.0));
            assert(keys =~= head.push(keys.last()));
            if head.contains(x.0) {
                let i = choose|i: int| 0 <= i < head.len() && head[i] == x.0;
                assert(keys[i] == x.0);
            }
            if x.0 == keys.last() {
                assert(keys[keys.len() - 1] == x.0);
            }
            if keys.contains(x.0) && x.0 != keys.last() {
                let i = choose|i: int| 0 <= i < keys.len() && keys[i] == x.0;
                assert(head[i] == x.0);
            }
        }
    }
}

proof fn lemma_with_member(members: MembersView, key: Seq<char>, value: JsonView)
    requires
        distinct_keys(members),
    ensures
        distinct_keys(with_member(members, key, value)),
        with_member(members, key, value).len() > 0,
        forall|x: (Seq<char>, JsonView)| #[trigger]
            with_member(members, key, value).contains(x) <==> x == (key, value)
                || members.contains(x) && x.0 != key,
{
    let after = with_member(members, key, value);
    crate::json::lemma_with_member(members, key, value);
    lemma_key_index_from(members, key, 0);
    let at: int = match key_index(members, key) {
        Some(k) => k,
        None => members.len() as int,
    };
    assert(after[at] == (key, value));
    assert forall|x: (Seq<char>, JsonView)| #[trigger]
        after.contains(x) <==> x == (key, value) || members.contains(x) && x.0 != key by {
        if after.contains(x) {
            let i = choose|i: int| 0 <= i < after.len() && after[i] == x;
            if i != at {
                assert(members[i] == x);
                if at < members.len() {
                    assert(members[at].0 == key);
                }
            }
        }
        if members.contains(x) && x.0 != key {
            let i = choose|i: int| 0 <= i < members.len() && members[i] == x;
            assert(after[i] == x);
        }
    }
}

proof fn lemma_with_members(members: MembersView, add: MembersView)
    requires
        distinct_keys(members),
    ensures
        distinct_keys(with_members(members, add)),
        forall|x: (Seq<char>, JsonView)| #[trigger]
            with_members(members, add).contains(x) <==> given_last(add, x) || members.contains(x)
                && !has_key(add, x.0),
    decreases add.len(),
{
    if add.len() > 0 {
        let head = add.drop_last();
        let last = add.last();
        let before = with_members(members, head);
        lemma_with_members(members, head);
        lemma_with_member(before, last.0, last.1);
        assert(add[add.len() - 1] == last);
        assert forall|x: (Seq<char>, JsonView)| #[trigger]
            with_members(members, add).contains(x) <==> given_last(add, x) || members.contains(x)
                && !has_key(add, x.0) by {
            assert(before.contains(x) <==> given_last(head, x) || members.contains(x) && !has_key(
                head,
                x.0,
            ));
            if has_key(head, x.0) {
                let i = choose|i: int| 0 <= i < head.len() && (#[trigger] head[i]).0 == x.0;
                assert(add[i].0 == x.0);
            }
            if has_key(add, x.0) && x.0 != last.0 {
                let i = choose|i: int| 0 <= i < add.len() && (#[trigger] add[i]).0 == x.0;
                assert(head[i].0 == x.0);
            }
            if given_last(head, x) && x.0 != last.0 {
                let i = choose|i: int|
                    0 <= i < head.len() && #[trigger] head[i] == x && forall|j: int|
                        i < j < head.len() ==> (#[trigger] head[j]).0 != x.0;
                assert(add[i] == x);
                assert forall|j: int| i < j < add.len() implies (#[trigger] add[j]).0 != x.0 by {
                    if j < head.len() {
                        assert(head[j].0 != x.0);
                    }
                }
            }
            if given_last(add, x) {
                let i = choose|i: int|
                    0 <= i < add.len() && #[trigger] add[i] == x && forall|j: int|
                        i < j < add.len() ==> (#[trigger] add[j]).0 != x.0;
                if i < head.len() {
                    assert(add[add.len() - 1].0 != x.0);
                    assert(head[i] == x);
                    assert forall|j: int| i < j < head.len() implies (#[trigger] head[j]).0
                        != x.0 by {
                        assert(add[j].0 != x.0);
                    }
                }
            }
        }
    }
}

/// What a rule makes of the metadata of a tool. A member that the rule takes out is gone, unless
/// the rule itself puts in one under the same key; a member that the rule puts in is there, with
/// the value that is given last for its key; any other member of the tool is there as it was, and
/// nothing else is. Where nothing is left, the tool has no metadata.
pub proof fn law_meta_is_rewritten(tool: ToolView, rules: Seq<RuleView>, r: int)
    requires
        applies(rules, tool.name, r),
        distinct_keys(members_or_none(tool.meta)),
    ensures
        ({
            let after = presented_tool(tool, rules).meta;
            let before = members_or_none(tool.meta);
            let add = members_or_none(rules[r].rewrite.meta);
            let remove = rules[r].rewrite.remove_meta;
            &&& after matches Some(m) ==> m.len() > 0
            &&& distinct_keys(members_or_none(after))
            &&& forall|x: (Seq<char>, JsonView)| #[trigger]
                members_or_none(after).contains(x) <==> given_last(add, x) || before.contains(x)
                    && !remove.contains(x.0) && !has_key(add, x.0)
        }),
{
    let before = members_or_none(tool.meta);
    let add = members_or_none(rules[r].rewrite.meta);
    let remove = rules[r].rewrite.remove_meta;
    lemma_first(rules, tool.name, 0, r);
    lemma_without_members(before, remove);
    lemma_with_members(without_members(before, remove), add);
    assert(rewritten_meta(tool.meta, rules[r].rewrite) == presented_tool(tool, rules).meta);
    assert(members_or_none(presented_tool(tool, rules).meta) =~= with_members(
        without_members(before, remove),
        add,
    ));
}

/// No member of a presented tool has a key that the first rule for the tool takes out, unless the
/// rule puts it in.
pub proof fn law_removed_meta_is_gone(tool: ToolView, rules: Seq<RuleView>, r: int, i: int)
    requires
        applies(rules, tool.name, r),
        distinct_keys(members_or_none(tool.meta)),
        0 <= i < members_or_none(presented_tool(tool, rules).meta).len(),
    ensures
        ({
            let key = members_or_none(presented_tool(tool, rules).meta)[i].0;
            rules[r].rewrite.remove_meta.contains(key) ==> has_key(
                members_or_none(rules[r].rewrite.meta),
                key,
            )
        }),
{
    law_meta_is_rewritten(tool, rules, r);
    let after = members_or_none(presented_tool(tool, rules).meta);
    let add = members_or_none(rules[r].rewrite.meta);
    assert(after.contains(after[i]));
    if given_last(add, after[i]) {
        let k = choose|k: int|
            0 <= k < add.len() && #[trigger] add[k] == after[i] && forall|j: int|
                k < j < add.len() ==> (#[trigger] add[j]).0 != after[i].0;
        assert(add[k].0 == after[i].0);
    }
}

/// The first rule for a name says what the item is called and how it is described, where it says
/// anything of it. All else of the item, the URI of a resource too, is as the upstream has it.
pub proof fn law_first_rule_names_and_describes(
    tool: ToolView,
    prompt: PromptView,
    resource: ResourceView,
    rules: Seq<RuleView>,
    r: int,
)
    ensures
        applies(rules, tool.name, r) ==> {
            let p = presented_tool(tool, rules);
            &&& p.rest == tool.rest
            &&& rules[r].rewrite.name matches Some(n) ==> p.name == n
            &&& rules[r].rewrite.name is None ==> p.name == tool.name
            &&& rules[r].rewrite.description matches Some(d) ==> p.description == Some(d)
            &&& rules[r].rewrite.description is None ==> p.description == tool.description
        },
        applies(rules, prompt.name, r) ==> {
            let p = presented_prompt(prompt, rules);
            &&& p.rest == prompt.rest
            &&& rules[r].rewrite.name matches Some(n) ==> p.name == n
            &&& rules[r].rewrite.name is None ==> p.name == prompt.name
            &&& rules[r].rewrite.description matches Some(d) ==> p.description == Some(d)
            &&& rules[r].rewrite.description is None ==> p.description == prompt.description
        },
        applies(rules, resource.name, r) ==> {
            let p = presented_resource(resource, rules);
            &&& p.uri == resource.uri
            &&& p.rest == resource.rest
            &&& rules[r].rewrite.name matches Some(n) ==> p.name == n
            &&& rules[r].rewrite.name is None ==> p.name == resource.name
            &&& rules[r].rewrite.description matches Some(d) ==> p.description == Some(d)
            &&& rules[r].rewrite.description is None ==> p.description == resource.description
        },
{
    if applies(rules, tool.name, r) {
        lemma_first(rules, tool.name, 0, r);
    }
    if applies(rules, prompt.name, r) {
        lemma_first(rules, prompt.name, 0, r);
    }
    if applies(rules, resource.name, r) {
        lemma_first(rules, resource.name, 0, r);
    }
}

/// An item that no rule is for is presented as the upstream has it.
pub proof fn law_no_rule_changes_nothing(
    tool: ToolView,
    prompt: PromptView,
    resource: ResourceView,
    rules: Seq<RuleView>,
)
    ensures
        none_applies(rules, tool.name) ==> presented_tool(tool, rules) == tool,
        none_applies(rules, prompt.name) ==> presented_prompt(prompt, rules) == prompt,
        none_applies(rules, resource.name) ==> presented_resource(resource, rules) == resource,
{
    if none_applies(rules, tool.name) {
        lemma_none(rules, tool.name, 0);
    }
    if none_applies(rules, prompt.name) {
        lemma_none(rules, prompt.name, 0);
    }
    if none_applies(rules, resource.name) {
        lemma_none(rules, resource.name, 0);
    }
}

/// The mathematical rules and server rewrites keep all that they stand for: those that differ in
/// any part differ there too.
pub proof fn law_rules_are_told_apart(
    a: CompiledItemRule,
    b: CompiledItemRule,
    x: CompiledServerRewrite,
    y: CompiledServerRewrite,
)
    requires
        a@ == b@,
        x@ == y@,
    ensures
        a.rule_name@ == b.rule_name@,
        match (a.matcher, b.matcher) {
            (ItemMatcher::Exact(n), ItemMatcher::Exact(m)) => n@ == m@,
            (ItemMatcher::Pattern(n), ItemMatcher::Pattern(m)) => n@ == m@,
            _ => false,
        },
        opt_str(a.rewrite.name) == opt_str(b.rewrite.name),
        opt_str(a.rewrite.description) == opt_str(b.rewrite.description),
        opt_members_view(a.rewrite.meta) == opt_members_view(b.rewrite.meta),
        strs(a.rewrite.remove_meta@) == strs(b.rewrite.remove_meta@),
        opt_str(x.name) == opt_str(y.name),
        opt_str(x.version) == opt_str(y.version),
        opt_str(x.instructions) == opt_str(y.instructions),
        x.upstream_instructions == y.upstream_instructions,
        x.resource_naming == y.resource_naming,
{
}

} // verus!
