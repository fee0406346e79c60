//! What holds of policies: how they are read from a configuration, put together and looked up.

use crate::json::JsonView;
use crate::rewrite::config::{
    MatchConfig, MatchKind, McpRewriteConfig, RewriteConfig, RuleConfig, ServerRewriteConfig,
    compiled_rule, compiled_rules, meta_view, policy_of, rule_warning, server_rewrite_of,
    usable_meta, with_rule_warnings,
};
use crate::rewrite::{
    HitView, ItemMatcherView, PolicyView, ResourceNaming, RuleView, SetView, TargetView,
    TargetsView, UpstreamInstructionsMode, compiled_target, concatenated_all, flat_hit,
    flat_prompt_route, flat_resource_route, flat_task_route, flat_tool_route, hits, is_flat,
    merged_policy, regex_error, resource_hits, reverse_of_rules, set_of_backends, target_index_from,
    target_rules, upstream_name,
};
use crate::routes::RoutesView;
use vstd::prelude::*;
use vstd::string::*;

verus! {

/// Of a target's own policy and that of the federation, the rules of both count, the target's own
/// first, and the target's own server rewrite before that of the federation. Where there is only
/// one policy, it is that one.
pub proof fn law_target_policy_goes_first(federation: PolicyView, per_target: PolicyView)
    ensures
        ({
            let both = merged_policy(Some(federation), Some(per_target));
            &&& both.tools == per_target.tools + federation.tools
            &&& both.prompts == per_target.prompts + federation.prompts
            &&& both.resources == per_target.resources + federation.resources
            &&& per_target.server is Some ==> both.server == per_target.server
            &&& per_target.server is None ==> both.server == federation.server
        }),
        merged_policy(Some(federation), None) == federation,
        merged_policy(None, Some(per_target)) == per_target,
        ({
            let none = merged_policy(None, None);
            none.server is None && none.tools.len() == 0 && none.prompts.len() == 0
                && none.resources.len() == 0
        }),
{
    let f = merged_policy(Some(federation), None);
    assert(f.tools =~= federation.tools);
    assert(f.prompts =~= federation.prompts);
    assert(f.resources =~= federation.resources);
    let t = merged_policy(None, Some(per_target));
    assert(t.tools =~= per_target.tools);
    assert(t.prompts =~= per_target.prompts);
    assert(t.resources =~= per_target.resources);
}

/// One policy more at the end of a list adds its rules behind those that are there, and its server
/// rewrite, where it has one, takes the place of an earlier one.
pub proof fn law_later_policies_add_rules(policies: Seq<PolicyView>, p: PolicyView)
    ensures
        concatenated_all(Seq::empty()) is None,
        concatenated_all(policies.push(p)) matches Some(all) && match concatenated_all(policies) {
            None => all == p,
            Some(before) => {
                &&& all.tools == before.tools + p.tools
                &&& all.prompts == before.prompts + p.prompts
                &&& all.resources == before.resources + p.resources
                &&& p.server is Some ==> all.server == p.server
                &&& p.server is None ==> all.server == before.server
            },
        },
{
    assert(policies.push(p).drop_last() =~= policies);
}

proof fn lemma_index_is(targets: TargetsView, name: Seq<char>, i: int, k: int)
    requires
        0 <= i <= k < targets.len(),
        targets[k].0 == name,
        forall|j: int| i <= j < k ==> (#[trigger] targets[j]).0 != name,
    ensures
        target_index_from(targets, name, i) == Some(k),
    decreases k - i,
{
    if i < k {
        assert(targets[i].0 != name);
        lemma_index_is(targets, name, i + 1, k);
    }
}

proof fn lemma_index_none(targets: TargetsView, name: Seq<char>, i: int)
    requires
        0 <= i,
        forall|j: int| i <= j < targets.len() ==> (#[trigger] targets[j]).0 != name,
    ensures
        target_index_from(targets, name, i) is None,
    decreases targets.len() - i,
{
    if i < targets.len() {
        assert(targets[i].0 != name);
        lemma_index_none(targets, name, i + 1);
    }
}

proof fn lemma_index_from(targets: TargetsView, name: Seq<char>, i: int)
    requires
        0 <= i,
    ensures
        match target_index_from(targets, name, i) {
            Some(k) => i <= k < targets.len() && targets[k].0 == name && forall|j: int|
                i <= j < k ==> (#[trigger] targets[j]).0 != name,
            None => forall|j: int| i <= j < targets.len() ==> (#[trigger] targets[j]).0 != name,
        },
    decreases targets.len() - i,
{
    if i < targets.len() && targets[i].0 != name {
        lemma_index_from(targets, name, i + 1);
    }
}

/// One backend more at the end of a list. One without a policy changes nothing. One with a policy
/// gives its target the rules of that policy, in place of any before, unless the policy has none;
/// the rules of all other targets stay. Its server rewrite, where it has one, takes the place of an
/// earlier one, and says whether names are flat.
pub proof fn law_each_backend_brings_its_rules(
    backends: Seq<(Seq<char>, Option<PolicyView>)>,
    name: Seq<char>,
    p: PolicyView,
    other: Seq<char>,
)
    requires
        other != name,
    ensures
        ({
            let none = set_of_backends(Seq::empty());
            &&& none.server is None
            &&& none.targets.len() == 0
            &&& !is_flat(none)
        }),
        set_of_backends(backends.push((name, None))) == set_of_backends(backends),
        ({
            let before = set_of_backends(backends);
            let after = set_of_backends(backends.push((name, Some(p))));
            &&& p.server is Some ==> after.server == p.server && (is_flat(after)
                <==> p.server->0.resource_naming == ResourceNaming::Flat)
            &&& p.server is None ==> after.server == before.server && is_flat(after) == is_flat(
                before,
            )
            &&& target_rules(after.targets, other) == target_rules(before.targets, other)
            &&& if p.tools.len() == 0 && p.prompts.len() == 0 && p.resources.len() == 0 {
                after.targets == before.targets
            } else {
                target_rules(after.targets, name) matches Some(rules) && rules.tools == p.tools
                    && rules.prompts == p.prompts && rules.resources == p.resources
            }
        }),
{
    assert(backends.push((name, None)).drop_last() =~= backends);
    assert(backends.push((name, Some(p))).drop_last() =~= backends);
    let before = set_of_backends(backends).targets;
    let after = set_of_backends(backends.push((name, Some(p)))).targets;
    lemma_index_from(before, name, 0);
    lemma_index_from(before, other, 0);
    if !(p.tools.len() == 0 && p.prompts.len() == 0 && p.resources.len() == 0) {
        let at: int = match target_index_from(before, name, 0) {
            Some(k) => k,
            None => before.len() as int,
        };
        assert(after[at].0 == name);
        assert forall|j: int| 0 <= j < before.len() implies (#[trigger] after[j]).0
            == before[j].0 by {}
        lemma_index_is(after, name, 0, at);
        match target_index_from(before, other, 0) {
            Some(k) => {
                assert(after[k] == before[k]);
                lemma_index_is(after, other, 0, k);
            },
            None => {
                assert forall|j: int| 0 <= j < after.len() implies (#[trigger] after[j]).0
                    != other by {
                    if j < before.len() {
                        assert(before[j].0 != other);
                    }
                }
                lemma_index_none(after, other, 0);
            },
        }
    }
}

/// A rule leads back from the name that it gives to the one that it is for, in place of any earlier
/// rule that gives the same name; a rule for a pattern, and one that gives no name, leads nowhere.
pub proof fn law_each_rule_leads_back(
    names: Map<Seq<char>, Seq<char>>,
    rules: Seq<RuleView>,
    rule: RuleView,
)
    ensures
        reverse_of_rules(names, Seq::empty()) == names,
        reverse_of_rules(names, rules.push(rule)) == if rule.rewrite.name is Some
            && rule.matcher is Exact {
            reverse_of_rules(names, rules).insert(rule.rewrite.name->0, rule.matcher->Exact_0)
        } else {
            reverse_of_rules(names, rules)
        },
{
    assert(rules.push(rule).drop_last() =~= rules);
}

/// A flat name that was listed leads where the list says, whatever the rules say.
pub proof fn law_listed_flat_name_leads_there(
    set: SetView,
    exposed: Seq<char>,
    routes: RoutesView,
    targets: Seq<Seq<char>>,
)
    requires
        routes.contains_key(exposed),
    ensures
        flat_tool_route(set, exposed, Some(routes), targets) == Ok::<HitView, Seq<char>>(
            routes[exposed],
        ),
        flat_prompt_route(set, exposed, Some(routes), targets) == Ok::<HitView, Seq<char>>(
            routes[exposed],
        ),
        flat_task_route(exposed, Some(routes), targets) == Ok::<HitView, Seq<char>>(
            routes[exposed],
        ),
{
}

/// A target answers to a flat name: without rules to any, as the name itself; with rules to those
/// that a rule gives, as the name that the rule is for.
pub proof fn law_targets_answer_to_flat_names(
    set: SetView,
    exposed: Seq<char>,
    target: Seq<char>,
    k: int,
)
    ensures
        (forall|i: int| 0 <= i < set.targets.len() ==> (#[trigger] set.targets[i]).0 != target)
            ==> flat_hit(set, exposed, target) == Some((target, exposed)),
        0 <= k < set.targets.len() && set.targets[k].0 == target && (forall|i: int|
            0 <= i < k ==> (#[trigger] set.targets[i]).0 != target) ==> {
            let back = set.targets[k].1.reverse;
            flat_hit(set, exposed, target) == if back.contains_key(exposed) {
                Some((target, back[exposed]))
            } else {
                None
            }
        },
{
    if forall|i: int| 0 <= i < set.targets.len() ==> (#[trigger] set.targets[i]).0 != target {
        lemma_index_none(set.targets, target, 0);
    }
    if 0 <= k < set.targets.len() && set.targets[k].0 == target && (forall|i: int|
        0 <= i < k ==> (#[trigger] set.targets[i]).0 != target) {
        lemma_index_is(set.targets, target, 0, k);
    }
}

proof fn lemma_one_hit(
    targets: Seq<Seq<char>>,
    f: spec_fn(Seq<char>) -> Option<HitView>,
    i: int,
)
    requires
        0 <= i < targets.len(),
        f(targets[i]) is Some,
        forall|j: int| 0 <= j < targets.len() && j != i ==> f(#[trigger] targets[j]) is None,
    ensures
        hits(targets, f) == seq![f(targets[i])->0],
    decreases targets.len(),
{
    let head = targets.drop_last();
    if i < head.len() {
        assert(f(targets[targets.len() - 1]) is None);
        assert forall|j: int| 0 <= j < head.len() && j != i implies f(#[trigger] head[j]) is None
            by {
            assert(head[j] == targets[j]);
        }
        lemma_one_hit(head, f, i);
    } else {
        assert forall|j: int| 0 <= j < head.len() implies f(#[trigger] head[j]) is None by {
            assert(head[j] == targets[j]);
        }
        lemma_no_hit(head, f);
        assert(hits(targets, f) =~= seq![f(targets[i])->0]);
    }
}

proof fn lemma_no_hit(targets: Seq<Seq<char>>, f: spec_fn(Seq<char>) -> Option<HitView>)
    requires
        forall|j: int| 0 <= j < targets.len() ==> f(#[trigger] targets[j]) is None,
    ensures
        hits(targets, f) == Seq::<HitView>::empty(),
    decreases targets.len(),
{
    if targets.len() > 0 {
        let head = targets.drop_last();
        assert(f(targets[targets.len() - 1]) is None);
        assert forall|j: int| 0 <= j < head.len() implies f(#[trigger] head[j]) is None by {
            assert(head[j] == targets[j]);
        }
        lemma_no_hit(head, f);
    }
}

proof fn lemma_hits_count(
    targets: Seq<Seq<char>>,
    f: spec_fn(Seq<char>) -> Option<HitView>,
    i: int,
    j: int,
)
    requires
        0 <= i < j < targets.len(),
        f(targets[i]) is Some,
        f(targets[j]) is Some,
    ensures
        hits(targets, f).len() >= 2,
    decreases targets.len(),
{
    let head = targets.drop_last();
    if j < head.len() {
        lemma_hits_count(head, f, i, j);
    } else {
        lemma_some_hit(head, f, i);
    }
}

proof fn lemma_some_hit(
    targets: Seq<Seq<char>>,
    f: spec_fn(Seq<char>) -> Option<HitView>,
    i: int,
)
    requires
        0 <= i < targets.len(),
        f(targets[i]) is Some,
    ensures
        hits(targets, f).len() >= 1,
    decreases targets.len(),
{
    let head = targets.drop_last();
    if i < head.len() {
        lemma_some_hit(head, f, i);
    }
}

/// A flat name that was not listed leads to the one target that answers to it, by the name that it
/// has there.
pub proof fn law_flat_name_of_one_target(
    set: SetView,
    exposed: Seq<char>,
    routes: RoutesView,
    targets: Seq<Seq<char>>,
    i: int,
)
    requires
        !routes.contains_key(exposed),
        0 <= i < targets.len(),
        flat_hit(set, exposed, targets[i]) is Some,
        forall|j: int|
            0 <= j < targets.len() && j != i ==> flat_hit(set, exposed, #[trigger] targets[j]) is
                None,
    ensures
        flat_tool_route(set, exposed, Some(routes), targets) == Ok::<HitView, Seq<char>>(
            flat_hit(set, exposed, targets[i])->0,
        ),
        flat_prompt_route(set, exposed, Some(routes), targets) == Ok::<HitView, Seq<char>>(
            flat_hit(set, exposed, targets[i])->0,
        ),
{
    lemma_one_hit(targets, |t: Seq<char>| flat_hit(set, exposed, t), i);
}

/// A flat name that was not listed and that no target answers to is unknown, and one that two
/// answer to is ambiguous.
pub proof fn law_flat_name_of_none_or_two(
    set: SetView,
    exposed: Seq<char>,
    routes: RoutesView,
    targets: Seq<Seq<char>>,
    i: int,
    j: int,
)
    requires
        !routes.contains_key(exposed),
    ensures
        (forall|l: int|
            0 <= l < targets.len() ==> flat_hit(set, exposed, #[trigger] targets[l]) is None) ==> {
            &&& flat_tool_route(set, exposed, Some(routes), targets) == Err::<HitView, Seq<char>>(
                "unknown flat "@ + "tool name"@ + ": "@ + exposed,
            )
            &&& flat_prompt_route(set, exposed, Some(routes), targets) == Err::<
                HitView,
                Seq<char>,
            >("unknown flat "@ + "prompt name"@ + ": "@ + exposed)
        },
        0 <= i < j < targets.len() && flat_hit(set, exposed, targets[i]) is Some && flat_hit(
            set,
            exposed,
            targets[j],
        ) is Some ==> {
            &&& flat_tool_route(set, exposed, Some(routes), targets) == Err::<HitView, Seq<char>>(
                "ambiguous flat "@ + "tool name"@ + ": "@ + exposed,
            )
            &&& flat_prompt_route(set, exposed, Some(routes), targets) == Err::<
                HitView,
                Seq<char>,
            >("ambiguous flat "@ + "prompt name"@ + ": "@ + exposed)
        },
{
    let f = |t: Seq<char>| flat_hit(set, exposed, t);
    if forall|l: int| 0 <= l < targets.len() ==> flat_hit(set, exposed, #[trigger] targets[l]) is
        None {
        lemma_no_hit(targets, f);
    }
    if 0 <= i < j < targets.len() && flat_hit(set, exposed, targets[i]) is Some && flat_hit(
        set,
        exposed,
        targets[j],
    ) is Some {
        lemma_hits_count(targets, f, i, j);
    }
}

/// A flat task id that was not listed leads to the only target, and nowhere where there is none or
/// more than one.
pub proof fn law_unlisted_flat_task(
    exposed: Seq<char>,
    routes: RoutesView,
    targets: Seq<Seq<char>>,
)
    requires
        !routes.contains_key(exposed),
    ensures
        targets.len() == 1 ==> flat_task_route(exposed, Some(routes), targets) == Ok::<
            HitView,
            Seq<char>,
        >((targets[0], exposed)),
        targets.len() == 0 ==> flat_task_route(exposed, Some(routes), targets) == Err::<
            HitView,
            Seq<char>,
        >("unknown flat task id: "@ + exposed),
        targets.len() > 1 ==> flat_task_route(exposed, Some(routes), targets) == Err::<
            HitView,
            Seq<char>,
        >("ambiguous flat task id: "@ + exposed),
{
}

/// The targets that a flat resource name may be of are found one by one: a target with a rule that
/// leads back from the name by the name that the rule is for, one whose rules for resources give
/// the name to something else not at all, and any other by the name itself. The name leads to a
/// target only where it is the only one.
pub proof fn law_flat_resource_names(
    targets: TargetsView,
    name: Seq<char>,
    rules: TargetView,
    exposed: Seq<char>,
    set: SetView,
)
    ensures
        resource_hits(Seq::empty(), exposed).len() == 0,
        resource_hits(targets.push((name, rules)), exposed) == if rules.reverse.contains_key(
            exposed,
        ) {
            resource_hits(targets, exposed).push((name, rules.reverse[exposed]))
        } else if exists|i: int|
            0 <= i < rules.resources.len() && (#[trigger] rules.resources[i]).rewrite.name == Some(
                exposed,
            ) {
            resource_hits(targets, exposed)
        } else {
            resource_hits(targets, exposed).push((name, exposed))
        },
        ({
            let found = resource_hits(set.targets, exposed);
            let route = flat_resource_route(set, exposed);
            &&& found.len() == 1 ==> route == Ok::<HitView, Seq<char>>(found[0])
            &&& found.len() == 0 ==> route == Err::<HitView, Seq<char>>(
                "unknown flat "@ + "resource name"@ + ": "@ + exposed,
            )
            &&& found.len() > 1 ==> route == Err::<HitView, Seq<char>>(
                "ambiguous flat "@ + "resource name"@ + ": "@ + exposed,
            )
        }),
{
    assert(targets.push((name, rules)).drop_last() =~= targets);
}

/// A rule as it is read: it is for the name or the pattern that its match sets, and puts in place
/// what its rewrite says. Its name and description are those of the rewrite, its metadata the
/// values that are given, and what it takes out the keys that are named.
pub proof fn law_rule_is_read(
    rule: RuleConfig,
    context: Seq<char>,
    matcher: MatchConfig,
    rewrite: RewriteConfig,
)
    requires
        rule.matcher == Some(matcher),
        rule.rewrite == Some(rewrite),
    ensures
        matcher.kind matches Some(MatchKind::ExactName(n)) ==> (compiled_rule(rule, context, None)
            matches Some(r) && r.matcher == ItemMatcherView::Exact(n@)),
        matcher.kind matches Some(MatchKind::NamePattern(p)) ==> (compiled_rule(
            rule,
            context,
            None,
        ) matches Some(r) && r.matcher == ItemMatcherView::Pattern(p@)),
        matcher.kind is Some ==> (compiled_rule(rule, context, None) matches Some(r) && {
            &&& r.rule_name == rule.name@
            &&& rewrite.name is Some ==> r.rewrite.name == Some(rewrite.name->0@)
            &&& rewrite.name is None ==> r.rewrite.name is None
            &&& rewrite.description is Some ==> r.rewrite.description == Some(
                rewrite.description->0@,
            )
            &&& rewrite.description is None ==> r.rewrite.description is None
            &&& rewrite.meta@.len() == 0 ==> r.rewrite.meta is None
            &&& rewrite.meta@.len() > 0 ==> r.rewrite.meta == Some(
                usable_meta(
                    Seq::new(
                        rewrite.meta@.len(),
                        |i: int|
                            (
                                rewrite.meta@[i].0@,
                                match rewrite.meta@[i].1 {
                                    Some(v) => Some(v@),
                                    None => None,
                                },
                            ),
                    ),
                ),
            )
            &&& r.rewrite.remove_meta.len() == rewrite.remove_meta@.len()
            &&& forall|i: int|
                0 <= i < rewrite.remove_meta@.len() ==> #[trigger] r.rewrite.remove_meta[i]
                    == rewrite.remove_meta@[i]@
        }),
        matcher.kind is Some ==> rule_warning(rule, context, None) is None,
{
    assert(meta_view(rewrite.meta@) =~= Seq::new(
        rewrite.meta@.len(),
        |i: int|
            (
                rewrite.meta@[i].0@,
                match rewrite.meta@[i].1 {
                    Some(v) => Some(v@),
                    None => None,
                },
            ),
    ));
}

/// A rule without a match, one whose match sets nothing, and one whose pattern the regex engine
/// refuses is left out, with a warning that says where it stands. One that puts nothing in place is
/// left out without a warning.
pub proof fn law_broken_rule_is_left_out(
    rule: RuleConfig,
    context: Seq<char>,
    matcher: MatchConfig,
    reason: Seq<char>,
)
    ensures
        rule.matcher is None || rule.matcher == Some(matcher) && matcher.kind is None ==> {
            &&& compiled_rule(rule, context, None) is None
            &&& rule_warning(rule, context, None) matches Some(w) && ("backend.mcpRewrite."@
                + context + " rule "@ + rule.name@).is_prefix_of(w)
        },
        rule.matcher == Some(matcher) && (matcher.kind matches Some(MatchKind::NamePattern(_)))
            ==> {
            &&& compiled_rule(rule, context, Some(reason)) is None
            &&& rule_warning(rule, context, Some(reason)) == Some(
                "invalid regex for "@ + ("backend.mcpRewrite."@ + context + " rule "@ + rule.name@)
                    + ": "@ + reason,
            )
        },
        rule.rewrite is None ==> compiled_rule(rule, context, None) is None,
{
    let place = "backend.mcpRewrite."@ + context + " rule "@ + rule.name@;
    if rule.matcher is None || rule.matcher == Some(matcher) && matcher.kind is None {
        let w = rule_warning(rule, context, None)->0;
        assert(place =~= w.subrange(0, place.len() as int));
    }
}

/// The metadata that a rule puts in are the values that are JSON values, in the order in which they
/// are given.
pub proof fn law_usable_metadata_is_kept(
    meta: Seq<(Seq<char>, Option<JsonView>)>,
    key: Seq<char>,
    value: Option<JsonView>,
)
    ensures
        usable_meta(Seq::empty()).len() == 0,
        usable_meta(meta.push((key, value))) == match value {
            Some(v) => usable_meta(meta).push((key, v)),
            None => usable_meta(meta),
        },
{
    assert(meta.push((key, value)).drop_last() =~= meta);
}

/// What the regex engine says against the pattern of a rule that has one.
pub open spec fn complaint(rule: RuleConfig) -> Option<Seq<char>> {
    if rule.matcher is Some && rule.matcher->0.kind is Some && rule.matcher->0.kind->0 is
        NamePattern {
        regex_error(rule.matcher->0.kind->0->NamePattern_0@)
    } else {
        None
    }
}

/// Rules are read one by one, in the order in which they are configured, and so are the warnings
/// about them.
pub proof fn law_rules_are_read_in_order(
    rules: Seq<RuleConfig>,
    rule: RuleConfig,
    context: Seq<char>,
    warnings: Seq<Seq<char>>,
)
    ensures
        compiled_rules(Seq::empty(), context).len() == 0,
        compiled_rules(rules.push(rule), context) == match compiled_rule(
            rule,
            context,
            complaint(rule),
        ) {
            Some(r) => compiled_rules(rules, context).push(r),
            None => compiled_rules(rules, context),
        },
        with_rule_warnings(warnings, Seq::empty(), context) == warnings,
        with_rule_warnings(warnings, rules.push(rule), context) == match rule_warning(
            rule,
            context,
            complaint(rule),
        ) {
            Some(w) => with_rule_warnings(warnings, rules, context).push(w),
            None => with_rule_warnings(warnings, rules, context),
        },
{
    assert(rules.push(rule).drop_last() =~= rules);
}

/// The server rewrite as it is read: what is not said of it is left out, upstream instructions are
/// appended and names are prefixed.
pub proof fn law_server_rewrite_is_read(s: ServerRewriteConfig)
    ensures
        ({
            let r = server_rewrite_of(s);
            &&& r.name is Some == s.name is Some
            &&& s.name matches Some(n) ==> r.name == Some(n@)
            &&& r.version is Some == s.version is Some
            &&& s.version matches Some(v) ==> r.version == Some(v@)
            &&& r.instructions is Some == s.instructions is Some
            &&& s.instructions matches Some(i) ==> r.instructions == Some(i@)
            &&& s.upstream_instructions is None ==> r.upstream_instructions
                == UpstreamInstructionsMode::Append
            &&& s.upstream_instructions matches Some(m) ==> r.upstream_instructions == m
            &&& s.resource_naming is None ==> r.resource_naming == ResourceNaming::Prefix
            &&& s.resource_naming matches Some(n) ==> r.resource_naming == n
        }),
{
}

/// A policy has, for each kind of item, the rules that are configured for that kind.
pub proof fn law_policy_is_read(m: McpRewriteConfig)
    ensures
        ({
            let p = policy_of(m);
            &&& m.server is None ==> p.server is None
            &&& m.server matches Some(s) ==> p.server == Some(server_rewrite_of(s))
            &&& m.tools is None ==> p.tools.len() == 0
            &&& m.tools matches Some(v) ==> p.tools == compiled_rules(v@, "tools"@)
            &&& m.prompts is None ==> p.prompts.len() == 0
            &&& m.prompts matches Some(v) ==> p.prompts == compiled_rules(v@, "prompts"@)
            &&& m.resources is None ==> p.resources.len() == 0
            &&& m.resources matches Some(v) ==> p.resources == compiled_rules(v@, "resources"@)
        }),
{
}

/// Of rules that give the same name, those for prompts count before those for tools, and those for
/// resources before both: a rule leads back from the name that it gives whatever the rules of the
/// kinds before it say.
pub proof fn law_later_kinds_lead_back(
    tools: Seq<RuleView>,
    prompts: Seq<RuleView>,
    resources: Seq<RuleView>,
    rule: RuleView,
    exposed: Seq<char>,
    upstream: Seq<char>,
)
    requires
        rule.rewrite.name == Some(exposed),
        rule.matcher == ItemMatcherView::Exact(upstream),
    ensures
        ({
            let p = PolicyView { server: None, tools, prompts, resources };
            let more = PolicyView { resources: resources.push(rule), ..p };
            compiled_target(more).reverse == compiled_target(p).reverse.insert(exposed, upstream)
        }),
        ({
            let p = PolicyView { server: None, tools, prompts, resources: Seq::empty() };
            let more = PolicyView { prompts: prompts.push(rule), ..p };
            compiled_target(more).reverse == compiled_target(p).reverse.insert(exposed, upstream)
        }),
        ({
            let p = PolicyView {
                server: None,
                tools,
                prompts: Seq::empty(),
                resources: Seq::empty(),
            };
            let more = PolicyView { tools: tools.push(rule), ..p };
            compiled_target(more).reverse == compiled_target(p).reverse.insert(exposed, upstream)
        }),
{
    assert(tools.push(rule).drop_last() =~= tools);
    assert(prompts.push(rule).drop_last() =~= prompts);
    assert(resources.push(rule).drop_last() =~= resources);
}

/// The rules of a target are those of its policy, kind by kind.
pub proof fn law_target_has_the_rules_of_its_policy(policy: PolicyView)
    ensures
        compiled_target(policy).tools == policy.tools,
        compiled_target(policy).prompts == policy.prompts,
        compiled_target(policy).resources == policy.resources,
{
}

/// A name that a rule leads back from has the upstream name that the rule is for, and any other is
/// its own.
pub proof fn law_names_lead_back(target: TargetView, exposed: Seq<char>)
    ensures
        target.reverse.contains_key(exposed) ==> upstream_name(target, exposed)
            == target.reverse[exposed],
        !target.reverse.contains_key(exposed) ==> upstream_name(target, exposed) == exposed,
{
}

} // verus!
