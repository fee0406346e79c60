//! Presentation rules as they are configured, and their compilation.

use crate::json::{Json, JsonMap, JsonView, MembersView, members_view, opt_json_view};
use crate::model::{opt_str, strs};
use crate::rewrite::{
    CompiledItemRule, CompiledServerRewrite, ItemMatcher, ItemMatcherView, McpRewritePolicy,
    PolicyView, ResourceNaming, RewriteValue, RewriteValueView, RuleView, ServerRewriteView,
    UpstreamInstructionsMode, copy_opt_str, copy_strs, regex_error, regex_new_error, rules_view,
};
use crate::text;
use vstd::prelude::*;
use vstd::string::*;

verus! {

/// The upstream names that a configured rule is for.
#[derive(Debug, PartialEq, Eq)]
pub enum MatchKind {
    ExactName(String),
    NamePattern(String),
}

/// The match of a configured rule; a kind that is not known is none.
#[derive(Debug, PartialEq, Eq)]
pub struct MatchConfig {
    pub kind: Option<MatchKind>,
}

/// What a configured rule puts in place. A metadata value that is no JSON value is none.
#[derive(Debug, PartialEq, Eq)]
pub struct RewriteConfig {
    pub name: Option<String>,
    pub description: Option<String>,
    pub meta: Vec<(String, Option<Json>)>,
    pub remove_meta: Vec<String>,
}

/// A configured rule.
#[derive(Debug, PartialEq, Eq)]
pub struct RuleConfig {
    pub name: String,
    pub matcher: Option<MatchConfig>,
    pub rewrite: Option<RewriteConfig>,
}

/// What the gateway is configured to say of itself. A mode that is not known is none.
#[derive(Debug, PartialEq, Eq)]
pub struct ServerRewriteConfig {
    pub name: Option<String>,
    pub version: Option<String>,
    pub instructions: Option<String>,
    pub upstream_instructions: Option<UpstreamInstructionsMode>,
    pub resource_naming: Option<ResourceNaming>,
}

/// A configured policy.
#[derive(Debug, PartialEq, Eq)]
pub struct McpRewriteConfig {
    pub server: Option<ServerRewriteConfig>,
    pub tools: Option<Vec<RuleConfig>>,
    pub prompts: Option<Vec<RuleConfig>>,
    pub resources: Option<Vec<RuleConfig>>,
}

/// What was found wrong with a configuration.
#[derive(Debug, PartialEq, Eq)]
pub struct Diagnostics {
    pub warnings: Vec<String>,
}

impl Default for Diagnostics {
    fn default() -> (r: Self)
        ensures
            r.warnings@.len() == 0,
    {
        Diagnostics { warnings: Vec::new() }
    }
}

impl Diagnostics {
    /// Adds a warning.
    pub fn add_warning(&mut self, warning: String)
        ensures
            strs(final(self).warnings@) == strs(old(self).warnings@).push(warning@),
    {
        self.warnings.push(warning);
        assert(strs(self.warnings@) =~= strs(old(self).warnings@).push(warning@));
    }
}

/// The metadata values of a vector.
pub open spec fn meta_view(v: Seq<(String, Option<Json>)>) -> Seq<(Seq<char>, Option<JsonView>)> {
    Seq::new(v.len(), |i: int| (v[i].0@, opt_json_view(v[i].1)))
}

/// The values among `meta` that are JSON values.
pub open spec fn usable_meta(meta: Seq<(Seq<char>, Option<JsonView>)>) -> MembersView
    decreases meta.len(),
{
    if meta.len() == 0 {
        Seq::empty()
    } else {
        let before = usable_meta(meta.drop_last());
        match meta.last().1 {
            Some(value) => before.push((meta.last().0, value)),
            None => before,
        }
    }
}

/// The rewrite that a configuration stands for.
pub open spec fn rewrite_of(config: RewriteConfig) -> RewriteValueView {
    RewriteValueView {
        name: opt_str(config.name),
        description: opt_str(config.description),
        meta: if config.meta@.len() == 0 {
            None
        } else {
            Some(usable_meta(meta_view(config.meta@)))
        },
        remove_meta: strs(config.remove_meta@),
    }
}

/// What is wrong with the match of a rule, given what the regex engine says against its pattern.
pub open spec fn rule_warning(
    rule: RuleConfig,
    context: Seq<char>,
    pattern_error: Option<Seq<char>>,
) -> Option<Seq<char>> {
    let place = "backend.mcpRewrite."@ + context + " rule "@ + rule.name@;
    match rule.matcher {
        None => Some(place + ": missing match"@),
        Some(m) => match m.kind {
            None => Some(place + ": match must set exact_name or name_pattern"@),
            Some(MatchKind::ExactName(_)) => None,
            Some(MatchKind::NamePattern(_)) => match pattern_error {
                Some(e) => Some("invalid regex for "@ + place + ": "@ + e),
                None => None,
            },
        },
    }
}

/// The rule that a configuration stands for: none where its match is wrong or it puts nothing in
/// place.
pub open spec fn compiled_rule(
    rule: RuleConfig,
    context: Seq<char>,
    pattern_error: Option<Seq<char>>,
) -> Option<RuleView> {
    if rule_warning(rule, context, pattern_error) is Some {
        None
    } else {
        match rule.rewrite {
            None => None,
            Some(rewrite) => Some(
                RuleView {
                    rule_name: rule.name@,
                    matcher: match rule.matcher->0.kind->0 {
                        MatchKind::ExactName(n) => ItemMatcherView::Exact(n@),
                        MatchKind::NamePattern(p) => ItemMatcherView::Pattern(p@),
                    },
                    rewrite: rewrite_of(rewrite),
                },
            ),
        }
    }
}

/// What the regex engine says against the pattern of a rule, where it has one.
pub open spec fn pattern_error_of(rule: RuleConfig) -> Option<Seq<char>> {
    match rule.matcher {
        Some(m) => match m.kind {
            Some(MatchKind::NamePattern(p)) => regex_error(p@),
            _ => None,
        },
        None => None,
    }
}

/// The warnings after one more, where there is one.
pub open spec fn with_warning(warnings: Seq<Seq<char>>, warning: Option<Seq<char>>) -> Seq<
    Seq<char>,
> {
    match warning {
        Some(w) => warnings.push(w),
        None => warnings,
    }
}

/// What a rule is, where there is one.
pub open spec fn opt_rule(r: Option<CompiledItemRule>) -> Option<RuleView> {
    match r {
        Some(rule) => Some(rule@),
        None => None,
    }
}

fn compile_meta(meta: &Vec<(String, Option<Json>)>) -> (r: Option<JsonMap>)
    ensures
        match r {
            Some(m) => meta@.len() > 0 && members_view(m@) == usable_meta(meta_view(meta@)),
            None => meta@.len() == 0,
        },
{
    if meta.len() == 0 {
        return None;
    }
    let ghost all = meta_view(meta@);
    let mut out: JsonMap = Vec::new();
    let mut i: usize = 0;
    assert(all.take(0) =~= Seq::<(Seq<char>, Option<JsonView>)>::empty());
    assert(members_view(out@) =~= Seq::empty());
    while i < meta.len()
        invariant
            i <= meta@.len(),
            all == meta_view(meta@),
            members_view(out@) == usable_meta(all.take(i as int)),
        decreases meta@.len() - i,
    {
        assert(all.take(i + 1).drop_last() =~= all.take(i as int));
        assert(all.take(i + 1).last() == all[i as int]);
        let ghost before = members_view(out@);
        if let Some(value) = &meta[i].1 {
            let name = meta[i].0.clone();
            let value = value.copy();
            out.push((name, value));
            assert(members_view(out@) =~= before.push((name@, value@)));
        }
        i += 1;
    }
    assert(all.take(i as int) =~= all);
    Some(out)
}

fn rule_place(rule: &RuleConfig, context: &str) -> (r: String)
    ensures
        r@ == "backend.mcpRewrite."@ + context@ + " rule "@ + rule.name@,
{
    let mut place = text::concat3("backend.mcpRewrite.", context, " rule ");
    place.append(rule.name.as_str());
    place
}

/// Compiles a rule, given what the regex engine says against its pattern.
pub fn compile_checked_rule(
    r: &RuleConfig,
    context: &str,
    pattern_error: Option<String>,
    diagnostics: &mut Diagnostics,
) -> (out: Option<CompiledItemRule>)
    ensures
        opt_rule(out) == compiled_rule(*r, context@, opt_str(pattern_error)),
        strs(final(diagnostics).warnings@) == with_warning(
            strs(old(diagnostics).warnings@),
            rule_warning(*r, context@, opt_str(pattern_error)),
        ),
{
    let matcher = match &r.matcher {
        Some(m) => match &m.kind {
            Some(MatchKind::ExactName(n)) => ItemMatcher::Exact(n.clone()),
            Some(MatchKind::NamePattern(p)) => match pattern_error {
                None => ItemMatcher::Pattern(p.clone()),
                Some(e) => {
                    let place = rule_place(r, context);
                    let mut warning = text::concat3("invalid regex for ", place.as_str(), ": ");
                    warning.append(e.as_str());
                    diagnostics.add_warning(warning);
                    return None;
                },
            },
            None => {
                let place = rule_place(r, context);
                diagnostics.add_warning(
                    text::concat(place.as_str(), ": match must set exact_name or name_pattern"),
                );
                return None;
            },
        },
        None => {
            let place = rule_place(r, context);
            diagnostics.add_warning(text::concat(place.as_str(), ": missing match"));
            return None;
        },
    };
    match &r.rewrite {
        None => None,
        Some(rewrite) => {
            let meta = compile_meta(&rewrite.meta);
            Some(
                CompiledItemRule {
                    rule_name: r.name.clone(),
                    matcher,
                    rewrite: RewriteValue {
                        name: copy_opt_str(&rewrite.name),
                        description: copy_opt_str(&rewrite.description),
                        meta,
                        remove_meta: copy_strs(&rewrite.remove_meta),
                    },
                },
            )
        },
    }
}

/// Compiles a rule; what is wrong with it goes to the diagnostics, and the rule is left out.
pub fn compile_item_rule(r: &RuleConfig, context: &str, diagnostics: &mut Diagnostics) -> (out:
    Option<CompiledItemRule>)
    ensures
        opt_rule(out) == compiled_rule(*r, context@, pattern_error_of(*r)),
        strs(final(diagnostics).warnings@) == with_warning(
            strs(old(diagnostics).warnings@),
            rule_warning(*r, context@, pattern_error_of(*r)),
        ),
{
    let pattern_error = match &r.matcher {
        Some(m) => match &m.kind {
            Some(MatchKind::NamePattern(p)) => regex_new_error(p.as_str()),
            _ => None,
        },
        None => None,
    };
    compile_checked_rule(r, context, pattern_error, diagnostics)
}

/// The rules that a list of configured rules stands for, in order.
pub open spec fn compiled_rules(rules: Seq<RuleConfig>, context: Seq<char>) -> Seq<RuleView>
    decreases rules.len(),
{
    if rules.len() == 0 {
        Seq::empty()
    } else {
        let before = compiled_rules(rules.drop_last(), context);
        match compiled_rule(rules.last(), context, pattern_error_of(rules.last())) {
            Some(rule) => before.push(rule),
            None => before,
        }
    }
}

/// The warnings after a list of configured rules.
pub open spec fn with_rule_warnings(
    warnings: Seq<Seq<char>>,
    rules: Seq<RuleConfig>,
    context: Seq<char>,
) -> Seq<Seq<char>>
    decreases rules.len(),
{
    if rules.len() == 0 {
        warnings
    } else {
        with_warning(
            with_rule_warnings(warnings, rules.drop_last(), context),
            rule_warning(rules.last(), context, pattern_error_of(rules.last())),
        )
    }
}

/// Compiles the rules of one kind.
pub fn item_rules_from_proto(rules: &Vec<RuleConfig>, context: &str, diagnostics: &mut Diagnostics) -> (r:
    Vec<CompiledItemRule>)
    ensures
        rules_view(r@) == compiled_rules(rules@, context@),
        strs(final(diagnostics).warnings@) == with_rule_warnings(
            strs(old(diagnostics).warnings@),
            rules@,
            context@,
        ),
{
    let ghost start = strs(diagnostics.warnings@);
    let mut out: Vec<CompiledItemRule> = Vec::new();
    let mut i: usize = 0;
    assert(rules@.take(0) =~= Seq::<RuleConfig>::empty());
    assert(rules_view(out@) =~= Seq::empty());
    while i < rules.len()
        invariant
            i <= rules@.len(),
            rules_view(out@) == compiled_rules(rules@.take(i as int), context@),
            strs(diagnostics.warnings@) == with_rule_warnings(
                start,
                rules@.take(i as int),
                context@,
            ),
        decreases rules@.len() - i,
    {
        assert(rules@.take(i + 1).drop_last() =~= rules@.take(i as int));
        assert(rules@.take(i + 1).last() == rules@[i as int]);
        let ghost before = rules_view(out@);
        if let Some(rule) = compile_item_rule(&rules[i], context, diagnostics) {
            out.push(rule);
            assert(rules_view(out@) =~= before.push(rule@));
        }
        i += 1;
    }
    assert(rules@.take(i as int) =~= rules@);
    out
}

/// The server rewrite that a configuration stands for.
pub open spec fn server_rewrite_of(s: ServerRewriteConfig) -> ServerRewriteView {
    ServerRewriteView {
        name: opt_str(s.name),
        version: opt_str(s.version),
        instructions: opt_str(s.instructions),
        upstream_instructions: match s.upstream_instructions {
            Some(mode) => mode,
            None => UpstreamInstructionsMode::Append,
        },
        resource_naming: match s.resource_naming {
            Some(naming) => naming,
            None => ResourceNaming::Prefix,
        },
    }
}

/// The server rewrite that a configuration stands for: instructions are appended and names are
/// prefixed where it says nothing else.
pub fn server_rewrite_from_proto(s: &ServerRewriteConfig) -> (r: CompiledServerRewrite)
    ensures
        r@ == server_rewrite_of(*s),
{
    let upstream_instructions = match s.upstream_instructions {
        Some(mode) => mode,
        None => UpstreamInstructionsMode::Append,
    };
    let resource_naming = match s.resource_naming {
        Some(naming) => naming,
        None => ResourceNaming::Prefix,
    };
    CompiledServerRewrite {
        name: copy_opt_str(&s.name),
        version: copy_opt_str(&s.version),
        instructions: copy_opt_str(&s.instructions),
        upstream_instructions,
        resource_naming,
    }
}

/// The configured rules of one kind.
pub open spec fn rules_or_none(rules: Option<Vec<RuleConfig>>) -> Seq<RuleConfig> {
    match rules {
        Some(v) => v@,
        None => Seq::empty(),
    }
}

/// The policy that a configuration stands for.
pub open spec fn policy_of(m: McpRewriteConfig) -> PolicyView {
    PolicyView {
        server: match m.server {
            Some(s) => Some(server_rewrite_of(s)),
            None => None,
        },
        tools: compiled_rules(rules_or_none(m.tools), "tools"@),
        prompts: compiled_rules(rules_or_none(m.prompts), "prompts"@),
        resources: compiled_rules(rules_or_none(m.resources), "resources"@),
    }
}

/// Compiles a policy; what is wrong with its rules goes to the diagnostics.
pub fn mcp_rewrite_from_proto(m: &McpRewriteConfig, diagnostics: &mut Diagnostics) -> (r:
    McpRewritePolicy)
    ensures
        r@ == policy_of(*m),
        strs(final(diagnostics).warnings@) == with_rule_warnings(
            with_rule_warnings(
                with_rule_warnings(
                    strs(old(diagnostics).warnings@),
                    rules_or_none(m.tools),
                    "tools"@,
                ),
                rules_or_none(m.prompts),
                "prompts"@,
            ),
            rules_or_none(m.resources),
            "resources"@,
        ),
{
    let mut pol = McpRewritePolicy::default();
    if let Some(s) = &m.server {
        pol.server = Some(server_rewrite_from_proto(s));
    }
    if let Some(t) = &m.tools {
        pol.tools = item_rules_from_proto(t, "tools", diagnostics);
    }
    if let Some(p) = &m.prompts {
        pol.prompts = item_rules_from_proto(p, "prompts", diagnostics);
    }
    if let Some(r) = &m.resources {
        pol.resources = item_rules_from_proto(r, "resources", diagnostics);
    }
    pol
}

} // verus!
