//! Presentation rules: new names, descriptions and metadata for what upstream servers list, and
//! the way back from a client-visible name to the server that has it.

pub mod config;
pub mod policies;
pub mod presentation;

use crate::json::{
    self, JsonMap, JsonView, MembersView, members_view, opt_members_view, with_member,
    without_member,
};
use crate::model::{
    Prompt, PromptView, Resource, ResourceTemplate, ResourceView, Task, Tool, ToolView, opt_str,
    pair, strs,
};
use crate::routes::{
    Named, RouteIndex, RoutesView, build_flat_route_index, entries_view, filter_first, keep_first,
    names_of, route_index,
};
use crate::text;
use crate::upstream::{UpstreamError, invalid_request};
use vstd::hash_map::StringHashMap;
use vstd::prelude::*;
use vstd::string::*;

verus! {

/// How names of several targets share one namespace.
#[derive(Debug, Clone, Copy, PartialEq, Eq, Structural)]
pub enum ResourceNaming {
    Prefix,
    Flat,
}

impl Default for ResourceNaming {
    fn default() -> (r: Self)
        ensures
            r == ResourceNaming::Prefix,
    {
        ResourceNaming::Prefix
    }
}

/// What becomes of the instructions of upstream servers.
#[derive(Debug, Clone, Copy, PartialEq, Eq, Structural)]
pub enum UpstreamInstructionsMode {
    Append,
    Replace,
    Prepend,
}

impl Default for UpstreamInstructionsMode {
    fn default() -> (r: Self)
        ensures
            r == UpstreamInstructionsMode::Append,
    {
        UpstreamInstructionsMode::Append
    }
}

/// What the gateway says of itself in place of its own words.
#[derive(Debug, PartialEq, Eq)]
pub struct CompiledServerRewrite {
    pub name: Option<String>,
    pub version: Option<String>,
    pub instructions: Option<String>,
    pub upstream_instructions: UpstreamInstructionsMode,
    pub resource_naming: ResourceNaming,
}

/// The mathematical server rewrite.
pub struct ServerRewriteView {
    pub name: Option<Seq<char>>,
    pub version: Option<Seq<char>>,
    pub instructions: Option<Seq<char>>,
    pub upstream_instructions: UpstreamInstructionsMode,
    pub resource_naming: ResourceNaming,
}

impl View for CompiledServerRewrite {
    type V = ServerRewriteView;

    open spec fn view(&self) -> ServerRewriteView {
        ServerRewriteView {
            name: opt_str(self.name),
            version: opt_str(self.version),
            instructions: opt_str(self.instructions),
            upstream_instructions: self.upstream_instructions,
            resource_naming: self.resource_naming,
        }
    }
}

impl Default for CompiledServerRewrite {
    fn default() -> (r: Self)
        ensures
            r@ == (ServerRewriteView {
                name: None,
                version: None,
                instructions: None,
                upstream_instructions: UpstreamInstructionsMode::Append,
                resource_naming: ResourceNaming::Prefix,
            }),
    {
        CompiledServerRewrite {
            name: None,
            version: None,
            instructions: None,
            upstream_instructions: UpstreamInstructionsMode::Append,
            resource_naming: ResourceNaming::Prefix,
        }
    }
}

/// A copy of a string, where there is one.
pub fn copy_opt_str(s: &Option<String>) -> (r: Option<String>)
    ensures
        opt_str(r) == opt_str(*s),
{
    match s {
        Some(x) => Some(x.clone()),
        None => None,
    }
}

/// Copies of the strings of a vector.
pub fn copy_strs(v: &Vec<String>) -> (r: Vec<String>)
    ensures
        strs(r@) == strs(v@),
{
    let mut out: Vec<String> = Vec::new();
    let mut i: usize = 0;
    while i < v.len()
        invariant
            i <= v@.len(),
            out@.len() == i,
            forall|k: int| 0 <= k < i ==> (#[trigger] out@[k])@ == v@[k]@,
        decreases v@.len() - i,
    {
        out.push(v[i].clone());
        i += 1;
    }
    assert(strs(out@) =~= strs(v@));
    out
}

impl CompiledServerRewrite {
    /// A copy of the rewrite.
    pub fn copy(&self) -> (r: CompiledServerRewrite)
        ensures
            r@ == self@,
    {
        CompiledServerRewrite {
            name: copy_opt_str(&self.name),
            version: copy_opt_str(&self.version),
            instructions: copy_opt_str(&self.instructions),
            upstream_instructions: self.upstream_instructions,
            resource_naming: self.resource_naming,
        }
    }
}

/// What a server rewrite is, where there is one.
pub open spec fn opt_server(s: Option<CompiledServerRewrite>) -> Option<ServerRewriteView> {
    match s {
        Some(x) => Some(x@),
        None => None,
    }
}

/// A copy of a server rewrite, where there is one.
pub fn copy_opt_server(s: &Option<CompiledServerRewrite>) -> (r: Option<CompiledServerRewrite>)
    ensures
        opt_server(r) == opt_server(*s),
{
    match s {
        Some(x) => Some(x.copy()),
        None => None,
    }
}

/// Which upstream names a rule is for.
#[derive(Debug, PartialEq, Eq)]
pub enum ItemMatcher {
    Exact(String),
    Pattern(String),
}

/// The mathematical matcher.
pub enum ItemMatcherView {
    Exact(Seq<char>),
    Pattern(Seq<char>),
}

impl View for ItemMatcher {
    type V = ItemMatcherView;

    open spec fn view(&self) -> ItemMatcherView {
        match self {
            ItemMatcher::Exact(n) => ItemMatcherView::Exact(n@),
            ItemMatcher::Pattern(p) => ItemMatcherView::Pattern(p@),
        }
    }
}

/// What a rule puts in place.
#[derive(Debug, PartialEq, Eq)]
pub struct RewriteValue {
    pub name: Option<String>,
    pub description: Option<String>,
    pub meta: Option<JsonMap>,
    pub remove_meta: Vec<String>,
}

/// The mathematical rewrite.
pub struct RewriteValueView {
    pub name: Option<Seq<char>>,
    pub description: Option<Seq<char>>,
    pub meta: Option<MembersView>,
    pub remove_meta: Seq<Seq<char>>,
}

impl View for RewriteValue {
    type V = RewriteValueView;

    open spec fn view(&self) -> RewriteValueView {
        RewriteValueView {
            name: opt_str(self.name),
            description: opt_str(self.description),
            meta: opt_members_view(self.meta),
            remove_meta: strs(self.remove_meta@),
        }
    }
}

impl Default for RewriteValue {
    fn default() -> (r: Self)
        ensures
            r@ == (RewriteValueView {
                name: None,
                description: None,
                meta: None,
                remove_meta: Seq::empty(),
            }),
    {
        let r = RewriteValue {
            name: None,
            description: None,
            meta: None,
            remove_meta: Vec::new(),
        };
        assert(r@.remove_meta =~= Seq::empty());
        r
    }
}

/// A presentation rule.
#[derive(Debug, PartialEq, Eq)]
pub struct CompiledItemRule {
    pub rule_name: String,
    pub matcher: ItemMatcher,
    pub rewrite: RewriteValue,
}

/// The mathematical rule.
pub struct RuleView {
    pub rule_name: Seq<char>,
    pub matcher: ItemMatcherView,
    pub rewrite: RewriteValueView,
}

impl View for CompiledItemRule {
    type V = RuleView;

    open spec fn view(&self) -> RuleView {
        RuleView {
            rule_name: self.rule_name@,
            matcher: self.matcher@,
            rewrite: self.rewrite@,
        }
    }
}

/// The rules of a vector.
pub open spec fn rules_view(v: Seq<CompiledItemRule>) -> Seq<RuleView> {
    Seq::new(v.len(), |i: int| v[i]@)
}

impl CompiledItemRule {
    /// A copy of the rule.
    pub fn copy(&self) -> (r: CompiledItemRule)
        ensures
            r@ == self@,
    {
        CompiledItemRule {
            rule_name: self.rule_name.clone(),
            matcher: match &self.matcher {
                ItemMatcher::Exact(n) => ItemMatcher::Exact(n.clone()),
                ItemMatcher::Pattern(p) => ItemMatcher::Pattern(p.clone()),
            },
            rewrite: RewriteValue {
                name: copy_opt_str(&self.rewrite.name),
                description: copy_opt_str(&self.rewrite.description),
                meta: match &self.rewrite.meta {
                    Some(m) => Some(json::copy_members(m)),
                    None => None,
                },
                remove_meta: copy_strs(&self.rewrite.remove_meta),
            },
        }
    }
}

fn append_copies(out: &mut Vec<CompiledItemRule>, rules: &Vec<CompiledItemRule>)
    ensures
        rules_view(final(out)@) == rules_view(old(out)@) + rules_view(rules@),
{
    let ghost start = out@;
    let mut i: usize = 0;
    while i < rules.len()
        invariant
            i <= rules@.len(),
            out@.len() == start.len() + i,
            forall|k: int| 0 <= k < start.len() ==> #[trigger] out@[k] == start[k],
            forall|k: int|
                0 <= k < i ==> (#[trigger] out@[start.len() + k])@ == rules@[k]@,
        decreases rules@.len() - i,
    {
        out.push(rules[i].copy());
        i += 1;
    }
    let ghost want = rules_view(start) + rules_view(rules@);
    assert forall|k: int| 0 <= k < want.len() implies rules_view(out@)[k] == want[k] by {
        if k >= start.len() {
            assert(out@[start.len() + (k - start.len())]@ == rules@[k - start.len()]@);
        }
    }
    assert(rules_view(out@) =~= want);
}

/// What `regex::Regex::new` says against a pattern; `None` for one that it accepts.
pub uninterp spec fn regex_error(pattern: Seq<char>) -> Option<Seq<char>>;

/// Whether a pattern that `regex::Regex::new` accepts matches somewhere in a text.
pub uninterp spec fn regex_matches(pattern: Seq<char>, text: Seq<char>) -> bool;

/// Calls `regex::Regex::new`: the text of its error, or `None` where it accepts the pattern.
#[verifier::external_body]
pub(crate) fn regex_new_error(pattern: &str) -> (r: Option<String>)
    ensures
        opt_str(r) == regex_error(pattern@),
{
    regex::Regex::new(pattern).err().map(|e| e.to_string())
}

/// Calls `regex::Regex::is_match` of the pattern's regex; `false` for a pattern that
/// `regex::Regex::new` refuses.
#[verifier::external_body]
fn regex_is_match(pattern: &str, text: &str) -> (r: bool)
    ensures
        r == regex_matches(pattern@, text@),
{
    regex::Regex::new(pattern).is_ok_and(|re| re.is_match(text))
}

/// The rule is for this upstream name.
pub open spec fn rule_matches(rule: RuleView, upstream_name: Seq<char>) -> bool {
    match rule.matcher {
        ItemMatcherView::Exact(n) => n == upstream_name,
        ItemMatcherView::Pattern(p) => regex_matches(p, upstream_name),
    }
}

/// The first rule at or after `i` that is for `name`.
pub open spec fn first_rule_from(rules: Seq<RuleView>, name: Seq<char>, i: int) -> Option<RuleView>
    decreases rules.len() - i,
{
    if i < 0 || i >= rules.len() {
        None
    } else if rule_matches(rules[i], name) {
        Some(rules[i])
    } else {
        first_rule_from(rules, name, i + 1)
    }
}

/// The rule that applies to `name`: the first that is for it.
pub open spec fn first_rule(rules: Seq<RuleView>, name: Seq<char>) -> Option<RuleView> {
    first_rule_from(rules, name, 0)
}

impl CompiledItemRule {
    /// Whether the rule is for `upstream_name`.
    pub fn matches(&self, upstream_name: &str) -> (r: bool)
        ensures
            r == rule_matches(self@, upstream_name@),
    {
        match &self.matcher {
            ItemMatcher::Exact(n) => text::same(n.as_str(), upstream_name),
            ItemMatcher::Pattern(p) => regex_is_match(p.as_str(), upstream_name),
        }
    }
}

/// The members without those called by one of `keys`.
pub open spec fn without_members(members: MembersView, keys: Seq<Seq<char>>) -> MembersView
    decreases keys.len(),
{
    if keys.len() == 0 {
        members
    } else {
        without_member(without_members(members, keys.drop_last()), keys.last())
    }
}

/// The members with those of `add` put in.
pub open spec fn with_members(members: MembersView, add: MembersView) -> MembersView
    decreases add.len(),
{
    if add.len() == 0 {
        members
    } else {
        with_member(with_members(members, add.drop_last()), add.last().0, add.last().1)
    }
}

/// The metadata of a tool after a rewrite: some members removed, then some put in; none at all
/// where nothing is left.
pub open spec fn rewritten_meta(meta: Option<MembersView>, rewrite: RewriteValueView) -> Option<
    MembersView,
> {
    let base = match meta {
        Some(m) => m,
        None => Seq::empty(),
    };
    let add = match rewrite.meta {
        Some(m) => m,
        None => Seq::empty(),
    };
    let m = with_members(without_members(base, rewrite.remove_meta), add);
    if m.len() == 0 {
        None
    } else {
        Some(m)
    }
}

/// The value that a rewrite gives, or the one that was there.
pub open spec fn or_else(new: Option<Seq<char>>, old_value: Seq<char>) -> Seq<char> {
    match new {
        Some(s) => s,
        None => old_value,
    }
}

/// The description that a rewrite gives, or the one that was there.
pub open spec fn or_else_opt(new: Option<Seq<char>>, old_value: Option<Seq<char>>) -> Option<
    Seq<char>,
> {
    match new {
        Some(s) => Some(s),
        None => old_value,
    }
}

/// A tool after a rewrite.
pub open spec fn rewritten_tool(tool: ToolView, rewrite: RewriteValueView) -> ToolView {
    ToolView {
        name: or_else(rewrite.name, tool.name),
        description: or_else_opt(rewrite.description, tool.description),
        meta: rewritten_meta(tool.meta, rewrite),
        rest: tool.rest,
    }
}

/// A prompt after a rewrite.
pub open spec fn rewritten_prompt(prompt: PromptView, rewrite: RewriteValueView) -> PromptView {
    PromptView {
        name: or_else(rewrite.name, prompt.name),
        description: or_else_opt(rewrite.description, prompt.description),
        rest: prompt.rest,
    }
}

/// A resource after a rewrite.
pub open spec fn rewritten_resource(resource: ResourceView, rewrite: RewriteValueView) -> ResourceView {
    ResourceView {
        uri: resource.uri,
        name: or_else(rewrite.name, resource.name),
        description: or_else_opt(rewrite.description, resource.description),
        rest: resource.rest,
    }
}

/// A tool as the rules present it.
pub open spec fn presented_tool(tool: ToolView, rules: Seq<RuleView>) -> ToolView {
    match first_rule(rules, tool.name) {
        Some(rule) => rewritten_tool(tool, rule.rewrite),
        None => tool,
    }
}

/// A prompt as the rules present it.
pub open spec fn presented_prompt(prompt: PromptView, rules: Seq<RuleView>) -> PromptView {
    match first_rule(rules, prompt.name) {
        Some(rule) => rewritten_prompt(prompt, rule.rewrite),
        None => prompt,
    }
}

/// A resource as the rules present it.
pub open spec fn presented_resource(resource: ResourceView, rules: Seq<RuleView>) -> ResourceView {
    match first_rule(rules, resource.name) {
        Some(rule) => rewritten_resource(resource, rule.rewrite),
        None => resource,
    }
}

fn apply_meta_to_tool(tool: &mut Tool, rewrite: &RewriteValue)
    ensures
        opt_members_view(final(tool).meta) == rewritten_meta(
            opt_members_view(old(tool).meta),
            rewrite@,
        ),
        final(tool).name == old(tool).name,
        final(tool).description == old(tool).description,
        final(tool).rest == old(tool).rest,
{
    let mut meta: JsonMap = match tool.meta.take() {
        Some(m) => m,
        None => Vec::new(),
    };
    let ghost base = members_view(meta@);
    proof {
        if old(tool).meta is None {
            assert(base =~= Seq::empty());
        }
    }
    let ghost keys = strs(rewrite.remove_meta@);
    let mut i: usize = 0;
    assert(keys.take(0) =~= Seq::<Seq<char>>::empty());
    while i < rewrite.remove_meta.len()
        invariant
            i <= rewrite.remove_meta@.len(),
            keys == strs(rewrite.remove_meta@),
            members_view(meta@) == without_members(base, keys.take(i as int)),
        decreases rewrite.remove_meta@.len() - i,
    {
        json::remove(&mut meta, rewrite.remove_meta[i].as_str());
        assert(keys.take(i + 1).drop_last() =~= keys.take(i as int));
        assert(keys.take(i + 1).last() == keys[i as int]);
        i += 1;
    }
    assert(keys.take(i as int) =~= keys);
    let ghost left = members_view(meta@);
    match &rewrite.meta {
        Some(add) => {
            let ghost adds = members_view(add@);
            let mut j: usize = 0;
            assert(adds.take(0) =~= Seq::<(Seq<char>, JsonView)>::empty());
            while j < add.len()
                invariant
                    j <= add@.len(),
                    adds == members_view(add@),
                    members_view(meta@) == with_members(left, adds.take(j as int)),
                decreases add@.len() - j,
            {
                let value = add[j].1.copy();
                json::insert(&mut meta, add[j].0.clone(), value);
                assert(adds.take(j + 1).drop_last() =~= adds.take(j as int));
                assert(adds.take(j + 1).last() == adds[j as int]);
                j += 1;
            }
            assert(adds.take(j as int) =~= adds);
        },
        None => {},
    }
    assert(members_view(meta@).len() == meta@.len());
    if meta.len() == 0 {
        tool.meta = None;
    } else {
        tool.meta = Some(meta);
    }
}

impl CompiledItemRule {
    fn apply_to_tool(&self, tool: &mut Tool)
        ensures
            final(tool)@ == rewritten_tool(old(tool)@, self@.rewrite),
    {
        if let Some(name) = &self.rewrite.name {
            tool.name = name.clone();
        }
        if let Some(desc) = &self.rewrite.description {
            tool.description = Some(desc.clone());
        }
        apply_meta_to_tool(tool, &self.rewrite);
    }

    fn apply_to_prompt(&self, prompt: &mut Prompt)
        ensures
            final(prompt)@ == rewritten_prompt(old(prompt)@, self@.rewrite),
    {
        if let Some(name) = &self.rewrite.name {
            prompt.name = name.clone();
        }
        if let Some(desc) = &self.rewrite.description {
            prompt.description = Some(desc.clone());
        }
    }

    fn apply_to_resource(&self, resource: &mut Resource)
        ensures
            final(resource)@ == rewritten_resource(old(resource)@, self@.rewrite),
    {
        if let Some(name) = &self.rewrite.name {
            resource.name = name.clone();
        }
        if let Some(desc) = &self.rewrite.description {
            resource.description = Some(desc.clone());
        }
    }
}

fn find_rule<'a>(rules: &'a Vec<CompiledItemRule>, name: &str) -> (r: Option<&'a CompiledItemRule>)
    ensures
        match r {
            Some(rule) => first_rule(rules_view(rules@), name@) == Some(rule@),
            None => first_rule(rules_view(rules@), name@) is None,
        },
{
    let mut i: usize = 0;
    while i < rules.len()
        invariant
            i <= rules@.len(),
            first_rule(rules_view(rules@), name@) == first_rule_from(
                rules_view(rules@),
                name@,
                i as int,
            ),
        decreases rules@.len() - i,
    {
        if rules[i].matches(name) {
            return Some(&rules[i]);
        }
        i += 1;
    }
    None
}

/// Presents a tool as the first rule for it says.
pub fn apply_tool_rewrite(tool: &mut Tool, rules: &Vec<CompiledItemRule>)
    ensures
        final(tool)@ == presented_tool(old(tool)@, rules_view(rules@)),
{
    let upstream = tool.name.clone();
    if let Some(rule) = find_rule(rules, upstream.as_str()) {
        rule.apply_to_tool(tool);
    }
}

/// Presents a prompt as the first rule for it says.
pub fn apply_prompt_rewrite(prompt: &mut Prompt, rules: &Vec<CompiledItemRule>)
    ensures
        final(prompt)@ == presented_prompt(old(prompt)@, rules_view(rules@)),
{
    let upstream = prompt.name.clone();
    if let Some(rule) = find_rule(rules, upstream.as_str()) {
        rule.apply_to_prompt(prompt);
    }
}

/// Presents a resource as the first rule for it says.
pub fn apply_resource_rewrite(resource: &mut Resource, rules: &Vec<CompiledItemRule>)
    ensures
        final(resource)@ == presented_resource(old(resource)@, rules_view(rules@)),
{
    let upstream = resource.name.clone();
    if let Some(rule) = find_rule(rules, upstream.as_str()) {
        rule.apply_to_resource(resource);
    }
}

impl Named for Tool {
    open spec fn name_view(&self) -> Seq<char> {
        self.name@
    }

    fn visible_name(&self) -> (r: &String) {
        &self.name
    }
}

impl Named for Prompt {
    open spec fn name_view(&self) -> Seq<char> {
        self.name@
    }

    fn visible_name(&self) -> (r: &String) {
        &self.name
    }
}

impl Named for Resource {
    open spec fn name_view(&self) -> Seq<char> {
        self.name@
    }

    fn visible_name(&self) -> (r: &String) {
        &self.name
    }
}

impl Named for ResourceTemplate {
    open spec fn name_view(&self) -> Seq<char> {
        self.name@
    }

    fn visible_name(&self) -> (r: &String) {
        &self.name
    }
}

impl Named for Task {
    open spec fn name_view(&self) -> Seq<char> {
        self.task_id@
    }

    fn visible_name(&self) -> (r: &String) {
        &self.task_id
    }
}

/// Leaves out each tool whose name an earlier tool has.
pub fn filter_flat_tool_collisions(tools: Vec<Tool>) -> (r: Vec<Tool>)
    ensures
        r@ == keep_first(tools@, names_of(tools@)),
{
    filter_first(tools)
}

/// Leaves out each prompt whose name an earlier prompt has.
pub fn filter_flat_prompt_collisions(prompts: Vec<Prompt>) -> (r: Vec<Prompt>)
    ensures
        r@ == keep_first(prompts@, names_of(prompts@)),
{
    filter_first(prompts)
}

/// Leaves out each resource whose name an earlier resource has.
pub fn filter_flat_resource_collisions(resources: Vec<Resource>) -> (r: Vec<Resource>)
    ensures
        r@ == keep_first(resources@, names_of(resources@)),
{
    filter_first(resources)
}

/// Leaves out each resource template whose name an earlier template has.
pub fn filter_flat_resource_template_collisions(templates: Vec<ResourceTemplate>) -> (r: Vec<
    ResourceTemplate,
>)
    ensures
        r@ == keep_first(templates@, names_of(templates@)),
{
    filter_first(templates)
}

/// Leaves out each task whose id an earlier task has.
pub fn filter_flat_task_collisions(tasks: Vec<Task>) -> (r: Vec<Task>)
    ensures
        r@ == keep_first(tasks@, names_of(tasks@)),
{
    filter_first(tasks)
}

/// The routes of listed tools: of equal names the first keeps its route, as it stays in the list.
pub fn build_flat_tool_route_index(entries: Vec<(String, String, String)>) -> (r: RouteIndex)
    ensures
        r@ == route_index(entries_view(entries@)),
{
    build_flat_route_index(entries)
}

/// The routes of listed prompts: of equal names the first keeps its route.
pub fn build_flat_prompt_route_index(entries: Vec<(String, String, String)>) -> (r: RouteIndex)
    ensures
        r@ == route_index(entries_view(entries@)),
{
    build_flat_route_index(entries)
}

/// The routes of listed tasks: of equal ids the first keeps its route.
pub fn build_flat_task_route_index(entries: Vec<(String, String, String)>) -> (r: RouteIndex)
    ensures
        r@ == route_index(entries_view(entries@)),
{
    build_flat_route_index(entries)
}

/// The presentation rules of a backend or of the federation.
#[derive(Debug, PartialEq, Eq)]
pub struct McpRewritePolicy {
    pub server: Option<CompiledServerRewrite>,
    pub tools: Vec<CompiledItemRule>,
    pub prompts: Vec<CompiledItemRule>,
    pub resources: Vec<CompiledItemRule>,
}

/// The mathematical policy.
pub struct PolicyView {
    pub server: Option<ServerRewriteView>,
    pub tools: Seq<RuleView>,
    pub prompts: Seq<RuleView>,
    pub resources: Seq<RuleView>,
}

impl View for McpRewritePolicy {
    type V = PolicyView;

    open spec fn view(&self) -> PolicyView {
        PolicyView {
            server: opt_server(self.server),
            tools: rules_view(self.tools@),
            prompts: rules_view(self.prompts@),
            resources: rules_view(self.resources@),
        }
    }
}

/// The policy without any rule.
pub open spec fn empty_policy() -> PolicyView {
    PolicyView { server: None, tools: Seq::empty(), prompts: Seq::empty(), resources: Seq::empty() }
}

impl Default for McpRewritePolicy {
    fn default() -> (r: Self)
        ensures
            r@ == empty_policy(),
    {
        let r = McpRewritePolicy {
            server: None,
            tools: Vec::new(),
            prompts: Vec::new(),
            resources: Vec::new(),
        };
        assert(r@.tools =~= Seq::empty());
        assert(r@.prompts =~= Seq::empty());
        assert(r@.resources =~= Seq::empty());
        r
    }
}

/// The server rewrite of `later`, or else that of `earlier`.
pub open spec fn server_or(
    later: Option<ServerRewriteView>,
    earlier: Option<ServerRewriteView>,
) -> Option<ServerRewriteView> {
    match later {
        Some(s) => Some(s),
        None => earlier,
    }
}

/// Two policies in a row: the rules of the first come first, the server rewrite of the second
/// goes before that of the first.
pub open spec fn concatenated(first: PolicyView, second: PolicyView) -> PolicyView {
    PolicyView {
        server: server_or(second.server, first.server),
        tools: first.tools + second.tools,
        prompts: first.prompts + second.prompts,
        resources: first.resources + second.resources,
    }
}

fn append_rules(out: &mut Vec<CompiledItemRule>, more: Vec<CompiledItemRule>)
    ensures
        rules_view(final(out)@) == rules_view(old(out)@) + rules_view(more@),
{
    let ghost added = more@;
    let mut rest = more;
    out.append(&mut rest);
    assert(rules_view(out@) =~= rules_view(old(out)@) + rules_view(added));
}

/// Client-visible names and the upstream names behind them, after `rules` were taken in turn.
/// A rule counts where it is for one exact name and gives it a new one; of equal new names the
/// last counts.
pub open spec fn reverse_of_rules(
    names: Map<Seq<char>, Seq<char>>,
    rules: Seq<RuleView>,
) -> Map<Seq<char>, Seq<char>>
    decreases rules.len(),
{
    if rules.len() == 0 {
        names
    } else {
        let before = reverse_of_rules(names, rules.drop_last());
        match (rules.last().rewrite.name, rules.last().matcher) {
            (Some(exposed), ItemMatcherView::Exact(upstream)) => before.insert(exposed, upstream),
            _ => before,
        }
    }
}

/// Client-visible names and the upstream names behind them, by the rules for tools, prompts and
/// resources in this order.
pub open spec fn reverse_names(policy: PolicyView) -> Map<Seq<char>, Seq<char>> {
    reverse_of_rules(
        reverse_of_rules(reverse_of_rules(Map::empty(), policy.tools), policy.prompts),
        policy.resources,
    )
}

/// The rules of one target, with the way back from the names that they give.
pub struct CompiledTargetRewrite {
    tools: Vec<CompiledItemRule>,
    prompts: Vec<CompiledItemRule>,
    resources: Vec<CompiledItemRule>,
    exposed_to_upstream: StringHashMap<String>,
}

/// The mathematical rules of one target.
pub struct TargetView {
    pub tools: Seq<RuleView>,
    pub prompts: Seq<RuleView>,
    pub resources: Seq<RuleView>,
    pub reverse: Map<Seq<char>, Seq<char>>,
}

impl View for CompiledTargetRewrite {
    type V = TargetView;

    closed spec fn view(&self) -> TargetView {
        TargetView {
            tools: rules_view(self.tools@),
            prompts: rules_view(self.prompts@),
            resources: rules_view(self.resources@),
            reverse: self.exposed_to_upstream@.map_values(|s: String| s@),
        }
    }
}

/// The rules of a policy as the rules of a target.
pub open spec fn compiled_target(policy: PolicyView) -> TargetView {
    TargetView {
        tools: policy.tools,
        prompts: policy.prompts,
        resources: policy.resources,
        reverse: reverse_names(policy),
    }
}

/// The upstream name behind a client-visible one: itself, where no rule gave it.
pub open spec fn upstream_name(target: TargetView, exposed: Seq<char>) -> Seq<char> {
    if target.reverse.contains_key(exposed) {
        target.reverse[exposed]
    } else {
        exposed
    }
}

impl CompiledTargetRewrite {
    /// The rules for tools.
    pub fn tool_rules(&self) -> (r: &Vec<CompiledItemRule>)
        ensures
            rules_view(r@) == self@.tools,
    {
        &self.tools
    }

    /// The rules for prompts.
    pub fn prompt_rules(&self) -> (r: &Vec<CompiledItemRule>)
        ensures
            rules_view(r@) == self@.prompts,
    {
        &self.prompts
    }

    /// The rules for resources.
    pub fn resource_rules(&self) -> (r: &Vec<CompiledItemRule>)
        ensures
            rules_view(r@) == self@.resources,
    {
        &self.resources
    }

    fn reverse_get(&self, exposed: &str) -> (r: Option<&String>)
        ensures
            match r {
                Some(u) => self@.reverse.contains_key(exposed@) && self@.reverse[exposed@] == u@,
                None => !self@.reverse.contains_key(exposed@),
            },
    {
        self.exposed_to_upstream.get(exposed)
    }

    /// The upstream name of the tool that clients call `exposed`.
    pub fn resolve_upstream_tool(&self, exposed: &str) -> (r: String)
        ensures
            r@ == upstream_name(self@, exposed@),
    {
        match self.reverse_get(exposed) {
            Some(u) => u.clone(),
            None => exposed.to_owned(),
        }
    }

    /// The upstream name of the prompt that clients call `exposed`.
    pub fn resolve_upstream_prompt(&self, exposed: &str) -> (r: String)
        ensures
            r@ == upstream_name(self@, exposed@),
    {
        self.resolve_upstream_tool(exposed)
    }

    /// The upstream name of the resource that clients call `exposed`.
    pub fn resolve_upstream_resource_name(&self, exposed: &str) -> (r: String)
        ensures
            r@ == upstream_name(self@, exposed@),
    {
        self.resolve_upstream_tool(exposed)
    }
}

fn reverse_rules(names: &mut StringHashMap<String>, rules: &Vec<CompiledItemRule>)
    ensures
        final(names)@.map_values(|s: String| s@) == reverse_of_rules(
            old(names)@.map_values(|s: String| s@),
            rules_view(rules@),
        ),
{
    let ghost f = |s: String| s@;
    let ghost start = names@.map_values(f);
    let ghost all = rules_view(rules@);
    let mut i: usize = 0;
    assert(all.take(0) =~= Seq::<RuleView>::empty());
    while i < rules.len()
        invariant
            i <= rules@.len(),
            all == rules_view(rules@),
            f == (|s: String| s@),
            names@.map_values(f) == reverse_of_rules(start, all.take(i as int)),
        decreases rules@.len() - i,
    {
        assert(all.take(i + 1).drop_last() =~= all.take(i as int));
        assert(all.take(i + 1).last() == rules@[i as int]@);
        let ghost before = names@;
        if let Some(exposed) = &rules[i].rewrite.name {
            if let ItemMatcher::Exact(upstream) = &rules[i].matcher {
                names.insert(exposed.clone(), upstream.clone());
                assert(names@.map_values(f) =~= before.map_values(f).insert(exposed@, upstream@));
            }
        }
        i += 1;
    }
    assert(all.take(i as int) =~= all);
}

impl McpRewritePolicy {
    /// Appends another policy.
    pub fn concat(&mut self, other: McpRewritePolicy)
        ensures
            final(self)@ == concatenated(old(self)@, other@),
    {
        let McpRewritePolicy { server, tools, prompts, resources } = other;
        append_rules(&mut self.tools, tools);
        append_rules(&mut self.prompts, prompts);
        append_rules(&mut self.resources, resources);
        if server.is_some() {
            self.server = server;
        }
    }

    /// The rules of this policy as the rules of a target.
    pub fn compile_target(&self) -> (r: CompiledTargetRewrite)
        ensures
            r@ == compiled_target(self@),
    {
        let mut tools: Vec<CompiledItemRule> = Vec::new();
        append_copies(&mut tools, &self.tools);
        let mut prompts: Vec<CompiledItemRule> = Vec::new();
        append_copies(&mut prompts, &self.prompts);
        let mut resources: Vec<CompiledItemRule> = Vec::new();
        append_copies(&mut resources, &self.resources);
        assert(rules_view(tools@) =~= rules_view(self.tools@));
        assert(rules_view(prompts@) =~= rules_view(self.prompts@));
        assert(rules_view(resources@) =~= rules_view(self.resources@));
        let mut names: StringHashMap<String> = StringHashMap::new();
        assert(names@.map_values(|s: String| s@) =~= Map::empty());
        reverse_rules(&mut names, &self.tools);
        reverse_rules(&mut names, &self.prompts);
        reverse_rules(&mut names, &self.resources);
        CompiledTargetRewrite { tools, prompts, resources, exposed_to_upstream: names }
    }

    /// Whether the policy has a rule for an item.
    pub fn has_item_rules(&self) -> (r: bool)
        ensures
            r == has_rules(self@),
    {
        self.tools.len() > 0 || self.prompts.len() > 0 || self.resources.len() > 0
    }
}

/// The policy has a rule for an item.
pub open spec fn has_rules(policy: PolicyView) -> bool {
    policy.tools.len() > 0 || policy.prompts.len() > 0 || policy.resources.len() > 0
}

/// The rules of all targets, and what the gateway says of itself.
pub struct McpRewriteSet {
    server: Option<CompiledServerRewrite>,
    resource_naming: ResourceNaming,
    per_target: Vec<(String, CompiledTargetRewrite)>,
}

/// The targets that have rules.
pub type TargetsView = Seq<(Seq<char>, TargetView)>;

/// The mathematical rewrite set.
pub struct SetView {
    pub server: Option<ServerRewriteView>,
    pub resource_naming: ResourceNaming,
    pub targets: TargetsView,
}

spec fn targets_view(v: Seq<(String, CompiledTargetRewrite)>) -> TargetsView {
    Seq::new(v.len(), |i: int| (v[i].0@, v[i].1@))
}

impl View for McpRewriteSet {
    type V = SetView;

    closed spec fn view(&self) -> SetView {
        SetView {
            server: opt_server(self.server),
            resource_naming: self.resource_naming,
            targets: targets_view(self.per_target@),
        }
    }
}

/// The position of the first target at or after `i` that is called `name`.
pub open spec fn target_index_from(targets: TargetsView, name: Seq<char>, i: int) -> Option<int>
    decreases targets.len() - i,
{
    if i < 0 || i >= targets.len() {
        None
    } else if targets[i].0 == name {
        Some(i)
    } else {
        target_index_from(targets, name, i + 1)
    }
}

/// The rules of the target called `name`.
pub open spec fn target_rules(targets: TargetsView, name: Seq<char>) -> Option<TargetView> {
    match target_index_from(targets, name, 0) {
        Some(i) => Some(targets[i].1),
        None => None,
    }
}

/// The targets after `name` got the rules `rules`.
pub open spec fn with_target(targets: TargetsView, name: Seq<char>, rules: TargetView) -> TargetsView {
    match target_index_from(targets, name, 0) {
        Some(i) => targets.update(i, (name, rules)),
        None => targets.push((name, rules)),
    }
}

/// No target stands twice.
pub open spec fn distinct_targets(targets: TargetsView) -> bool {
    forall|i: int, j: int|
        0 <= i < j < targets.len() ==> (#[trigger] targets[i]).0 != (#[trigger] targets[j]).0
}

proof fn lemma_target_index(targets: TargetsView, name: Seq<char>, i: int)
    requires
        0 <= i,
    ensures
        match target_index_from(targets, name, i) {
            Some(k) => i <= k < targets.len() && targets[k].0 == name,
            None => forall|j: int| i <= j < targets.len() ==> (#[trigger] targets[j]).0 != name,
        },
    decreases targets.len() - i,
{
    if i < targets.len() && targets[i].0 != name {
        lemma_target_index(targets, name, i + 1);
    }
}

/// The set without any rule.
pub open spec fn empty_set() -> SetView {
    SetView { server: None, resource_naming: ResourceNaming::Prefix, targets: Seq::empty() }
}

/// A set after one more backend: its server rewrite takes the place of an earlier one, and its
/// rules, where it has any, become those of the target.
pub open spec fn with_backend(set: SetView, name: Seq<char>, policy: Option<PolicyView>) -> SetView {
    match policy {
        None => set,
        Some(p) => SetView {
            server: server_or(p.server, set.server),
            resource_naming: match p.server {
                Some(s) => s.resource_naming,
                None => set.resource_naming,
            },
            targets: if has_rules(p) {
                with_target(set.targets, name, compiled_target(p))
            } else {
                set.targets
            },
        },
    }
}

/// The set of a list of backends.
pub open spec fn set_of_backends(backends: Seq<(Seq<char>, Option<PolicyView>)>) -> SetView
    decreases backends.len(),
{
    if backends.len() == 0 {
        empty_set()
    } else {
        with_backend(
            set_of_backends(backends.drop_last()),
            backends.last().0,
            backends.last().1,
        )
    }
}

/// What a backend with an optional policy is.
pub open spec fn backend_view(b: (String, Option<McpRewritePolicy>)) -> (
    Seq<char>,
    Option<PolicyView>,
) {
    (
        b.0@,
        match b.1 {
            Some(p) => Some(p@),
            None => None,
        },
    )
}

/// What the backends of a vector are.
pub open spec fn backends_view(v: Seq<(String, Option<McpRewritePolicy>)>) -> Seq<
    (Seq<char>, Option<PolicyView>),
> {
    Seq::new(v.len(), |i: int| backend_view(v[i]))
}

/// Names are flat under this set.
pub open spec fn is_flat(set: SetView) -> bool {
    match set.server {
        Some(s) => s.resource_naming == ResourceNaming::Flat,
        None => set.resource_naming == ResourceNaming::Flat,
    }
}

impl Default for McpRewriteSet {
    fn default() -> (r: Self)
        ensures
            r@ == empty_set(),
    {
        let r = McpRewriteSet {
            server: None,
            resource_naming: ResourceNaming::Prefix,
            per_target: Vec::new(),
        };
        assert(r@.targets =~= Seq::empty());
        r
    }
}

/// The policy of a target: its own rules before those of the federation, and its own server
/// rewrite before that of the federation.
pub open spec fn merged_policy(
    federation: Option<PolicyView>,
    per_target: Option<PolicyView>,
) -> PolicyView {
    let f = match federation {
        Some(f) => f,
        None => empty_policy(),
    };
    let t = match per_target {
        Some(t) => t,
        None => empty_policy(),
    };
    PolicyView {
        server: server_or(t.server, f.server),
        tools: t.tools + f.tools,
        prompts: t.prompts + f.prompts,
        resources: t.resources + f.resources,
    }
}

/// All policies of a list in a row.
pub open spec fn concatenated_all(policies: Seq<PolicyView>) -> Option<PolicyView>
    decreases policies.len(),
{
    if policies.len() == 0 {
        None
    } else {
        match concatenated_all(policies.drop_last()) {
            None => Some(policies.last()),
            Some(acc) => Some(concatenated(acc, policies.last())),
        }
    }
}

/// The policies of a vector.
pub open spec fn policies_view(v: Seq<McpRewritePolicy>) -> Seq<PolicyView> {
    Seq::new(v.len(), |i: int| v[i]@)
}

/// What a borrowed policy is, where there is one.
pub open spec fn opt_policy(p: Option<&McpRewritePolicy>) -> Option<PolicyView> {
    match p {
        Some(x) => Some(x@),
        None => None,
    }
}

/// What a policy is, where there is one.
pub open spec fn opt_owned_policy(p: Option<McpRewritePolicy>) -> Option<PolicyView> {
    match p {
        Some(x) => Some(x@),
        None => None,
    }
}

impl McpRewriteSet {
    /// Whether the set changes nothing.
    pub fn is_empty(&self) -> (r: bool)
        ensures
            r == (self@.server is None && self@.targets.len() == 0),
    {
        self.server.is_none() && self.per_target.len() == 0
    }

    /// What the gateway says of itself, where the set has something on it.
    pub fn server_rewrite(&self) -> (r: &Option<CompiledServerRewrite>)
        ensures
            opt_server(*r) == self@.server,
    {
        &self.server
    }

    /// How names share one namespace: as the server rewrite says, where there is one.
    pub fn resource_naming(&self) -> (r: ResourceNaming)
        ensures
            r == (match self@.server {
                Some(s) => s.resource_naming,
                None => self@.resource_naming,
            }),
    {
        match &self.server {
            Some(s) => s.resource_naming,
            None => self.resource_naming,
        }
    }

    /// Whether names are flat.
    pub fn flat(&self) -> (r: bool)
        ensures
            r == is_flat(self@),
    {
        self.resource_naming() == ResourceNaming::Flat
    }

    fn target_position(&self, name: &str) -> (r: Option<usize>)
        ensures
            match r {
                Some(i) => target_index_from(self@.targets, name@, 0) == Some(i as int) && i
                    < self.per_target@.len(),
                None => target_index_from(self@.targets, name@, 0) is None,
            },
    {
        let mut i: usize = 0;
        while i < self.per_target.len()
            invariant
                i <= self.per_target@.len(),
                target_index_from(self@.targets, name@, 0) == target_index_from(
                    self@.targets,
                    name@,
                    i as int,
                ),
            decreases self.per_target@.len() - i,
        {
            if text::same(self.per_target[i].0.as_str(), name) {
                return Some(i);
            }
            i += 1;
        }
        None
    }

    /// The rules of the target called `name`.
    pub fn target(&self, name: &str) -> (r: Option<&CompiledTargetRewrite>)
        ensures
            match r {
                Some(t) => target_rules(self@.targets, name@) == Some(t@),
                None => target_rules(self@.targets, name@) is None,
            },
    {
        match self.target_position(name) {
            Some(i) => Some(&self.per_target[i].1),
            None => None,
        }
    }

    fn put_target(&mut self, name: String, rules: CompiledTargetRewrite)
        ensures
            final(self)@.targets == with_target(old(self)@.targets, name@, rules@),
            final(self)@.server == old(self)@.server,
            final(self)@.resource_naming == old(self)@.resource_naming,
            distinct_targets(old(self)@.targets) ==> distinct_targets(final(self)@.targets),
    {
        let ghost before = self@.targets;
        proof {
            lemma_target_index(before, name@, 0);
        }
        match self.target_position(name.as_str()) {
            Some(i) => {
                self.per_target.set(i, (name, rules));
            },
            None => {
                self.per_target.push((name, rules));
            },
        }
        assert(self@.targets =~= with_target(before, name@, rules@));
    }

    /// The set of a list of backends with their policies. No target stands twice in it.
    pub fn from_backend_targets(targets: Vec<(String, Option<McpRewritePolicy>)>) -> (r: McpRewriteSet)
        ensures
            r@ == set_of_backends(backends_view(targets@)),
            distinct_targets(r@.targets),
    {
        let ghost all = backends_view(targets@);
        let n: usize = targets.len();
        let mut set = McpRewriteSet::default();
        assert(all.take(0) =~= Seq::<(Seq<char>, Option<PolicyView>)>::empty());
        for b in it: targets
            invariant
                all == backends_view(it.seq()),
                set@ == set_of_backends(all.take(it.index())),
                distinct_targets(set@.targets),
        {
            let ghost i = it.index();
            assert(all.take(i + 1).drop_last() =~= all.take(i));
            assert(all.take(i + 1).last() == backend_view(b));
            let (name, policy) = b;
            if let Some(policy) = policy {
                let ghost before = set@;
                if let Some(s) = &policy.server {
                    set.resource_naming = s.resource_naming;
                    set.server = Some(s.copy());
                }
                assert(set@.targets == before.targets);
                if policy.has_item_rules() {
                    let rules = policy.compile_target();
                    set.put_target(name, rules);
                }
            }
        }
        assert(all.take(n as int) =~= all);
        set
    }

    /// The policy of a target: its own rules come before those of the federation.
    pub fn merge_for_target(
        federation: Option<&McpRewritePolicy>,
        per_target: Option<&McpRewritePolicy>,
    ) -> (r: McpRewritePolicy)
        ensures
            r@ == merged_policy(opt_policy(federation), opt_policy(per_target)),
    {
        let mut out = McpRewritePolicy::default();
        if let Some(t) = per_target {
            append_copies(&mut out.tools, &t.tools);
            append_copies(&mut out.prompts, &t.prompts);
            append_copies(&mut out.resources, &t.resources);
            out.server = copy_opt_server(&t.server);
        }
        if let Some(f) = federation {
            append_copies(&mut out.tools, &f.tools);
            append_copies(&mut out.prompts, &f.prompts);
            append_copies(&mut out.resources, &f.resources);
            if out.server.is_none() {
                out.server = copy_opt_server(&f.server);
            }
        }
        proof {
            let want = merged_policy(opt_policy(federation), opt_policy(per_target));
            assert(out@.tools =~= want.tools);
            assert(out@.prompts =~= want.prompts);
            assert(out@.resources =~= want.resources);
        }
        out
    }

    /// All policies of a list in a row; `None` for an empty list.
    pub fn concat_policies(policies: Vec<McpRewritePolicy>) -> (r: Option<McpRewritePolicy>)
        ensures
            opt_owned_policy(r) == concatenated_all(policies_view(policies@)),
    {
        let ghost all = policies_view(policies@);
        let n: usize = policies.len();
        let mut out: Option<McpRewritePolicy> = None;
        assert(all.take(0) =~= Seq::<PolicyView>::empty());
        for p in it: policies
            invariant
                all == policies_view(it.seq()),
                opt_owned_policy(out) == concatenated_all(all.take(it.index())),
        {
            let ghost i = it.index();
            assert(all.take(i + 1).drop_last() =~= all.take(i));
            assert(all.take(i + 1).last() == p@);
            out = match out {
                None => Some(p),
                Some(acc) => {
                    let mut acc = acc;
                    acc.concat(p);
                    Some(acc)
                },
            };
        }
        assert(all.take(n as int) =~= all);
        out
    }
}

/// A target with the name that a client-visible name has there.
pub type HitView = (Seq<char>, Seq<char>);

/// What the targets of a list yield, in order.
pub open spec fn hits(targets: Seq<Seq<char>>, f: spec_fn(Seq<char>) -> Option<HitView>) -> Seq<
    HitView,
>
    decreases targets.len(),
{
    if targets.len() == 0 {
        Seq::empty()
    } else {
        let before = hits(targets.drop_last(), f);
        match f(targets.last()) {
            Some(hit) => before.push(hit),
            None => before,
        }
    }
}

/// The only hit, or the message that there is none or more than one.
pub open spec fn only_hit(found: Seq<HitView>, kind: Seq<char>, exposed: Seq<char>) -> Result<
    HitView,
    Seq<char>,
> {
    if found.len() == 0 {
        Err("unknown flat "@ + kind + ": "@ + exposed)
    } else if found.len() == 1 {
        Ok(found[0])
    } else {
        Err("ambiguous flat "@ + kind + ": "@ + exposed)
    }
}

/// The route of a name in the index, where there is an index with one.
pub open spec fn indexed(routes: Option<RoutesView>, exposed: Seq<char>) -> Option<HitView> {
    match routes {
        Some(m) => if m.contains_key(exposed) {
            Some(m[exposed])
        } else {
            None
        },
        None => None,
    }
}

/// What a borrowed index is, where there is one.
pub open spec fn opt_routes(routes: Option<&RouteIndex>) -> Option<RoutesView> {
    match routes {
        Some(r) => Some(r@),
        None => None,
    }
}

/// A rule of `target` gives the name `exposed`, and says what is behind it.
pub open spec fn gives_name(set: SetView, exposed: Seq<char>, target: Seq<char>) -> bool {
    target_rules(set.targets, target) matches Some(rules) && rules.reverse.contains_key(exposed)
}

/// Some target has a rule that gives the name `exposed`.
pub open spec fn some_gives_name(
    set: SetView,
    exposed: Seq<char>,
    targets: Seq<Seq<char>>,
) -> bool {
    exists|i: int| 0 <= i < targets.len() && gives_name(set, exposed, #[trigger] targets[i])
}

/// What a target has under a tool or prompt name that the index does not know: a target without
/// rules the name itself, and one with rules what a rule put behind the name.
pub open spec fn flat_hit(set: SetView, exposed: Seq<char>, target: Seq<char>) -> Option<HitView> {
    match target_rules(set.targets, target) {
        None => Some((target, exposed)),
        Some(rules) => if rules.reverse.contains_key(exposed) {
            Some((target, rules.reverse[exposed]))
        } else {
            None
        },
    }
}

/// Some rule gives the name `exposed`.
pub open spec fn renames_to(rules: Seq<RuleView>, exposed: Seq<char>) -> bool {
    exists|i: int| 0 <= i < rules.len() && (#[trigger] rules[i]).rewrite.name == Some(exposed)
}

/// What a target has under a name: what a rule put behind it, or, where no rule of this kind
/// gives the name, the name itself.
pub open spec fn ruled_hit(
    target: Seq<char>,
    reverse: Map<Seq<char>, Seq<char>>,
    rules: Seq<RuleView>,
    exposed: Seq<char>,
) -> Option<HitView> {
    if reverse.contains_key(exposed) {
        Some((target, reverse[exposed]))
    } else if renames_to(rules, exposed) {
        None
    } else {
        Some((target, exposed))
    }
}

/// What the targets with rules have under a resource name, in order.
pub open spec fn resource_hits(targets: TargetsView, exposed: Seq<char>) -> Seq<HitView>
    decreases targets.len(),
{
    if targets.len() == 0 {
        Seq::empty()
    } else {
        let before = resource_hits(targets.drop_last(), exposed);
        let (name, t) = targets.last();
        match ruled_hit(name, t.reverse, t.resources, exposed) {
            Some(hit) => before.push(hit),
            None => before,
        }
    }
}

/// Where a flat tool name goes.
pub open spec fn flat_tool_route(
    set: SetView,
    exposed: Seq<char>,
    routes: Option<RoutesView>,
    targets: Seq<Seq<char>>,
) -> Result<HitView, Seq<char>> {
    match indexed(routes, exposed) {
        Some(route) => Ok(route),
        None => only_hit(
            hits(targets, |t: Seq<char>| flat_hit(set, exposed, t)),
            "tool name"@,
            exposed,
        ),
    }
}

/// Where a flat prompt name goes.
pub open spec fn flat_prompt_route(
    set: SetView,
    exposed: Seq<char>,
    routes: Option<RoutesView>,
    targets: Seq<Seq<char>>,
) -> Result<HitView, Seq<char>> {
    match indexed(routes, exposed) {
        Some(route) => Ok(route),
        None => only_hit(
            hits(targets, |t: Seq<char>| flat_hit(set, exposed, t)),
            "prompt name"@,
            exposed,
        ),
    }
}

/// Where a flat task id goes: by the index, or to the only target.
pub open spec fn flat_task_route(
    exposed: Seq<char>,
    routes: Option<RoutesView>,
    targets: Seq<Seq<char>>,
) -> Result<HitView, Seq<char>> {
    match indexed(routes, exposed) {
        Some(route) => Ok(route),
        None => if targets.len() == 1 {
            Ok((targets[0], exposed))
        } else if targets.len() == 0 {
            Err("unknown flat task id: "@ + exposed)
        } else {
            Err("ambiguous flat task id: "@ + exposed)
        },
    }
}

/// Where a flat resource name goes.
pub open spec fn flat_resource_route(set: SetView, exposed: Seq<char>) -> Result<
    HitView,
    Seq<char>,
> {
    only_hit(resource_hits(set.targets, exposed), "resource name"@, exposed)
}

/// What the pairs of a vector are as hits.
pub open spec fn hits_view(v: Seq<(String, String)>) -> Seq<HitView> {
    crate::model::pairs(v)
}

fn take_only_hit(found: Vec<(String, String)>, kind: &str, exposed: &str) -> (r: Result<
    (String, String),
    UpstreamError,
>)
    ensures
        match only_hit(hits_view(found@), kind@, exposed@) {
            Ok(route) => r matches Ok(p) && pair(p) == route,
            Err(message) => r matches Err(e) && invalid_request(e, message),
        },
{
    let mut found = found;
    if found.len() == 1 {
        match found.pop() {
            Some(p) => {
                return Ok(p);
            },
            None => {},
        }
    }
    let mut message = if found.len() == 0 {
        text::concat3("unknown flat ", kind, ": ")
    } else {
        text::concat3("ambiguous flat ", kind, ": ")
    };
    message.append(exposed);
    Err(UpstreamError::InvalidRequest(message))
}

fn copy_route(p: &(String, String)) -> (r: (String, String))
    ensures
        pair(r) == pair(*p),
{
    (p.0.clone(), p.1.clone())
}

fn route_from_index(routes: Option<&RouteIndex>, exposed: &str) -> (r: Option<(String, String)>)
    ensures
        match r {
            Some(p) => indexed(opt_routes(routes), exposed@) == Some(pair(p)),
            None => indexed(opt_routes(routes), exposed@) is None,
        },
{
    match routes {
        Some(index) => match index.get(exposed) {
            Some(p) => Some(copy_route(p)),
            None => None,
        },
        None => None,
    }
}

fn rules_rename_to(rules: &Vec<CompiledItemRule>, exposed: &str) -> (r: bool)
    ensures
        r == renames_to(rules_view(rules@), exposed@),
{
    let mut i: usize = 0;
    while i < rules.len()
        invariant
            i <= rules@.len(),
            forall|k: int|
                0 <= k < i ==> (#[trigger] rules_view(rules@)[k]).rewrite.name != Some(exposed@),
        decreases rules@.len() - i,
    {
        assert(rules_view(rules@)[i as int] == rules@[i as int]@);
        if let Some(name) = &rules[i].rewrite.name {
            if text::same(name.as_str(), exposed) {
                assert(rules_view(rules@)[i as int].rewrite.name == Some(exposed@));
                return true;
            }
        }
        i += 1;
    }
    false
}

fn ruled_target_hit(
    target: &String,
    rules: &CompiledTargetRewrite,
    of_kind: &Vec<CompiledItemRule>,
    exposed: &str,
) -> (r: Option<(String, String)>)
    ensures
        match r {
            Some(p) => ruled_hit(target@, rules@.reverse, rules_view(of_kind@), exposed@) == Some(
                pair(p),
            ),
            None => ruled_hit(target@, rules@.reverse, rules_view(of_kind@), exposed@) is None,
        },
{
    match rules.reverse_get(exposed) {
        Some(upstream) => Some((target.clone(), upstream.clone())),
        None => if rules_rename_to(of_kind, exposed) {
            None
        } else {
            Some((target.clone(), exposed.to_owned()))
        },
    }
}

impl McpRewriteSet {
    /// Whether some target has a rule that gives the name `exposed`.
    pub(crate) fn some_gives_name(&self, exposed: &str, all_targets: &Vec<String>) -> (r: bool)
        ensures
            r == some_gives_name(self@, exposed@, strs(all_targets@)),
    {
        let ghost names = strs(all_targets@);
        let mut i: usize = 0;
        while i < all_targets.len()
            invariant
                i <= all_targets@.len(),
                names == strs(all_targets@),
                forall|k: int| 0 <= k < i ==> !gives_name(self@, exposed@, #[trigger] names[k]),
            decreases all_targets@.len() - i,
        {
            assert(names[i as int] == all_targets@[i as int]@);
            if let Some(rules) = self.target(all_targets[i].as_str()) {
                if rules.reverse_get(exposed).is_some() {
                    assert(gives_name(self@, exposed@, names[i as int]));
                    return true;
                }
            }
            i += 1;
        }
        false
    }

    /// The only target that may have a name which the index does not know.
    fn only_flat_hit(&self, exposed: &str, kind: &str, all_targets: &Vec<String>) -> (r: Result<
        (String, String),
        UpstreamError,
    >)
        ensures
            match only_hit(
                hits(strs(all_targets@), |t: Seq<char>| flat_hit(self@, exposed@, t)),
                kind@,
                exposed@,
            ) {
                Ok(route) => r matches Ok(p) && pair(p) == route,
                Err(message) => r matches Err(e) && invalid_request(e, message),
            },
    {
        let ghost f = |t: Seq<char>| flat_hit(self@, exposed@, t);
        let ghost names = strs(all_targets@);
        let mut found: Vec<(String, String)> = Vec::new();
        let mut i: usize = 0;
        assert(names.take(0) =~= Seq::<Seq<char>>::empty());
        assert(hits_view(found@) =~= Seq::empty());
        while i < all_targets.len()
            invariant
                i <= all_targets@.len(),
                names == strs(all_targets@),
                f == (|t: Seq<char>| flat_hit(self@, exposed@, t)),
                hits_view(found@) == hits(names.take(i as int), f),
            decreases all_targets@.len() - i,
        {
            assert(names.take(i + 1).drop_last() =~= names.take(i as int));
            assert(names.take(i + 1).last() == all_targets@[i as int]@);
            let target = &all_targets[i];
            let hit = match self.target(target.as_str()) {
                None => Some((target.clone(), exposed.to_owned())),
                Some(rules) => match rules.reverse_get(exposed) {
                    Some(upstream) => Some((target.clone(), upstream.clone())),
                    None => None,
                },
            };
            let ghost before = hits_view(found@);
            if let Some(p) = hit {
                found.push(p);
                assert(hits_view(found@) =~= before.push(pair(p)));
            }
            i += 1;
        }
        assert(names.take(i as int) =~= names);
        take_only_hit(found, kind, exposed)
    }

    /// Where the prompt goes that clients call `exposed` under flat naming.
    ///
    /// The index of the last list decides, where it has the name. Else a target has it by a rule
    /// that gives the name, and a target without rules has it as it stands. One target must be
    /// left.
    pub fn resolve_flat_prompt(
        &self,
        exposed: &str,
        routes: Option<&RouteIndex>,
        all_targets: &Vec<String>,
    ) -> (r: Result<(String, String), UpstreamError>)
        ensures
            match flat_prompt_route(self@, exposed@, opt_routes(routes), strs(all_targets@)) {
                Ok(route) => r matches Ok(p) && pair(p) == route,
                Err(message) => r matches Err(e) && invalid_request(e, message),
            },
    {
        if let Some(route) = route_from_index(routes, exposed) {
            return Ok(route);
        }
        self.only_flat_hit(exposed, "prompt name", all_targets)
    }

    /// Where the task goes that clients call `exposed` under flat naming: by the index, or to the
    /// only target.
    pub fn resolve_flat_task(
        &self,
        exposed: &str,
        routes: Option<&RouteIndex>,
        all_targets: &Vec<String>,
    ) -> (r: Result<(String, String), UpstreamError>)
        ensures
            match flat_task_route(exposed@, opt_routes(routes), strs(all_targets@)) {
                Ok(route) => r matches Ok(p) && pair(p) == route,
                Err(message) => r matches Err(e) && invalid_request(e, message),
            },
    {
        if let Some(route) = route_from_index(routes, exposed) {
            return Ok(route);
        }
        if all_targets.len() == 1 {
            return Ok((all_targets[0].clone(), exposed.to_owned()));
        }
        let message = if all_targets.len() == 0 {
            text::concat("unknown flat task id: ", exposed)
        } else {
            text::concat("ambiguous flat task id: ", exposed)
        };
        Err(UpstreamError::InvalidRequest(message))
    }

    /// Where the tool goes that clients call `exposed` under flat naming.
    ///
    /// The index of the last list decides, where it has the name. Else a target has it by a rule
    /// that gives the name, and a target without rules has it as it stands. One target must be
    /// left.
    pub fn resolve_flat_tool(
        &self,
        exposed: &str,
        routes: Option<&RouteIndex>,
        all_targets: &Vec<String>,
    ) -> (r: Result<(String, String), UpstreamError>)
        ensures
            match flat_tool_route(self@, exposed@, opt_routes(routes), strs(all_targets@)) {
                Ok(route) => r matches Ok(p) && pair(p) == route,
                Err(message) => r matches Err(e) && invalid_request(e, message),
            },
    {
        if let Some(route) = route_from_index(routes, exposed) {
            return Ok(route);
        }
        self.only_flat_hit(exposed, "tool name", all_targets)
    }

    /// Where the resource goes that clients call `exposed` under flat naming, among the targets
    /// with rules.
    pub fn resolve_flat_resource(&self, exposed: &str) -> (r: Result<(String, String), UpstreamError>)
        ensures
            match flat_resource_route(self@, exposed@) {
                Ok(route) => r matches Ok(p) && pair(p) == route,
                Err(message) => r matches Err(e) && invalid_request(e, message),
            },
    {
        let ghost targets = self@.targets;
        let mut found: Vec<(String, String)> = Vec::new();
        let mut i: usize = 0;
        assert(targets.take(0) =~= Seq::<(Seq<char>, TargetView)>::empty());
        assert(hits_view(found@) =~= Seq::empty());
        while i < self.per_target.len()
            invariant
                i <= self.per_target@.len(),
                targets == targets_view(self.per_target@),
                hits_view(found@) == resource_hits(targets.take(i as int), exposed@),
            decreases self.per_target@.len() - i,
        {
            assert(targets.take(i + 1).drop_last() =~= targets.take(i as int));
            assert(targets.take(i + 1).last() == targets[i as int]);
            let rules = &self.per_target[i].1;
            let hit = ruled_target_hit(&self.per_target[i].0, rules, &rules.resources, exposed);
            let ghost before = hits_view(found@);
            if let Some(p) = hit {
                found.push(p);
                assert(hits_view(found@) =~= before.push(pair(p)));
            }
            i += 1;
        }
        assert(targets.take(i as int) =~= targets);
        take_only_hit(found, "resource name", exposed)
    }
}

/// Under flat naming a prompt name that no rule gives does not reach a target with rules, unless
/// the index says so: where all targets have rules, such a name is unknown.
pub proof fn law_ruled_targets_pass_no_prompt(
    set: SetView,
    exposed: Seq<char>,
    routes: Option<RoutesView>,
    targets: Seq<Seq<char>>,
)
    requires
        indexed(routes, exposed) is None,
        !some_gives_name(set, exposed, targets),
        forall|i: int|
            0 <= i < targets.len() ==> target_rules(set.targets, #[trigger] targets[i]) is Some,
    ensures
        flat_prompt_route(set, exposed, routes, targets) == Err::<HitView, Seq<char>>(
            "unknown flat prompt name: "@ + exposed,
        ),
{
    let f = |t: Seq<char>| flat_hit(set, exposed, t);
    assert forall|i: int| 0 <= i < targets.len() implies f(#[trigger] targets[i]) is None by {
        assert(!gives_name(set, exposed, targets[i]));
    }
    lemma_no_hits(targets, f);
    reveal_strlit("unknown flat ");
    reveal_strlit("prompt name");
    reveal_strlit(": ");
    reveal_strlit("unknown flat prompt name: ");
    assert("unknown flat "@ + "prompt name"@ + ": "@ =~= "unknown flat prompt name: "@);
}

proof fn lemma_no_hits(targets: Seq<Seq<char>>, f: spec_fn(Seq<char>) -> Option<HitView>)
    requires
        forall|i: int| 0 <= i < targets.len() ==> f(#[trigger] targets[i]) is None,
    ensures
        hits(targets, f).len() == 0,
    decreases targets.len(),
{
    if targets.len() > 0 {
        let before = targets.drop_last();
        assert forall|i: int| 0 <= i < before.len() implies f(#[trigger] before[i]) is None by {
            assert(before[i] == targets[i]);
        }
        lemma_no_hits(before, f);
    }
}

/// Each target that yields something counts.
pub(crate) proof fn lemma_two_hits(
    targets: Seq<Seq<char>>,
    f: spec_fn(Seq<char>) -> Option<HitView>,
    i: int,
    j: int,
)
    requires
        0 <= i < j < targets.len(),
        f(targets[i]) is Some,
        f(targets[j]) is Some,
    ensures
        hits(targets, f).len() >= 2,
    decreases targets.len(),
{
    let before = targets.drop_last();
    if j < before.len() {
        lemma_two_hits(before, f, i, j);
    } else {
        lemma_one_hit(before, f, i);
    }
}

proof fn lemma_one_hit(
    targets: Seq<Seq<char>>,
    f: spec_fn(Seq<char>) -> Option<HitView>,
    i: int,
)
    requires
        0 <= i < targets.len(),
        f(targets[i]) is Some,
    ensures
        hits(targets, f).len() >= 1,
    decreases targets.len(),
{
    if i < targets.len() - 1 {
        lemma_one_hit(targets.drop_last(), f, i);
    }
}

/// The rule that applies to a name: that of the target, or else that of the federation.
pub open spec fn rule_of_either(
    per_target: Seq<RuleView>,
    federation: Seq<RuleView>,
    name: Seq<char>,
) -> Option<RuleView> {
    match first_rule(per_target, name) {
        Some(rule) => Some(rule),
        None => first_rule(federation, name),
    }
}

/// In the merged policy of a target, a rule of the target for a name goes before every rule of the
/// federation for it, and the federation's rules decide where the target has none.
pub proof fn law_target_rules_before_federation_rules(
    federation: PolicyView,
    per_target: PolicyView,
    name: Seq<char>,
)
    ensures
        ({
            let merged = merged_policy(Some(federation), Some(per_target));
            &&& first_rule(merged.tools, name) == rule_of_either(
                per_target.tools,
                federation.tools,
                name,
            )
            &&& first_rule(merged.prompts, name) == rule_of_either(
                per_target.prompts,
                federation.prompts,
                name,
            )
            &&& first_rule(merged.resources, name) == rule_of_either(
                per_target.resources,
                federation.resources,
                name,
            )
        }),
{
    lemma_first_rule_of_both(per_target.tools, federation.tools, name);
    lemma_first_rule_of_both(per_target.prompts, federation.prompts, name);
    lemma_first_rule_of_both(per_target.resources, federation.resources, name);
}

proof fn lemma_first_rule_of_both(a: Seq<RuleView>, b: Seq<RuleView>, name: Seq<char>)
    ensures
        first_rule(a + b, name) == rule_of_either(a, b, name),
{
    if first_rule(a, name) is Some {
        lemma_first_rule_prefix(a, b, name, 0);
    } else {
        lemma_first_rule_suffix(a, b, name, 0);
        lemma_first_rule_shift(a, b, name, 0);
    }
}

proof fn lemma_first_rule_prefix(a: Seq<RuleView>, b: Seq<RuleView>, name: Seq<char>, i: int)
    requires
        0 <= i,
        first_rule_from(a, name, i) is Some,
    ensures
        first_rule_from(a + b, name, i) == first_rule_from(a, name, i),
    decreases a.len() - i,
{
    if i < a.len() {
        assert((a + b)[i] == a[i]);
        if !rule_matches(a[i], name) {
            lemma_first_rule_prefix(a, b, name, i + 1);
        }
    }
}

proof fn lemma_first_rule_suffix(a: Seq<RuleView>, b: Seq<RuleView>, name: Seq<char>, i: int)
    requires
        0 <= i <= a.len(),
        first_rule_from(a, name, i) is None,
    ensures
        first_rule_from(a + b, name, i) == first_rule_from(a + b, name, a.len() as int),
    decreases a.len() - i,
{
    if i < a.len() {
        assert((a + b)[i] == a[i]);
        lemma_first_rule_suffix(a, b, name, i + 1);
    }
}

proof fn lemma_first_rule_shift(a: Seq<RuleView>, b: Seq<RuleView>, name: Seq<char>, i: int)
    requires
        0 <= i <= b.len(),
    ensures
        first_rule_from(a + b, name, a.len() + i) == first_rule_from(b, name, i),
    decreases b.len() - i,
{
    if i < b.len() {
        assert((a + b)[a.len() + i] == b[i]);
        lemma_first_rule_shift(a, b, name, i + 1);
    }
}

/// The name under which rules present a thing.
pub open spec fn presented_name(rules: Seq<RuleView>, name: Seq<char>) -> Seq<char> {
    match first_rule(rules, name) {
        Some(rule) => or_else(rule.rewrite.name, name),
        None => name,
    }
}

/// Rules that give the name `exposed` to one exact name give it to `upstream` alone.
pub open spec fn gives_only(rules: Seq<RuleView>, exposed: Seq<char>, upstream: Seq<char>) -> bool {
    forall|i: int|
        0 <= i < rules.len() && (#[trigger] rules[i]).rewrite.name == Some(exposed)
            && rules[i].matcher is Exact ==> rules[i].matcher == ItemMatcherView::Exact(upstream)
}

/// The way back of a target is that of its rules.
pub open spec fn well_compiled(target: TargetView) -> bool {
    target.reverse == reverse_names(
        PolicyView {
            server: None,
            tools: target.tools,
            prompts: target.prompts,
            resources: target.resources,
        },
    )
}

/// The name under which `rules` of a target present `name` is no other's: a rule that changes it
/// is for this name exactly, and no rule of the target gives the same name to another.
pub open spec fn is_own_name(target: TargetView, rules: Seq<RuleView>, name: Seq<char>) -> bool {
    let exposed = presented_name(rules, name);
    &&& exposed != name ==> first_rule(rules, name)->0.matcher is Exact
    &&& gives_only(target.tools, exposed, name)
    &&& gives_only(target.prompts, exposed, name)
    &&& gives_only(target.resources, exposed, name)
}

proof fn lemma_reverse_of_rules(
    names: Map<Seq<char>, Seq<char>>,
    rules: Seq<RuleView>,
    exposed: Seq<char>,
    upstream: Seq<char>,
)
    requires
        gives_only(rules, exposed, upstream),
        names.contains_key(exposed) ==> names[exposed] == upstream,
    ensures
        reverse_of_rules(names, rules).contains_key(exposed) ==> reverse_of_rules(
            names,
            rules,
        )[exposed] == upstream,
        names.contains_key(exposed) ==> reverse_of_rules(names, rules).contains_key(exposed),
        forall|i: int|
            0 <= i < rules.len() && (#[trigger] rules[i]).rewrite.name == Some(exposed)
                && rules[i].matcher is Exact ==> reverse_of_rules(names, rules).contains_key(
                exposed,
            ),
    decreases rules.len(),
{
    if rules.len() > 0 {
        let head = rules.drop_last();
        assert forall|i: int|
            0 <= i < head.len() && (#[trigger] head[i]).rewrite.name == Some(exposed)
                && head[i].matcher is Exact implies head[i].matcher == ItemMatcherView::Exact(
            upstream,
        ) by {
            assert(head[i] == rules[i]);
        }
        lemma_reverse_of_rules(names, head, exposed, upstream);
        assert(rules[rules.len() - 1] == rules.last());
        let all = reverse_of_rules(names, rules);
        assert forall|i: int|
            0 <= i < rules.len() && (#[trigger] rules[i]).rewrite.name == Some(exposed)
                && rules[i].matcher is Exact implies all.contains_key(exposed) by {
            if i < head.len() {
                assert(head[i] == rules[i]);
            }
        }
    }
}

proof fn lemma_first_rule_is_one(rules: Seq<RuleView>, name: Seq<char>, i: int) -> (k: int)
    requires
        0 <= i,
        first_rule_from(rules, name, i) is Some,
    ensures
        i <= k < rules.len(),
        rules[k] == first_rule_from(rules, name, i)->0,
        rule_matches(rules[k], name),
    decreases rules.len() - i,
{
    if rule_matches(rules[i], name) {
        i
    } else {
        lemma_first_rule_is_one(rules, name, i + 1)
    }
}

/// A thing is called back by its upstream name under the name by which the rules of its target
/// present it, as long as that name is its own.
pub proof fn law_presented_name_resolves_back(
    target: TargetView,
    rules: Seq<RuleView>,
    name: Seq<char>,
)
    requires
        well_compiled(target),
        rules == target.tools || rules == target.prompts || rules == target.resources,
        is_own_name(target, rules, name),
    ensures
        upstream_name(target, presented_name(rules, name)) == name,
{
    let exposed = presented_name(rules, name);
    let a = reverse_of_rules(Map::empty(), target.tools);
    let b = reverse_of_rules(a, target.prompts);
    lemma_reverse_of_rules(Map::empty(), target.tools, exposed, name);
    lemma_reverse_of_rules(a, target.prompts, exposed, name);
    lemma_reverse_of_rules(b, target.resources, exposed, name);
    if exposed != name {
        let k = lemma_first_rule_is_one(rules, name, 0);
        assert(rules[k].rewrite.name == Some(exposed));
        assert(rules[k].matcher is Exact);
        assert(target.reverse.contains_key(exposed));
    }
}

/// No rule of the target gives the name `exposed`.
pub open spec fn is_given_by_none(target: TargetView, exposed: Seq<char>) -> bool {
    &&& !renames_to(target.tools, exposed)
    &&& !renames_to(target.prompts, exposed)
    &&& !renames_to(target.resources, exposed)
}

/// A name that no rule of a target gives is the upstream name itself.
pub proof fn law_ungiven_name_is_itself(target: TargetView, name: Seq<char>)
    requires
        well_compiled(target),
        is_given_by_none(target, name),
    ensures
        upstream_name(target, name) == name,
{
    let a = reverse_of_rules(Map::empty(), target.tools);
    let b = reverse_of_rules(a, target.prompts);
    lemma_ungiven(Map::empty(), target.tools, name);
    lemma_ungiven(a, target.prompts, name);
    lemma_ungiven(b, target.resources, name);
}

proof fn lemma_ungiven(
    names: Map<Seq<char>, Seq<char>>,
    rules: Seq<RuleView>,
    name: Seq<char>,
)
    requires
        !renames_to(rules, name),
        !names.contains_key(name),
    ensures
        !reverse_of_rules(names, rules).contains_key(name),
    decreases rules.len(),
{
    if rules.len() > 0 {
        let head = rules.drop_last();
        assert forall|i: int| 0 <= i < head.len() implies (#[trigger] head[i]).rewrite.name != Some(
            name,
        ) by {
            assert(head[i] == rules[i]);
        }
        lemma_ungiven(names, head, name);
        assert(rules[rules.len() - 1].rewrite.name != Some(name));
    }
}

/// A tool that one rule of a policy renames is called back by its upstream name: where the `k`-th
/// tool rule is for that tool exactly, is the first that applies to it, and no other rule of the
/// policy gives the same name, to resolve that name undoes the presentation.
pub proof fn law_renamed_tool_resolves_back(
    policy: PolicyView,
    tool: ToolView,
    k: int,
    exposed: Seq<char>,
)
    requires
        0 <= k < policy.tools.len(),
        policy.tools[k].matcher == ItemMatcherView::Exact(tool.name),
        policy.tools[k].rewrite.name == Some(exposed),
        first_rule(policy.tools, tool.name) == Some(policy.tools[k]),
        forall|i: int|
            0 <= i < policy.tools.len() && i != k ==> (#[trigger] policy.tools[i]).rewrite.name
                != Some(exposed),
        !renames_to(policy.prompts, exposed),
        !renames_to(policy.resources, exposed),
    ensures
        presented_tool(tool, policy.tools).name == exposed,
        upstream_name(compiled_target(policy), exposed) == tool.name,
{
    let target = compiled_target(policy);
    law_presented_name_resolves_back(target, policy.tools, tool.name);
}

/// The way back of every target of a set is that of its rules.
pub proof fn law_targets_are_compiled(
    backends: Seq<(Seq<char>, Option<PolicyView>)>,
    name: Seq<char>,
)
    ensures
        target_rules(set_of_backends(backends).targets, name) matches Some(t) ==> well_compiled(t),
{
    lemma_all_compiled(backends);
    lemma_target_index(set_of_backends(backends).targets, name, 0);
}

proof fn lemma_all_compiled(backends: Seq<(Seq<char>, Option<PolicyView>)>)
    ensures
        forall|i: int|
            0 <= i < set_of_backends(backends).targets.len() ==> well_compiled(
                (#[trigger] set_of_backends(backends).targets[i]).1,
            ),
    decreases backends.len(),
{
    if backends.len() > 0 {
        let before = set_of_backends(backends.drop_last()).targets;
        lemma_all_compiled(backends.drop_last());
        lemma_target_index(before, backends.last().0, 0);
        let after = set_of_backends(backends).targets;
        assert forall|i: int| 0 <= i < after.len() implies well_compiled((#[trigger] after[i]).1) by {
            if i < before.len() {
                assert(well_compiled(before[i].1));
            }
        }
    }
}

} // verus!
