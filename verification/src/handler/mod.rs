//! The relay between one client and the upstream servers: names and sessions.

pub mod capture;
pub mod fanout;
pub mod greeting;
pub mod listing;
pub mod merge;
pub mod naming;
pub mod outcomes;
pub mod reach;
pub mod sessions;
pub mod single;

use crate::handler::fanout::contains_str;
use crate::info::{Error, FailureMode};
use crate::mcp_apps::capabilities::{
    CapabilitiesView, CapabilityKind, TargetCapabilities, asked_targets,
};
use crate::mcp_apps::percent::parsed_url;
use crate::mcp_apps::routing::{parse_resource_uri_mixed, resolved_uri, ui_round_trips, wrapped_uri};
use crate::model::{opt_str, pair, strs};
use crate::multiplex_naming::{
    parse_resource_name, parsed_name, resolve_client_task_id, resolved_task_id,
};
use crate::rewrite::{
    McpRewritePolicy, McpRewriteSet, SetView, backends_view, copy_opt_str, copy_strs,
    flat_hit, flat_prompt_route, flat_task_route, flat_tool_route, is_flat, lemma_two_hits,
    set_of_backends, some_gives_name, target_rules, upstream_name,
};
use crate::routes::{RouteIndex, RoutesView, with_route};
use crate::text;
use crate::upstream::{UpstreamError, invalid_request};
use vstd::prelude::*;
use vstd::string::*;

verus! {

/// The backends behind one gateway endpoint.
pub struct McpBackendGroup {
    /// The targets in order, each with its own presentation rules.
    pub targets: Vec<(String, Option<McpRewritePolicy>)>,
    /// The targets that could not be set up and are left out.
    pub skipped: Vec<String>,
    /// The only target, where names go through without a prefix.
    pub default_target_name: Option<String>,
    /// Whether several targets share the endpoint.
    pub is_multiplexing: bool,
    /// Whether sessions are kept.
    pub stateful: bool,
    /// What becomes of a request when a target fails.
    pub failure_mode: FailureMode,
}

/// What a relay is made of.
pub struct RelayInputs {
    pub backend: McpBackendGroup,
}

/// The relay between one client and the upstream servers.
pub struct Relay {
    pub targets: Vec<String>,
    pub default_target_name: Option<String>,
    pub is_multiplexing: bool,
    pub stateful: bool,
    pub failure_mode: FailureMode,
    pub mcp_rewrite: McpRewriteSet,
    pub capabilities: TargetCapabilities,
    /// Filled by a flat `tools/list`; read by `tools/call`.
    pub flat_tool_routes: RouteIndex,
    /// Filled by a flat `prompts/list`; read by `prompts/get`.
    pub flat_prompt_routes: RouteIndex,
    /// Filled by a flat `tasks/list` and by tasks that a tool call created.
    pub flat_task_routes: RouteIndex,
}

/// The mathematical relay.
pub struct RelayView {
    pub targets: Seq<Seq<char>>,
    pub default_target: Option<Seq<char>>,
    pub is_multiplexing: bool,
    pub stateful: bool,
    pub failure_mode: FailureMode,
    pub rewrite: SetView,
    pub capabilities: CapabilitiesView,
    pub tool_routes: RoutesView,
    pub prompt_routes: RoutesView,
    pub task_routes: RoutesView,
}

impl View for Relay {
    type V = RelayView;

    open spec fn view(&self) -> RelayView {
        RelayView {
            targets: strs(self.targets@),
            default_target: opt_str(self.default_target_name),
            is_multiplexing: self.is_multiplexing,
            stateful: self.stateful,
            failure_mode: self.failure_mode,
            rewrite: self.mcp_rewrite@,
            capabilities: self.capabilities@,
            tool_routes: self.flat_tool_routes@,
            prompt_routes: self.flat_prompt_routes@,
            task_routes: self.flat_task_routes@,
        }
    }
}

/// The names of the targets that could be set up.
pub open spec fn connected(
    targets: Seq<(String, Option<McpRewritePolicy>)>,
    skipped: Seq<Seq<char>>,
) -> Seq<Seq<char>>
    decreases targets.len(),
{
    if targets.len() == 0 {
        Seq::empty()
    } else {
        let before = connected(targets.drop_last(), skipped);
        if skipped.contains(targets.last().0@) {
            before
        } else {
            before.push(targets.last().0@)
        }
    }
}

/// The group has nothing to serve a request: no target is left of those that it has, or it has
/// none and fails closed.
pub open spec fn no_backends(backend: McpBackendGroup) -> bool {
    connected(backend.targets@, strs(backend.skipped@)).len() == 0 && (backend.targets@.len() > 0
        || backend.failure_mode == FailureMode::FailClosed)
}

/// A fresh relay over a group of backends.
pub open spec fn fresh_relay(backend: McpBackendGroup) -> RelayView {
    RelayView {
        targets: connected(backend.targets@, strs(backend.skipped@)),
        default_target: opt_str(backend.default_target_name),
        is_multiplexing: backend.is_multiplexing,
        stateful: backend.stateful,
        failure_mode: backend.failure_mode,
        rewrite: set_of_backends(backends_view(backend.targets@)),
        capabilities: CapabilitiesView::empty(),
        tool_routes: RoutesView::empty(),
        prompt_routes: RoutesView::empty(),
        task_routes: RoutesView::empty(),
    }
}

impl RelayInputs {
    /// A relay that knows nothing yet of what its targets can do or list.
    pub fn build_new_connections(self) -> (r: Result<Relay, Error>)
        ensures
            if no_backends(self.backend) {
                r == Err::<Relay, Error>(Error::NoBackends)
            } else {
                r matches Ok(relay) && relay@ == fresh_relay(self.backend)
            },
    {
        Relay::new(self.backend)
    }
}

/// Names are flat, and several targets share them.
pub open spec fn flat_and_shared(relay: RelayView) -> bool {
    is_flat(relay.rewrite) && relay.default_target is None
}

/// The targets to list before a flat name is resolved: none where names are not flat, where the
/// index has routes, and where no target is to be asked.
pub open spec fn targets_to_list(
    needed: bool,
    routes: RoutesView,
    asked: Seq<Seq<char>>,
) -> Option<Seq<Seq<char>>> {
    if needed && routes == RoutesView::empty() && asked.len() > 0 {
        Some(asked)
    } else {
        None
    }
}

/// What the strings of a vector are, where there is one.
pub open spec fn opt_strs(v: Option<Vec<String>>) -> Option<Seq<Seq<char>>> {
    match v {
        Some(x) => Some(strs(x@)),
        None => None,
    }
}

/// Where a client-visible name goes when names are prefixed: the name behind the prefix, as the
/// rules of the target had it.
pub open spec fn prefixed_route(relay: RelayView, name: Seq<char>) -> Option<(Seq<char>, Seq<char>)> {
    match parsed_name(relay.default_target, name) {
        Some((target, exposed)) => Some(
            (
                target,
                match target_rules(relay.rewrite.targets, target) {
                    Some(rules) => upstream_name(rules, exposed),
                    None => exposed,
                },
            ),
        ),
        None => None,
    }
}

/// Where a tool call goes.
///
/// Under flat naming with an empty index, nothing was listed: a name that no rule gives, and that
/// not just one target may have, is unknown rather than ambiguous.
pub open spec fn tool_route(relay: RelayView, name: Seq<char>) -> Result<
    (Seq<char>, Seq<char>),
    Seq<char>,
> {
    if is_flat(relay.rewrite) {
        let route = flat_tool_route(
            relay.rewrite,
            name,
            Some(relay.tool_routes),
            relay.targets,
        );
        if route is Err && relay.tool_routes == RoutesView::empty() && !some_gives_name(
            relay.rewrite,
            name,
            relay.targets,
        ) {
            Err("unknown flat tool name: "@ + name)
        } else {
            route
        }
    } else {
        match prefixed_route(relay, name) {
            Some(route) => Ok(route),
            None => Err("invalid resource name"@),
        }
    }
}

/// Where a request for a prompt goes.
pub open spec fn prompt_route(relay: RelayView, name: Seq<char>) -> Result<
    (Seq<char>, Seq<char>),
    Seq<char>,
> {
    if is_flat(relay.rewrite) {
        flat_prompt_route(relay.rewrite, name, Some(relay.prompt_routes), relay.targets)
    } else {
        match prefixed_route(relay, name) {
            Some(route) => Ok(route),
            None => Err("invalid resource name"@),
        }
    }
}

/// Where a request about a task goes.
pub open spec fn task_route(relay: RelayView, client_id: Seq<char>) -> Result<
    (Seq<char>, Seq<char>),
    Seq<char>,
> {
    if flat_and_shared(relay) {
        flat_task_route(client_id, Some(relay.task_routes), relay.targets)
    } else {
        resolved_task_id(
            relay.default_target,
            client_id,
            relay.targets.len(),
            if relay.targets.len() == 1 {
                Some(relay.targets[0])
            } else {
                None
            },
        )
    }
}

/// The outcome of a resolution, as a route or the message of a refusal.
pub open spec fn resolves_to(
    r: Result<(String, String), UpstreamError>,
    want: Result<(Seq<char>, Seq<char>), Seq<char>>,
) -> bool {
    match want {
        Ok(route) => r matches Ok(p) && pair(p) == route,
        Err(message) => r matches Err(e) && invalid_request(e, message),
    }
}

impl Relay {
    /// A relay that knows nothing yet of what its targets can do or list. Rules count also where
    /// they come from a target that is left out.
    pub fn new(backend: McpBackendGroup) -> (r: Result<Relay, Error>)
        ensures
            if no_backends(backend) {
                r == Err::<Relay, Error>(Error::NoBackends)
            } else {
                r matches Ok(relay) && relay@ == fresh_relay(backend)
            },
    {
        let ghost all = backend.targets@;
        let ghost skipped = strs(backend.skipped@);
        let mut targets: Vec<String> = Vec::new();
        let mut i: usize = 0;
        assert(strs(targets@) =~= connected(all.take(0), skipped));
        while i < backend.targets.len()
            invariant
                i <= all.len(),
                all == backend.targets@,
                skipped == strs(backend.skipped@),
                strs(targets@) == connected(all.take(i as int), skipped),
            decreases all.len() - i,
        {
            assert(all.take(i + 1).drop_last() =~= all.take(i as int));
            let ghost before = targets@;
            let name = backend.targets[i].0.clone();
            if !contains_str(&backend.skipped, name.as_str()) {
                targets.push(name);
                assert(strs(targets@) =~= strs(before).push(name@));
            }
            i += 1;
        }
        assert(all.take(i as int) =~= all);
        assert(strs(targets@).len() == targets@.len());
        if targets.len() == 0 && (backend.targets.len() > 0 || backend.failure_mode
            == FailureMode::FailClosed) {
            return Err(Error::NoBackends);
        }
        let mcp_rewrite = McpRewriteSet::from_backend_targets(backend.targets);
        Ok(
            Relay {
                targets,
                default_target_name: backend.default_target_name,
                is_multiplexing: backend.is_multiplexing,
                stateful: backend.stateful,
                failure_mode: backend.failure_mode,
                mcp_rewrite,
                capabilities: TargetCapabilities::new(),
                flat_tool_routes: RouteIndex::new(),
                flat_prompt_routes: RouteIndex::new(),
                flat_task_routes: RouteIndex::new(),
            },
        )
    }

    /// The names of all targets.
    pub fn all_target_names(&self) -> (r: Vec<String>)
        ensures
            strs(r@) == self@.targets,
    {
        copy_strs(&self.targets)
    }

    /// Whether several targets share the endpoint.
    pub fn is_multiplexing(&self) -> (r: bool)
        ensures
            r == self@.is_multiplexing,
    {
        self.is_multiplexing
    }

    /// The only target, where names go through without a prefix.
    pub fn default_target_name(&self) -> (r: Option<String>)
        ensures
            opt_str(r) == self@.default_target,
    {
        copy_opt_str(&self.default_target_name)
    }

    /// Remembers where a task is, when it was created: of equal ids the first keeps its route.
    pub fn record_flat_task_route(&mut self, target: &str, upstream_id: &str)
        ensures
            final(self)@ == (RelayView {
                task_routes: if flat_and_shared(old(self)@) {
                    with_route(old(self)@.task_routes, target@, upstream_id@, upstream_id@)
                } else {
                    old(self)@.task_routes
                },
                ..old(self)@
            }),
    {
        if !self.mcp_rewrite.flat() || self.default_target_name.is_some() {
            return;
        }
        self.flat_task_routes.insert_first(
            upstream_id.to_owned(),
            target.to_owned(),
            upstream_id.to_owned(),
        );
    }

    /// The target and the local name that `res` stands for.
    pub fn parse_resource_name<'a, 'b: 'a>(&'a self, res: &'b str) -> (r: Result<
        (&'a str, &'b str),
        UpstreamError,
    >)
        ensures
            match r {
                Ok((target, name)) => parsed_name(self@.default_target, res@) == Some(
                    (target@, name@),
                ),
                Err(e) => parsed_name(self@.default_target, res@) is None && invalid_request(
                    e,
                    "invalid resource name"@,
                ),
            },
    {
        parse_resource_name(self.default_target_name.as_ref(), res)
    }

    /// The target and the URI behind a client-visible URI.
    pub fn parse_resource_uri(&self, uri: &str) -> (r: Result<(String, String), UpstreamError>)
        ensures
            resolves_to(r, resolved_uri(self@.default_target, uri@, parsed_url(uri@))),
            forall|target: Seq<char>, original: Seq<char>|
                self@.default_target is None && uri@ == #[trigger] wrapped_uri(
                    None,
                    target,
                    original,
                ) && ui_round_trips(target, original) ==> resolves_to(
                    r,
                    Ok((target, original)),
                ),
    {
        parse_resource_uri_mixed(self.default_target_name.as_ref(), uri)
    }

    /// The targets whose tools are to be listed before a tool call is resolved.
    ///
    /// The routes are in memory only. A session that resumes elsewhere finds none, and lists the
    /// tools first.
    pub fn tool_routes_to_load(&self) -> (r: Option<Vec<String>>)
        ensures
            opt_strs(r) == targets_to_list(
                is_flat(self@.rewrite),
                self@.tool_routes,
                asked_targets(self@.capabilities, CapabilityKind::Tools, self@.targets),
            ),
    {
        if !self.mcp_rewrite.flat() || !self.flat_tool_routes.is_empty() {
            return None;
        }
        let targets = self.capabilities.upstreams_with_tools(&self.targets);
        assert(strs(targets@).len() == targets@.len());
        if targets.len() == 0 {
            None
        } else {
            Some(targets)
        }
    }

    /// The targets whose prompts are to be listed before a request for a prompt is resolved.
    pub fn prompt_routes_to_load(&self) -> (r: Option<Vec<String>>)
        ensures
            opt_strs(r) == targets_to_list(
                is_flat(self@.rewrite),
                self@.prompt_routes,
                asked_targets(self@.capabilities, CapabilityKind::Prompts, self@.targets),
            ),
    {
        if !self.mcp_rewrite.flat() || !self.flat_prompt_routes.is_empty() {
            return None;
        }
        let targets = self.capabilities.upstreams_with_prompts(&self.targets);
        assert(strs(targets@).len() == targets@.len());
        if targets.len() == 0 {
            None
        } else {
            Some(targets)
        }
    }

    /// The targets whose tasks are to be listed before a task id is resolved.
    pub fn task_routes_to_load(&self) -> (r: Option<Vec<String>>)
        ensures
            opt_strs(r) == targets_to_list(
                flat_and_shared(self@),
                self@.task_routes,
                asked_targets(self@.capabilities, CapabilityKind::Tasks, self@.targets),
            ),
    {
        if !self.mcp_rewrite.flat() || self.default_target_name.is_some()
            || !self.flat_task_routes.is_empty() {
            return None;
        }
        let targets = self.capabilities.upstreams_with_tasks(&self.targets);
        assert(strs(targets@).len() == targets@.len());
        if targets.len() == 0 {
            None
        } else {
            Some(targets)
        }
    }

    fn resolve_prefixed(&self, client_name: &str) -> (r: Result<(String, String), UpstreamError>)
        ensures
            resolves_to(
                r,
                match prefixed_route(self@, client_name@) {
                    Some(route) => Ok(route),
                    None => Err("invalid resource name"@),
                },
            ),
    {
        match self.parse_resource_name(client_name) {
            Ok((target, exposed)) => {
                let upstream = match self.mcp_rewrite.target(target) {
                    Some(rules) => rules.resolve_upstream_tool(exposed),
                    None => exposed.to_owned(),
                };
                Ok((target.to_owned(), upstream))
            },
            Err(e) => Err(e),
        }
    }

    /// The target of a tool call, and the name of the tool there.
    pub fn resolve_tool_call(&self, client_name: &str) -> (r: Result<(String, String), UpstreamError>)
        ensures
            resolves_to(r, tool_route(self@, client_name@)),
    {
        if self.mcp_rewrite.flat() {
            let found = self.mcp_rewrite.resolve_flat_tool(
                client_name,
                Some(&self.flat_tool_routes),
                &self.targets,
            );
            if found.is_err() && self.flat_tool_routes.is_empty()
                && !self.mcp_rewrite.some_gives_name(client_name, &self.targets) {
                return Err(
                    UpstreamError::InvalidRequest(
                        text::concat("unknown flat tool name: ", client_name),
                    ),
                );
            }
            return found;
        }
        self.resolve_prefixed(client_name)
    }

    /// The target of a request for a prompt, and the name of the prompt there.
    pub fn resolve_prompt_call(&self, client_name: &str) -> (r: Result<
        (String, String),
        UpstreamError,
    >)
        ensures
            resolves_to(r, prompt_route(self@, client_name@)),
    {
        if self.mcp_rewrite.flat() {
            return self.mcp_rewrite.resolve_flat_prompt(
                client_name,
                Some(&self.flat_prompt_routes),
                &self.targets,
            );
        }
        self.resolve_prefixed(client_name)
    }

    /// The target of a request about a task, and the id of the task there.
    pub fn resolve_task_call(&self, client_id: &str) -> (r: Result<(String, String), UpstreamError>)
        ensures
            resolves_to(r, task_route(self@, client_id@)),
    {
        if self.mcp_rewrite.flat() && self.default_target_name.is_none() {
            return self.mcp_rewrite.resolve_flat_task(
                client_id,
                Some(&self.flat_task_routes),
                &self.targets,
            );
        }
        let single: Option<&str> = if self.targets.len() == 1 {
            Some(self.targets[0].as_str())
        } else {
            None
        };
        resolve_client_task_id(
            self.default_target_name.as_ref(),
            client_id,
            self.targets.len(),
            single,
        )
    }
}

/// Where listing the tools failed, a flat tool name that no rule gives, and that two targets
/// without rules may have, is unknown, not ambiguous.
pub proof fn law_unlisted_tool_is_unknown(relay: RelayView, name: Seq<char>, i: int, j: int)
    requires
        is_flat(relay.rewrite),
        relay.tool_routes == RoutesView::empty(),
        !some_gives_name(relay.rewrite, name, relay.targets),
        0 <= i < j < relay.targets.len(),
        target_rules(relay.rewrite.targets, relay.targets[i]) is None,
        target_rules(relay.rewrite.targets, relay.targets[j]) is None,
    ensures
        tool_route(relay, name) == Err::<(Seq<char>, Seq<char>), Seq<char>>(
            "unknown flat tool name: "@ + name,
        ),
{
    let f = |t: Seq<char>| flat_hit(relay.rewrite, name, t);
    lemma_two_hits(relay.targets, f, i, j);
}

/// A relay that fails closed has a target, and so has one whose group has any.
pub proof fn law_relay_has_a_target(backend: McpBackendGroup)
    requires
        !no_backends(backend),
        backend.failure_mode == FailureMode::FailClosed || backend.targets@.len() > 0,
    ensures
        fresh_relay(backend).targets.len() > 0,
{
}

} // verus!
