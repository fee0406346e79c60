//! What each upstream server said it can do, and what the gateway says of itself.

use crate::model::{
    PromptsCapability, ResourcesCapability, ServerCapabilities, TasksCapability, ToolsCapability,
    strs,
};
use vstd::hash_map::StringHashMap;
use vstd::prelude::*;
use vstd::string::*;

verus! {

/// The capabilities of each target that has answered `initialize`.
pub struct TargetCapabilities {
    capabilities: StringHashMap<ServerCapabilities>,
}

/// The mathematical capabilities of each target.
pub type CapabilitiesView = Map<Seq<char>, ServerCapabilities>;

impl View for TargetCapabilities {
    type V = CapabilitiesView;

    closed spec fn view(&self) -> CapabilitiesView {
        self.capabilities@
    }
}

/// A part of the capabilities that a server may have.
#[derive(Debug, Clone, Copy, PartialEq, Eq, Structural)]
pub enum CapabilityKind {
    Tools,
    Prompts,
    Resources,
    Tasks,
}

/// The server has the part.
pub open spec fn has_capability(c: ServerCapabilities, kind: CapabilityKind) -> bool {
    match kind {
        CapabilityKind::Tools => c.tools is Some,
        CapabilityKind::Prompts => c.prompts is Some,
        CapabilityKind::Resources => c.resources is Some,
        CapabilityKind::Tasks => c.tasks is Some,
    }
}

/// The target is asked: it has not answered `initialize` yet, or it has the part.
pub open spec fn is_asked(known: CapabilitiesView, kind: CapabilityKind, target: Seq<char>) -> bool {
    !known.contains_key(target) || has_capability(known[target], kind)
}

/// The targets of a list that are asked, in order.
pub open spec fn asked_targets(
    known: CapabilitiesView,
    kind: CapabilityKind,
    targets: Seq<Seq<char>>,
) -> Seq<Seq<char>>
    decreases targets.len(),
{
    if targets.len() == 0 {
        targets
    } else {
        let before = asked_targets(known, kind, targets.drop_last());
        if is_asked(known, kind, targets.last()) {
            before.push(targets.last())
        } else {
            before
        }
    }
}

impl TargetCapabilities {
    /// No target has answered yet.
    pub fn new() -> (r: TargetCapabilities)
        ensures
            r@ == CapabilitiesView::empty(),
    {
        TargetCapabilities { capabilities: StringHashMap::new() }
    }

    /// Keeps what a target answered, in place of an earlier answer.
    pub fn store(&mut self, target_name: &str, capabilities: ServerCapabilities)
        ensures
            final(self)@ == old(self)@.insert(target_name@, capabilities),
    {
        self.capabilities.insert(target_name.to_owned(), capabilities);
    }

    /// The targets that may have tools.
    pub fn upstreams_with_tools(&self, all_targets: &Vec<String>) -> (r: Vec<String>)
        ensures
            strs(r@) == asked_targets(self@, CapabilityKind::Tools, strs(all_targets@)),
    {
        self.targets_matching(all_targets, CapabilityKind::Tools)
    }

    /// The targets that may have prompts.
    pub fn upstreams_with_prompts(&self, all_targets: &Vec<String>) -> (r: Vec<String>)
        ensures
            strs(r@) == asked_targets(self@, CapabilityKind::Prompts, strs(all_targets@)),
    {
        self.targets_matching(all_targets, CapabilityKind::Prompts)
    }

    /// The targets that may have resources.
    pub fn upstreams_with_resources(&self, all_targets: &Vec<String>) -> (r: Vec<String>)
        ensures
            strs(r@) == asked_targets(self@, CapabilityKind::Resources, strs(all_targets@)),
    {
        self.targets_matching(all_targets, CapabilityKind::Resources)
    }

    /// The targets that may have tasks.
    pub fn upstreams_with_tasks(&self, all_targets: &Vec<String>) -> (r: Vec<String>)
        ensures
            strs(r@) == asked_targets(self@, CapabilityKind::Tasks, strs(all_targets@)),
    {
        self.targets_matching(all_targets, CapabilityKind::Tasks)
    }

    /// The targets to ask. One that has not answered `initialize` yet is asked too, so that
    /// nothing is missed while the answers are still coming in.
    fn targets_matching(&self, all_targets: &Vec<String>, kind: CapabilityKind) -> (r: Vec<String>)
        ensures
            strs(r@) == asked_targets(self@, kind, strs(all_targets@)),
    {
        let ghost names = strs(all_targets@);
        let mut out: Vec<String> = Vec::new();
        let mut i: usize = 0;
        assert(names.take(0) =~= Seq::<Seq<char>>::empty());
        assert(strs(out@) =~= Seq::<Seq<char>>::empty());
        while i < all_targets.len()
            invariant
                i <= all_targets@.len(),
                names == strs(all_targets@),
                strs(out@) == asked_targets(self@, kind, names.take(i as int)),
            decreases all_targets@.len() - i,
        {
            assert(names.take(i + 1).drop_last() =~= names.take(i as int));
            assert(names.take(i + 1).last() == all_targets@[i as int]@);
            let asked = match self.capabilities.get(all_targets[i].as_str()) {
                Some(c) => match kind {
                    CapabilityKind::Tools => c.tools.is_some(),
                    CapabilityKind::Prompts => c.prompts.is_some(),
                    CapabilityKind::Resources => c.resources.is_some(),
                    CapabilityKind::Tasks => c.tasks.is_some(),
                },
                None => true,
            };
            let ghost before = strs(out@);
            if asked {
                let target = all_targets[i].clone();
                out.push(target);
                assert(strs(out@) =~= before.push(target@));
            }
            i += 1;
        }
        assert(names.take(i as int) =~= names);
        out
    }
}

/// Until a target has answered, every list asks it: no part is taken to be missing.
pub proof fn law_unanswered_targets_are_asked(
    known: CapabilitiesView,
    kind: CapabilityKind,
    targets: Seq<Seq<char>>,
)
    ensures
        forall|i: int|
            0 <= i < targets.len() && !known.contains_key(#[trigger] targets[i]) ==> asked_targets(
                known,
                kind,
                targets,
            ).contains(targets[i]),
        known == CapabilitiesView::empty() ==> asked_targets(known, kind, targets) == targets,
    decreases targets.len(),
{
    if targets.len() > 0 {
        let head = targets.drop_last();
        law_unanswered_targets_are_asked(known, kind, head);
        let before = asked_targets(known, kind, head);
        let after = asked_targets(known, kind, targets);
        assert forall|i: int|
            0 <= i < targets.len() && !known.contains_key(
                #[trigger] targets[i],
            ) implies after.contains(targets[i]) by {
            if i < head.len() {
                assert(before.contains(head[i]));
                let j = choose|j: int| 0 <= j < before.len() && before[j] == targets[i];
                assert(after[j] == targets[i]);
            } else {
                assert(after.last() == targets[i]);
            }
        }
        if known == CapabilitiesView::empty() {
            assert(after =~= targets);
        }
    }
}

/// The targets that are asked are those that have not answered yet or have the part, in the order
/// in which they stand; `has` says for each kind what it is to have the part.
pub proof fn law_asked_targets_are_filtered(
    known: CapabilitiesView,
    kind: CapabilityKind,
    targets: Seq<Seq<char>>,
    has: spec_fn(ServerCapabilities) -> bool,
)
    requires
        forall|c: ServerCapabilities| #[trigger]
            has(c) == match kind {
                CapabilityKind::Tools => c.tools is Some,
                CapabilityKind::Prompts => c.prompts is Some,
                CapabilityKind::Resources => c.resources is Some,
                CapabilityKind::Tasks => c.tasks is Some,
            },
    ensures
        asked_targets(known, kind, targets) == targets.filter(
            |t: Seq<char>| !known.contains_key(t) || has(known[t]),
        ),
    decreases targets.len(),
{
    reveal(Seq::filter);
    if targets.len() > 0 {
        law_asked_targets_are_filtered(known, kind, targets.drop_last(), has);
    }
}

/// What the gateway says it can do on behalf of its upstream servers.
pub open spec fn merged_capabilities(
    multiplexing: bool,
    resource_subscribe: bool,
) -> ServerCapabilities {
    ServerCapabilities {
        tools: Some(
            ToolsCapability {
                list_changed: if multiplexing {
                    Some(true)
                } else {
                    None
                },
            },
        ),
        prompts: Some(PromptsCapability { list_changed: None }),
        resources: Some(
            ResourcesCapability {
                subscribe: if resource_subscribe {
                    Some(true)
                } else {
                    None
                },
                list_changed: None,
            },
        ),
        tasks: Some(TasksCapability { list: true, cancel: true, requests_tools_call: true }),
    }
}

/// What the gateway says it can do: tools, prompts, resources and tasks, changes of the tool list
/// where it multiplexes, and subscriptions where they are on.
pub fn gateway_merged_capabilities(multiplexing: bool, resource_subscribe: bool) -> (r:
    ServerCapabilities)
    ensures
        r == merged_capabilities(multiplexing, resource_subscribe),
{
    ServerCapabilities {
        tools: Some(
            ToolsCapability {
                list_changed: if multiplexing {
                    Some(true)
                } else {
                    None
                },
            },
        ),
        prompts: Some(PromptsCapability { list_changed: None }),
        resources: Some(
            ResourcesCapability {
                subscribe: if resource_subscribe {
                    Some(true)
                } else {
                    None
                },
                list_changed: None,
            },
        ),
        tasks: Some(TasksCapability { list: true, cancel: true, requests_tools_call: true }),
    }
}

} // verus!
