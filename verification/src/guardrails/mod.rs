//! Policy hooks around MCP calls.
//!
//! A call to one upstream shows its guardrails the names of that upstream. A call to several runs
//! them once: before it goes out, and on the merged result.

pub mod chain;
pub mod counting;
pub mod denial;
pub mod metadata;
pub mod overrides;
pub mod params;
pub mod phase;
pub mod rate_limit_types;
pub mod ratelimit;
pub mod verdicts;

use crate::guardrails::phase::{Phase, is_matchable, pattern_is_matchable, resolve, resolved};
use crate::guardrails::rate_limit_types::RateLimit;
use crate::model::strs;
use crate::text;
use vstd::prelude::*;
use vstd::string::*;

verus! {

/// What becomes of a call when a guardrail fails or answers what cannot be handled.
#[derive(Debug, Clone, Copy, PartialEq, Eq, Structural)]
pub enum FailureMode {
    FailClosed,
    FailOpen,
}

impl Default for FailureMode {
    fn default() -> (r: Self)
        ensures
            r == FailureMode::FailClosed,
    {
        FailureMode::FailClosed
    }
}

/// The guardrails in order. The first that rejects a call ends the chain.
#[derive(Debug, PartialEq, Eq)]
pub struct McpGuardrails {
    pub processors: Vec<Processor>,
}

/// A guardrail, with the methods that it runs for and on which side.
#[derive(Debug, PartialEq, Eq)]
pub struct Processor {
    /// Exact methods, `prefix/*`, `*/suffix` or `*`. A method that fits none bypasses the
    /// guardrail.
    pub methods: Vec<(String, Phase)>,
    pub kind: ProcessorKind,
}

/// The kinds of guardrails.
#[derive(Debug, PartialEq, Eq)]
pub enum ProcessorKind {
    Remote(Remote),
    RateLimit(RateLimit),
}

/// A guardrail that a policy service decides.
#[derive(Debug, PartialEq, Eq)]
pub struct Remote {
    /// The policy service.
    pub target: String,
    /// What becomes of a call when the service fails.
    pub failure_mode: FailureMode,
    /// Expressions whose values the service is sent.
    pub metadata: Vec<(String, String)>,
    /// Which headers of the request the service is sent.
    pub request_headers: HeaderFilter,
}

/// Which headers are forwarded. With nothing allowed, all are; else only those. What is
/// disallowed never is.
#[derive(Debug, PartialEq, Eq)]
pub struct HeaderFilter {
    pub allowed: Vec<String>,
    pub disallowed: Vec<String>,
}

/// The name of a pseudo-header, such as `:authority`.
pub open spec fn is_pseudo(name: Seq<char>) -> bool {
    name.len() > 0 && name[0] == ':'
}

/// Two names are of the same header. Case counts only for pseudo-headers.
pub open spec fn same_header(a: Seq<char>, b: Seq<char>) -> bool {
    if is_pseudo(a) || is_pseudo(b) {
        a == b
    } else {
        text::same_but_case(a, b)
    }
}

/// A header is among those of a list.
pub open spec fn lists_header(names: Seq<Seq<char>>, name: Seq<char>) -> bool {
    exists|i: int| 0 <= i < names.len() && same_header(#[trigger] names[i], name)
}

fn lists(names: &Vec<String>, name: &str) -> (r: bool)
    ensures
        r == lists_header(strs(names@), name@),
{
    let pseudo = pseudo_header(name);
    let mut i: usize = 0;
    while i < names.len()
        invariant
            i <= names@.len(),
            pseudo == is_pseudo(name@),
            forall|k: int| 0 <= k < i ==> !same_header(#[trigger] strs(names@)[k], name@),
        decreases names@.len() - i,
    {
        let listed = names[i].as_str();
        let hit = if pseudo || pseudo_header(listed) {
            text::same(listed, name)
        } else {
            text::same_ignoring_case(listed, name)
        };
        if hit {
            assert(same_header(strs(names@)[i as int], name@));
            return true;
        }
        assert(!same_header(strs(names@)[i as int], name@));
        i += 1;
    }
    false
}

fn pseudo_header(name: &str) -> (r: bool)
    ensures
        r == is_pseudo(name@),
{
    proof {
        reveal_strlit(":");
    }
    let r = text::starts_with(name, ":");
    assert(r == is_pseudo(name@)) by {
        if name@.len() > 0 {
            assert(name@.subrange(0, 1) =~= seq![name@[0]]);
            assert(":"@ =~= seq![':']);
            assert(seq![name@[0]][0] == name@[0]);
            assert(seq![':'][0] == ':');
        }
    }
    r
}

impl Default for HeaderFilter {
    fn default() -> (r: Self)
        ensures
            r.allowed@.len() == 0,
            r.disallowed@.len() == 0,
    {
        HeaderFilter { allowed: Vec::new(), disallowed: Vec::new() }
    }
}

impl HeaderFilter {
    /// Whether nothing is listed.
    pub fn is_default(&self) -> (r: bool)
        ensures
            r == (self.allowed@.len() == 0 && self.disallowed@.len() == 0),
    {
        self.allowed.len() == 0 && self.disallowed.len() == 0
    }

    /// Whether a header is forwarded.
    pub fn allows(&self, name: &str) -> (r: bool)
        ensures
            r == (!lists_header(strs(self.disallowed@), name@) && (self.allowed@.len() == 0
                || lists_header(strs(self.allowed@), name@))),
    {
        if lists(&self.disallowed, name) {
            return false;
        }
        self.allowed.len() == 0 || lists(&self.allowed, name)
    }
}

/// What a guardrail, or all of them, made of a call.
#[derive(Debug, PartialEq, Eq)]
pub enum Outcome<T> {
    Pass,
    Mutated(T),
    Reject(denial::Denial),
}

/// A side of a call.
#[derive(Debug, Clone, Copy, PartialEq, Eq, Structural)]
pub enum Side {
    Request,
    Response,
}

/// A guardrail runs for a method on a side of the call.
pub open spec fn runs(processor: Processor, method: Seq<char>, side: Side) -> bool {
    match resolved(processor.methods@, method) {
        Some(phase) => phase != (match side {
            Side::Request => Phase::Response,
            Side::Response => Phase::Request,
        }),
        None => false,
    }
}

/// Some guardrail runs for a method on a side of the call.
pub open spec fn any_runs(processors: Seq<Processor>, method: Seq<char>, side: Side) -> bool {
    exists|i: int| 0 <= i < processors.len() && runs(#[trigger] processors[i], method, side)
}

impl Processor {
    /// Whether the guardrail runs for the method on that side.
    pub fn runs(&self, method: &str, side: Side) -> (r: bool)
        ensures
            r == runs(*self, method@, side),
    {
        match resolve(method, &self.methods) {
            Some(phase) => match side {
                Side::Request => phase.runs_request(),
                Side::Response => phase.runs_response(),
            },
            None => false,
        }
    }
}

/// The text that `std` writes for a string under `{:?}`.
pub uninterp spec fn quoted(s: Seq<char>) -> Seq<char>;

/// Calls the `Debug` formatting of `std` for a string.
#[verifier::external_body]
fn debug_text(s: &str) -> (r: String)
    ensures
        r@ == quoted(s@),
{
    format!("{:?}", s)
}

/// The methods for which no guardrail runs on the request side.
pub open spec fn request_phase_unsupported() -> Seq<Seq<char>> {
    seq!["resources/subscribe"@, "resources/unsubscribe"@, "completion/complete"@]
}

/// The warning about a guardrail on the request side of a method that has none.
pub open spec fn request_phase_warning(method: Seq<char>) -> Seq<char> {
    "mcpGuardrails: methods match "@ + quoted(method)
        + " with a request phase, but only the response phase runs for this method"@
}

/// The warning about a key that can never match.
pub open spec fn pattern_warning(key: Seq<char>) -> Seq<char> {
    "mcpGuardrails: methods key "@ + quoted(key)
        + " can never match; use an exact method, 'prefix/*', '*/suffix', or '*'"@
}

/// The warnings about the request side of those of `methods` that have none.
pub open spec fn phase_warnings(
    processors: Seq<Processor>,
    methods: Seq<Seq<char>>,
) -> Seq<Seq<char>>
    decreases methods.len(),
{
    if methods.len() == 0 {
        Seq::empty()
    } else {
        let before = phase_warnings(processors, methods.drop_last());
        if any_runs(processors, methods.last(), Side::Request) {
            before.push(request_phase_warning(methods.last()))
        } else {
            before
        }
    }
}

/// The warnings about the keys of one guardrail that can never match.
pub open spec fn key_warnings(methods: Seq<(String, Phase)>) -> Seq<Seq<char>>
    decreases methods.len(),
{
    if methods.len() == 0 {
        Seq::empty()
    } else {
        let before = key_warnings(methods.drop_last());
        if is_matchable(methods.last().0@) {
            before
        } else {
            before.push(pattern_warning(methods.last().0@))
        }
    }
}

/// The warnings about the keys of all guardrails that can never match.
pub open spec fn all_key_warnings(processors: Seq<Processor>) -> Seq<Seq<char>>
    decreases processors.len(),
{
    if processors.len() == 0 {
        Seq::empty()
    } else {
        all_key_warnings(processors.drop_last()) + key_warnings(processors.last().methods@)
    }
}

/// The warnings are those about the request side, in the order of the methods, and then those
/// about keys, in alphabetical order.
pub open spec fn warns(warnings: Seq<Seq<char>>, processors: Seq<Processor>) -> bool {
    let first = phase_warnings(processors, request_phase_unsupported());
    let keys = warnings.skip(first.len() as int);
    &&& first.is_prefix_of(warnings)
    &&& text::in_order(keys)
    &&& keys.to_multiset() == all_key_warnings(processors).to_multiset()
}

fn push_phase_warning(out: &mut Vec<String>, method: &str)
    ensures
        strs(final(out)@) == strs(old(out)@).push(request_phase_warning(method@)),
{
    let shown = debug_text(method);
    let warning = text::concat3(
        "mcpGuardrails: methods match ",
        shown.as_str(),
        " with a request phase, but only the response phase runs for this method",
    );
    out.push(warning);
    assert(strs(out@) =~= strs(old(out)@).push(warning@));
}

fn push_key_warnings(out: &mut Vec<String>, methods: &Vec<(String, Phase)>)
    ensures
        strs(final(out)@) == strs(old(out)@) + key_warnings(methods@),
{
    let ghost first = strs(out@);
    let ghost all = methods@;
    let mut i: usize = 0;
    assert(all.take(0) =~= Seq::<(String, Phase)>::empty());
    assert(strs(out@) =~= first + key_warnings(all.take(0)));
    while i < methods.len()
        invariant
            i <= all.len(),
            all == methods@,
            strs(out@) == first + key_warnings(all.take(i as int)),
        decreases all.len() - i,
    {
        assert(all.take(i + 1).drop_last() =~= all.take(i as int));
        assert(all.take(i + 1).last() == all[i as int]);
        let ghost before = strs(out@);
        if !pattern_is_matchable(methods[i].0.as_str()) {
            let shown = debug_text(methods[i].0.as_str());
            let warning = text::concat3(
                "mcpGuardrails: methods key ",
                shown.as_str(),
                " can never match; use an exact method, 'prefix/*', '*/suffix', or '*'",
            );
            out.push(warning);
            assert(strs(out@) =~= before.push(warning@));
            assert(strs(out@) =~= first + key_warnings(all.take(i + 1)));
        }
        i += 1;
    }
    assert(all.take(i as int) =~= all);
}

impl McpGuardrails {
    fn any(&self, method: &str, side: Side) -> (r: bool)
        ensures
            r == any_runs(self.processors@, method@, side),
    {
        let mut i: usize = 0;
        while i < self.processors.len()
            invariant
                i <= self.processors@.len(),
                forall|k: int| 0 <= k < i ==> !runs(#[trigger] self.processors@[k], method@, side),
            decreases self.processors@.len() - i,
        {
            if self.processors[i].runs(method, side) {
                assert(runs(self.processors@[i as int], method@, side));
                return true;
            }
            i += 1;
        }
        false
    }

    /// Whether any guardrail runs on the request side of the method.
    pub fn runs_request(&self, method: &str) -> (r: bool)
        ensures
            r == any_runs(self.processors@, method@, Side::Request),
    {
        self.any(method, Side::Request)
    }

    /// Whether any guardrail runs on the response side of the method.
    pub fn runs_response(&self, method: &str) -> (r: bool)
        ensures
            r == any_runs(self.processors@, method@, Side::Response),
    {
        self.any(method, Side::Response)
    }

    /// What is wrong with the configuration, for whoever loads it.
    pub fn load_warnings(&self) -> (r: Vec<String>)
        ensures
            warns(strs(r@), self.processors@),
    {
        let ghost all = self.processors@;
        let ghost methods = request_phase_unsupported();
        let mut out: Vec<String> = Vec::new();
        let mut unsupported: Vec<&str> = Vec::new();
        unsupported.push("resources/subscribe");
        unsupported.push("resources/unsubscribe");
        unsupported.push("completion/complete");
        let mut i: usize = 0;
        assert(strs(out@) =~= phase_warnings(all, methods.take(0)));
        while i < unsupported.len()
            invariant
                i <= unsupported@.len(),
                unsupported@.len() == methods.len(),
                forall|k: int| 0 <= k < methods.len() ==> (#[trigger] unsupported@[k])@ == methods[k],
                all == self.processors@,
                strs(out@) == phase_warnings(all, methods.take(i as int)),
            decreases unsupported@.len() - i,
        {
            assert(methods.take(i + 1).drop_last() =~= methods.take(i as int));
            assert(methods.take(i + 1).last() == methods[i as int]);
            assert(unsupported@[i as int]@ == methods[i as int]);
            if self.runs_request(unsupported[i]) {
                push_phase_warning(&mut out, unsupported[i]);
            }
            i += 1;
        }
        assert(methods.take(i as int) =~= methods);
        let ghost first = strs(out@);
        let mut keys: Vec<String> = Vec::new();
        let mut i: usize = 0;
        assert(all.take(0) =~= Seq::<Processor>::empty());
        assert(strs(keys@) =~= all_key_warnings(all.take(0)));
        while i < self.processors.len()
            invariant
                i <= all.len(),
                all == self.processors@,
                strs(keys@) == all_key_warnings(all.take(i as int)),
            decreases all.len() - i,
        {
            assert(all.take(i + 1).drop_last() =~= all.take(i as int));
            assert(all.take(i + 1).last() == all[i as int]);
            push_key_warnings(&mut keys, &self.processors[i].methods);
            i += 1;
        }
        assert(all.take(i as int) =~= all);
        let keys = text::sorted(keys);
        let ghost sorted_keys = strs(keys@);
        let mut keys = keys;
        out.append(&mut keys);
        assert(strs(out@) =~= first + sorted_keys);
        assert(strs(out@).skip(first.len() as int) =~= sorted_keys);
        out
    }
}

} // verus!
