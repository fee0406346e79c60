//! The configuration of the rate-limit guardrail.
//!
//! Expressions are kept as their text. What they evaluate to for a request stands beside the
//! configuration where a function needs it.

use crate::guardrails::FailureMode;
use crate::model::{opt_str, pair, pairs};
use vstd::prelude::*;
use vstd::string::*;

verus! {

/// What a denial by the rate limit looks like to the client.
#[derive(Debug, Clone, Copy, PartialEq, Eq, Structural)]
pub enum RejectionResponseAs {
    JsonRpcError,
    ToolResult,
}

impl Default for RejectionResponseAs {
    fn default() -> (r: Self)
        ensures
            r == RejectionResponseAs::JsonRpcError,
    {
        RejectionResponseAs::JsonRpcError
    }
}

/// The values that the control plane has for [`RejectionResponseAs`].
#[derive(Debug, Clone, Copy, PartialEq, Eq, Structural)]
pub enum ProtoResponseAs {
    Unspecified,
    JsonRpcError,
    ToolResult,
}

impl RejectionResponseAs {
    /// What the value of the control plane means; `None` stands for one that is not known.
    pub fn from_proto(value: Option<ProtoResponseAs>) -> (r: RejectionResponseAs)
        ensures
            r == (if value == Some(ProtoResponseAs::ToolResult) {
                RejectionResponseAs::ToolResult
            } else {
                RejectionResponseAs::JsonRpcError
            }),
    {
        match value {
            Some(ProtoResponseAs::ToolResult) => RejectionResponseAs::ToolResult,
            Some(ProtoResponseAs::JsonRpcError) => RejectionResponseAs::JsonRpcError,
            Some(ProtoResponseAs::Unspecified) => RejectionResponseAs::JsonRpcError,
            None => RejectionResponseAs::JsonRpcError,
        }
    }
}

/// What a limit counts.
#[derive(Debug, Clone, Copy, PartialEq, Eq, Structural)]
pub enum RateLimitType {
    Requests,
    Tokens,
}

/// The rate-limit guardrail.
#[derive(Debug, PartialEq, Eq)]
pub struct RateLimit {
    /// The domain that the rate-limit service is told.
    pub domain: String,
    /// The rate-limit service.
    pub target: String,
    /// The descriptors that are evaluated for each call.
    pub descriptors: RateLimitDescriptorSet,
    /// What becomes of a call when the service fails.
    pub failure_mode: FailureMode,
    /// How denials are reshaped before they reach the client.
    pub rejection_overrides: Vec<RateLimitRejectionOverride>,
}

/// The descriptors of a rate limit.
#[derive(Debug, PartialEq, Eq)]
pub struct RateLimitDescriptorSet(pub Vec<RateLimitDescriptorEntry>);

/// A descriptor: what is counted together.
#[derive(Debug, PartialEq, Eq)]
pub struct RateLimitDescriptorEntry {
    pub entries: Vec<RateLimitDescriptor>,
    pub limit_type: RateLimitType,
    /// An expression for a limit in place of the service's own.
    pub limit_override: Option<String>,
    /// Whether the call only looks before, and counts after it succeeded.
    pub peek: bool,
}

/// A part of a descriptor: a key, and an expression for its value.
#[derive(Debug, PartialEq, Eq)]
pub struct RateLimitDescriptor {
    pub key: String,
    pub value: String,
}

/// A part of a descriptor as it is configured, before its expression is compiled.
#[derive(Debug, PartialEq, Eq)]
pub struct RateLimitDescriptorSerde {
    pub key: String,
    pub value: String,
}

/// The position of the first expression at or after `i` that does not compile.
pub open spec fn first_broken(errors: Seq<Option<String>>, n: int, i: int) -> Option<int>
    decreases n - i,
{
    if i < 0 || i >= n || i >= errors.len() {
        None
    } else if errors[i] is Some {
        Some(i)
    } else {
        first_broken(errors, n, i + 1)
    }
}

/// The parts of a descriptor as they were configured. `errors` says of each expression why it does
/// not compile, where it does not; the first such error is handed back.
pub fn de_rate_limit_descriptors(
    raw: Vec<RateLimitDescriptorSerde>,
    errors: &Vec<Option<String>>,
) -> (r: Result<Vec<RateLimitDescriptor>, String>)
    ensures
        match first_broken(errors@, raw@.len() as int, 0) {
            Some(i) => r matches Err(e) && Some(e@) == opt_str(errors@[i]),
            None => r matches Ok(v) && v@.len() == raw@.len() && forall|i: int|
                0 <= i < raw@.len() ==> (#[trigger] v@[i]).key == raw@[i].key && v@[i].value
                    == raw@[i].value,
        },
{
    let ghost all = raw@;
    let n: usize = raw.len();
    let mut i: usize = 0;
    while i < n && i < errors.len()
        invariant
            i <= n,
            i <= errors@.len(),
            n == raw@.len(),
            first_broken(errors@, n as int, 0) == first_broken(errors@, n as int, i as int),
        decreases n - i,
    {
        if let Some(e) = &errors[i] {
            return Err(e.clone());
        }
        i += 1;
    }
    let mut out: Vec<RateLimitDescriptor> = Vec::new();
    for part in it: raw
        invariant
            all == it.seq(),
            out@.len() == it.index(),
            forall|i: int|
                0 <= i < it.index() ==> (#[trigger] out@[i]).key == all[i].key && out@[i].value
                    == all[i].value,
    {
        let ghost k = it.index();
        assert(all[k] == part);
        out.push(RateLimitDescriptor { key: part.key, value: part.value });
    }
    Ok(out)
}

/// Reshapes a denial by the rate limit before it reaches the client.
#[derive(Debug, PartialEq, Eq)]
pub struct RateLimitRejectionOverride {
    /// An expression that says when this applies.
    pub when: String,
    pub response_as: RejectionResponseAs,
    pub status: Option<u16>,
    pub body: Option<RateLimitRejectionOverrideBody>,
    pub headers: Vec<RateLimitRejectionOverrideHeader>,
}

/// The code and an expression for the message of a reshaped denial.
#[derive(Debug, PartialEq, Eq)]
pub struct RateLimitRejectionOverrideBody {
    pub code: Option<i32>,
    pub message: Option<String>,
}

/// A header of a reshaped denial, with an expression for its value.
#[derive(Debug, PartialEq, Eq)]
pub struct RateLimitRejectionOverrideHeader {
    pub name: String,
    pub value: String,
}

/// What the expressions of an override evaluate to for one request.
#[derive(Debug, PartialEq, Eq)]
pub struct EvaluatedOverride {
    /// Whether the override applies.
    pub applies: bool,
    /// The message, where its expression gives a string.
    pub message: Option<String>,
    /// The values of the headers, where their expressions give strings.
    pub headers: Vec<Option<String>>,
}

/// The headers of a reshaped denial: those whose expression gave a string.
pub open spec fn override_headers(
    headers: Seq<RateLimitRejectionOverrideHeader>,
    values: Seq<Option<String>>,
) -> Seq<(Seq<char>, Seq<char>)>
    decreases headers.len(),
{
    if headers.len() == 0 {
        Seq::empty()
    } else {
        let before = override_headers(headers.drop_last(), values);
        let i = headers.len() - 1;
        if i < values.len() && values[i] is Some {
            before.push((headers[i].name@, values[i]->0@))
        } else {
            before
        }
    }
}

/// The headers of a reshaped denial.
pub fn eval_override_headers(
    override_cfg: &RateLimitRejectionOverride,
    values: &Vec<Option<String>>,
) -> (r: Vec<(String, String)>)
    ensures
        pairs(r@) == override_headers(override_cfg.headers@, values@),
{
    let ghost all = override_cfg.headers@;
    let mut out: Vec<(String, String)> = Vec::new();
    let mut i: usize = 0;
    assert(pairs(out@) =~= override_headers(all.take(0), values@));
    while i < override_cfg.headers.len()
        invariant
            i <= all.len(),
            all == override_cfg.headers@,
            pairs(out@) == override_headers(all.take(i as int), values@),
        decreases all.len() - i,
    {
        assert(all.take(i + 1).drop_last() =~= all.take(i as int));
        let ghost before = out@;
        if i < values.len() {
            if let Some(value) = &values[i] {
                let header = (override_cfg.headers[i].name.clone(), value.clone());
                out.push(header);
                assert(pairs(out@) =~= pairs(before).push(pair(header)));
            }
        }
        i += 1;
    }
    assert(all.take(i as int) =~= all);
    out
}

} // verus!
