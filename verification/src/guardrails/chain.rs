//! The guardrails of a call one after the other, and what comes of them.

use crate::client::{ClientRequest, guardrails_mcp_info, method_of, tells};
use crate::guardrails::denial::{
    Denial, McpDenialEnvelope, McpDenialEnvelopeView, RejectionView, denial_message,
    denial_to_server_message,
};
use crate::guardrails::overrides::{client_denial, maybe_override_rejection};
use crate::guardrails::rate_limit_types::EvaluatedOverride;
use crate::guardrails::{McpGuardrails, Outcome, Processor, Side, any_runs, runs};
use crate::info::MCPInfo;
use crate::model::{
    ErrorData, ErrorDataView, INTERNAL_ERROR, RequestIdView, ServerJsonRpcMessage,
    ServerJsonRpcMessageView, ServerResult,
};
use crate::text;
use crate::upstream::{UpstreamError, invalid_request};
use vstd::prelude::*;
use vstd::string::*;

verus! {

/// The position of the first guardrail at or after `i` that runs for a method on a side.
pub open spec fn next_running(
    processors: Seq<Processor>,
    method: Seq<char>,
    side: Side,
    i: int,
) -> Option<int>
    decreases processors.len() - i,
{
    if i < 0 || i >= processors.len() {
        None
    } else if runs(processors[i], method, side) {
        Some(i)
    } else {
        next_running(processors, method, side, i + 1)
    }
}

/// The position of the guardrail that runs as the `j`-th of those at or after `i`.
pub open spec fn nth_running(
    processors: Seq<Processor>,
    method: Seq<char>,
    side: Side,
    i: int,
    j: int,
) -> Option<int>
    decreases j,
{
    match next_running(processors, method, side, i) {
        Some(k) => if j <= 0 {
            Some(k)
        } else {
            nth_running(processors, method, side, k + 1, j - 1)
        },
        None => None,
    }
}

/// What the client is told of a rejection: a tool result as it is, an error as the overrides make
/// it.
pub open spec fn final_denial(
    processor: Processor,
    evals: Seq<EvaluatedOverride>,
    method: Seq<char>,
    denial: RejectionView,
) -> RejectionView {
    match denial.envelope {
        McpDenialEnvelopeView::JsonRpc(error) => client_denial(processor, evals, method, error),
        McpDenialEnvelopeView::ToolResult(_) => denial,
    }
}

/// The guardrails of one call on one side, while they run.
#[derive(Debug, PartialEq, Eq)]
pub struct Chain<T> {
    at: usize,
    composed: Outcome<T>,
}

impl<T> Chain<T> {
    /// Where the next guardrail is looked for.
    pub closed spec fn position(self) -> int {
        self.at as int
    }

    /// What came of those that have run.
    pub closed spec fn so_far(self) -> Outcome<T> {
        self.composed
    }

    /// No guardrail has run.
    pub fn new() -> (r: Chain<T>)
        ensures
            r.position() == 0,
            r.so_far() is Pass,
    {
        Chain { at: 0, composed: Outcome::Pass }
    }

    /// The guardrail that runs next; `None` where all have run, or one rejected.
    pub fn next_processor(&self, ext: &McpGuardrails, method: &str, side: Side) -> (r: Option<usize>)
        ensures
            match r {
                Some(i) => !(self.so_far() is Reject) && next_running(
                    ext.processors@,
                    method@,
                    side,
                    self.position(),
                ) == Some(i as int) && self.position() <= i < ext.processors@.len(),
                None => self.so_far() is Reject || next_running(
                    ext.processors@,
                    method@,
                    side,
                    self.position(),
                ) is None,
            },
    {
        match &self.composed {
            Outcome::Reject(_) => {
                return None;
            },
            _ => {},
        }
        let mut i: usize = self.at;
        while i < ext.processors.len()
            invariant
                self.at <= i,
                !(self.composed is Reject),
                next_running(ext.processors@, method@, side, self.at as int) == next_running(
                    ext.processors@,
                    method@,
                    side,
                    i as int,
                ),
            decreases ext.processors@.len() - i,
        {
            if ext.processors[i].runs(method, side) {
                return Some(i);
            }
            i += 1;
        }
        None
    }

    /// Takes the outcome of guardrail `i`. `evals` holds what its overrides evaluate to, where it
    /// rejected.
    pub fn ran(
        &mut self,
        ext: &McpGuardrails,
        i: usize,
        method: &str,
        outcome: Outcome<T>,
        evals: &Vec<EvaluatedOverride>,
    )
        requires
            i < ext.processors@.len(),
        ensures
            final(self).position() == i + 1,
            match (old(self).so_far(), outcome) {
                (Outcome::Reject(_), _) => final(self).so_far() == old(self).so_far(),
                (_, Outcome::Pass) => final(self).so_far() == old(self).so_far(),
                (_, Outcome::Mutated(p)) => final(self).so_far() == outcome,
                (_, Outcome::Reject(denial)) => final(self).so_far() matches Outcome::Reject(d)
                    && d@ == final_denial(ext.processors@[i as int], evals@, method@, denial@),
            },
    {
        let n: usize = ext.processors.len();
        assert(i < n);
        self.at = i + 1;
        match &self.composed {
            Outcome::Reject(_) => {
                return;
            },
            _ => {},
        }
        match outcome {
            Outcome::Pass => {},
            Outcome::Mutated(p) => {
                self.composed = Outcome::Mutated(p);
            },
            Outcome::Reject(denial) => {
                let denial = match denial.envelope {
                    McpDenialEnvelope::JsonRpc(error) => maybe_override_rejection(
                        &ext.processors[i],
                        method,
                        evals,
                        error,
                    ),
                    McpDenialEnvelope::ToolResult { message } => Denial {
                        envelope: McpDenialEnvelope::ToolResult { message },
                        http_status: denial.http_status,
                        http_headers: denial.http_headers,
                    },
                };
                self.composed = Outcome::Reject(denial);
            },
        }
    }

    /// What comes of all guardrails.
    pub fn finish(self) -> (r: Outcome<T>)
        ensures
            r == self.so_far(),
    {
        self.composed
    }
}

/// `r` is what comes of a call, of which the guardrails from the `at`-th on are still to run and
/// will answer as `answers` say from the `j`-th on; `changed` is the last change so far.
pub open spec fn comes_of<T>(
    r: Outcome<T>,
    processors: Seq<Processor>,
    method: Seq<char>,
    side: Side,
    at: int,
    answers: Seq<(Outcome<T>, Vec<EvaluatedOverride>)>,
    j: int,
    changed: Option<T>,
) -> bool
    decreases answers.len() - j,
{
    let done = match changed {
        Some(p) => r == Outcome::Mutated(p),
        None => r is Pass,
    };
    if j < 0 || j >= answers.len() {
        done
    } else {
        match next_running(processors, method, side, at) {
            None => done,
            Some(i) => match answers[j].0 {
                Outcome::Pass => comes_of(
                    r,
                    processors,
                    method,
                    side,
                    i + 1,
                    answers,
                    j + 1,
                    changed,
                ),
                Outcome::Mutated(p) => comes_of(
                    r,
                    processors,
                    method,
                    side,
                    i + 1,
                    answers,
                    j + 1,
                    Some(p),
                ),
                Outcome::Reject(denial) => r matches Outcome::Reject(d) && d@ == final_denial(
                    processors[i],
                    answers[j].1@,
                    method,
                    denial@,
                ),
            },
        }
    }
}

fn run_side<T>(
    ext: &McpGuardrails,
    method: &str,
    side: Side,
    answers: Vec<(Outcome<T>, Vec<EvaluatedOverride>)>,
) -> (r: Outcome<T>)
    ensures
        comes_of(r, ext.processors@, method@, side, 0, answers@, 0, None),
{
    let ghost all = answers@;
    let ghost ps = ext.processors@;
    let ghost mut changed: Option<T> = None;
    let mut chain: Chain<T> = Chain::new();
    for answer in it: answers
        invariant
            all == it.seq(),
            ps == ext.processors@,
            !(chain.so_far() is Reject),
            match changed {
                Some(p) => chain.so_far() == Outcome::Mutated(p),
                None => chain.so_far() is Pass,
            },
            forall|r: Outcome<T>|
                #[trigger] comes_of(r, ps, method@, side, 0, all, 0, None) == comes_of(
                    r,
                    ps,
                    method@,
                    side,
                    chain.position(),
                    all,
                    it.index(),
                    changed,
                ),
    {
        let ghost j = it.index();
        assert(all[j] == answer);
        let (outcome, evals) = answer;
        match chain.next_processor(ext, method, side) {
            Some(i) => {
                let rejected = match &outcome {
                    Outcome::Reject(_) => true,
                    _ => false,
                };
                proof {
                    if outcome is Mutated {
                        changed = Some(outcome->Mutated_0);
                    }
                }
                chain.ran(ext, i, method, outcome, &evals);
                if rejected {
                    return chain.finish();
                }
            },
            None => {
                return chain.finish();
            },
        }
    }
    chain.finish()
}

/// What is left of an outcome when changes are discarded.
pub open spec fn without_change<T>(outcome: Outcome<T>) -> Outcome<T> {
    match outcome {
        Outcome::Mutated(_) => Outcome::Pass,
        other => other,
    }
}

/// What comes of the guardrails on the request side of a call. `answers` holds what those that run
/// for the method answer, in order, each with what its overrides evaluate to. The first rejection
/// ends the chain. Where the call has no parameters, there is nothing to change, and changes are
/// discarded.
pub fn run_call_request<P>(
    ext: &McpGuardrails,
    method: &str,
    has_params: bool,
    answers: Vec<(Outcome<P>, Vec<EvaluatedOverride>)>,
) -> (r: Outcome<P>)
    ensures
        has_params ==> comes_of(r, ext.processors@, method@, Side::Request, 0, answers@, 0, None),
        !has_params ==> exists|composed: Outcome<P>|
            r == without_change(composed) && #[trigger] comes_of(
                composed,
                ext.processors@,
                method@,
                Side::Request,
                0,
                answers@,
                0,
                None,
            ),
{
    let ghost all = answers@;
    let composed = run_side(ext, method, Side::Request, answers);
    assert(comes_of(composed, ext.processors@, method@, Side::Request, 0, all, 0, None));
    if has_params {
        return composed;
    }
    match composed {
        Outcome::Mutated(_) => Outcome::Pass,
        other => other,
    }
}

/// What comes of the guardrails on the response side of a call.
pub fn run_response(
    ext: &McpGuardrails,
    method: &str,
    answers: Vec<(Outcome<ServerResult>, Vec<EvaluatedOverride>)>,
) -> (r: Outcome<ServerResult>)
    ensures
        comes_of(r, ext.processors@, method@, Side::Response, 0, answers@, 0, None),
{
    run_side(ext, method, Side::Response, answers)
}

/// The request that goes on after the guardrails of a call to one upstream, changed where they
/// changed it, or the error of a rejection.
pub fn run_guardrails_call_request<P>(outcome: Outcome<P>) -> (r: Result<Option<P>, UpstreamError>)
    ensures
        match outcome {
            Outcome::Pass => r == Ok::<Option<P>, UpstreamError>(None),
            Outcome::Mutated(p) => r == Ok::<Option<P>, UpstreamError>(Some(p)),
            Outcome::Reject(denial) => r == Err::<Option<P>, UpstreamError>(
                UpstreamError::McpGuardrails(denial),
            ),
        },
{
    match outcome {
        Outcome::Pass => Ok(None),
        Outcome::Mutated(p) => Ok(Some(p)),
        Outcome::Reject(denial) => Err(UpstreamError::McpGuardrails(denial)),
    }
}

/// What comes of the guardrails of a call to several upstreams: a rejection ends the call, and a
/// change is dropped, since there is nothing in such a call to change.
pub fn run_guardrails_fanout<P>(outcome: Outcome<P>) -> (r: Result<(), UpstreamError>)
    ensures
        match outcome {
            Outcome::Reject(denial) => r == Err::<(), UpstreamError>(
                UpstreamError::McpGuardrails(denial),
            ),
            _ => r is Ok,
        },
{
    match outcome {
        Outcome::Reject(denial) => Err(UpstreamError::McpGuardrails(denial)),
        _ => Ok(()),
    }
}

/// Whether the request side has guardrails to run for a call of `method`.
pub fn has_request_guardrails(ext: Option<&McpGuardrails>, method: &str) -> (r: bool)
    ensures
        r == (ext matches Some(e) && any_runs(e.processors@, method@, Side::Request)),
{
    match ext {
        Some(ext) => ext.runs_request(method),
        None => false,
    }
}

/// The error where the parameters of a call cannot be written out for its guardrails.
pub fn unwritable_params(method: &str, error: &str) -> (r: UpstreamError)
    ensures
        invalid_request(r, "serialize "@ + method@ + " params: "@ + error@),
{
    let mut m = text::concat3("serialize ", method, " params: ");
    m.append(error);
    UpstreamError::InvalidRequest(m)
}

/// What the guardrails on the response side are told of the request; `None` where there are none
/// to run. What they were told on the request side counts.
pub fn build_guardrails_ctx(
    ext: Option<&McpGuardrails>,
    request: &ClientRequest,
    told_before: Option<MCPInfo>,
) -> (r: Option<MCPInfo>)
    ensures
        if ext matches Some(e) && any_runs(e.processors@, method_of(request@), Side::Response) {
            match told_before {
                Some(info) => r == Some(info),
                None => r matches Some(info) && tells(info, request@),
            }
        } else {
            r is None
        },
{
    let ext = match ext {
        Some(ext) => ext,
        None => {
            return None;
        },
    };
    let method = request.method();
    if !ext.runs_response(method.as_str()) {
        return None;
    }
    match told_before {
        Some(info) => Some(info),
        None => Some(guardrails_mcp_info(request)),
    }
}

/// What stands in place of the response to request `id` after the guardrails; `None` where it
/// stays.
pub open spec fn intercepted(
    id: RequestIdView,
    outcome: Result<Outcome<ServerResult>, String>,
) -> Option<ServerJsonRpcMessageView> {
    match outcome {
        Err(e) => Some(
            ServerJsonRpcMessageView::Error(
                id,
                ErrorDataView {
                    code: INTERNAL_ERROR as int,
                    message: "mcpGuardrails: serialize result: "@ + e@,
                    data: None,
                },
            ),
        ),
        Ok(Outcome::Pass) => None,
        Ok(Outcome::Mutated(result)) => Some(ServerJsonRpcMessageView::Response(id, result@)),
        Ok(Outcome::Reject(denial)) => Some(denial_message(denial@, id)),
    }
}

/// A message of a server after the guardrails on the response side. Only a response is looked at;
/// one that cannot be written out for them is an error.
pub open spec fn after_guardrails(
    msg: ServerJsonRpcMessageView,
    outcome: Result<Outcome<ServerResult>, String>,
) -> ServerJsonRpcMessageView {
    match msg {
        ServerJsonRpcMessageView::Response(id, _) => match intercepted(id, outcome) {
            Some(m) => m,
            None => msg,
        },
        _ => msg,
    }
}

/// Puts what the guardrails made of a response in its place. `outcome` is what they made of it, or
/// why it could not be written out for them.
pub fn apply_guardrails_response_intercept(
    msg: ServerJsonRpcMessage,
    outcome: Result<Outcome<ServerResult>, String>,
) -> (r: ServerJsonRpcMessage)
    ensures
        r@ == after_guardrails(msg@, outcome),
{
    let (id, result) = match msg {
        ServerJsonRpcMessage::Response { id, result } => (id, result),
        other => {
            return other;
        },
    };
    match outcome {
        Err(e) => {
            let message = text::concat("mcpGuardrails: serialize result: ", e.as_str());
            ServerJsonRpcMessage::Error {
                id,
                error: ErrorData { code: INTERNAL_ERROR, message, data: None },
            }
        },
        Ok(Outcome::Pass) => ServerJsonRpcMessage::Response { id, result },
        Ok(Outcome::Mutated(result)) => ServerJsonRpcMessage::Response { id, result },
        Ok(Outcome::Reject(denial)) => denial_to_server_message(denial, id),
    }
}

/// The first rejection ends the chain: whatever the other guardrails answer, it is what comes of
/// the call, as the overrides of the guardrail that rejected make it.
pub proof fn law_first_rejection_ends_the_chain<T>(
    r: Outcome<T>,
    processors: Seq<Processor>,
    method: Seq<char>,
    side: Side,
    answers: Seq<(Outcome<T>, Vec<EvaluatedOverride>)>,
    k: int,
)
    requires
        comes_of(r, processors, method, side, 0, answers, 0, None),
        0 <= k < answers.len(),
        answers[k].0 is Reject,
        forall|j: int| 0 <= j < k ==> !((#[trigger] answers[j]).0 is Reject),
        nth_running(processors, method, side, 0, k) is Some,
    ensures
        r matches Outcome::Reject(d) && d@ == final_denial(
            processors[nth_running(processors, method, side, 0, k)->0],
            answers[k].1@,
            method,
            answers[k].0->Reject_0@,
        ),
{
    lemma_rejected_at(r, processors, method, side, 0, answers, 0, None, k);
}

proof fn lemma_rejected_at<T>(
    r: Outcome<T>,
    processors: Seq<Processor>,
    method: Seq<char>,
    side: Side,
    at: int,
    answers: Seq<(Outcome<T>, Vec<EvaluatedOverride>)>,
    j: int,
    changed: Option<T>,
    k: int,
)
    requires
        comes_of(r, processors, method, side, at, answers, j, changed),
        0 <= j <= k < answers.len(),
        answers[k].0 is Reject,
        forall|l: int| j <= l < k ==> !((#[trigger] answers[l]).0 is Reject),
        nth_running(processors, method, side, at, k - j) is Some,
    ensures
        r matches Outcome::Reject(d) && d@ == final_denial(
            processors[nth_running(processors, method, side, at, k - j)->0],
            answers[k].1@,
            method,
            answers[k].0->Reject_0@,
        ),
    decreases k - j,
{
    if j < k {
        let i = next_running(processors, method, side, at)->0;
        let next = match answers[j].0 {
            Outcome::Mutated(p) => Some(p),
            _ => changed,
        };
        lemma_rejected_at(r, processors, method, side, i + 1, answers, j + 1, next, k);
    }
}

/// Of several changes the last counts, where none rejects.
pub proof fn law_last_change_counts<T>(
    r: Outcome<T>,
    processors: Seq<Processor>,
    method: Seq<char>,
    side: Side,
    answers: Seq<(Outcome<T>, Vec<EvaluatedOverride>)>,
    k: int,
)
    requires
        comes_of(r, processors, method, side, 0, answers, 0, None),
        0 <= k < answers.len(),
        answers[k].0 is Mutated,
        forall|j: int| 0 <= j < answers.len() ==> !((#[trigger] answers[j]).0 is Reject),
        forall|j: int| k < j < answers.len() ==> (#[trigger] answers[j]).0 is Pass,
        nth_running(processors, method, side, 0, k) is Some,
    ensures
        r == answers[k].0,
{
    lemma_changed_at(r, processors, method, side, 0, answers, 0, None, k);
}

proof fn lemma_changed_at<T>(
    r: Outcome<T>,
    processors: Seq<Processor>,
    method: Seq<char>,
    side: Side,
    at: int,
    answers: Seq<(Outcome<T>, Vec<EvaluatedOverride>)>,
    j: int,
    changed: Option<T>,
    k: int,
)
    requires
        comes_of(r, processors, method, side, at, answers, j, changed),
        0 <= j <= answers.len(),
        0 <= k < answers.len(),
        answers[k].0 is Mutated,
        forall|l: int| 0 <= l < answers.len() ==> !((#[trigger] answers[l]).0 is Reject),
        forall|l: int| k < l < answers.len() ==> (#[trigger] answers[l]).0 is Pass,
        j <= k ==> nth_running(processors, method, side, at, k - j) is Some,
        j > k ==> changed == Some(answers[k].0->Mutated_0),
    ensures
        r == answers[k].0,
    decreases answers.len() - j,
{
    if j < answers.len() && next_running(processors, method, side, at) is Some {
        let i = next_running(processors, method, side, at)->0;
        let next = match answers[j].0 {
            Outcome::Mutated(p) => Some(p),
            _ => changed,
        };
        assert(!(answers[j].0 is Reject));
        assert(j > k ==> answers[j].0 is Pass);
        lemma_changed_at(r, processors, method, side, i + 1, answers, j + 1, next, k);
    }
}

/// The guardrails run in their order, and none that runs for the method is passed over.
pub proof fn law_next_is_the_first_that_runs(
    processors: Seq<Processor>,
    method: Seq<char>,
    side: Side,
    i: int,
)
    requires
        0 <= i,
    ensures
        match next_running(processors, method, side, i) {
            Some(k) => i <= k < processors.len() && runs(processors[k], method, side) && forall|
                j: int,
            |
                i <= j < k ==> !runs(#[trigger] processors[j], method, side),
            None => forall|j: int|
                i <= j < processors.len() ==> !runs(#[trigger] processors[j], method, side),
        },
    decreases processors.len() - i,
{
    if i < processors.len() && !runs(processors[i], method, side) {
        law_next_is_the_first_that_runs(processors, method, side, i + 1);
    }
}

} // verus!
