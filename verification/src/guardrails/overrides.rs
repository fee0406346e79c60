//! How a denial by the rate limit is reshaped before it reaches the client.

use crate::guardrails::denial::{
    Denial, McpDenialEnvelope, McpDenialEnvelopeView, Rejection, RejectionView, plain_rejection,
    strip_client_error_data, stripped,
};
use crate::guardrails::rate_limit_types::{
    EvaluatedOverride, RateLimitRejectionOverride, RejectionResponseAs, eval_override_headers,
    override_headers,
};
use crate::guardrails::{Processor, ProcessorKind};
use crate::model::{ErrorData, ErrorDataView, pairs};
use crate::text;
use vstd::prelude::*;
use vstd::string::*;

verus! {

/// The denial that one override makes of `rej`, where it applies and changes something.
///
/// An override without a body keeps the code and the message. A tool result is only for tool
/// calls; it comes with status 200 unless another is given. Whatever data the error had is gone.
pub open spec fn reshaped(
    cfg: RateLimitRejectionOverride,
    eval: EvaluatedOverride,
    method: Seq<char>,
    rej: ErrorDataView,
) -> Option<RejectionView> {
    let headers = override_headers(cfg.headers@, eval.headers@);
    if !eval.applies {
        None
    } else {
        match cfg.body {
            None => if cfg.status is Some || headers.len() > 0 {
                Some(
                    RejectionView {
                        envelope: McpDenialEnvelopeView::JsonRpc(stripped(rej)),
                        http_status: cfg.status,
                        http_headers: headers,
                    },
                )
            } else {
                None
            },
            Some(body) => {
                let message = match (body.message, eval.message) {
                    (Some(_), Some(m)) => m@,
                    _ => rej.message,
                };
                if cfg.response_as == RejectionResponseAs::ToolResult && method == "tools/call"@ {
                    Some(
                        RejectionView {
                            envelope: McpDenialEnvelopeView::ToolResult(message),
                            http_status: match cfg.status {
                                Some(s) => Some(s),
                                None => Some(200u16),
                            },
                            http_headers: headers,
                        },
                    )
                } else {
                    Some(
                        RejectionView {
                            envelope: McpDenialEnvelopeView::JsonRpc(
                                ErrorDataView {
                                    code: match body.code {
                                        Some(c) => c as int,
                                        None => rej.code,
                                    },
                                    message,
                                    data: None,
                                },
                            ),
                            http_status: cfg.status,
                            http_headers: headers,
                        },
                    )
                }
            },
        }
    }
}

/// The denial that the overrides from the `i`-th on make of `rej`: that of the first that changes
/// something, or else the error without its data.
pub open spec fn reshaped_by_first(
    cfgs: Seq<RateLimitRejectionOverride>,
    evals: Seq<EvaluatedOverride>,
    method: Seq<char>,
    rej: ErrorDataView,
    i: int,
) -> RejectionView
    decreases cfgs.len() - i,
{
    if i < 0 || i >= cfgs.len() || i >= evals.len() {
        plain_rejection(stripped(rej))
    } else {
        match reshaped(cfgs[i], evals[i], method, rej) {
            Some(r) => r,
            None => reshaped_by_first(cfgs, evals, method, rej, i + 1),
        }
    }
}

/// The overrides of a guardrail. Only the rate limit has any.
pub open spec fn overrides_of(processor: Processor) -> Seq<RateLimitRejectionOverride> {
    match processor.kind {
        ProcessorKind::RateLimit(rate_limit) => rate_limit.rejection_overrides@,
        ProcessorKind::Remote(_) => Seq::empty(),
    }
}

/// What the client is told where a guardrail rejects with `rej`.
pub open spec fn client_denial(
    processor: Processor,
    evals: Seq<EvaluatedOverride>,
    method: Seq<char>,
    rej: ErrorDataView,
) -> RejectionView {
    if overrides_of(processor).len() == 0 {
        plain_rejection(rej)
    } else {
        reshaped_by_first(overrides_of(processor), evals, method, rej, 0)
    }
}

fn reshape(
    cfg: &RateLimitRejectionOverride,
    eval: &EvaluatedOverride,
    method: &str,
    rej: &ErrorData,
) -> (r: Option<Rejection>)
    ensures
        match reshaped(*cfg, *eval, method@, rej@) {
            Some(d) => r matches Some(x) && x@ == d,
            None => r is None,
        },
{
    if !eval.applies {
        return None;
    }
    let http_headers = eval_override_headers(cfg, &eval.headers);
    assert(pairs(http_headers@).len() == http_headers@.len());
    let body = match &cfg.body {
        Some(body) => body,
        None => {
            if cfg.status.is_some() || http_headers.len() > 0 {
                let error = ErrorData { code: rej.code, message: rej.message.clone(), data: None };
                return Some(
                    Rejection {
                        envelope: McpDenialEnvelope::JsonRpc(error),
                        http_status: cfg.status,
                        http_headers,
                    },
                );
            }
            return None;
        },
    };
    let message = match (&body.message, &eval.message) {
        (Some(_), Some(m)) => m.clone(),
        _ => rej.message.clone(),
    };
    if cfg.response_as == RejectionResponseAs::ToolResult && text::same(method, "tools/call") {
        let http_status = match cfg.status {
            Some(s) => Some(s),
            None => Some(200u16),
        };
        return Some(
            Rejection {
                envelope: McpDenialEnvelope::ToolResult { message },
                http_status,
                http_headers,
            },
        );
    }
    let code: i32 = match body.code {
        Some(c) => c,
        None => rej.code,
    };
    Some(
        Rejection {
            envelope: McpDenialEnvelope::JsonRpc(ErrorData { code, message, data: None }),
            http_status: cfg.status,
            http_headers,
        },
    )
}

/// What the client is told where a guardrail rejects with `rej`. `evals` holds what the overrides
/// of the guardrail evaluate to for this request, in their order.
pub fn maybe_override_rejection(
    processor: &Processor,
    method: &str,
    evals: &Vec<EvaluatedOverride>,
    rej: ErrorData,
) -> (r: Denial)
    ensures
        r@ == client_denial(*processor, evals@, method@, rej@),
{
    let rate_limit = match &processor.kind {
        ProcessorKind::RateLimit(rate_limit) => rate_limit,
        ProcessorKind::Remote(_) => {
            return Rejection::json_rpc(rej);
        },
    };
    let cfgs = &rate_limit.rejection_overrides;
    if cfgs.len() == 0 {
        return Rejection::json_rpc(rej);
    }
    let mut i: usize = 0;
    while i < cfgs.len() && i < evals.len()
        invariant
            i <= cfgs@.len(),
            i <= evals@.len(),
            cfgs@.len() > 0,
            cfgs@ == overrides_of(*processor),
            client_denial(*processor, evals@, method@, rej@) == reshaped_by_first(
                cfgs@,
                evals@,
                method@,
                rej@,
                i as int,
            ),
        decreases cfgs@.len() - i,
    {
        match reshape(&cfgs[i], &evals[i], method, &rej) {
            Some(r) => {
                return r;
            },
            None => {},
        }
        i += 1;
    }
    Rejection::json_rpc(strip_client_error_data(rej))
}

/// What a policy service told the gateway alone never reaches the client, once denials are
/// reshaped: no error data does.
pub proof fn law_reshaped_denials_hold_no_data(
    processor: Processor,
    evals: Seq<EvaluatedOverride>,
    method: Seq<char>,
    rej: ErrorDataView,
)
    requires
        overrides_of(processor).len() > 0,
    ensures
        client_denial(processor, evals, method, rej).envelope matches
            McpDenialEnvelopeView::JsonRpc(error) ==> error.data is None,
{
    lemma_no_data(overrides_of(processor), evals, method, rej, 0);
}

proof fn lemma_no_data(
    cfgs: Seq<RateLimitRejectionOverride>,
    evals: Seq<EvaluatedOverride>,
    method: Seq<char>,
    rej: ErrorDataView,
    i: int,
)
    ensures
        reshaped_by_first(cfgs, evals, method, rej, i).envelope matches
            McpDenialEnvelopeView::JsonRpc(error) ==> error.data is None,
    decreases cfgs.len() - i,
{
    if 0 <= i < cfgs.len() && i < evals.len() {
        lemma_no_data(cfgs, evals, method, rej, i + 1);
    }
}

/// A denial is a tool result only for a tool call.
pub proof fn law_tool_result_only_for_tool_calls(
    processor: Processor,
    evals: Seq<EvaluatedOverride>,
    method: Seq<char>,
    rej: ErrorDataView,
)
    requires
        client_denial(processor, evals, method, rej).envelope is ToolResult,
    ensures
        method == "tools/call"@,
{
    lemma_tool_result(overrides_of(processor), evals, method, rej, 0);
}

proof fn lemma_tool_result(
    cfgs: Seq<RateLimitRejectionOverride>,
    evals: Seq<EvaluatedOverride>,
    method: Seq<char>,
    rej: ErrorDataView,
    i: int,
)
    ensures
        reshaped_by_first(cfgs, evals, method, rej, i).envelope is ToolResult ==> method
            == "tools/call"@,
    decreases cfgs.len() - i,
{
    if 0 <= i < cfgs.len() && i < evals.len() {
        lemma_tool_result(cfgs, evals, method, rej, i + 1);
    }
}

} // verus!
