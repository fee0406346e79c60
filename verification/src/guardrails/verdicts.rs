//! What holds of what guardrails say of a call, and of what a client is told of it.

use crate::guardrails::chain::{
    after_guardrails, comes_of, final_denial, next_running, without_change,
};
use crate::guardrails::denial::{McpDenialEnvelopeView, RejectionView};
use crate::guardrails::metadata::with_values;
use crate::guardrails::overrides::{client_denial, reshaped_by_first};
use crate::guardrails::phase::{
    Phase, best_fit, fit, is_exact, is_matchable, is_prefix_key, is_suffix_key, lemma_best_fit,
    resolved,
};
use crate::guardrails::rate_limit_types::{
    EvaluatedOverride, RateLimitRejectionOverride, RateLimitRejectionOverrideHeader,
    RejectionResponseAs, override_headers,
};
use crate::guardrails::ratelimit::{
    AuthCode, AuthorizationError, RequestReply, bag_after, rejection_of, with_outcome,
};
use crate::guardrails::{
    FailureMode, Outcome, Processor, ProcessorKind, Side, all_key_warnings, key_warnings,
    lists_header, pattern_warning, phase_warnings, request_phase_unsupported,
    request_phase_warning, runs, same_header, warns,
};
use crate::info::MCPInfo;
use crate::json::{self, Json, JsonView, MembersView, member};
use crate::json_value::parsed_json;
use crate::model::{
    CallToolResultView, ContentView, ErrorDataView, RequestIdView, ServerJsonRpcMessageView,
    ServerResult, ServerResultView,
};
use crate::text;
use vstd::prelude::*;
use vstd::string::*;

verus! {

/// An override has something to say: it has a body, a status, or a header with a value.
pub open spec fn says_something(cfg: RateLimitRejectionOverride, eval: EvaluatedOverride) -> bool {
    cfg.body is Some || cfg.status is Some || override_headers(cfg.headers@, eval.headers@).len()
        > 0
}

/// The denials of a rate limit are shaped by override `k`: it is the first that applies and has
/// something to say.
pub open spec fn shapes(
    processor: Processor,
    evals: Seq<EvaluatedOverride>,
    k: int,
) -> bool {
    processor.kind matches ProcessorKind::RateLimit(limit) && {
        let cfgs = limit.rejection_overrides@;
        &&& 0 <= k < cfgs.len()
        &&& k < evals.len()
        &&& evals[k].applies
        &&& says_something(cfgs[k], evals[k])
        &&& forall|j: int|
            0 <= j < k ==> !evals[j].applies || !says_something(#[trigger] cfgs[j], evals[j])
    }
}

proof fn lemma_first_override(
    cfgs: Seq<RateLimitRejectionOverride>,
    evals: Seq<EvaluatedOverride>,
    method: Seq<char>,
    rej: ErrorDataView,
    i: int,
    k: int,
)
    requires
        0 <= i <= k,
        k <= cfgs.len(),
        forall|j: int|
            0 <= j < k && j < evals.len() ==> !evals[j].applies || !says_something(
                #[trigger] cfgs[j],
                evals[j],
            ),
    ensures
        k < evals.len() || k == cfgs.len() ==> reshaped_by_first(cfgs, evals, method, rej, i)
            == reshaped_by_first(cfgs, evals, method, rej, k),
    decreases k - i,
{
    if i < k {
        if i < evals.len() {
            assert(!evals[i].applies || !says_something(cfgs[i], evals[i]));
        }
        lemma_first_override(cfgs, evals, method, rej, i + 1, k);
        if i >= evals.len() && k == cfgs.len() {
            assert(reshaped_by_first(cfgs, evals, method, rej, k) == reshaped_by_first(
                cfgs,
                evals,
                method,
                rej,
                i,
            ));
        }
    }
}

/// The first override that applies and has something to say shapes a denial: its status and its
/// headers go with it. Without a body the client sees the code and the message of the error. With
/// one it sees the override's code and message, where there are any, as an error, or, where a tool
/// was called and the override says so, as the result of that tool, with status 200 unless another
/// is given. The data of the error is not shown.
pub proof fn law_override_shapes_the_denial(
    processor: Processor,
    evals: Seq<EvaluatedOverride>,
    method: Seq<char>,
    rej: ErrorDataView,
    k: int,
)
    requires
        shapes(processor, evals, k),
    ensures
        ({
            let cfg = processor.kind->RateLimit_0.rejection_overrides@[k];
            let eval = evals[k];
            let d = client_denial(processor, evals, method, rej);
            &&& d.http_headers == override_headers(cfg.headers@, eval.headers@)
            &&& cfg.status is Some ==> d.http_status == cfg.status
            &&& match cfg.body {
                None => {
                    &&& d.http_status == cfg.status
                    &&& d.envelope matches McpDenialEnvelopeView::JsonRpc(e) && e.code == rej.code
                        && e.message == rej.message && e.data is None
                },
                Some(body) => {
                    let message = if body.message is Some && eval.message is Some {
                        eval.message->0@
                    } else {
                        rej.message
                    };
                    if cfg.response_as == RejectionResponseAs::ToolResult && method
                        == "tools/call"@ {
                        &&& d.envelope == McpDenialEnvelopeView::ToolResult(message)
                        &&& cfg.status is None ==> d.http_status == Some(200u16)
                    } else {
                        &&& d.http_status == cfg.status
                        &&& d.envelope matches McpDenialEnvelopeView::JsonRpc(e) && e.message
                            == message && e.data is None && e.code == (match body.code {
                            Some(c) => c as int,
                            None => rej.code,
                        })
                    }
                },
            }
        }),
{
    let cfgs = processor.kind->RateLimit_0.rejection_overrides@;
    lemma_first_override(cfgs, evals, method, rej, 0, k);
}

/// Where no override shapes a denial, the client sees the code and the message of the error, with
/// no status and no headers of its own; where overrides are configured, not its data. A guardrail
/// that has none, or is no rate limit, hands the error on as it is.
pub proof fn law_unshaped_denial_is_the_error(
    processor: Processor,
    evals: Seq<EvaluatedOverride>,
    method: Seq<char>,
    rej: ErrorDataView,
)
    requires
        processor.kind matches ProcessorKind::RateLimit(limit) ==> forall|j: int|
            0 <= j < limit.rejection_overrides@.len() && j < evals.len() ==> !evals[j].applies
                || !says_something(#[trigger] limit.rejection_overrides@[j], evals[j]),
    ensures
        ({
            let d = client_denial(processor, evals, method, rej);
            &&& d.http_status is None
            &&& d.http_headers.len() == 0
            &&& d.envelope matches McpDenialEnvelopeView::JsonRpc(e) && e.code == rej.code
                && e.message == rej.message && e.data == (if processor.kind matches
                ProcessorKind::RateLimit(limit) && limit.rejection_overrides@.len() > 0 {
                None
            } else {
                rej.data
            })
        }),
{
    if let ProcessorKind::RateLimit(limit) = processor.kind {
        let cfgs = limit.rejection_overrides@;
        lemma_first_override(cfgs, evals, method, rej, 0, cfgs.len() as int);
    }
}

/// The headers of a reshaped denial are those whose expressions gave a value, with that value, in
/// the order in which they are configured.
pub proof fn law_headers_with_a_value_are_sent(
    headers: Seq<RateLimitRejectionOverrideHeader>,
    header: RateLimitRejectionOverrideHeader,
    values: Seq<Option<String>>,
)
    ensures
        override_headers(Seq::empty(), values).len() == 0,
        override_headers(headers.push(header), values) == if headers.len() < values.len()
            && values[headers.len() as int] is Some {
            override_headers(headers, values).push(
                (header.name@, values[headers.len() as int]->0@),
            )
        } else {
            override_headers(headers, values)
        },
{
    assert(headers.push(header).drop_last() =~= headers);
}

/// A denial that is the result of a tool reaches the client as the guardrail gave it.
pub proof fn law_tool_result_denial_stays(
    processor: Processor,
    evals: Seq<EvaluatedOverride>,
    method: Seq<char>,
    denial: RejectionView,
)
    requires
        denial.envelope is ToolResult,
    ensures
        final_denial(processor, evals, method, denial) == denial,
{
}

/// What becomes of a response that the guardrails looked at: one that they let pass reaches the
/// client as it is; one that they changed reaches it as changed, under its id; a rejected one is
/// replaced by an error, or by the failed result of a tool, under its id; one that could not be
/// looked at is replaced by an internal error.
pub proof fn law_guarded_response(
    id: RequestIdView,
    result: ServerResultView,
    changed: ServerResult,
    denial: crate::guardrails::denial::Denial,
    failure: String,
)
    ensures
        ({
            let msg = ServerJsonRpcMessageView::Response(id, result);
            &&& after_guardrails(msg, Ok(Outcome::Pass)) == msg
            &&& after_guardrails(msg, Ok(Outcome::Mutated(changed)))
                == ServerJsonRpcMessageView::Response(id, changed@)
            &&& after_guardrails(msg, Ok(Outcome::Reject(denial))) == match denial@.envelope {
                McpDenialEnvelopeView::JsonRpc(e) => ServerJsonRpcMessageView::Error(id, e),
                McpDenialEnvelopeView::ToolResult(words) => ServerJsonRpcMessageView::Response(
                    id,
                    ServerResultView::CallToolResult(
                        CallToolResultView {
                            content: seq![ContentView::Text(words, JsonView::Null)],
                            is_error: Some(true),
                            meta: None,
                            rest: JsonView::Null,
                        },
                    ),
                ),
            }
            &&& after_guardrails(msg, Err(failure)) matches ServerJsonRpcMessageView::Error(
                seen,
                e,
            ) && seen == id && e.code == -32603 && e.data is None
        }),
{
}

/// Guardrails look at responses alone: any other message reaches the client as it is.
pub proof fn law_other_messages_are_not_guarded(
    msg: ServerJsonRpcMessageView,
    outcome: Result<Outcome<ServerResult>, String>,
)
    requires
        !(msg is Response),
    ensures
        after_guardrails(msg, outcome) == msg,
{
}

/// What the answers of the rate-limit service mean. A call that may be made is made. A call over
/// the limit or forbidden is rejected, whatever the failure mode, with the code and the message of
/// the error and without its data. Any other error, a service that failed, and one that gave no
/// answer reject the call only where the guardrail fails closed.
pub proof fn law_rate_limit_answers(
    mode: FailureMode,
    fields: Vec<(String, Option<Json>)>,
    error: AuthorizationError,
    message: String,
)
    ensures
        rejection_of(mode, RequestReply::Pass(fields)) is None,
        rejection_of(mode, RequestReply::Mutated(fields)) is None,
        ({
            let r = rejection_of(mode, RequestReply::Error(error));
            &&& error.code == Some(AuthCode::ResourceExhausted) || error.code == Some(
                AuthCode::PermissionDenied,
            ) || mode == FailureMode::FailClosed ==> (r matches Some(e) && e.code
                == error.error@.code && e.message == error.error@.message && e.data is None)
            &&& error.code != Some(AuthCode::ResourceExhausted) && error.code != Some(
                AuthCode::PermissionDenied,
            ) && mode == FailureMode::FailOpen ==> r is None
        }),
        ({
            let r = rejection_of(mode, RequestReply::Failed(message));
            &&& mode == FailureMode::FailOpen ==> r is None
            &&& mode == FailureMode::FailClosed ==> (r matches Some(e) && e.code == -32603
                && e.data is None && message@.is_suffix_of(e.message))
        }),
        ({
            let r = rejection_of(mode, RequestReply::Missing);
            &&& mode == FailureMode::FailOpen ==> r is None
            &&& mode == FailureMode::FailClosed ==> (r matches Some(e) && e.code == -32603
                && e.data is None)
        }),
{
    let r = rejection_of(FailureMode::FailClosed, RequestReply::Failed(message));
    let told = r->0.message;
    assert(told.subrange(told.len() - message@.len(), told.len() as int) =~= message@);
}

/// Values that guardrails attach are attached one by one: the last value for a key counts, all
/// other keys keep theirs, and what could not be converted is left out.
pub proof fn law_values_are_attached(
    bag: MembersView,
    fields: Seq<(String, Option<Json>)>,
    key: String,
    value: Option<Json>,
    other: Seq<char>,
)
    requires
        other != key@,
    ensures
        with_values(bag, Seq::empty()) == bag,
        ({
            let less = with_values(bag, fields);
            let more = with_values(bag, fields.push((key, value)));
            &&& value is None ==> more == less
            &&& value matches Some(v) ==> member(more, key@) == Some(v@) && member(more, other)
                == member(less, other)
        }),
{
    assert(fields.push((key, value)).drop_last() =~= fields);
    if let Some(v) = value {
        json::lemma_with_member(with_values(bag, fields), key@, v@);
    }
}

/// What is attached to the request after the rate-limit service answered: the values of an answer
/// that lets the call be made, and under `rateLimit` the details of an error, where they are a JSON
/// object. Nothing else is attached, and what was there under another key stays.
pub proof fn law_rate_limit_attaches(
    bag: MembersView,
    fields: Vec<(String, Option<Json>)>,
    error: AuthorizationError,
    message: String,
    other: Seq<char>,
)
    requires
        other != "rateLimit"@,
    ensures
        bag_after(bag, RequestReply::Pass(fields)) == with_values(bag, fields@),
        bag_after(bag, RequestReply::Mutated(fields)) == with_values(bag, fields@),
        bag_after(bag, RequestReply::Failed(message)) == bag,
        bag_after(bag, RequestReply::Missing) == bag,
        ({
            let after = bag_after(bag, RequestReply::Error(error));
            if error.mcp_error is Some && error.mcp_error->0@.len() > 0 && parsed_json(
                error.mcp_error->0@,
            ) is Some && parsed_json(error.mcp_error->0@)->0 is Object {
                &&& member(after, "rateLimit"@) == parsed_json(error.mcp_error->0@)
                &&& member(after, other) == member(bag, other)
            } else {
                after == bag
            }
        }),
{
    if let Some(bytes) = error.mcp_error {
        if let Some(JsonView::Object(m)) = parsed_json(bytes@) {
            json::lemma_with_member(bag, "rateLimit"@, JsonView::Object(m));
        }
    }
}

/// On which sides of a call a guardrail runs: on none where no key fits the method, and else on
/// those that the phase of the key says.
pub proof fn law_a_guardrail_runs_on_its_side(processor: Processor, method: Seq<char>)
    ensures
        match resolved(processor.methods@, method) {
            None => !runs(processor, method, Side::Request) && !runs(
                processor,
                method,
                Side::Response,
            ),
            Some(Phase::Request) => runs(processor, method, Side::Request) && !runs(
                processor,
                method,
                Side::Response,
            ),
            Some(Phase::Response) => !runs(processor, method, Side::Request) && runs(
                processor,
                method,
                Side::Response,
            ),
            Some(Phase::Full) => runs(processor, method, Side::Request) && runs(
                processor,
                method,
                Side::Response,
            ),
        },
{
}

/// A key is `prefix/*` and the method starts with `prefix/`.
pub open spec fn fits_as_prefix(key: Seq<char>, method: Seq<char>) -> bool {
    exists|p: Seq<char>|
        key == #[trigger] (p + "/*"@) && !p.contains('*') && (p + "/"@).is_prefix_of(method)
}

/// A key is `*/suffix` and the method ends with `/suffix`.
pub open spec fn fits_as_suffix(key: Seq<char>, method: Seq<char>) -> bool {
    exists|s: Seq<char>|
        key == #[trigger] ("*/"@ + s) && !s.contains('*') && ("/"@ + s).is_suffix_of(method)
}

/// A key is the method itself.
pub open spec fn fits_exactly(key: Seq<char>, method: Seq<char>) -> bool {
    key == method && key.len() > 0 && !key.contains('*')
}

/// A key is for a method.
pub open spec fn fits(key: Seq<char>, method: Seq<char>) -> bool {
    fits_exactly(key, method) || fits_as_prefix(key, method) || fits_as_suffix(key, method) || key
        == "*"@
}

/// Of two keys that fit, the first is the closer: the method itself before a wildcard, `*` behind
/// all others, of two others the longer, and of such of one length a prefix before a suffix.
pub open spec fn is_closer(a: Seq<char>, b: Seq<char>, method: Seq<char>) -> bool {
    if fits_exactly(a, method) {
        !fits_exactly(b, method)
    } else if fits_exactly(b, method) || a == "*"@ {
        false
    } else {
        b == "*"@ || b.len() < a.len() || b.len() == a.len() && fits_as_prefix(a, method)
            && !fits_as_prefix(b, method)
    }
}

proof fn lemma_prefix_key(key: Seq<char>, method: Seq<char>)
    ensures
        is_prefix_key(key) && key.drop_last().is_prefix_of(method) <==> fits_as_prefix(key, method),
{
    reveal_strlit("/*");
    reveal_strlit("/");
    if is_prefix_key(key) && key.drop_last().is_prefix_of(method) {
        let p = key.subrange(0, key.len() - 2);
        assert(key.subrange(key.len() - 2, key.len() as int) =~= "/*"@);
        assert(key =~= p + "/*"@);
        assert(key.drop_last() =~= p + "/"@) by {
            assert(key[key.len() - 2] == "/*"@[0]);
        }
        assert forall|i: int| 0 <= i < p.len() implies p[i] != '*' by {
            assert(key.drop_last()[i] == p[i]);
        }
        assert(!p.contains('*'));
    }
    if fits_as_prefix(key, method) {
        let p = choose|p: Seq<char>|
            key == #[trigger] (p + "/*"@) && !p.contains('*') && (p + "/"@).is_prefix_of(method);
        assert(key.drop_last() =~= p + "/"@);
        assert(key.subrange(key.len() - 2, key.len() as int) =~= "/*"@);
        assert forall|i: int| 0 <= i < key.len() - 1 implies key.drop_last()[i] != '*' by {
            if i < p.len() {
                assert(p[i] == key[i]);
                assert(p.contains(p[i]));
            }
        }
    }
}

proof fn lemma_suffix_key(key: Seq<char>, method: Seq<char>)
    ensures
        is_suffix_key(key) && key.drop_first().is_suffix_of(method) <==> fits_as_suffix(
            key,
            method,
        ),
{
    reveal_strlit("*/");
    reveal_strlit("/");
    if is_suffix_key(key) && key.drop_first().is_suffix_of(method) {
        let s = key.subrange(2, key.len() as int);
        assert(key.subrange(0, 2) =~= "*/"@);
        assert(key =~= "*/"@ + s);
        assert(key.drop_first() =~= "/"@ + s) by {
            assert(key[1] == "*/"@[1]);
        }
        assert forall|i: int| 0 <= i < s.len() implies s[i] != '*' by {
            assert(key.drop_first()[i + 1] == s[i]);
        }
        assert(!s.contains('*'));
    }
    if fits_as_suffix(key, method) {
        let s = choose|s: Seq<char>|
            key == #[trigger] ("*/"@ + s) && !s.contains('*') && ("/"@ + s).is_suffix_of(method);
        assert(key.drop_first() =~= "/"@ + s);
        assert(key.subrange(0, 2) =~= "*/"@);
        assert forall|i: int| 0 <= i < key.len() - 1 implies key.drop_first()[i] != '*' by {
            if i > 0 {
                assert(s[i - 1] == key[i + 1]);
                assert(s.contains(s[i - 1]));
            }
        }
    }
}

proof fn lemma_fits(key: Seq<char>, method: Seq<char>)
    ensures
        fits(key, method) <==> fit(key, method) > 0,
        fit(key, method) == if fits_exactly(key, method) {
            2 * (method.len() as int) + 4
        } else if fits_as_prefix(key, method) {
            2 * (key.len() as int) + 1
        } else if fits_as_suffix(key, method) {
            2 * (key.len() as int)
        } else if key == "*"@ {
            1
        } else {
            0
        },
        fits_as_prefix(key, method) ==> 2 <= key.len() <= method.len() + 1,
        fits_as_suffix(key, method) ==> 2 <= key.len() <= method.len() + 1,
        "*"@.len() == 1,
{
    lemma_prefix_key(key, method);
    lemma_suffix_key(key, method);
    reveal_strlit("*/");
    reveal_strlit("/*");
    reveal_strlit("*");
    if fits_as_prefix(key, method) {
        assert(key.drop_last().len() <= method.len());
        assert(key.len() >= 2);
    }
    if fits_as_suffix(key, method) {
        assert(key.drop_first().len() <= method.len());
        assert(key.len() >= 2);
    }
}

/// The key that is closer to a method than all others that fit it says on which side of a call a
/// guardrail runs, wherever it stands.
pub proof fn law_closest_key_wins(methods: Seq<(String, Phase)>, method: Seq<char>, k: int)
    requires
        0 <= k < methods.len(),
        fits(methods[k].0@, method),
        forall|j: int|
            0 <= j < methods.len() && j != k && fits((#[trigger] methods[j]).0@, method)
                ==> is_closer(methods[k].0@, methods[j].0@, method),
    ensures
        resolved(methods, method) == Some(methods[k].1),
{
    lemma_best_fit(methods, method, methods.len() as int);
    lemma_fits(methods[k].0@, method);
    assert(fit(methods[k].0@, method) > 0);
    let best = best_fit(methods, method, methods.len() as int)->0;
    assert(fit(methods[k].0@, method) <= fit(methods[best].0@, method));
    if best != k {
        lemma_fits(methods[best].0@, method);
        assert(is_closer(methods[k].0@, methods[best].0@, method));
        assert(false);
    }
}

/// A guardrail bypasses the methods that none of its keys fits, and no others.
pub proof fn law_only_fitting_keys_count(methods: Seq<(String, Phase)>, method: Seq<char>)
    ensures
        resolved(methods, method) is Some <==> exists|j: int|
            0 <= j < methods.len() && fits((#[trigger] methods[j]).0@, method),
{
    lemma_best_fit(methods, method, methods.len() as int);
    match best_fit(methods, method, methods.len() as int) {
        Some(k) => {
            lemma_fits(methods[k].0@, method);
            assert(fits(methods[k].0@, method));
        },
        None => {
            assert forall|j: int| 0 <= j < methods.len() implies !fits(
                (#[trigger] methods[j]).0@,
                method,
            ) by {
                lemma_fits(methods[j].0@, method);
            }
        },
    }
}

/// A key can match where it fits some method, and only there.
pub proof fn law_matchable_keys_fit_something(key: Seq<char>)
    ensures
        is_matchable(key) <==> exists|method: Seq<char>| fits(key, method),
{
    reveal_strlit("*/");
    reveal_strlit("/*");
    if is_matchable(key) {
        if is_exact(key) {
            assert(fits(key, key));
        } else if is_prefix_key(key) {
            lemma_prefix_key(key, key.drop_last());
            assert(key.drop_last() =~= key.drop_last().subrange(0, key.drop_last().len() as int));
            assert(fits(key, key.drop_last()));
        } else if is_suffix_key(key) {
            lemma_suffix_key(key, key.drop_first());
            assert(key.drop_first() =~= key.drop_first().subrange(
                0,
                key.drop_first().len() as int,
            ));
            assert(fits(key, key.drop_first()));
        } else {
            assert(fits(key, key));
        }
    }
    if exists|method: Seq<char>| fits(key, method) {
        let method = choose|method: Seq<char>| fits(key, method);
        lemma_prefix_key(key, method);
        lemma_suffix_key(key, method);
    }
}

/// A header is the same as itself, and whether two are the same does not depend on their order. A
/// pseudo-header is the same as itself alone; any other is the same in whatever case it is
/// written.
pub proof fn law_header_names(a: Seq<char>, b: Seq<char>)
    ensures
        same_header(a, a),
        same_header(a, b) == same_header(b, a),
        a.len() > 0 && a[0] == ':' && a != b ==> !same_header(a, b),
        (a.len() == 0 || a[0] != ':') && (b.len() == 0 || b[0] != ':') ==> (same_header(a, b)
            <==> text::same_but_case(a, b)),
{
}

/// A list of headers has those that are the same as one of its names.
pub proof fn law_listed_headers(names: Seq<Seq<char>>, name: Seq<char>, header: Seq<char>)
    ensures
        !lists_header(Seq::empty(), header),
        lists_header(names.push(name), header) <==> lists_header(names, header) || same_header(
            name,
            header,
        ),
{
    let more = names.push(name);
    if lists_header(names, header) {
        let i = choose|i: int| 0 <= i < names.len() && same_header(#[trigger] names[i], header);
        assert(same_header(more[i], header));
    }
    if same_header(name, header) {
        assert(same_header(more[names.len() as int], header));
    }
    if lists_header(more, header) && !same_header(name, header) {
        let i = choose|i: int| 0 <= i < more.len() && same_header(#[trigger] more[i], header);
        assert(same_header(names[i], header));
    }
}

/// Guardrails that all let a call pass leave it as it is.
pub proof fn law_all_pass<T>(
    r: Outcome<T>,
    processors: Seq<Processor>,
    method: Seq<char>,
    side: Side,
    at: int,
    answers: Seq<(Outcome<T>, Vec<EvaluatedOverride>)>,
    j: int,
)
    requires
        comes_of(r, processors, method, side, at, answers, j, None),
        forall|k: int| 0 <= k < answers.len() ==> (#[trigger] answers[k]).0 is Pass,
    ensures
        r is Pass,
    decreases answers.len() - j,
{
    if 0 <= j < answers.len() {
        assert(answers[j].0 is Pass);
        if let Some(i) = next_running(processors, method, side, at) {
            law_all_pass(r, processors, method, side, i + 1, answers, j + 1);
        }
    }
}

/// Where a change cannot be applied, a changed call goes on as it is, and a rejected one is still
/// rejected.
pub proof fn law_a_change_that_is_dropped<T>(outcome: Outcome<T>)
    ensures
        outcome is Mutated || outcome is Pass ==> without_change(outcome) is Pass,
        outcome is Reject ==> without_change(outcome) == outcome,
{
}

/// The keys that can never match are warned about one by one, in the order in which they stand.
pub proof fn law_unmatchable_keys_are_warned_about(
    methods: Seq<(String, Phase)>,
    key: String,
    phase: Phase,
)
    ensures
        key_warnings(Seq::empty()).len() == 0,
        key_warnings(methods.push((key, phase))) == if exists|method: Seq<char>|
            fits(key@, method) {
            key_warnings(methods)
        } else {
            key_warnings(methods).push(pattern_warning(key@))
        },
{
    assert(methods.push((key, phase)).drop_last() =~= methods);
    law_matchable_keys_fit_something(key@);
}

/// The methods without a request side are warned about one by one where some guardrail runs on the
/// request side of them.
pub proof fn law_missing_request_sides_are_warned_about(
    processors: Seq<Processor>,
    methods: Seq<Seq<char>>,
    method: Seq<char>,
)
    ensures
        phase_warnings(processors, Seq::empty()).len() == 0,
        phase_warnings(processors, methods.push(method)) == if exists|i: int|
            0 <= i < processors.len() && runs(#[trigger] processors[i], method, Side::Request) {
            phase_warnings(processors, methods).push(request_phase_warning(method))
        } else {
            phase_warnings(processors, methods)
        },
{
    assert(methods.push(method).drop_last() =~= methods);
}

/// What is recorded of a call once its result is there. Of a tool call it is whether the tool says
/// that it failed, and what it returned; of any other call, nothing but the method, where none was
/// recorded.
pub proof fn law_outcome_is_recorded(
    before: MCPInfo,
    after: MCPInfo,
    method: Seq<char>,
    result: ServerResult,
    payload: Option<Json>,
)
    requires
        with_outcome(before, after, method, result, payload),
    ensures
        before.method_name matches Some(m) ==> (after.method_name matches Some(n) && n@ == m@),
        before.method_name is None ==> (after.method_name matches Some(n) && n@ == method),
        result matches ServerResult::CallToolResult(call) ==> {
            &&& call.is_error == Some(true) ==> after.is_error == Some(true)
            &&& call.is_error != Some(true) ==> after.is_error == Some(false)
            &&& after.tool matches Some(t) && t.result == payload
            &&& before.tool matches Some(t) ==> after.tool->0.target == t.target
                && after.tool->0.name == t.name && after.tool->0.arguments == t.arguments
                && after.prompt == before.prompt && after.resource == before.resource
                && after.task == before.task
        },
        !(result is CallToolResult) ==> after.is_error == before.is_error && after.tool
            == before.tool && after.prompt == before.prompt && after.resource == before.resource
            && after.task == before.task,
        after.session_id == before.session_id,
        after.success == before.success,
        after.error == before.error,
        after.upstream_error == before.upstream_error,
        after.backend_name == before.backend_name,
{
}

proof fn lemma_key_warned(methods: Seq<(String, Phase)>, j: int)
    requires
        0 <= j < methods.len(),
        !is_matchable(methods[j].0@),
    ensures
        key_warnings(methods).contains(pattern_warning(methods[j].0@)),
    decreases methods.len(),
{
    let head = methods.drop_last();
    let before = key_warnings(head);
    let all = key_warnings(methods);
    let w = pattern_warning(methods[j].0@);
    if j < head.len() {
        assert(head[j] == methods[j]);
        lemma_key_warned(head, j);
        let k = choose|k: int| 0 <= k < before.len() && before[k] == w;
        assert(all[k] == w);
    } else {
        assert(all.last() == w);
    }
}

proof fn lemma_all_keys_warned(processors: Seq<Processor>, i: int, j: int)
    requires
        0 <= i < processors.len(),
        0 <= j < processors[i].methods@.len(),
        !is_matchable(processors[i].methods@[j].0@),
    ensures
        all_key_warnings(processors).contains(pattern_warning(processors[i].methods@[j].0@)),
    decreases processors.len(),
{
    let head = processors.drop_last();
    let a = all_key_warnings(head);
    let b = key_warnings(processors.last().methods@);
    let w = pattern_warning(processors[i].methods@[j].0@);
    assert(all_key_warnings(processors) == a + b);
    if i < head.len() {
        assert(head[i] == processors[i]);
        lemma_all_keys_warned(head, i, j);
        let k = choose|k: int| 0 <= k < a.len() && a[k] == w;
        assert((a + b)[k] == w);
    } else {
        lemma_key_warned(processors[i].methods@, j);
        let k = choose|k: int| 0 <= k < b.len() && b[k] == w;
        assert((a + b)[a.len() + k] == w);
    }
}

/// Every key that fits no method is warned about, whichever guardrail has it; and so is every
/// method without a request side that some guardrail runs on the request side of.
pub proof fn law_every_mistake_is_warned_about(
    warnings: Seq<Seq<char>>,
    processors: Seq<Processor>,
    i: int,
    j: int,
    method: Seq<char>,
)
    requires
        warns(warnings, processors),
        0 <= i < processors.len(),
    ensures
        0 <= j < processors[i].methods@.len() && (forall|m: Seq<char>|
            !fits(processors[i].methods@[j].0@, m)) ==> warnings.contains(
            pattern_warning(processors[i].methods@[j].0@),
        ),
        (method == "resources/subscribe"@ || method == "resources/unsubscribe"@ || method
            == "completion/complete"@) && runs(processors[i], method, Side::Request)
            ==> warnings.contains(request_phase_warning(method)),
{
    let first = phase_warnings(processors, request_phase_unsupported());
    let keys = warnings.skip(first.len() as int);
    if 0 <= j < processors[i].methods@.len() && (forall|m: Seq<char>|
        !fits(processors[i].methods@[j].0@, m)) {
        let key = processors[i].methods@[j].0@;
        law_matchable_keys_fit_something(key);
        lemma_all_keys_warned(processors, i, j);
        let w = pattern_warning(key);
        let all = all_key_warnings(processors);
        all.to_multiset_ensures();
        keys.to_multiset_ensures();
        assert(all.to_multiset().count(w) > 0);
        assert(keys.contains(w));
        let k = choose|k: int| 0 <= k < keys.len() && keys[k] == w;
        assert(warnings[first.len() + k] == w);
    }
    if (method == "resources/subscribe"@ || method == "resources/unsubscribe"@ || method
        == "completion/complete"@) && runs(processors[i], method, Side::Request) {
        let w = request_phase_warning(method);
        let a = "resources/subscribe"@;
        let b = "resources/unsubscribe"@;
        let c = "completion/complete"@;
        let none = Seq::<Seq<char>>::empty();
        law_missing_request_sides_are_warned_about(processors, none, a);
        law_missing_request_sides_are_warned_about(processors, none.push(a), b);
        law_missing_request_sides_are_warned_about(processors, none.push(a).push(b), c);
        assert(request_phase_unsupported() =~= none.push(a).push(b).push(c));
        let one = phase_warnings(processors, none.push(a));
        let two = phase_warnings(processors, none.push(a).push(b));
        assert(first.contains(w)) by {
            if method == c {
                assert(first.last() == w);
            } else if method == b {
                assert(two.last() == w);
                assert(first[two.len() - 1] == w);
            } else {
                assert(one.last() == w);
                assert(two[one.len() - 1] == w);
                assert(first[one.len() - 1] == w);
            }
        }
        let k = choose|k: int| 0 <= k < first.len() && first[k] == w;
        assert(first =~= warnings.subrange(0, first.len() as int));
        assert(warnings[k] == w);
    }
}

} // verus!
