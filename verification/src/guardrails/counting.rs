//! What holds of what the rate-limit service is told.

use crate::decimal;
use crate::guardrails::Side;
use crate::guardrails::rate_limit_types::{RateLimit, RateLimitDescriptorEntry, RateLimitType};
use crate::guardrails::ratelimit::{
    EvaluatedDescriptor, descriptor_json, descriptors_json, rate_limit_metadata,
    unit_name,
};
use crate::json::JsonView;
use crate::text;
use vstd::prelude::*;
use vstd::string::*;

verus! {

/// A descriptor is for this side of the call: one that peeks is looked at before the call and
/// counted after it, unless the call is known to have failed; any other is counted before it.
/// Descriptors of tokens are not.
pub open spec fn is_due(
    entry: RateLimitDescriptorEntry,
    side: Side,
    is_error: Option<bool>,
) -> bool {
    entry.limit_type == RateLimitType::Requests && match side {
        Side::Request => true,
        Side::Response => entry.peek && is_error != Some(true),
    }
}

/// All that a descriptor asks for evaluated: it has parts, each of them has a value, and so has
/// the limit, in a unit that is known, where it has an expression for one.
pub open spec fn is_evaluated(entry: RateLimitDescriptorEntry, eval: EvaluatedDescriptor) -> bool {
    &&& 0 < entry.entries@.len() <= eval.values@.len()
    &&& forall|i: int| 0 <= i < entry.entries@.len() ==> (#[trigger] eval.values@[i]) is Some
    &&& entry.limit_override is Some ==> (eval.limit_override matches Some(limit) && unit_name(
        limit.unit@,
    ) is Some)
}

/// `told` is what the service is told of a descriptor: an object whose `entries` are its parts in
/// order, each as an object of its key and of its own value, whose `hitsAddend` is 0 for a look
/// before the call and 1 for a count, and whose `limit` is the limit where it has one.
pub open spec fn tells(
    told: JsonView,
    entry: RateLimitDescriptorEntry,
    eval: EvaluatedDescriptor,
    side: Side,
) -> bool {
    told matches JsonView::Object(m) && {
        &&& m.len() == (if entry.limit_override is Some {
            3int
        } else {
            2int
        })
        &&& m[0].0 == "entries"@
        &&& m[0].1 matches JsonView::Array(parts) && {
            &&& parts.len() == entry.entries@.len()
            &&& forall|i: int|
                0 <= i < parts.len() ==> #[trigger] parts[i] == JsonView::Object(
                    seq![
                        ("key"@, JsonView::Str(entry.entries@[i].key@)),
                        ("value"@, JsonView::Str(eval.values@[i]->0@)),
                    ],
                )
        }
        &&& m[1] == (
            "hitsAddend"@,
            JsonView::Number(
                decimal::decimal_text(
                    if entry.peek && side == Side::Request {
                        0
                    } else {
                        1
                    },
                ),
            ),
        )
        &&& entry.limit_override is Some ==> m[2].0 == "limit"@ && m[2].1 == JsonView::Object(
            seq![
                (
                    "requestsPerUnit"@,
                    JsonView::Number(
                        decimal::decimal_text(eval.limit_override->0.requests_per_unit as int),
                    ),
                ),
                ("unit"@, JsonView::Str(unit_name(eval.limit_override->0.unit@)->0)),
            ],
        )
    }
}

proof fn lemma_told(
    entry: RateLimitDescriptorEntry,
    eval: EvaluatedDescriptor,
    side: Side,
    is_error: Option<bool>,
)
    ensures
        match descriptor_json(entry, eval, side, is_error) {
            Some(told) => is_due(entry, side, is_error) && is_evaluated(entry, eval) && tells(
                told,
                entry,
                eval,
                side,
            ),
            None => !(is_due(entry, side, is_error) && is_evaluated(entry, eval)),
        },
{
}

/// How many of the first `n` descriptors are told.
pub open spec fn told_before(
    entries: Seq<RateLimitDescriptorEntry>,
    evals: Seq<EvaluatedDescriptor>,
    side: Side,
    is_error: Option<bool>,
    n: int,
) -> int
    decreases n,
{
    if n <= 0 {
        0
    } else {
        told_before(entries, evals, side, is_error, n - 1) + if n <= evals.len() && is_due(
            entries[n - 1],
            side,
            is_error,
        ) && is_evaluated(entries[n - 1], evals[n - 1]) {
            1int
        } else {
            0int
        }
    }
}

proof fn lemma_told_before(
    entries: Seq<RateLimitDescriptorEntry>,
    evals: Seq<EvaluatedDescriptor>,
    side: Side,
    is_error: Option<bool>,
    n: int,
)
    requires
        0 <= n <= entries.len(),
    ensures
        ({
            let all = descriptors_json(entries.take(n), evals, side, is_error);
            &&& all.len() == told_before(entries, evals, side, is_error, n)
            &&& forall|d: int|
                0 <= d < n && d < evals.len() && is_due(#[trigger] entries[d], side, is_error)
                    && is_evaluated(entries[d], evals[d]) ==> {
                    let p = told_before(entries, evals, side, is_error, d);
                    0 <= p < all.len() && tells(all[p], entries[d], evals[d], side)
                }
        }),
    decreases n,
{
    if n > 0 {
        lemma_told_before(entries, evals, side, is_error, n - 1);
        assert(entries.take(n).drop_last() =~= entries.take(n - 1));
        assert(entries.take(n)[n - 1] == entries[n - 1]);
        if n <= evals.len() {
            lemma_told(entries[n - 1], evals[n - 1], side, is_error);
        }
    }
}

/// The service is asked where some descriptor is due and evaluated, and then told the domain and
/// each such descriptor, in the order in which they are configured, and nothing else. Of a
/// descriptor it is told every part, with the key of that part and the value that its own
/// expression gave.
pub proof fn law_every_part_is_told_its_value(
    rate_limit: RateLimit,
    evals: Seq<EvaluatedDescriptor>,
    side: Side,
    is_error: Option<bool>,
)
    ensures
        ({
            let entries = rate_limit.descriptors.0@;
            let count = told_before(entries, evals, side, is_error, entries.len() as int);
            match rate_limit_metadata(rate_limit, evals, side, is_error) {
                None => count == 0,
                Some(told) => told matches JsonView::Object(m) && {
                    &&& m.len() == 2
                    &&& m[0] == ("domain"@, JsonView::Str(rate_limit.domain@))
                    &&& m[1].0 == "descriptors"@
                    &&& m[1].1 matches JsonView::Array(all) && all.len() == count && count > 0
                        && forall|d: int|
                        0 <= d < entries.len() && d < evals.len() && is_due(
                            #[trigger] entries[d],
                            side,
                            is_error,
                        ) && is_evaluated(entries[d], evals[d]) ==> {
                            let p = told_before(entries, evals, side, is_error, d);
                            0 <= p < all.len() && tells(all[p], entries[d], evals[d], side)
                        }
                },
            }
        }),
{
    let entries = rate_limit.descriptors.0@;
    lemma_told_before(entries, evals, side, is_error, entries.len() as int);
    assert(entries.take(entries.len() as int) =~= entries);
}

proof fn lemma_none_told(
    entries: Seq<RateLimitDescriptorEntry>,
    evals: Seq<EvaluatedDescriptor>,
    side: Side,
    is_error: Option<bool>,
    n: int,
)
    requires
        0 <= n <= entries.len(),
        forall|d: int|
            0 <= d < entries.len() && d < evals.len() ==> !is_due(
                #[trigger] entries[d],
                side,
                is_error,
            ) || !is_evaluated(entries[d], evals[d]),
    ensures
        told_before(entries, evals, side, is_error, n) == 0,
    decreases n,
{
    if n > 0 {
        lemma_none_told(entries, evals, side, is_error, n - 1);
        if n <= evals.len() {
            assert(!is_due(entries[n - 1], side, is_error) || !is_evaluated(
                entries[n - 1],
                evals[n - 1],
            ));
        }
    }
}

/// Where no descriptor is due and evaluated, the service is not asked.
pub proof fn law_nothing_due_asks_nothing(
    rate_limit: RateLimit,
    evals: Seq<EvaluatedDescriptor>,
    side: Side,
    is_error: Option<bool>,
)
    requires
        forall|d: int|
            0 <= d < rate_limit.descriptors.0@.len() && d < evals.len() ==> !is_due(
                #[trigger] rate_limit.descriptors.0@[d],
                side,
                is_error,
            ) || !is_evaluated(rate_limit.descriptors.0@[d], evals[d]),
    ensures
        rate_limit_metadata(rate_limit, evals, side, is_error) is None,
{
    let entries = rate_limit.descriptors.0@;
    law_every_part_is_told_its_value(rate_limit, evals, side, is_error);
    lemma_none_told(entries, evals, side, is_error, entries.len() as int);
}

/// The unit that the service is told is the one that is written, in capital letters.
pub proof fn law_unit_is_the_written_one(unit: Seq<char>)
    ensures
        unit_name(unit) matches Some(told) ==> {
            &&& text::same_but_case(unit, told)
            &&& forall|i: int| 0 <= i < told.len() ==> 'A' <= #[trigger] told[i] <= 'Z'
        },
        text::same_but_case(unit, "second"@) ==> unit_name(unit) is Some,
        text::same_but_case(unit, "minute"@) ==> unit_name(unit) is Some,
        text::same_but_case(unit, "hour"@) ==> unit_name(unit) is Some,
        text::same_but_case(unit, "day"@) ==> unit_name(unit) is Some,
        text::same_but_case(unit, "month"@) ==> unit_name(unit) is Some,
        text::same_but_case(unit, "year"@) ==> unit_name(unit) is Some,
{
    reveal_strlit("second");
    reveal_strlit("SECOND");
    reveal_strlit("minute");
    reveal_strlit("MINUTE");
    reveal_strlit("hour");
    reveal_strlit("HOUR");
    reveal_strlit("day");
    reveal_strlit("DAY");
    reveal_strlit("month");
    reveal_strlit("MONTH");
    reveal_strlit("year");
    reveal_strlit("YEAR");
}

} // verus!
