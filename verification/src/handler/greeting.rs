//! What holds of the answer to `initialize` when several upstreams stand behind the gateway.

use crate::handler::RelayView;
use crate::handler::merge::{
    given_instructions, initialized, lowest_version, merged_initialize, with_answers,
};
use crate::json::JsonView;
use crate::mcp_apps::capabilities::CapabilitiesView;
use crate::mcp_apps::server_info::merged_instructions;
use crate::model::{InitializeResultView, ServerResultView};
use crate::rewrite::UpstreamInstructionsMode;
use crate::text;
use vstd::prelude::*;
use vstd::string::*;

verus! {

/// `words` are the gateway's own: those that are configured, or else the default.
pub open spec fn is_preamble(relay: RelayView, words: Seq<char>) -> bool {
    match relay.rewrite.server {
        Some(s) => match s.instructions {
            Some(configured) => words == configured,
            None => words == "This server is a gateway to a set of mcp servers. It is responsible for routing requests to the correct server and aggregating the results."@,
        },
        None => words == "This server is a gateway to a set of mcp servers. It is responsible for routing requests to the correct server and aggregating the results."@,
    }
}

/// The upstreams' words follow the gateway's: nothing is configured for the gateway, or its mode
/// is to append or to prepend.
pub open spec fn upstreams_are_heard(relay: RelayView) -> bool {
    match relay.rewrite.server {
        Some(s) => s.upstream_instructions == UpstreamInstructionsMode::Append
            || s.upstream_instructions == UpstreamInstructionsMode::Prepend,
        None => true,
    }
}

/// Only the gateway's words are heard: its mode is to replace.
pub open spec fn upstreams_are_replaced(relay: RelayView) -> bool {
    relay.rewrite.server matches Some(s) && s.upstream_instructions
        == UpstreamInstructionsMode::Replace
}

/// What one upstream says, under its name.
pub open spec fn block(name: Seq<char>, words: Seq<char>) -> Seq<char> {
    "\n\n["@ + name + "]\n"@ + words
}

/// Where the gateway's words replace those of the upstreams, they are all the instructions.
pub proof fn law_replace_leaves_the_preamble(
    relay: RelayView,
    pv: Seq<char>,
    streams: Seq<(Seq<char>, ServerResultView)>,
    build_version: Seq<char>,
    preamble: Seq<char>,
)
    requires
        upstreams_are_replaced(relay),
        is_preamble(relay, preamble),
    ensures
        merged_initialize(relay, pv, true, streams, build_version).instructions == Some(preamble),
{
}

proof fn lemma_one_more_answer(
    pv: Seq<char>,
    known: CapabilitiesView,
    streams: Seq<(Seq<char>, ServerResultView)>,
    server: Seq<char>,
    answer: ServerResultView,
)
    ensures
        ({
            let more = streams.push((server, answer));
            match answer {
                ServerResultView::InitializeResult(r) => {
                    &&& initialized(more) == initialized(streams).push((server, r))
                    &&& given_instructions(initialized(more)) == (match r.instructions {
                        Some(words) => if words.len() > 0 {
                            given_instructions(initialized(streams)).push((server, words))
                        } else {
                            given_instructions(initialized(streams))
                        },
                        None => given_instructions(initialized(streams)),
                    })
                    &&& lowest_version(pv, initialized(more)) == if text::comes_before(
                        r.protocol_version,
                        lowest_version(pv, initialized(streams)),
                    ) {
                        r.protocol_version
                    } else {
                        lowest_version(pv, initialized(streams))
                    }
                    &&& with_answers(known, initialized(more)) == with_answers(
                        known,
                        initialized(streams),
                    ).insert(server, r.capabilities)
                },
                _ => initialized(more) == initialized(streams),
            }
        }),
{
    let more = streams.push((server, answer));
    assert(more.drop_last() =~= streams);
    if let ServerResultView::InitializeResult(r) = answer {
        let a = initialized(streams).push((server, r));
        assert(a.drop_last() =~= initialized(streams));
    }
}

/// Where the upstreams are heard, the instructions are the gateway's words while no upstream has
/// answered; each further answer that has words adds them behind all that is there, under the name
/// of the upstream, and any other answer adds nothing.
pub proof fn law_each_upstream_adds_its_words(
    relay: RelayView,
    pv: Seq<char>,
    streams: Seq<(Seq<char>, ServerResultView)>,
    server: Seq<char>,
    answer: ServerResultView,
    build_version: Seq<char>,
    preamble: Seq<char>,
)
    requires
        upstreams_are_heard(relay),
        is_preamble(relay, preamble),
    ensures
        merged_initialize(relay, pv, true, Seq::empty(), build_version).instructions == Some(
            preamble,
        ),
        ({
            let less = merged_initialize(relay, pv, true, streams, build_version);
            let more = merged_initialize(
                relay,
                pv,
                true,
                streams.push((server, answer)),
                build_version,
            );
            &&& less.instructions is Some
            &&& more.instructions == match answer {
                ServerResultView::InitializeResult(r) => match r.instructions {
                    Some(words) => if words.len() == 0 {
                        less.instructions
                    } else {
                        Some(less.instructions->0 + "\n\n["@ + server + "]\n"@ + words)
                    },
                    None => less.instructions,
                },
                _ => less.instructions,
            }
        }),
{
    lemma_one_more_answer(pv, CapabilitiesView::empty(), streams, server, answer);
    let given = given_instructions(initialized(streams));
    if let ServerResultView::InitializeResult(r) = answer {
        if let Some(words) = r.instructions {
            assert(given.push((server, words)).drop_last() =~= given);
        }
    }
}

proof fn lemma_words_grow(preamble: Seq<char>, given: Seq<(Seq<char>, Seq<char>)>, k: int)
    requires
        0 <= k <= given.len(),
    ensures
        merged_instructions(preamble, given.take(k)).is_prefix_of(
            merged_instructions(preamble, given),
        ),
    decreases given.len(),
{
    let all = merged_instructions(preamble, given);
    if k < given.len() {
        let head = given.drop_last();
        assert(head.take(k) =~= given.take(k));
        lemma_words_grow(preamble, head, k);
        let before = merged_instructions(preamble, head);
        let part = merged_instructions(preamble, given.take(k));
        assert(before =~= all.subrange(0, before.len() as int));
        assert(part =~= before.subrange(0, part.len() as int));
        assert(part =~= all.subrange(0, part.len() as int));
    } else {
        assert(given.take(k) =~= given);
        assert(all =~= all.subrange(0, all.len() as int));
    }
}

/// Where block `k` stands in the instructions.
proof fn lemma_block(preamble: Seq<char>, given: Seq<(Seq<char>, Seq<char>)>, k: int)
    requires
        0 <= k < given.len(),
    ensures
        ({
            let all = merged_instructions(preamble, given);
            let a = merged_instructions(preamble, given.take(k)).len();
            let b = merged_instructions(preamble, given.take(k + 1)).len();
            preamble.len() <= a && b == a + block(given[k].0, given[k].1).len() && b <= all.len()
                && all.subrange(a as int, b as int) == block(given[k].0, given[k].1)
        }),
{
    let all = merged_instructions(preamble, given);
    let upto = merged_instructions(preamble, given.take(k));
    let with = merged_instructions(preamble, given.take(k + 1));
    lemma_words_grow(preamble, given, k + 1);
    lemma_words_grow(preamble, given.take(k), 0);
    assert(given.take(k).take(0) =~= Seq::<(Seq<char>, Seq<char>)>::empty());
    assert(given.take(k + 1).drop_last() =~= given.take(k));
    assert(given.take(k + 1).last() == given[k]);
    assert(with =~= upto + block(given[k].0, given[k].1));
    assert(all.subrange(0, with.len() as int) =~= with);
    assert(all.subrange(upto.len() as int, with.len() as int) =~= with.subrange(
        upto.len() as int,
        with.len() as int,
    ));
    assert(with.subrange(upto.len() as int, with.len() as int) =~= block(given[k].0, given[k].1));
}

proof fn lemma_words_of(streams: Seq<(Seq<char>, ServerResultView)>, i: int) -> (k: int)
    requires
        0 <= i < streams.len(),
        streams[i].1 matches ServerResultView::InitializeResult(r) && r.instructions matches Some(
            words,
        ) && words.len() > 0,
    ensures
        k == given_instructions(initialized(streams.take(i))).len(),
        0 <= k < given_instructions(initialized(streams)).len(),
        given_instructions(initialized(streams))[k] == (
            streams[i].0,
            streams[i].1->InitializeResult_0.instructions->0,
        ),
    decreases streams.len(),
{
    let head = streams.drop_last();
    assert(streams =~= head.push(streams.last()));
    lemma_one_more_answer(
        Seq::empty(),
        CapabilitiesView::empty(),
        head,
        streams.last().0,
        streams.last().1,
    );
    if i < head.len() {
        assert(head[i] == streams[i]);
        assert(head.take(i) =~= streams.take(i));
        lemma_words_of(head, i)
    } else {
        assert(streams.take(i) =~= head);
        given_instructions(initialized(head)).len() as int
    }
}

/// Answer `i` has words.
pub open spec fn has_words(streams: Seq<(Seq<char>, ServerResultView)>, i: int) -> bool {
    0 <= i < streams.len() && (streams[i].1 matches ServerResultView::InitializeResult(r)
        && r.instructions matches Some(words) && words.len() > 0)
}

/// Where the upstreams are heard, the instructions start with the gateway's words, and behind them
/// stand the words of every upstream that has any, under its name, in the order of the answers:
/// those of answer `i`, and further on those of any later answer `k`.
pub proof fn law_every_upstream_is_heard(
    relay: RelayView,
    pv: Seq<char>,
    streams: Seq<(Seq<char>, ServerResultView)>,
    build_version: Seq<char>,
    preamble: Seq<char>,
    i: int,
    k: int,
) -> (at: (int, int))
    requires
        upstreams_are_heard(relay),
        is_preamble(relay, preamble),
        has_words(streams, i),
        has_words(streams, k),
        i < k,
    ensures
        merged_initialize(relay, pv, true, streams, build_version).instructions matches Some(all)
            && {
            let first = "["@ + streams[i].0 + "]\n"@
                + streams[i].1->InitializeResult_0.instructions->0;
            let second = "["@ + streams[k].0 + "]\n"@
                + streams[k].1->InitializeResult_0.instructions->0;
            &&& preamble.is_prefix_of(all)
            &&& preamble.len() <= at.0
            &&& at.0 + first.len() <= at.1
            &&& at.1 + second.len() <= all.len()
            &&& all.subrange(at.0, at.0 + first.len()) == first
            &&& all.subrange(at.1, at.1 + second.len()) == second
        },
{
    reveal_strlit("\n\n[");
    reveal_strlit("[");
    let given = given_instructions(initialized(streams));
    let all = merged_instructions(preamble, given);
    let a = lemma_words_of(streams, i);
    let b = lemma_words_of(streams, k);
    let upto = streams.take(k);
    assert(upto[i] == streams[i]);
    assert(upto.take(i) =~= streams.take(i));
    let _ = lemma_words_of(upto, i);
    assert(a < b);
    lemma_words_grow(preamble, given, 0);
    assert(given.take(0) =~= Seq::<(Seq<char>, Seq<char>)>::empty());
    lemma_block(preamble, given, a);
    lemma_block(preamble, given, b);
    lemma_words_grow(preamble, given.take(b), a + 1);
    assert(given.take(b).take(a + 1) =~= given.take(a + 1));
    let pa = merged_instructions(preamble, given.take(a)).len() as int;
    let pb = merged_instructions(preamble, given.take(b)).len() as int;
    let first = "["@ + given[a].0 + "]\n"@ + given[a].1;
    let second = "["@ + given[b].0 + "]\n"@ + given[b].1;
    let ba = block(given[a].0, given[a].1);
    let bb = block(given[b].0, given[b].1);
    assert(ba.subrange(2, ba.len() as int) =~= first);
    assert(bb.subrange(2, bb.len() as int) =~= second);
    assert(all.subrange(pa + 2, pa + 2 + first.len()) =~= all.subrange(
        pa,
        pa + ba.len(),
    ).subrange(2, ba.len() as int));
    assert(all.subrange(pb + 2, pb + 2 + second.len()) =~= all.subrange(
        pb,
        pb + bb.len(),
    ).subrange(2, bb.len() as int));
    (pa + 2, pb + 2)
}

/// Where the upstreams are heard, the words of a single upstream stand behind the gateway's too.
pub proof fn law_an_upstream_is_heard(
    relay: RelayView,
    pv: Seq<char>,
    streams: Seq<(Seq<char>, ServerResultView)>,
    build_version: Seq<char>,
    preamble: Seq<char>,
    i: int,
) -> (at: int)
    requires
        upstreams_are_heard(relay),
        is_preamble(relay, preamble),
        has_words(streams, i),
    ensures
        merged_initialize(relay, pv, true, streams, build_version).instructions matches Some(all)
            && {
            let words = "["@ + streams[i].0 + "]\n"@
                + streams[i].1->InitializeResult_0.instructions->0;
            &&& preamble.is_prefix_of(all)
            &&& preamble.len() <= at
            &&& at + words.len() <= all.len()
            &&& all.subrange(at, at + words.len()) == words
        },
{
    reveal_strlit("\n\n[");
    reveal_strlit("[");
    let given = given_instructions(initialized(streams));
    let all = merged_instructions(preamble, given);
    let a = lemma_words_of(streams, i);
    lemma_words_grow(preamble, given, 0);
    assert(given.take(0) =~= Seq::<(Seq<char>, Seq<char>)>::empty());
    lemma_block(preamble, given, a);
    let pa = merged_instructions(preamble, given.take(a)).len() as int;
    let words = "["@ + given[a].0 + "]\n"@ + given[a].1;
    let ba = block(given[a].0, given[a].1);
    assert(ba.subrange(2, ba.len() as int) =~= words);
    assert(all.subrange(pa + 2, pa + 2 + words.len()) =~= all.subrange(
        pa,
        pa + ba.len(),
    ).subrange(2, ba.len() as int));
    pa + 2
}

/// The gateway answers with the protocol version that the client asked for, lowered by every
/// upstream that answers with one that comes before it.
pub proof fn law_version_is_lowered(
    relay: RelayView,
    pv: Seq<char>,
    streams: Seq<(Seq<char>, ServerResultView)>,
    server: Seq<char>,
    answer: ServerResultView,
    build_version: Seq<char>,
)
    ensures
        merged_initialize(relay, pv, true, Seq::empty(), build_version).protocol_version == pv,
        ({
            let less = merged_initialize(relay, pv, true, streams, build_version).protocol_version;
            let more = merged_initialize(
                relay,
                pv,
                true,
                streams.push((server, answer)),
                build_version,
            ).protocol_version;
            more == match answer {
                ServerResultView::InitializeResult(r) => if text::comes_before(
                    r.protocol_version,
                    less,
                ) {
                    r.protocol_version
                } else {
                    less
                },
                _ => less,
            }
        }),
{
    lemma_one_more_answer(pv, CapabilitiesView::empty(), streams, server, answer);
}

proof fn lemma_lowest_is_one(
    pv: Seq<char>,
    streams: Seq<(Seq<char>, ServerResultView)>,
)
    ensures
        ({
            let low = lowest_version(pv, initialized(streams));
            low == pv || exists|i: int|
                0 <= i < streams.len() && (#[trigger] streams[i].1 matches
                ServerResultView::InitializeResult(r) && r.protocol_version == low)
        }),
    decreases streams.len(),
{
    if streams.len() > 0 {
        let head = streams.drop_last();
        assert(streams =~= head.push(streams.last()));
        lemma_lowest_is_one(pv, head);
        lemma_one_more_answer(
            pv,
            CapabilitiesView::empty(),
            head,
            streams.last().0,
            streams.last().1,
        );
        let before = lowest_version(pv, initialized(head));
        let low = lowest_version(pv, initialized(streams));
        if low == before {
            if low != pv {
                let i = choose|i: int|
                    0 <= i < head.len() && (#[trigger] head[i].1 matches
                    ServerResultView::InitializeResult(r) && r.protocol_version == low);
                assert(streams[i].1 == head[i].1);
            }
        } else {
            assert(streams[streams.len() - 1].1 matches ServerResultView::InitializeResult(r)
                && r.protocol_version == low);
        }
    }
}

/// The protocol version of the answer is the one that the client asked for, or that of an
/// upstream.
pub proof fn law_version_is_somebodys(
    relay: RelayView,
    pv: Seq<char>,
    streams: Seq<(Seq<char>, ServerResultView)>,
    build_version: Seq<char>,
)
    ensures
        ({
            let low = merged_initialize(relay, pv, true, streams, build_version).protocol_version;
            low == pv || exists|i: int|
                0 <= i < streams.len() && (#[trigger] streams[i].1 matches
                ServerResultView::InitializeResult(r) && r.protocol_version == low)
        }),
{
    lemma_lowest_is_one(pv, streams);
}

/// What the gateway says of itself where it speaks for several upstreams: its configured name and
/// version, or else `agentgateway` and its build; that it has tools whose list may change, prompts,
/// resources, with subscriptions where it keeps sessions, and tasks.
pub proof fn law_the_gateway_names_itself(
    relay: RelayView,
    pv: Seq<char>,
    streams: Seq<(Seq<char>, ServerResultView)>,
    build_version: Seq<char>,
)
    ensures
        ({
            let r = merged_initialize(relay, pv, true, streams, build_version);
            &&& r.server_name == (match relay.rewrite.server {
                Some(s) => match s.name {
                    Some(n) => n,
                    None => "agentgateway"@,
                },
                None => "agentgateway"@,
            })
            &&& r.server_version == (match relay.rewrite.server {
                Some(s) => match s.version {
                    Some(n) => n,
                    None => build_version,
                },
                None => build_version,
            })
            &&& r.rest == JsonView::Null
            &&& r.capabilities.tools matches Some(t) && t.list_changed == Some(true)
            &&& r.capabilities.prompts matches Some(p) && p.list_changed is None
            &&& r.capabilities.resources matches Some(s) && s.list_changed is None
                && s.subscribe == (if relay.stateful {
                Some(true)
            } else {
                None
            })
            &&& r.capabilities.tasks matches Some(t) && t.list && t.cancel && t.requests_tools_call
        }),
{
}

/// With one upstream, its answer is the gateway's, whatever is configured.
pub proof fn law_a_single_answer_is_handed_on(
    relay: RelayView,
    pv: Seq<char>,
    server: Seq<char>,
    answer: InitializeResultView,
    others: Seq<(Seq<char>, ServerResultView)>,
    build_version: Seq<char>,
)
    ensures
        merged_initialize(
            relay,
            pv,
            false,
            seq![(server, ServerResultView::InitializeResult(answer))] + others,
            build_version,
        ) == answer,
{
    let streams = seq![(server, ServerResultView::InitializeResult(answer))] + others;
    assert(streams[0] == (server, ServerResultView::InitializeResult(answer)));
}

/// What each upstream says it can do is known under its name once it has answered, in place of
/// what it said before; an answer of another kind says nothing, and nothing else changes.
pub proof fn law_each_answer_is_remembered(
    known: CapabilitiesView,
    streams: Seq<(Seq<char>, ServerResultView)>,
    server: Seq<char>,
    answer: ServerResultView,
)
    ensures
        with_answers(known, initialized(Seq::empty())) == known,
        with_answers(known, initialized(streams.push((server, answer)))) == match answer {
            ServerResultView::InitializeResult(r) => with_answers(
                known,
                initialized(streams),
            ).insert(server, r.capabilities),
            _ => with_answers(known, initialized(streams)),
        },
{
    lemma_one_more_answer(Seq::empty(), known, streams, server, answer);
}

/// With one upstream that did not answer as it should, the gateway answers for itself: with the
/// version that the client asked for, its own words alone, and no word of a tool list that may
/// change.
pub proof fn law_the_gateway_answers_for_itself(
    relay: RelayView,
    pv: Seq<char>,
    streams: Seq<(Seq<char>, ServerResultView)>,
    build_version: Seq<char>,
    preamble: Seq<char>,
)
    requires
        streams.len() > 0 ==> !(streams[0].1 is InitializeResult),
        is_preamble(relay, preamble),
    ensures
        ({
            let r = merged_initialize(relay, pv, false, streams, build_version);
            let several = merged_initialize(relay, pv, true, Seq::empty(), build_version);
            &&& r.protocol_version == pv
            &&& r.instructions == Some(preamble)
            &&& r.server_name == several.server_name
            &&& r.server_version == several.server_version
            &&& r.capabilities.tools matches Some(t) && t.list_changed is None
            &&& r.capabilities.prompts == several.capabilities.prompts
            &&& r.capabilities.resources == several.capabilities.resources
            &&& r.capabilities.tasks == several.capabilities.tasks
        }),
{
}

proof fn lemma_lowest(pv: Seq<char>, streams: Seq<(Seq<char>, ServerResultView)>)
    ensures
        ({
            let low = lowest_version(pv, initialized(streams));
            &&& !text::comes_before(pv, low)
            &&& forall|i: int|
                0 <= i < streams.len() && #[trigger] streams[i].1 is InitializeResult
                    ==> !text::comes_before(
                    streams[i].1->InitializeResult_0.protocol_version,
                    low,
                )
        }),
    decreases streams.len(),
{
    let low = lowest_version(pv, initialized(streams));
    if streams.len() == 0 {
        text::law_order_of_strings(pv, pv, pv);
    } else {
        let head = streams.drop_last();
        assert(streams =~= head.push(streams.last()));
        lemma_lowest(pv, head);
        lemma_one_more_answer(
            pv,
            CapabilitiesView::empty(),
            head,
            streams.last().0,
            streams.last().1,
        );
        let before = lowest_version(pv, initialized(head));
        text::law_order_of_strings(pv, low, before);
        text::law_order_of_strings(low, low, low);
        assert forall|i: int|
            0 <= i < streams.len() && #[trigger] streams[i].1 is InitializeResult implies
            !text::comes_before(
            streams[i].1->InitializeResult_0.protocol_version,
            low,
        ) by {
            let v = streams[i].1->InitializeResult_0.protocol_version;
            if i < head.len() {
                assert(head[i].1 is InitializeResult);
                text::law_order_of_strings(v, low, before);
            }
        }
    }
}

/// The protocol version of the answer is the lowest: neither the one that the client asked for nor
/// that of any upstream that answered comes before it.
pub proof fn law_version_is_the_lowest(
    relay: RelayView,
    pv: Seq<char>,
    streams: Seq<(Seq<char>, ServerResultView)>,
    build_version: Seq<char>,
    i: int,
)
    ensures
        ({
            let low = merged_initialize(relay, pv, true, streams, build_version).protocol_version;
            &&& !text::comes_before(pv, low)
            &&& 0 <= i < streams.len() && streams[i].1 is InitializeResult ==> !text::comes_before(
                streams[i].1->InitializeResult_0.protocol_version,
                low,
            )
        }),
{
    lemma_lowest(pv, streams);
}

} // verus!
