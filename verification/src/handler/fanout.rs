//! What becomes of a request that goes to several upstream servers, given how each took it.

use crate::handler::Relay;
use crate::info::FailureMode;
use crate::model::strs;
use crate::text;
use crate::upstream::{UpstreamError, invalid_request};
use vstd::prelude::*;
use vstd::string::*;

verus! {

/// How each upstream took a request, in order; `S` is what an upstream that took it hands back.
pub type Taken<S> = Vec<(String, Result<S, UpstreamError>)>;

/// The upstreams that took the request, with what they handed back.
pub open spec fn healthy<S>(results: Seq<(String, Result<S, UpstreamError>)>) -> Seq<(String, S)>
    decreases results.len(),
{
    if results.len() == 0 {
        Seq::empty()
    } else {
        let before = healthy(results.drop_last());
        match results.last().1 {
            Ok(s) => before.push((results.last().0, s)),
            Err(_) => before,
        }
    }
}

/// The position of the first upstream at or after `i` that failed.
pub open spec fn first_failure<S>(
    results: Seq<(String, Result<S, UpstreamError>)>,
    i: int,
) -> Option<int>
    decreases results.len() - i,
{
    if i < 0 || i >= results.len() {
        None
    } else if results[i].1 is Err {
        Some(i)
    } else {
        first_failure(results, i + 1)
    }
}

proof fn lemma_first_failure<S>(results: Seq<(String, Result<S, UpstreamError>)>, i: int, k: int)
    requires
        0 <= i <= k < results.len(),
        results[k].1 is Err,
        forall|j: int| i <= j < k ==> (#[trigger] results[j]).1 is Ok,
    ensures
        first_failure(results, i) == Some(k),
    decreases k - i,
{
    if i < k {
        assert(results[i].1 is Ok);
        lemma_first_failure(results, i + 1, k);
    }
}

proof fn lemma_no_failure<S>(results: Seq<(String, Result<S, UpstreamError>)>, i: int)
    requires
        0 <= i,
        forall|j: int| 0 <= j < results.len() ==> (#[trigger] results[j]).1 is Ok,
    ensures
        first_failure(results, i) is None,
    decreases results.len() - i,
{
    if i < results.len() {
        assert(results[i].1 is Ok);
        lemma_no_failure(results, i + 1);
    }
}

/// Splits the upstreams that took a request from the first that did not.
fn split_results<S>(results: Taken<S>) -> (r: (Vec<(String, S)>, Option<(String, UpstreamError)>))
    ensures
        r.0@ == healthy(results@),
        match first_failure(results@, 0) {
            Some(k) => r.1 matches Some(f) && f.0 == results@[k].0 && results@[k].1 == Err::<
                S,
                UpstreamError,
            >(f.1),
            None => r.1 is None,
        },
{
    let ghost all = results@;
    let n: usize = results.len();
    let mut out: Vec<(String, S)> = Vec::new();
    let mut failure: Option<(String, UpstreamError)> = None;
    let ghost mut at: int = 0;
    assert(all.take(0) =~= Seq::<(String, Result<S, UpstreamError>)>::empty());
    for result in it: results
        invariant
            all == it.seq(),
            out@ == healthy(all.take(it.index())),
            failure is None ==> forall|j: int| 0 <= j < it.index() ==> (#[trigger] all[j]).1 is Ok,
            failure matches Some(f) ==> {
                &&& 0 <= at < it.index()
                &&& f.0 == all[at].0
                &&& all[at].1 == Err::<S, UpstreamError>(f.1)
                &&& forall|j: int| 0 <= j < at ==> (#[trigger] all[j]).1 is Ok
            },
    {
        let ghost i = it.index();
        assert(all.take(i + 1).drop_last() =~= all.take(i));
        assert(all.take(i + 1).last() == result);
        assert(all[i] == result);
        let (name, taken) = result;
        match taken {
            Ok(s) => {
                out.push((name, s));
            },
            Err(e) => {
                if failure.is_none() {
                    proof {
                        at = i;
                    }
                    failure = Some((name, e));
                }
            },
        }
    }
    assert(all.take(n as int) =~= all);
    proof {
        if failure is Some {
            lemma_first_failure(all, 0, at);
        } else {
            lemma_no_failure(all, 0);
        }
    }
    (out, failure)
}

/// A request to several upstreams fails as a whole: one failed, and the gateway fails closed.
pub open spec fn fails_closed<S>(
    mode: FailureMode,
    results: Seq<(String, Result<S, UpstreamError>)>,
) -> bool {
    mode == FailureMode::FailClosed && first_failure(results, 0) is Some
}

/// The error of the first upstream that failed.
pub open spec fn first_error<S>(results: Seq<(String, Result<S, UpstreamError>)>) -> UpstreamError {
    results[first_failure(results, 0)->0].1->Err_0
}

/// The error of the first upstream that failed, with its name.
pub open spec fn named_error<S>(results: Seq<(String, Result<S, UpstreamError>)>) -> UpstreamError {
    UpstreamError::FanoutError {
        name: results[first_failure(results, 0)->0].0,
        source: Box::new(first_error(results)),
    }
}

/// What an opened stream for server messages is made of.
pub enum GetStream<S> {
    /// The streams of the upstreams that have one.
    Streams(Vec<(String, S)>),
    /// No upstream has one: the connection stays open, so that the client does not try again at
    /// once.
    Pending,
}

/// The targets among `all` that are in `chosen`, in the order of `all`.
pub open spec fn chosen_targets(all: Seq<Seq<char>>, chosen: Seq<Seq<char>>) -> Seq<Seq<char>>
    decreases all.len(),
{
    if all.len() == 0 {
        all
    } else {
        let before = chosen_targets(all.drop_last(), chosen);
        if chosen.contains(all.last()) {
            before.push(all.last())
        } else {
            before
        }
    }
}

pub(crate) fn contains_str(v: &Vec<String>, s: &str) -> (r: bool)
    ensures
        r == strs(v@).contains(s@),
{
    let mut i: usize = 0;
    while i < v.len()
        invariant
            i <= v@.len(),
            forall|k: int| 0 <= k < i ==> #[trigger] strs(v@)[k] != s@,
        decreases v@.len() - i,
    {
        if text::same(v[i].as_str(), s) {
            assert(strs(v@)[i as int] == s@);
            return true;
        }
        i += 1;
    }
    false
}

impl Relay {
    /// The upstreams that a request for `targets` goes to, in the gateway's own order.
    pub fn fanout_targets(&self, targets: &Vec<String>) -> (r: Vec<String>)
        ensures
            strs(r@) == chosen_targets(self@.targets, strs(targets@)),
    {
        let ghost all = self@.targets;
        let mut out: Vec<String> = Vec::new();
        let mut i: usize = 0;
        assert(all.take(0) =~= Seq::<Seq<char>>::empty());
        assert(strs(out@) =~= Seq::<Seq<char>>::empty());
        while i < self.targets.len()
            invariant
                i <= self.targets@.len(),
                all == strs(self.targets@),
                strs(out@) == chosen_targets(all.take(i as int), strs(targets@)),
            decreases self.targets@.len() - i,
        {
            assert(all.take(i + 1).drop_last() =~= all.take(i as int));
            assert(all.take(i + 1).last() == all[i as int]);
            let ghost before = strs(out@);
            if contains_str(targets, self.targets[i].as_str()) {
                let name = self.targets[i].clone();
                out.push(name);
                assert(strs(out@) =~= before.push(name@));
            }
            i += 1;
        }
        assert(all.take(i as int) =~= all);
        out
    }

    /// Checks that a request is for a target that there is.
    pub fn find_target(&self, service_name: &str) -> (r: Result<(), UpstreamError>)
        ensures
            match r {
                Ok(_) => self@.targets.contains(service_name@),
                Err(e) => !self@.targets.contains(service_name@) && invalid_request(
                    e,
                    "unknown service "@ + service_name@,
                ),
            },
    {
        if contains_str(&self.targets, service_name) {
            Ok(())
        } else {
            Err(UpstreamError::InvalidRequest(text::concat("unknown service ", service_name)))
        }
    }

    /// What becomes of a request to all upstreams: the answers of those that took it are merged.
    /// The first failure ends it where the gateway fails closed, with the name of the upstream;
    /// where it fails open, at least one upstream must have taken it.
    pub fn send_fanout<S>(&self, results: Taken<S>) -> (r: Result<Vec<(String, S)>, UpstreamError>)
        ensures
            if fails_closed(self@.failure_mode, results@) {
                r matches Err(e) && e == named_error(results@)
            } else if healthy(results@).len() == 0 {
                r matches Err(e) && invalid_request(e, "no upstreams available"@)
            } else {
                r matches Ok(v) && v@ == healthy(results@)
            },
    {
        match self.send_fanout_to(results) {
            Err(e) => Err(e),
            Ok(streams) => if streams.len() == 0 {
                Err(UpstreamError::InvalidRequest("no upstreams available".to_owned()))
            } else {
                Ok(streams)
            },
        }
    }

    /// What becomes of a request to chosen upstreams: the answers of those that took it are
    /// merged. Where none took it there is nothing to merge, and the merged list is empty.
    pub fn send_fanout_to<S>(&self, results: Taken<S>) -> (r: Result<Vec<(String, S)>, UpstreamError>)
        ensures
            if fails_closed(self@.failure_mode, results@) {
                r matches Err(e) && e == named_error(results@)
            } else {
                r matches Ok(v) && v@ == healthy(results@)
            },
    {
        let (streams, failure) = split_results(results);
        match failure {
            Some((name, e)) => if self.failure_mode == FailureMode::FailClosed {
                Err(UpstreamError::FanoutError { name, source: Box::new(e) })
            } else {
                Ok(streams)
            },
            None => Ok(streams),
        }
    }

    /// What becomes of a request for a stream of server messages.
    pub fn send_fanout_get<S>(&self, results: Taken<S>) -> (r: Result<GetStream<S>, UpstreamError>)
        ensures
            if fails_closed(self@.failure_mode, results@) {
                r matches Err(e) && e == first_error(results@)
            } else if healthy(results@).len() == 0 {
                r matches Ok(GetStream::Pending)
            } else {
                r matches Ok(GetStream::Streams(v)) && v@ == healthy(results@)
            },
    {
        let (streams, failure) = split_results(results);
        match failure {
            Some((_, e)) => {
                if self.failure_mode == FailureMode::FailClosed {
                    return Err(e);
                }
            },
            None => {},
        }
        if streams.len() == 0 {
            Ok(GetStream::Pending)
        } else {
            Ok(GetStream::Streams(streams))
        }
    }

    /// What becomes of the deletion of all sessions: it is accepted, unless one failed and the
    /// gateway fails closed.
    pub fn send_fanout_deletion(&self, results: Taken<()>) -> (r: Result<(), UpstreamError>)
        ensures
            if fails_closed(self@.failure_mode, results@) {
                r matches Err(e) && e == first_error(results@)
            } else {
                r is Ok
            },
    {
        let (_, failure) = split_results(results);
        match failure {
            Some((_, e)) => if self.failure_mode == FailureMode::FailClosed {
                Err(e)
            } else {
                Ok(())
            },
            None => Ok(()),
        }
    }

    /// What becomes of a notification to all upstreams: it is accepted, unless one failed and the
    /// gateway fails closed.
    pub fn send_notification(&self, results: Taken<()>) -> (r: Result<(), UpstreamError>)
        ensures
            if fails_closed(self@.failure_mode, results@) {
                r matches Err(e) && e == first_error(results@)
            } else {
                r is Ok
            },
    {
        self.send_fanout_deletion(results)
    }
}

/// Failing open, a request to all upstreams succeeds as soon as one took it, and each that took it
/// is among those whose answers are merged.
pub proof fn law_fail_open_skips_failures<S>(
    results: Seq<(String, Result<S, UpstreamError>)>,
    i: int,
)
    requires
        0 <= i < results.len(),
        results[i].1 is Ok,
    ensures
        !fails_closed(FailureMode::FailOpen, results),
        healthy(results).contains((results[i].0, results[i].1->Ok_0)),
    decreases results.len(),
{
    let head = results.drop_last();
    let before = healthy(head);
    let all = healthy(results);
    if i < head.len() {
        law_fail_open_skips_failures(head, i);
        let k = choose|k: int|
            0 <= k < before.len() && before[k] == (results[i].0, results[i].1->Ok_0);
        assert(all[k] == before[k]);
    } else {
        assert(all.last() == (results[i].0, results[i].1->Ok_0));
    }
}

} // verus!
