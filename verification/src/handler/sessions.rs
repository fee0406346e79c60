//! Session state of the upstream servers, kept and restored.

use crate::decimal;
use crate::handler::Relay;
use crate::model::opt_str;
use crate::rewrite::copy_opt_str;
use crate::text;
use vstd::prelude::*;
use vstd::string::*;

verus! {

/// The session that the gateway has with one upstream server.
#[derive(Debug, PartialEq, Eq)]
pub struct MCPSession {
    pub session: Option<String>,
    pub backend: Option<String>,
    pub target_name: Option<String>,
}

/// The mathematical session.
pub struct MCPSessionView {
    pub session: Option<Seq<char>>,
    pub backend: Option<Seq<char>>,
    pub target_name: Option<Seq<char>>,
}

impl View for MCPSession {
    type V = MCPSessionView;

    open spec fn view(&self) -> MCPSessionView {
        MCPSessionView {
            session: opt_str(self.session),
            backend: opt_str(self.backend),
            target_name: opt_str(self.target_name),
        }
    }
}

/// The sessions of a vector.
pub open spec fn sessions_view(v: Seq<MCPSession>) -> Seq<MCPSessionView> {
    Seq::new(v.len(), |i: int| v[i]@)
}

/// No session says which target it is for.
pub open spec fn all_unkeyed(sessions: Seq<MCPSessionView>) -> bool {
    forall|i: int| 0 <= i < sessions.len() ==> (#[trigger] sessions[i]).target_name is None
}

/// Each session says which target it is for.
pub open spec fn all_keyed(sessions: Seq<MCPSessionView>) -> bool {
    forall|i: int| 0 <= i < sessions.len() ==> (#[trigger] sessions[i]).target_name is Some
}

/// The position of the first session at or after `i` that is for `target`.
pub open spec fn session_index(sessions: Seq<MCPSessionView>, target: Seq<char>, i: int) -> Option<int>
    decreases sessions.len() - i,
{
    if i < 0 || i >= sessions.len() {
        None
    } else if sessions[i].target_name == Some(target) {
        Some(i)
    } else {
        session_index(sessions, target, i + 1)
    }
}

/// The target of the first session that has the target of an earlier one.
pub open spec fn first_duplicate(sessions: Seq<MCPSessionView>, i: int) -> Option<Seq<char>>
    decreases sessions.len() - i,
{
    if i < 0 || i >= sessions.len() {
        None
    } else if sessions[i].target_name is Some && session_index(
        sessions.take(i),
        sessions[i].target_name->0,
        0,
    ) is Some {
        sessions[i].target_name
    } else {
        first_duplicate(sessions, i + 1)
    }
}

/// The first target at or after `i` that no session is for.
pub open spec fn first_missing(
    targets: Seq<Seq<char>>,
    sessions: Seq<MCPSessionView>,
    i: int,
) -> Option<Seq<char>>
    decreases targets.len() - i,
{
    if i < 0 || i >= targets.len() {
        None
    } else if session_index(sessions, targets[i], 0) is None {
        Some(targets[i])
    } else {
        first_missing(targets, sessions, i + 1)
    }
}

/// Which session each target resumes, or why none is resumed.
///
/// Sessions that name no target go by position. Else each must name one, no two the same, and the
/// named targets must be exactly those that there are: to resume nothing is safer than to resume
/// the session of another target.
pub open spec fn assigned(targets: Seq<Seq<char>>, sessions: Seq<MCPSessionView>) -> Result<
    Seq<MCPSessionView>,
    Seq<char>,
> {
    if all_unkeyed(sessions) {
        if sessions.len() != targets.len() {
            Err(
                "session count "@ + decimal::decimal_text(sessions.len() as int)
                    + " did not match initialized upstreams "@ + decimal::decimal_text(
                    targets.len() as int,
                ),
            )
        } else {
            Ok(sessions)
        }
    } else if !all_keyed(sessions) {
        Err("mixed keyed and unkeyed MCP session state is unsupported"@)
    } else if first_duplicate(sessions, 0) is Some {
        Err("duplicate persisted session for target "@ + first_duplicate(sessions, 0)->0)
    } else if sessions.len() != targets.len() {
        Err(
            "persisted target count "@ + decimal::decimal_text(sessions.len() as int)
                + " did not match initialized upstreams "@ + decimal::decimal_text(
                targets.len() as int,
            ),
        )
    } else if first_missing(targets, sessions, 0) is Some {
        Err("missing persisted session for target "@ + first_missing(targets, sessions, 0)->0)
    } else {
        Ok(
            Seq::new(
                targets.len(),
                |i: int| sessions[session_index(sessions, targets[i], 0)->0],
            ),
        )
    }
}

impl MCPSession {
    /// A copy of the session.
    pub fn copy(&self) -> (r: MCPSession)
        ensures
            r@ == self@,
    {
        MCPSession {
            session: copy_opt_str(&self.session),
            backend: copy_opt_str(&self.backend),
            target_name: copy_opt_str(&self.target_name),
        }
    }
}

fn find_session(sessions: &Vec<MCPSession>, target: &str, end: usize) -> (r: Option<usize>)
    requires
        end <= sessions@.len(),
    ensures
        match r {
            Some(i) => session_index(sessions_view(sessions@).take(end as int), target@, 0) == Some(
                i as int,
            ) && i < end,
            None => session_index(sessions_view(sessions@).take(end as int), target@, 0) is None,
        },
{
    let ghost all = sessions_view(sessions@).take(end as int);
    let mut i: usize = 0;
    while i < end
        invariant
            i <= end <= sessions@.len(),
            all == sessions_view(sessions@).take(end as int),
            session_index(all, target@, 0) == session_index(all, target@, i as int),
        decreases end - i,
    {
        assert(all[i as int] == sessions@[i as int]@);
        if let Some(name) = &sessions[i].target_name {
            if text::same(name.as_str(), target) {
                return Some(i);
            }
        }
        i += 1;
    }
    None
}

fn count_message(what: &str, count: usize, upstreams: usize) -> (r: String)
    ensures
        r@ == what@ + decimal::decimal_text(count as int) + " did not match initialized upstreams "@
            + decimal::decimal_text(upstreams as int),
{
    let a = decimal::format_u64(count as u64);
    let b = decimal::format_u64(upstreams as u64);
    let mut r = text::concat3(what, a.as_str(), " did not match initialized upstreams ");
    r.append(b.as_str());
    r
}

impl Relay {
    /// The sessions of all servers, where each has one.
    pub fn get_sessions(&self, states: Vec<Option<MCPSession>>) -> (r: Option<Vec<MCPSession>>)
        ensures
            match r {
                Some(v) => v@.len() == states@.len() && forall|i: int|
                    0 <= i < states@.len() ==> #[trigger] states@[i] == Some(v@[i]),
                None => exists|i: int| 0 <= i < states@.len() && (#[trigger] states@[i]) is None,
            },
    {
        let ghost all = states@;
        let mut out: Vec<MCPSession> = Vec::new();
        for state in it: states
            invariant
                all == it.seq(),
                out@.len() == it.index(),
                forall|i: int| 0 <= i < it.index() ==> #[trigger] all[i] == Some(out@[i]),
        {
            let ghost i = it.index();
            assert(all[i] == state);
            match state {
                Some(session) => {
                    out.push(session);
                },
                None => {
                    return None;
                },
            }
        }
        Some(out)
    }

    /// Which session each target resumes, in the order of the targets, or why none is resumed.
    pub fn set_sessions(&self, sessions: Vec<MCPSession>) -> (r: Result<Vec<MCPSession>, String>)
        ensures
            match assigned(self@.targets, sessions_view(sessions@)) {
                Ok(v) => r matches Ok(x) && sessions_view(x@) == v,
                Err(m) => r matches Err(x) && x@ == m,
            },
    {
        let ghost all = sessions_view(sessions@);
        let ghost targets = self@.targets;
        let n: usize = sessions.len();
        let mut keyed: usize = 0;
        let mut i: usize = 0;
        while i < n
            invariant
                n == sessions@.len(),
                all == sessions_view(sessions@),
                i <= n,
                keyed <= i,
                keyed == 0 <==> (forall|k: int|
                    0 <= k < i ==> (#[trigger] all[k]).target_name is None),
                keyed == i <==> (forall|k: int|
                    0 <= k < i ==> (#[trigger] all[k]).target_name is Some),
            decreases n - i,
        {
            assert(all[i as int] == sessions@[i as int]@);
            if sessions[i].target_name.is_some() {
                keyed += 1;
            }
            i += 1;
        }
        if keyed == 0 {
            assert(all_unkeyed(all));
            if n != self.targets.len() {
                return Err(count_message("session count ", n, self.targets.len()));
            }
            return Ok(sessions);
        }
        assert(!all_unkeyed(all));
        if keyed != n {
            return Err("mixed keyed and unkeyed MCP session state is unsupported".to_owned());
        }
        let mut i: usize = 0;
        while i < n
            invariant
                n == sessions@.len(),
                all == sessions_view(sessions@),
                all_keyed(all),
                !all_unkeyed(all),
                targets == self@.targets,
                i <= n,
                first_duplicate(all, 0) == first_duplicate(all, i as int),
            decreases n - i,
        {
            assert(all[i as int] == sessions@[i as int]@);
            if let Some(name) = &sessions[i].target_name {
                if find_session(&sessions, name.as_str(), i).is_some() {
                    return Err(
                        text::concat("duplicate persisted session for target ", name.as_str()),
                    );
                }
            }
            i += 1;
        }
        if n != self.targets.len() {
            return Err(count_message("persisted target count ", n, self.targets.len()));
        }
        let mut out: Vec<MCPSession> = Vec::new();
        let mut i: usize = 0;
        assert(all.take(n as int) =~= all);
        while i < self.targets.len()
            invariant
                n == sessions@.len(),
                n == self.targets@.len(),
                all == sessions_view(sessions@),
                all.take(n as int) == all,
                all_keyed(all),
                !all_unkeyed(all),
                first_duplicate(all, 0) is None,
                targets == self@.targets,
                i <= n,
                out@.len() == i,
                first_missing(targets, all, 0) == first_missing(targets, all, i as int),
                forall|k: int|
                    0 <= k < i ==> (#[trigger] out@[k])@ == all[session_index(
                        all,
                        targets[k],
                        0,
                    )->0],
            decreases n - i,
        {
            assert(targets[i as int] == self.targets@[i as int]@);
            match find_session(&sessions, self.targets[i].as_str(), n) {
                Some(k) => {
                    out.push(sessions[k].copy());
                },
                None => {
                    return Err(
                        text::concat(
                            "missing persisted session for target ",
                            self.targets[i].as_str(),
                        ),
                    );
                },
            }
            i += 1;
        }
        assert(sessions_view(out@) =~= Seq::new(
            targets.len(),
            |i: int| all[session_index(all, targets[i], 0)->0],
        ));
        Ok(out)
    }
}

/// A target that resumes a session which names its target resumes its own.
pub proof fn law_resumed_session_is_own(
    targets: Seq<Seq<char>>,
    sessions: Seq<MCPSessionView>,
    i: int,
)
    requires
        !all_unkeyed(sessions),
        assigned(targets, sessions) is Ok,
        0 <= i < targets.len(),
    ensures
        assigned(targets, sessions)->Ok_0.len() == targets.len(),
        assigned(targets, sessions)->Ok_0[i].target_name == Some(targets[i]),
{
    lemma_first_missing(targets, sessions, 0, i);
    lemma_session_index(sessions, targets[i], 0);
}

/// What was kept is resumed, in whatever order it was kept: where each session names its target,
/// no two name the same, and there is one for each target, all targets resume their sessions.
pub proof fn law_kept_sessions_are_resumed(
    targets: Seq<Seq<char>>,
    sessions: Seq<MCPSessionView>,
)
    requires
        sessions.len() == targets.len(),
        all_keyed(sessions),
        forall|i: int, j: int|
            0 <= i < j < sessions.len() ==> (#[trigger] sessions[i]).target_name != (
            #[trigger] sessions[j]).target_name,
        forall|i: int|
            0 <= i < targets.len() ==> exists|k: int|
                0 <= k < sessions.len() && (#[trigger] sessions[k]).target_name == Some(
                    #[trigger] targets[i],
                ),
    ensures
        assigned(targets, sessions) is Ok,
        forall|i: int, k: int|
            0 <= i < targets.len() && 0 <= k < sessions.len() && (
            #[trigger] sessions[k]).target_name == Some(#[trigger] targets[i])
                ==> assigned(targets, sessions)->Ok_0[i] == sessions[k],
{
    if sessions.len() > 0 {
        assert(sessions[0].target_name is Some);
        lemma_no_duplicate(sessions, 0);
        lemma_none_missing(targets, sessions, 0);
        assert forall|i: int, k: int|
            0 <= i < targets.len() && 0 <= k < sessions.len() && (
            #[trigger] sessions[k]).target_name == Some(#[trigger] targets[i]) implies assigned(
            targets,
            sessions,
        )->Ok_0[i] == sessions[k] by {
            lemma_session_found(sessions, targets[i], 0, k);
        }
    }
}

proof fn lemma_session_found(sessions: Seq<MCPSessionView>, target: Seq<char>, i: int, k: int)
    requires
        0 <= i <= k < sessions.len(),
        sessions[k].target_name == Some(target),
        forall|a: int, b: int|
            0 <= a < b < sessions.len() ==> (#[trigger] sessions[a]).target_name != (
            #[trigger] sessions[b]).target_name,
    ensures
        session_index(sessions, target, i) == Some(k),
    decreases k - i,
{
    if i < k {
        lemma_session_found(sessions, target, i + 1, k);
    }
}

proof fn lemma_no_duplicate(sessions: Seq<MCPSessionView>, i: int)
    requires
        0 <= i,
        all_keyed(sessions),
        forall|a: int, b: int|
            0 <= a < b < sessions.len() ==> (#[trigger] sessions[a]).target_name != (
            #[trigger] sessions[b]).target_name,
    ensures
        first_duplicate(sessions, i) is None,
    decreases sessions.len() - i,
{
    if i < sessions.len() {
        lemma_session_index(sessions.take(i), sessions[i].target_name->0, 0);
        lemma_no_duplicate(sessions, i + 1);
    }
}

proof fn lemma_none_missing(targets: Seq<Seq<char>>, sessions: Seq<MCPSessionView>, i: int)
    requires
        0 <= i,
        forall|a: int, b: int|
            0 <= a < b < sessions.len() ==> (#[trigger] sessions[a]).target_name != (
            #[trigger] sessions[b]).target_name,
        forall|j: int|
            0 <= j < targets.len() ==> exists|k: int|
                0 <= k < sessions.len() && (#[trigger] sessions[k]).target_name == Some(
                    #[trigger] targets[j],
                ),
    ensures
        first_missing(targets, sessions, i) is None,
    decreases targets.len() - i,
{
    if i < targets.len() {
        let k = choose|k: int|
            0 <= k < sessions.len() && (#[trigger] sessions[k]).target_name == Some(targets[i]);
        lemma_session_found(sessions, targets[i], 0, k);
        lemma_none_missing(targets, sessions, i + 1);
    }
}

proof fn lemma_first_missing(
    targets: Seq<Seq<char>>,
    sessions: Seq<MCPSessionView>,
    from: int,
    i: int,
)
    requires
        0 <= from <= i < targets.len(),
        first_missing(targets, sessions, from) is None,
    ensures
        session_index(sessions, targets[i], 0) is Some,
    decreases i - from,
{
    if from < i {
        lemma_first_missing(targets, sessions, from + 1, i);
    }
}

proof fn lemma_session_index(sessions: Seq<MCPSessionView>, target: Seq<char>, i: int)
    requires
        0 <= i,
    ensures
        session_index(sessions, target, i) matches Some(k) ==> i <= k < sessions.len()
            && sessions[k].target_name == Some(target),
    decreases sessions.len() - i,
{
    if i < sessions.len() && sessions[i].target_name != Some(target) {
        lemma_session_index(sessions, target, i + 1);
    }
}

} // verus!
