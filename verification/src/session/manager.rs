//! The sessions that the gateway keeps.

use crate::handler::sessions::{MCPSession, assigned, sessions_view};
use crate::handler::{Relay, RelayInputs, RelayView, fresh_relay, no_backends};
use crate::info::Error;
use crate::model::RequestIdView;
use crate::session::in_flight::InFlightRegistry;
use crate::text;
use vstd::prelude::*;
use vstd::string::*;

verus! {

/// How often idle sessions are looked for, in seconds.
pub const SESSION_REAP_INTERVAL_SECONDS: u64 = 30;

/// The digits of a hexadecimal number in lower case.
pub open spec fn lower_hex(c: char) -> bool {
    ('0' <= c && c <= '9') || ('a' <= c && c <= 'f')
}

/// A random UUID (version 4) as text: hexadecimal digits in groups of 8, 4, 4, 4 and 12.
pub open spec fn is_random_uuid(s: Seq<char>) -> bool {
    &&& s.len() == 36
    &&& s[8] == '-' && s[13] == '-' && s[18] == '-' && s[23] == '-'
    &&& s[14] == '4'
    &&& s[19] == '8' || s[19] == '9' || s[19] == 'a' || s[19] == 'b'
    &&& forall|i: int|
        0 <= i < 36 && i != 8 && i != 13 && i != 18 && i != 23 ==> lower_hex(#[trigger] s[i])
}

/// Calls `uuid::Uuid::new_v4` and writes the UUID out in its hyphenated form. Which UUID it is
/// depends on chance, so only its form is stated.
#[verifier::external_body]
fn new_uuid() -> (r: String)
    ensures
        is_random_uuid(r@),
{
    uuid::Uuid::new_v4().to_string()
}

/// A new session id.
pub fn session_id() -> (r: String)
    ensures
        is_random_uuid(r@),
{
    new_uuid()
}

/// The session of a client.
pub struct Session {
    pub id: String,
    pub relay: Relay,
    /// Whether answers go to a separate event stream.
    pub legacy_sse: bool,
    pub in_flight: InFlightRegistry,
}

/// The mathematical session.
pub struct SessionView {
    pub id: Seq<char>,
    pub relay: RelayView,
    pub legacy_sse: bool,
    pub in_flight: Map<RequestIdView, Seq<char>>,
}

impl View for Session {
    type V = SessionView;

    open spec fn view(&self) -> SessionView {
        SessionView {
            id: self.id@,
            relay: self.relay@,
            legacy_sse: self.legacy_sse,
            in_flight: self.in_flight@,
        }
    }
}

/// A session in which nothing happened yet.
pub open spec fn fresh_session(id: Seq<char>, relay: RelayView, legacy_sse: bool) -> SessionView {
    SessionView { id, relay, legacy_sse, in_flight: Map::empty() }
}

impl Session {
    fn fresh(id: String, relay: Relay, legacy_sse: bool) -> (r: Session)
        ensures
            r@ == fresh_session(id@, relay@, legacy_sse),
    {
        Session { id, relay, legacy_sse, in_flight: InFlightRegistry::new() }
    }
}

/// A session that is kept. Times are nanoseconds of one clock that does not go back.
pub struct SessionEntry {
    pub session: Session,
    pub last_access: u128,
    pub idle_ttl: u128,
}

/// The mathematical entry.
pub struct SessionEntryView {
    pub session: SessionView,
    pub last_access: int,
    pub idle_ttl: int,
}

impl View for SessionEntry {
    type V = SessionEntryView;

    open spec fn view(&self) -> SessionEntryView {
        SessionEntryView {
            session: self.session@,
            last_access: self.last_access as int,
            idle_ttl: self.idle_ttl as int,
        }
    }
}

/// The sessions by id.
pub type SessionsView = Map<Seq<char>, SessionEntryView>;

/// What the entries of a list are by id: of equal ids the later counts.
pub open spec fn sessions_by_id(entries: Seq<(String, SessionEntry)>) -> SessionsView
    decreases entries.len(),
{
    if entries.len() == 0 {
        Map::empty()
    } else {
        sessions_by_id(entries.drop_last()).insert(entries.last().0@, entries.last().1@)
    }
}

/// No two entries have the same id.
pub open spec fn distinct_ids(entries: Seq<(String, SessionEntry)>) -> bool {
    forall|i: int, j: int|
        0 <= i < j < entries.len() ==> (#[trigger] entries[i]).0@ != (#[trigger] entries[j]).0@
}

/// The sessions that the gateway keeps.
pub struct SessionManager {
    entries: Vec<(String, SessionEntry)>,
}

impl View for SessionManager {
    type V = SessionsView;

    closed spec fn view(&self) -> SessionsView {
        sessions_by_id(self.entries@)
    }
}

proof fn lemma_by_id(entries: Seq<(String, SessionEntry)>, i: int)
    requires
        distinct_ids(entries),
        0 <= i < entries.len(),
    ensures
        sessions_by_id(entries).dom().contains(entries[i].0@),
        sessions_by_id(entries)[entries[i].0@] == entries[i].1@,
    decreases entries.len(),
{
    let head = entries.drop_last();
    if i < head.len() {
        assert(distinct_ids(head)) by {
            assert forall|a: int, b: int| 0 <= a < b < head.len() implies (#[trigger] head[a]).0@
                != (#[trigger] head[b]).0@ by {
                assert(head[a] == entries[a] && head[b] == entries[b]);
            }
        }
        assert(head[i] == entries[i]);
        lemma_by_id(head, i);
        assert(entries[i].0@ != entries[entries.len() - 1].0@);
    }
}

proof fn lemma_absent(entries: Seq<(String, SessionEntry)>, id: Seq<char>)
    requires
        forall|i: int| 0 <= i < entries.len() ==> (#[trigger] entries[i]).0@ != id,
    ensures
        !sessions_by_id(entries).dom().contains(id),
    decreases entries.len(),
{
    if entries.len() > 0 {
        let head = entries.drop_last();
        assert forall|i: int| 0 <= i < head.len() implies (#[trigger] head[i]).0@ != id by {
            assert(head[i] == entries[i]);
        }
        assert(entries[entries.len() - 1].0@ != id);
        lemma_absent(head, id);
    }
}

proof fn lemma_update(entries: Seq<(String, SessionEntry)>, i: int, e: (String, SessionEntry))
    requires
        distinct_ids(entries),
        0 <= i < entries.len(),
        e.0@ == entries[i].0@,
    ensures
        distinct_ids(entries.update(i, e)),
        sessions_by_id(entries.update(i, e)) == sessions_by_id(entries).insert(e.0@, e.1@),
    decreases entries.len(),
{
    let changed = entries.update(i, e);
    assert forall|a: int, b: int| 0 <= a < b < changed.len() implies (#[trigger] changed[a]).0@ != (
    #[trigger] changed[b]).0@ by {
        assert(entries[a].0@ != entries[b].0@);
    }
    let head = entries.drop_last();
    if i < head.len() {
        assert(distinct_ids(head)) by {
            assert forall|a: int, b: int| 0 <= a < b < head.len() implies (#[trigger] head[a]).0@
                != (#[trigger] head[b]).0@ by {
                assert(head[a] == entries[a] && head[b] == entries[b]);
            }
        }
        assert(head[i] == entries[i]);
        lemma_update(head, i, e);
        assert(changed.drop_last() =~= head.update(i, e));
        assert(changed.last() == entries.last());
        assert(entries[i].0@ != entries[entries.len() - 1].0@);
        assert(sessions_by_id(changed) =~= sessions_by_id(entries).insert(e.0@, e.1@));
    } else {
        assert(changed.drop_last() =~= head);
        assert(sessions_by_id(changed) =~= sessions_by_id(entries).insert(e.0@, e.1@));
    }
}

/// The same entry, used at `now`.
pub open spec fn touched(entry: SessionEntryView, now: int) -> SessionEntryView {
    SessionEntryView { last_access: now, ..entry }
}

/// An entry has been idle for less than its time.
pub open spec fn is_fresh(entry: SessionEntryView, now: int) -> bool {
    (if now >= entry.last_access {
        now - entry.last_access
    } else {
        0
    }) < entry.idle_ttl
}

/// The sessions that are not idle for too long.
pub open spec fn kept_sessions(sessions: SessionsView, now: int) -> SessionsView {
    sessions.restrict(sessions.dom().filter(|id: Seq<char>| is_fresh(sessions[id], now)))
}

/// What a session id that is not known stands for.
pub enum DecodedSession {
    /// It cannot be read.
    Invalid,
    /// The state of a session of another protocol.
    Other,
    /// The sessions of the upstreams.
    MCP(Vec<MCPSession>),
}

/// A session with what each upstream resumes, where it was resumed just now.
pub struct Resumed<'a> {
    pub session: &'a Session,
    pub upstream_sessions: Option<Vec<MCPSession>>,
}

impl SessionManager {
    /// The ids of the entries are distinct.
    #[verifier::type_invariant]
    spec fn wf(self) -> bool {
        distinct_ids(self.entries@)
    }

    /// No session is kept.
    pub fn new() -> (r: SessionManager)
        ensures
            r@ == SessionsView::empty(),
    {
        SessionManager { entries: Vec::new() }
    }

    fn position(&self, id: &str) -> (r: Option<usize>)
        ensures
            match r {
                Some(i) => i < self.entries@.len() && self.entries@[i as int].0@ == id@
                    && self@.dom().contains(id@) && self@[id@] == self.entries@[i as int].1@,
                None => !self@.dom().contains(id@) && forall|k: int|
                    0 <= k < self.entries@.len() ==> (#[trigger] self.entries@[k]).0@ != id@,
            },
    {
        proof {
            use_type_invariant(self);
        }
        let mut i: usize = 0;
        while i < self.entries.len()
            invariant
                i <= self.entries@.len(),
                distinct_ids(self.entries@),
                forall|k: int| 0 <= k < i ==> (#[trigger] self.entries@[k]).0@ != id@,
            decreases self.entries@.len() - i,
        {
            if text::same(self.entries[i].0.as_str(), id) {
                proof {
                    lemma_by_id(self.entries@, i as int);
                }
                return Some(i);
            }
            i += 1;
        }
        proof {
            lemma_absent(self.entries@, id@);
        }
        None
    }

    fn put(&mut self, id: String, entry: SessionEntry)
        ensures
            final(self)@ == old(self)@.insert(id@, entry@),
    {
        let found = self.position(id.as_str());
        proof {
            use_type_invariant(&*self);
        }
        let mut entries: Vec<(String, SessionEntry)> = Vec::new();
        std::mem::swap(&mut entries, &mut self.entries);
        let ghost all = entries@;
        match found {
            Some(i) => {
                proof {
                    lemma_update(all, i as int, (id, entry));
                }
                entries.set(i, (id, entry));
            },
            None => {
                entries.push((id, entry));
                assert(entries@.drop_last() =~= all);
                assert(distinct_ids(entries@)) by {
                    assert forall|a: int, b: int| 0 <= a < b < entries@.len() implies (
                    #[trigger] entries@[a]).0@ != (#[trigger] entries@[b]).0@ by {
                        if b < all.len() {
                            assert(all[a].0@ != all[b].0@);
                        } else {
                            assert(all[a].0@ != id@);
                        }
                    }
                }
            },
        }
        self.entries = entries;
    }

    /// The session with this id, which counts as used now.
    pub fn get_session(&mut self, id: &str, now: u128) -> (r: Option<&Session>)
        ensures
            if old(self)@.dom().contains(id@) {
                &&& r matches Some(s) && s@ == old(self)@[id@].session
                &&& final(self)@ == old(self)@.insert(id@, touched(old(self)@[id@], now as int))
            } else {
                &&& r is None
                &&& final(self)@ == old(self)@
            },
    {
        let i = match self.position(id) {
            Some(i) => i,
            None => {
                return None;
            },
        };
        self.touch(i, now);
        Some(&self.entries[i].1.session)
    }

    fn touch(&mut self, i: usize, now: u128)
        requires
            i < old(self).entries@.len(),
        ensures
            final(self).entries@.len() == old(self).entries@.len(),
            final(self).entries@[i as int].1@ == touched(
                old(self).entries@[i as int].1@,
                now as int,
            ),
            final(self)@ == old(self)@.insert(
                old(self).entries@[i as int].0@,
                touched(old(self).entries@[i as int].1@, now as int),
            ),
    {
        proof {
            use_type_invariant(&*self);
        }
        let mut entries: Vec<(String, SessionEntry)> = Vec::new();
        std::mem::swap(&mut entries, &mut self.entries);
        let ghost all = entries@;
        let (id, entry) = entries.remove(i);
        let ghost e = SessionEntry {
            session: entry.session,
            last_access: now,
            idle_ttl: entry.idle_ttl,
        };
        proof {
            lemma_update(all, i as int, (id, e));
        }
        entries.insert(
            i,
            (
                id,
                SessionEntry { session: entry.session, last_access: now, idle_ttl: entry.idle_ttl },
            ),
        );
        assert(entries@ =~= all.update(i as int, (id, e)));
        self.entries = entries;
    }

    /// The session with this id, which counts as used now. One that is not known is resumed from
    /// what its id holds: it gets a relay of its own, and is kept.
    ///
    /// An id that cannot be read is an error, and so is a group with no backends. One of another
    /// protocol, and one whose upstream sessions do not fit the targets, gives no session.
    pub fn get_or_resume_session(
        &mut self,
        id: &str,
        now: u128,
        inputs: RelayInputs,
        idle_ttl: u128,
        decoded: DecodedSession,
    ) -> (r: Result<Option<Resumed<'_>>, Error>)
        ensures
            if old(self)@.dom().contains(id@) {
                &&& r matches Ok(Some(s)) && s.session@ == old(self)@[id@].session
                    && s.upstream_sessions is None
                &&& final(self)@ == old(self)@.insert(id@, touched(old(self)@[id@], now as int))
            } else {
                match decoded {
                    DecodedSession::Invalid => r == Err::<Option<Resumed<'_>>, Error>(
                        Error::InvalidSessionIdHeader,
                    ) && final(self)@ == old(self)@,
                    DecodedSession::Other => r matches Ok(None) && final(self)@ == old(self)@,
                    DecodedSession::MCP(states) => if no_backends(inputs.backend) {
                        r == Err::<Option<Resumed<'_>>, Error>(Error::NoBackends) && final(self)@
                            == old(self)@
                    } else {
                        match assigned(
                            fresh_relay(inputs.backend).targets,
                            sessions_view(states@),
                        ) {
                            Err(_) => r matches Ok(None) && final(self)@ == old(self)@,
                            Ok(resumed) => {
                                let session = fresh_session(
                                    id@,
                                    fresh_relay(inputs.backend),
                                    false,
                                );
                                &&& r matches Ok(Some(s)) && s.session@ == session
                                    && (s.upstream_sessions matches Some(v) && sessions_view(v@)
                                    == resumed)
                                &&& final(self)@ == old(self)@.insert(
                                    id@,
                                    (SessionEntryView {
                                        session,
                                        last_access: now as int,
                                        idle_ttl: idle_ttl as int,
                                    }),
                                )
                            },
                        }
                    },
                }
            },
    {
        if let Some(i) = self.position(id) {
            self.touch(i, now);
            return Ok(Some(Resumed { session: &self.entries[i].1.session, upstream_sessions: None }));
        }
        let states = match decoded {
            DecodedSession::Invalid => {
                return Err(Error::InvalidSessionIdHeader);
            },
            DecodedSession::Other => {
                return Ok(None);
            },
            DecodedSession::MCP(states) => states,
        };
        let relay = match inputs.build_new_connections() {
            Ok(relay) => relay,
            Err(e) => {
                return Err(e);
            },
        };
        let resumed = match relay.set_sessions(states) {
            Ok(resumed) => resumed,
            Err(_) => {
                return Ok(None);
            },
        };
        let session = Session::fresh(id.to_owned(), relay, false);
        self.put(id.to_owned(), SessionEntry { session, last_access: now, idle_ttl });
        match self.position(id) {
            Some(i) => Ok(
                Some(
                    Resumed {
                        session: &self.entries[i].1.session,
                        upstream_sessions: Some(resumed),
                    },
                ),
            ),
            None => Ok(None),
        }
    }

    /// A new session. It is not kept yet: its id may still change when it is initialized.
    pub fn create_session(&self, relay: Relay) -> (r: Session)
        ensures
            is_random_uuid(r@.id),
            r@ == fresh_session(r@.id, relay@, false),
    {
        Session::fresh(session_id(), relay, false)
    }

    /// A new session for a client that keeps none. It is never kept.
    pub fn create_stateless_session(&self, relay: Relay) -> (r: Session)
        ensures
            is_random_uuid(r@.id),
            r@ == fresh_session(r@.id, relay@, false),
    {
        Session::fresh(session_id(), relay, false)
    }

    /// Keeps a session under its id.
    pub fn insert_session(&mut self, session: Session, now: u128, idle_ttl: u128)
        ensures
            final(self)@ == old(self)@.insert(
                session@.id,
                (SessionEntryView {
                    session: session@,
                    last_access: now as int,
                    idle_ttl: idle_ttl as int,
                }),
            ),
    {
        let id = session.id.clone();
        self.put(id, SessionEntry { session, last_access: now, idle_ttl });
    }

    /// A new session whose answers go to a separate event stream. It is kept at once; its id is
    /// handed back.
    pub fn create_legacy_session(&mut self, relay: Relay, now: u128, idle_ttl: u128) -> (r: String)
        ensures
            is_random_uuid(r@),
            final(self)@ == old(self)@.insert(
                r@,
                (SessionEntryView {
                    session: fresh_session(r@, relay@, true),
                    last_access: now as int,
                    idle_ttl: idle_ttl as int,
                }),
            ),
    {
        let id = session_id();
        let session = Session::fresh(id.clone(), relay, true);
        self.put(id.clone(), SessionEntry { session, last_access: now, idle_ttl });
        id
    }

    /// Forgets the session with this id, and hands it back where there was one.
    pub fn delete_session(&mut self, id: &str) -> (r: Option<Session>)
        ensures
            final(self)@ == old(self)@.remove(id@),
            match r {
                Some(s) => old(self)@.dom().contains(id@) && s@ == old(self)@[id@].session,
                None => !old(self)@.dom().contains(id@),
            },
    {
        let found = self.position(id);
        proof {
            use_type_invariant(&*self);
        }
        let i = match found {
            Some(i) => i,
            None => {
                assert(self@.remove(id@) =~= self@);
                return None;
            },
        };
        let mut entries: Vec<(String, SessionEntry)> = Vec::new();
        std::mem::swap(&mut entries, &mut self.entries);
        let ghost all = entries@;
        let (_, entry) = entries.remove(i);
        proof {
            lemma_remove(all, i as int);
        }
        self.entries = entries;
        Some(entry.session)
    }

    /// Forgets the sessions that were idle for too long.
    pub fn reap_expired_entries(&mut self, now: u128)
        ensures
            final(self)@ == kept_sessions(old(self)@, now as int),
    {
        proof {
            use_type_invariant(&*self);
        }
        let mut entries: Vec<(String, SessionEntry)> = Vec::new();
        std::mem::swap(&mut entries, &mut self.entries);
        let n: usize = entries.len();
        let ghost all = entries@;
        let mut kept: Vec<(String, SessionEntry)> = Vec::new();
        assert(all.take(0) =~= Seq::<(String, SessionEntry)>::empty());
        for entry in it: entries
            invariant
                all == it.seq(),
                distinct_ids(all),
                n == all.len(),
                kept@ == fresh_entries(all.take(it.index()), now as int),
        {
            let ghost i = it.index();
            assert(all.take(i + 1).drop_last() =~= all.take(i));
            assert(all.take(i + 1).last() == entry);
            let idle: u128 = if now >= entry.1.last_access {
                now - entry.1.last_access
            } else {
                0
            };
            if idle < entry.1.idle_ttl {
                kept.push(entry);
            }
        }
        assert(all.take(n as int) =~= all);
        proof {
            lemma_fresh_entries(all, now as int);
        }
        self.entries = kept;
        assert(self@ =~= kept_sessions(old(self)@, now as int));
    }
}

spec fn fresh_entries(entries: Seq<(String, SessionEntry)>, now: int) -> Seq<(String, SessionEntry)>
    decreases entries.len(),
{
    if entries.len() == 0 {
        Seq::empty()
    } else {
        let before = fresh_entries(entries.drop_last(), now);
        if is_fresh(entries.last().1@, now) {
            before.push(entries.last())
        } else {
            before
        }
    }
}

proof fn lemma_distinct_head(entries: Seq<(String, SessionEntry)>)
    requires
        distinct_ids(entries),
        entries.len() > 0,
    ensures
        distinct_ids(entries.drop_last()),
        !sessions_by_id(entries.drop_last()).dom().contains(entries.last().0@),
{
    let head = entries.drop_last();
    assert forall|a: int, b: int| 0 <= a < b < head.len() implies (#[trigger] head[a]).0@ != (
    #[trigger] head[b]).0@ by {
        assert(head[a] == entries[a] && head[b] == entries[b]);
    }
    assert forall|a: int| 0 <= a < head.len() implies (#[trigger] head[a]).0@
        != entries.last().0@ by {
        assert(head[a] == entries[a]);
        assert(entries[a].0@ != entries[entries.len() - 1].0@);
    }
    lemma_absent(head, entries.last().0@);
}

proof fn lemma_fresh_entries(entries: Seq<(String, SessionEntry)>, now: int)
    requires
        distinct_ids(entries),
    ensures
        distinct_ids(fresh_entries(entries, now)),
        forall|k: int|
            0 <= k < fresh_entries(entries, now).len() ==> entries.contains(
                #[trigger] fresh_entries(entries, now)[k],
            ),
        sessions_by_id(fresh_entries(entries, now)).dom() == sessions_by_id(entries).dom().filter(
            |id: Seq<char>| is_fresh(sessions_by_id(entries)[id], now),
        ),
        forall|id: Seq<char>|
            sessions_by_id(fresh_entries(entries, now)).dom().contains(id)
                ==> #[trigger] sessions_by_id(fresh_entries(entries, now))[id] == sessions_by_id(
                entries,
            )[id],
    decreases entries.len(),
{
    let kept = fresh_entries(entries, now);
    let map = sessions_by_id(entries);
    if entries.len() == 0 {
        assert(sessions_by_id(kept).dom() =~= map.dom().filter(
            |id: Seq<char>| is_fresh(map[id], now),
        ));
    } else {
        let head = entries.drop_last();
        lemma_distinct_head(entries);
        lemma_fresh_entries(head, now);
        let before = fresh_entries(head, now);
        let last = entries.last();
        assert(entries[entries.len() - 1] == last);
        assert forall|k: int| 0 <= k < before.len() implies entries.contains(
            #[trigger] before[k],
        ) && before[k].0@ != last.0@ by {
            let j = choose|j: int| 0 <= j < head.len() && head[j] == before[k];
            assert(entries[j] == before[k]);
            assert(entries[j].0@ != entries[entries.len() - 1].0@);
        }
        if is_fresh(last.1@, now) {
            assert(kept.drop_last() =~= before);
            assert forall|a: int, b: int| 0 <= a < b < kept.len() implies (#[trigger] kept[a]).0@
                != (#[trigger] kept[b]).0@ by {
                if b < before.len() {
                    assert(before[a].0@ != before[b].0@);
                } else {
                    assert(before[a].0@ != last.0@);
                }
            }
            assert forall|k: int| 0 <= k < kept.len() implies entries.contains(
                #[trigger] kept[k],
            ) by {
                if k < before.len() {
                    assert(before[k] == kept[k]);
                }
            }
        }
        assert(sessions_by_id(kept).dom() =~= map.dom().filter(
            |id: Seq<char>| is_fresh(map[id], now),
        ));
    }
}

proof fn lemma_remove(entries: Seq<(String, SessionEntry)>, i: int)
    requires
        distinct_ids(entries),
        0 <= i < entries.len(),
    ensures
        distinct_ids(entries.remove(i)),
        sessions_by_id(entries.remove(i)) == sessions_by_id(entries).remove(entries[i].0@),
    decreases entries.len(),
{
    let rest = entries.remove(i);
    assert forall|a: int, b: int| 0 <= a < b < rest.len() implies (#[trigger] rest[a]).0@ != (
    #[trigger] rest[b]).0@ by {
        let x = if a < i { a } else { a + 1 };
        let y = if b < i { b } else { b + 1 };
        assert(entries[x].0@ != entries[y].0@);
    }
    lemma_distinct_head(entries);
    let head = entries.drop_last();
    if i < head.len() {
        assert(head[i] == entries[i]);
        lemma_remove(head, i);
        assert(rest.drop_last() =~= head.remove(i));
        assert(rest.last() == entries.last());
        assert(entries[i].0@ != entries[entries.len() - 1].0@);
        assert(sessions_by_id(rest) =~= sessions_by_id(entries).remove(entries[i].0@));
    } else {
        assert(rest =~= head);
        assert(sessions_by_id(rest) =~= sessions_by_id(entries).remove(entries[i].0@));
    }
}

/// A session that was used less than its idle time ago stays when the gateway reaps, as it was.
pub proof fn law_used_session_stays(sessions: SessionsView, id: Seq<char>, now: int, later: int)
    requires
        sessions.dom().contains(id),
        now <= later < now + sessions[id].idle_ttl,
    ensures
        ({
            let used = sessions.insert(id, touched(sessions[id], now));
            kept_sessions(used, later).dom().contains(id) && kept_sessions(used, later)[id]
                == used[id]
        }),
{
}

/// A session that is idle for its time or longer is forgotten when the gateway reaps.
pub proof fn law_idle_session_goes(sessions: SessionsView, id: Seq<char>, now: int)
    requires
        sessions.dom().contains(id),
        now >= sessions[id].last_access + sessions[id].idle_ttl,
        now >= sessions[id].last_access,
    ensures
        !kept_sessions(sessions, now).dom().contains(id),
{
}

} // verus!
