//! The sessions of the server, and their ids.

use vstd::prelude::*;
use tiny_id::ShortCodeGenerator;
use crate::session::Session;

verus! {

/// `tiny_id::ShortCodeGenerator`: a stock of ids, which are given out in a
/// random order.
#[verifier::external_type_specification]
#[verifier::external_body]
#[verifier::reject_recursive_types(T)]
pub struct ExShortCodeGenerator<T: Copy>(tiny_id::ShortCodeGenerator<T>);

/// The ids that a generator still holds: those of its present length that were
/// not given out yet.
pub uninterp spec fn unused_ids(generator: ShortCodeGenerator<char>) -> Set<u64>;

/// The ids with at most so many digits.
pub open spec fn ids_of_length(digits: nat) -> Set<u64> {
    Set::new(|id: u64| (id as int) < vstd::arithmetic::power::pow(10, digits))
}

/// `tiny_id::ShortCodeGenerator::new_numeric`: a generator that holds all ids
/// with so many digits. In which order it gives them out is not stated: it is
/// seeded at random.
#[verifier::external_body]
fn new_generator(digits: usize) -> (generator: ShortCodeGenerator<char>)
    requires
        digits <= 17,
    ensures
        unused_ids(generator) == ids_of_length(digits as nat),
{
    ShortCodeGenerator::new_numeric(digits)
}

/// `tiny_id::ShortCodeGenerator::next_int`: takes out one of the ids that were
/// not given out yet. Which one is not stated: it is random. Nor is what a
/// generator does that holds none: it goes on with longer ids, and these can
/// be the same numbers as earlier ones.
#[verifier::external_body]
fn next_id(generator: &mut ShortCodeGenerator<char>) -> (id: u64)
    ensures
        unused_ids(*old(generator)) != Set::<u64>::empty() ==> unused_ids(*old(generator)).contains(
            id,
        ),
        unused_ids(*old(generator)) != Set::<u64>::empty() ==> unused_ids(*final(generator))
            == unused_ids(*old(generator)).remove(id),
{
    generator.next_int()
}

/// The sessions, held in a `hashbrown::HashMap`.
#[verifier::external_body]
pub struct SessionMap {
    inner: hashbrown::HashMap<u64, Session>,
}

/// The sessions that a map holds, by id.
pub uninterp spec fn sessions_of(map: SessionMap) -> Map<u64, Session>;

impl View for SessionMap {
    type V = Map<u64, Session>;

    open spec fn view(&self) -> Map<u64, Session> {
        sessions_of(*self)
    }
}

impl SessionMap {
    /// `hashbrown::HashMap::new`: there are no sessions.
    #[verifier::external_body]
    pub(crate) fn new() -> (map: SessionMap)
        ensures
            sessions_of(map).dom() == Set::<u64>::empty(),
    {
        SessionMap { inner: hashbrown::HashMap::new() }
    }

    /// `hashbrown::HashMap::get`: the session with an id, if there is one.
    #[verifier::external_body]
    pub(crate) fn get(&self, id: u64) -> (found: Option<&Session>)
        ensures
            match found {
                Some(session) => sessions_of(*self).contains_key(id) && *session == sessions_of(
                    *self,
                )[id],
                None => !sessions_of(*self).contains_key(id),
            },
    {
        self.inner.get(&id)
    }

    /// `hashbrown::HashMap::get_mut`: lends the session with an id, if there
    /// is one, and keeps every other session.
    #[verifier::external_body]
    pub(crate) fn get_mut(&mut self, id: u64) -> (found: Option<&mut Session>)
        ensures
            match found {
                Some(session) => sessions_of(*old(self)).contains_key(id) && *session
                    == sessions_of(*old(self))[id] && sessions_of(*final(self)) == sessions_of(
                    *old(self),
                ).insert(id, *final(session)),
                None => !sessions_of(*old(self)).contains_key(id) && sessions_of(*final(self))
                    == sessions_of(*old(self)),
            },
    {
        self.inner.get_mut(&id)
    }

    /// `hashbrown::HashMap::insert`: the session is the one with the id
    /// afterwards.
    #[verifier::external_body]
    pub(crate) fn insert(&mut self, id: u64, session: Session)
        ensures
            sessions_of(*final(self)) == sessions_of(*old(self)).insert(id, session),
    {
        self.inner.insert(id, session);
    }

    /// `hashbrown::HashMap::remove`: takes the session with an id out, if
    /// there is one.
    #[verifier::external_body]
    pub(crate) fn remove(&mut self, id: u64) -> (removed: Option<Session>)
        ensures
            sessions_of(*final(self)) == sessions_of(*old(self)).remove(id),
            match removed {
                Some(session) => sessions_of(*old(self)).contains_key(id) && session
                    == sessions_of(*old(self))[id],
                None => !sessions_of(*old(self)).contains_key(id),
            },
    {
        self.inner.remove(&id)
    }

    /// `hashbrown::HashMap::keys`: every id once, in no particular order.
    #[verifier::external_body]
    pub(crate) fn ids(&self) -> (ids: Vec<u64>)
        ensures
            ids@.no_duplicates(),
            ids@.to_set() == sessions_of(*self).dom(),
    {
        self.inner.keys().copied().collect()
    }
}

/// How long sessions of an application may be left alone, in nanoseconds.
pub struct AppTimeout {
    pub application_id: String,
    pub timeout: Option<u64>,
}

/// The timeout of an application is the first that is listed for it.
pub open spec fn timeout_of(timeouts: Seq<AppTimeout>, application_id: Seq<char>) -> Option<u64>
    decreases timeouts.len(),
{
    if timeouts.len() == 0 {
        None
    } else if timeouts[0].application_id@ == application_id {
        timeouts[0].timeout
    } else {
        timeout_of(timeouts.skip(1), application_id)
    }
}

/// An application is listed.
pub open spec fn is_listed(timeouts: Seq<AppTimeout>, application_id: Seq<char>) -> bool {
    exists|i: int|
        0 <= i < timeouts.len() && (#[trigger] timeouts[i]).application_id@ == application_id
}

fn find_timeout(timeouts: &Vec<AppTimeout>, application_id: &String) -> (timeout: Option<u64>)
    ensures
        timeout == timeout_of(timeouts@, application_id@),
{
    let mut i: usize = 0;
    assert(timeouts@.skip(0) =~= timeouts@);
    while i < timeouts.len()
        invariant
            i <= timeouts@.len(),
            timeout_of(timeouts@.skip(i as int), application_id@) == timeout_of(
                timeouts@,
                application_id@,
            ),
        decreases timeouts.len() - i,
    {
        assert(timeouts@.skip(i as int).skip(1) =~= timeouts@.skip(i + 1));
        assert(timeouts@.skip(i as int)[0] == timeouts@[i as int]);
        if timeouts[i].application_id == *application_id {
            return timeouts[i].timeout;
        }
        i += 1;
    }
    None
}

/// A session that is to be cleaned up: it broke, or was left alone for too
/// long.
pub open spec fn is_stale(session: Session, now: u64, timeouts: Seq<AppTimeout>) -> bool {
    session.defunct || session.spec_timed_out(
        now,
        timeout_of(timeouts, session.application_id@),
    )
}

pub struct ServerState {
    pub sessions: SessionMap,
    pub session_seq: usize,
    pub id_generator: ShortCodeGenerator<char>,
}

impl ServerState {
    pub fn new() -> (state: ServerState)
        ensures
            state.sessions@.dom() == Set::<u64>::empty(),
            state.session_seq == 0,
            unused_ids(state.id_generator) == ids_of_length(6),
            state.wf(),
    {
        ServerState { sessions: SessionMap::new(), session_seq: 0, id_generator: new_generator(6) }
    }

    /// Every session is filed under its id.
    pub open spec fn wf(self) -> bool {
        forall|id: u64| #[trigger]
            self.sessions@.contains_key(id) ==> self.sessions@[id].id == id
    }

    /// An id was taken from those that were not given out yet, as long as there
    /// are any.
    pub open spec fn gives_out(before: ServerState, after: ServerState, id: u64) -> bool {
        unused_ids(before.id_generator) != Set::<u64>::empty() ==> {
            &&& unused_ids(before.id_generator).contains(id)
            &&& unused_ids(after.id_generator) == unused_ids(before.id_generator).remove(id)
        }
    }

    /// No session has an id that is still to be given out.
    pub open spec fn ids_taken(self) -> bool {
        forall|id: u64| #[trigger]
            self.sessions@.contains_key(id) ==> !unused_ids(self.id_generator).contains(id)
    }

    /// The number of a new session, and a random id for it, which was not given
    /// out before.
    pub fn generate_session_id(&mut self) -> (result: (usize, u64))
        requires
            old(self).session_seq < usize::MAX,
        ensures
            result.0 == old(self).session_seq,
            final(self).session_seq == old(self).session_seq + 1,
            final(self).sessions@ == old(self).sessions@,
            ServerState::gives_out(*old(self), *final(self), result.1),
    {
        let seq: usize = self.session_seq;
        self.session_seq = seq + 1;
        (seq, next_id(&mut self.id_generator))
    }

    /// A random id for an attachment, which was not given out before.
    pub fn generate_attachment_id(&mut self) -> (id: u64)
        ensures
            final(self).session_seq == old(self).session_seq,
            final(self).sessions@ == old(self).sessions@,
            ServerState::gives_out(*old(self), *final(self), id),
    {
        next_id(&mut self.id_generator)
    }

    /// Takes out the sessions that are to be cleaned up. They are returned,
    /// to be stopped.
    pub fn tick(&mut self, now: u64, timeouts: &Vec<AppTimeout>) -> (stale: Vec<Session>)
        requires
            old(self).wf(),
            forall|id: u64| #[trigger]
                old(self).sessions@.contains_key(id) && !old(self).sessions@[id].defunct
                    ==> is_listed(timeouts@, old(self).sessions@[id].application_id@),
        ensures
            final(self).wf(),
            final(self).session_seq == old(self).session_seq,
            final(self).id_generator == old(self).id_generator,
            final(self).sessions@ == old(self).sessions@.restrict(
                Set::new(
                    |id: u64|
                        old(self).sessions@.contains_key(id) && !is_stale(
                            old(self).sessions@[id],
                            now,
                            timeouts@,
                        ),
                ),
            ),
            forall|i: int|
                0 <= i < stale@.len() ==> is_stale(#[trigger] stale@[i], now, timeouts@) && old(
                    self).sessions@.contains_key(stale@[i].id) && old(self).sessions@[stale@[i].id]
                    == stale@[i],
            forall|i: int, j: int|
                0 <= i < j < stale@.len() ==> (#[trigger] stale@[i]).id != (
                #[trigger] stale@[j]).id,
            forall|id: u64| #[trigger]
                old(self).sessions@.contains_key(id) && is_stale(
                    old(self).sessions@[id],
                    now,
                    timeouts@,
                ) ==> stale@.contains(old(self).sessions@[id]),
    {
        let ghost before = self.sessions@;
        let ids = self.sessions.ids();
        let mut stale: Vec<Session> = Vec::new();
        let mut i: usize = 0;
        while i < ids.len()
            invariant
                i <= ids@.len(),
                ids@.no_duplicates(),
                ids@.to_set() == before.dom(),
                self.session_seq == old(self).session_seq,
                self.id_generator == old(self).id_generator,
                forall|id: u64| #[trigger]
                    self.sessions@.contains_key(id) ==> before.contains_key(id)
                        && self.sessions@[id] == before[id],
                forall|j: int|
                    i <= j < ids@.len() ==> self.sessions@.contains_key(#[trigger] ids@[j]),
                forall|j: int|
                    0 <= j < i ==> self.sessions@.contains_key(#[trigger] ids@[j]) == !is_stale(
                        before[ids@[j]],
                        now,
                        timeouts@,
                    ),
                old(self).wf(),
                before == old(self).sessions@,
                forall|j: int|
                    0 <= j < stale@.len() ==> is_stale(#[trigger] stale@[j], now, timeouts@)
                        && before.contains_key(stale@[j].id) && before[stale@[j].id] == stale@[j]
                        && !self.sessions@.contains_key(stale@[j].id),
                forall|j: int, k: int|
                    0 <= j < k < stale@.len() ==> (#[trigger] stale@[j]).id != (
                    #[trigger] stale@[k]).id,
                forall|j: int|
                    0 <= j < i && is_stale(before[#[trigger] ids@[j]], now, timeouts@)
                        ==> stale@.contains(before[ids@[j]]),
            decreases ids.len() - i,
        {
            let id: u64 = ids[i];
            assert(self.sessions@.contains_key(ids@[i as int]));
            let remove = match self.sessions.get(id) {
                Some(session) => session.defunct || session.timed_out(
                    now,
                    find_timeout(timeouts, &session.application_id),
                ),
                None => false,
            };
            let ghost kept = stale@;
            if remove {
                if let Some(session) = self.sessions.remove(id) {
                    stale.push(session);
                    assert(stale@[kept.len() as int] == before[id]);
                }
            }
            proof {
                assert forall|j: int|
                    0 <= j < i + 1 && is_stale(
                        before[#[trigger] ids@[j]],
                        now,
                        timeouts@,
                    ) implies stale@.contains(before[ids@[j]]) by {
                    if j < i {
                        let k = kept.index_of(before[ids@[j]]);
                        assert(stale@[k] == before[ids@[j]]);
                    } else {
                        assert(stale@[kept.len() as int] == before[id]);
                    }
                }
            }
            i += 1;
        }
        proof {
            assert forall|id: u64| #[trigger] before.contains_key(id) implies (
            self.sessions@.contains_key(id) == !is_stale(before[id], now, timeouts@)) && (is_stale(
                before[id],
                now,
                timeouts@,
            ) ==> stale@.contains(before[id])) by {
                assert(ids@.to_set().contains(id));
                let j = ids@.index_of(id);
                assert(ids@[j] == id);
            }
            assert(self.sessions@ =~= before.restrict(
                Set::new(
                    |id: u64|
                        before.contains_key(id) && !is_stale(before[id], now, timeouts@),
                ),
            ));
        }
        stale
    }
}

/// The states of the server over a while, and the ids that were given out
/// between each and the next, if any was. There always was one left.
pub open spec fn id_run(states: Seq<ServerState>, given: Seq<Option<u64>>) -> bool {
    &&& states.len() == given.len() + 1
    &&& forall|i: int|
        0 <= i < given.len() ==> match #[trigger] given[i] {
            Some(id) => unused_ids(states[i].id_generator) != Set::<u64>::empty()
                && ServerState::gives_out(states[i], states[i + 1], id),
            None => states[i + 1].id_generator == states[i].id_generator,
        }
}

proof fn lemma_ids_only_leave(states: Seq<ServerState>, given: Seq<Option<u64>>, i: int, j: int)
    requires
        id_run(states, given),
        0 <= i <= j <= given.len(),
    ensures
        unused_ids(states[j].id_generator).subset_of(unused_ids(states[i].id_generator)),
    decreases j - i,
{
    if i < j {
        lemma_ids_only_leave(states, given, i, j - 1);
        assert(given[j - 1] == given[j - 1]);
        match given[j - 1] {
            Some(id) => {
                assert(ServerState::gives_out(states[j - 1], states[j - 1 + 1], id));
            },
            None => {},
        }
    }
}

/// No id is given out twice, be it to sessions or to attachments, whatever else
/// happens in between.
pub proof fn ids_are_given_out_once(
    states: Seq<ServerState>,
    given: Seq<Option<u64>>,
    i: int,
    j: int,
)
    requires
        id_run(states, given),
        0 <= i < j < given.len(),
        given[i] is Some,
        given[j] is Some,
    ensures
        given[i] != given[j],
        unused_ids(states[0].id_generator).contains(given[i]->0),
{
    lemma_ids_only_leave(states, given, 0, i);
    lemma_ids_only_leave(states, given, i + 1, j);
    assert(ServerState::gives_out(states[i], states[i + 1], given[i]->0));
    assert(ServerState::gives_out(states[j], states[j + 1], given[j]->0));
}

/// An id that is given out belongs to no session, and is then taken.
pub proof fn given_id_is_free(before: ServerState, after: ServerState, id: u64)
    requires
        before.ids_taken(),
        unused_ids(before.id_generator) != Set::<u64>::empty(),
        ServerState::gives_out(before, after, id),
        after.sessions@ == before.sessions@,
    ensures
        !before.sessions@.contains_key(id),
        !unused_ids(after.id_generator).contains(id),
        after.ids_taken(),
{
}

/// A session that is attached to and works is never cleaned up.
pub proof fn attached_session_is_kept(session: Session, now: u64, timeouts: Seq<AppTimeout>)
    requires
        !session.defunct,
        session.detached_since is None,
    ensures
        !is_stale(session, now, timeouts),
{
}

/// A session is cleaned up if it broke, or was left alone for longer than its
/// application allows; the limit is the first that is listed for it.
pub proof fn stale_sessions_are_broken_or_abandoned(
    session: Session,
    now: u64,
    timeouts: Seq<AppTimeout>,
    i: int,
)
    requires
        0 <= i < timeouts.len(),
        timeouts[i].application_id@ == session.application_id@,
        forall|j: int|
            0 <= j < i ==> (#[trigger] timeouts[j]).application_id@ != session.application_id@,
    ensures
        is_stale(session, now, timeouts) <==> session.defunct || (session.detached_since matches
            Some(since) && timeouts[i].timeout matches Some(limit) && now > since + limit),
{
    lemma_first_timeout(timeouts, session.application_id@, i);
}

proof fn lemma_first_timeout(timeouts: Seq<AppTimeout>, application_id: Seq<char>, i: int)
    requires
        0 <= i < timeouts.len(),
        timeouts[i].application_id@ == application_id,
        forall|j: int| 0 <= j < i ==> (#[trigger] timeouts[j]).application_id@ != application_id,
    ensures
        timeout_of(timeouts, application_id) == timeouts[i].timeout,
    decreases i,
{
    if i > 0 {
        let rest = timeouts.skip(1);
        assert(timeouts[0].application_id@ != application_id);
        assert(rest[i - 1] == timeouts[i]);
        assert forall|j: int| 0 <= j < i - 1 implies (#[trigger] rest[j]).application_id@
            != application_id by {
            assert(rest[j] == timeouts[j + 1]);
        }
        lemma_first_timeout(rest, application_id, i - 1);
    }
}

} // verus!
