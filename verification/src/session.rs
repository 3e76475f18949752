//! Query sessions that outlive a directive.
//!
//! A session that a directive opens is closed when the directive ends,
//! unless the directive stores it under a name. A named session stays until
//! it is awaited. With it stay the outcomes of the statements that it ran:
//! they are written once, when the session is stored, and taken once, when
//! it is awaited.

use crate::batch::Outcome;
use crate::names::NameMap;
use vstd::prelude::*;

verus! {

/// A connection to the coordinator: its id and the secret key by which a
/// request from elsewhere may cancel it.
#[derive(Clone, Copy, Debug, PartialEq, Eq)]
pub struct Session {
    pub conn_id: u32,
    pub secret_key: u32,
}

/// A lookup by name that did not find what a directive needs.
#[derive(Clone, Copy, Debug, PartialEq, Eq)]
pub enum NotFound {
    /// No session is stored under the name.
    UnknownSession,
    /// The session has no outcomes waiting.
    NoDeferredResults,
    /// The name is in use, so it cannot name another session.
    NameTaken,
}

/// The mathematical content of a [`SessionManager`]: the stored sessions
/// and the outcomes that wait for them, by name.
pub struct Sessions {
    pub persisted: Map<Seq<char>, Session>,
    pub deferred: Map<Seq<char>, Seq<Outcome>>,
}

/// Storing a session under a name: refused where the name is taken.
pub open spec fn persisted(state: Sessions, name: Seq<char>, session: Session) -> (
    Sessions,
    Result<(), NotFound>,
) {
    if state.persisted.contains_key(name) {
        (state, Err(NotFound::NameTaken))
    } else {
        (Sessions { persisted: state.persisted.insert(name, session), ..state }, Ok(()))
    }
}

/// Writing the outcomes of a stored session: refused where no session is
/// stored under the name, or where outcomes wait there already.
pub open spec fn deferred(state: Sessions, name: Seq<char>, outcomes: Seq<Outcome>) -> (
    Sessions,
    Result<(), NotFound>,
) {
    if !state.persisted.contains_key(name) {
        (state, Err(NotFound::UnknownSession))
    } else if state.deferred.contains_key(name) {
        (state, Err(NotFound::NameTaken))
    } else {
        (Sessions { deferred: state.deferred.insert(name, outcomes), ..state }, Ok(()))
    }
}

/// Looking up the session to cancel.
pub open spec fn cancel_target(state: Sessions, name: Seq<char>) -> Result<Session, NotFound> {
    if state.persisted.contains_key(name) {
        Ok(state.persisted[name])
    } else {
        Err(NotFound::UnknownSession)
    }
}

/// Awaiting a session: it leaves the store together with its outcomes. A
/// session without outcomes leaves the store too, and the await fails.
pub open spec fn awaited(state: Sessions, name: Seq<char>) -> (
    Sessions,
    Result<(Session, Seq<Outcome>), NotFound>,
) {
    if !state.persisted.contains_key(name) {
        (state, Err(NotFound::UnknownSession))
    } else if !state.deferred.contains_key(name) {
        (
            Sessions { persisted: state.persisted.remove(name), ..state },
            Err(NotFound::NoDeferredResults),
        )
    } else {
        (
            Sessions {
                persisted: state.persisted.remove(name),
                deferred: state.deferred.remove(name),
            },
            Ok((state.persisted[name], state.deferred[name])),
        )
    }
}

/// What is started under a free name and then awaited comes back as it
/// was written, the store is then as it was before, and a second await of
/// the name finds nothing.
pub proof fn lemma_await_returns_deferred(
    state: Sessions,
    name: Seq<char>,
    session: Session,
    outcomes: Seq<Outcome>,
)
    requires
        !state.persisted.contains_key(name),
        !state.deferred.contains_key(name),
    ensures
        ({
            let stored = persisted(state, name, session);
            let written = deferred(stored.0, name, outcomes);
            let first = awaited(written.0, name);
            let second = awaited(first.0, name);
            &&& stored.1 is Ok
            &&& written.1 is Ok
            &&& first.1 == Ok::<(Session, Seq<Outcome>), NotFound>((session, outcomes))
            &&& first.0 == state
            &&& second.1 == Err::<(Session, Seq<Outcome>), NotFound>(NotFound::UnknownSession)
            &&& second.0 == state
        }),
{
    let stored = persisted(state, name, session);
    let written = deferred(stored.0, name, outcomes);
    let first = awaited(written.0, name);
    assert(first.0.persisted =~= state.persisted);
    assert(first.0.deferred =~= state.deferred);
}

/// A name that was never started cannot be canceled or awaited.
pub proof fn lemma_unknown_session(state: Sessions, name: Seq<char>)
    requires
        !state.persisted.contains_key(name),
    ensures
        cancel_target(state, name) == Err::<Session, NotFound>(NotFound::UnknownSession),
        awaited(state, name) == (
            state,
            Err::<(Session, Seq<Outcome>), NotFound>(NotFound::UnknownSession),
        ),
{
}

/// The sessions that are stored under a name, and their outcomes.
pub struct SessionManager {
    persisted: NameMap<Session>,
    deferred: NameMap<Vec<Outcome>>,
}

impl SessionManager {
    /// Whether the store is in order.
    pub closed spec fn well_formed(&self) -> bool {
        &&& self.persisted.well_formed()
        &&& self.deferred.well_formed()
    }

    /// The stored sessions and the outcomes that wait for them.
    pub closed spec fn view(&self) -> Sessions {
        Sessions {
            persisted: self.persisted@,
            deferred: self.deferred@.map_values(|outcomes: Vec<Outcome>| outcomes@),
        }
    }

    /// A store without sessions.
    pub fn new() -> (manager: Self)
        ensures
            manager.well_formed(),
            manager@ == (Sessions { persisted: Map::empty(), deferred: Map::empty() }),
    {
        let manager = SessionManager { persisted: NameMap::new(), deferred: NameMap::new() };
        assert(manager@.deferred =~= Map::empty());
        manager
    }

    /// Stores `session` under `name`. A name that is in use is refused.
    pub fn persist(&mut self, name: String, session: Session) -> (stored: Result<(), NotFound>)
        requires
            old(self).well_formed(),
        ensures
            final(self).well_formed(),
            (final(self)@, stored) == persisted(old(self)@, name@, session),
    {
        match self.persisted.insert(name, session) {
            None => Ok(()),
            Some(_) => Err(NotFound::NameTaken),
        }
    }

    /// Writes the outcomes of the session stored under `name`, to be taken
    /// when the session is awaited.
    pub fn defer(&mut self, name: String, outcomes: Vec<Outcome>) -> (written: Result<
        (),
        NotFound,
    >)
        requires
            old(self).well_formed(),
        ensures
            final(self).well_formed(),
            (final(self)@, written) == deferred(old(self)@, name@, outcomes@),
    {
        if !self.persisted.contains(name.as_str()) {
            return Err(NotFound::UnknownSession);
        }
        match self.deferred.insert(name, outcomes) {
            None => {
                assert(self@.deferred =~= old(self)@.deferred.insert(name@, outcomes@));
                Ok(())
            },
            Some(_) => Err(NotFound::NameTaken),
        }
    }

    /// The session stored under `name`, whose connection id and secret key
    /// a cancellation request carries. The store stays as it is.
    pub fn cancel(&self, name: &str) -> (target: Result<Session, NotFound>)
        requires
            self.well_formed(),
        ensures
            target == cancel_target(self@, name@),
    {
        match self.persisted.get(name) {
            Some(session) => Ok(*session),
            None => Err(NotFound::UnknownSession),
        }
    }

    /// Takes the session stored under `name` out of the store, together
    /// with its outcomes.
    pub fn await_sql(&mut self, name: &str) -> (taken: Result<(Session, Vec<Outcome>), NotFound>)
        requires
            old(self).well_formed(),
        ensures
            final(self).well_formed(),
            final(self)@ == awaited(old(self)@, name@).0,
            match taken {
                Ok((session, outcomes)) => awaited(old(self)@, name@).1 == Ok::<
                    (Session, Seq<Outcome>),
                    NotFound,
                >((session, outcomes@)),
                Err(e) => awaited(old(self)@, name@).1 == Err::<(Session, Seq<Outcome>), NotFound>(
                    e,
                ),
            },
    {
        let session = match self.persisted.remove(name) {
            Some(session) => session,
            None => {
                assert(self@.persisted =~= old(self)@.persisted);
                return Err(NotFound::UnknownSession);
            },
        };
        match self.deferred.remove(name) {
            Some(outcomes) => {
                assert(self@.deferred =~= old(self)@.deferred.remove(name@));
                Ok((session, outcomes))
            },
            None => {
                assert(self@.deferred =~= old(self)@.deferred);
                Err(NotFound::NoDeferredResults)
            },
        }
    }
}

} // verus!
