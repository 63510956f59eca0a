//! Sessions: each is held against a collection index, and goes before
//! that index goes.

use vstd::prelude::*;
use crate::error::{Entity, Failure, FailureKind};
use crate::model::{index_id, session_id, session_index, State};
use crate::relations::{
    has_key, index_by, lemma_filter_step, lemma_index_by, lemma_refers_child_filter,
    lemma_refers_child_push, lemma_refers_child_update, lemma_remove_is_filter,
    lemma_unique_filter, lemma_unique_push, lemma_unique_update, lemma_within_filter,
    lemma_within_fresh, lemma_within_push, lemma_within_update, not_keyed,
};
use crate::rows::{
    lemma_models_push, lemma_models_remove, lemma_models_update, models, Session, SessionModel,
};
use crate::store::collection_indexes::find_index;
use crate::store::{contains_text, texts, Store};

verus! {

/// A session to create.
#[derive(Debug, PartialEq, Eq)]
pub struct CreateSessionData {
    pub name: String,
    pub index_id: String,
    pub history: String,
}

/// The model of a [`CreateSessionData`].
pub struct NewSession {
    pub name: Seq<char>,
    pub index_id: Seq<char>,
    pub history: Seq<char>,
}

impl View for CreateSessionData {
    type V = NewSession;

    open spec fn view(&self) -> NewSession {
        NewSession { name: self.name@, index_id: self.index_id@, history: self.history@ }
    }
}

/// What to change of a session: a new name, a new history, both or
/// neither.
#[derive(Debug, PartialEq, Eq)]
pub struct UpdateSessionData {
    pub id: i32,
    pub name: Option<String>,
    pub history: Option<String>,
}

/// The model of an [`UpdateSessionData`].
pub struct SessionChange {
    pub id: int,
    pub name: Option<Seq<char>>,
    pub history: Option<Seq<char>>,
}

impl View for UpdateSessionData {
    type V = SessionChange;

    open spec fn view(&self) -> SessionChange {
        SessionChange {
            id: self.id as int,
            name: match self.name {
                Some(name) => Some(name@),
                None => None,
            },
            history: match self.history {
                Some(history) => Some(history@),
                None => None,
            },
        }
    }
}

/// Whether a session is held against the given collection index.
pub open spec fn session_on(index_id: Seq<char>) -> spec_fn(SessionModel) -> bool {
    |s: SessionModel| s.index_id == index_id
}

/// Whether a session is held against none of the given collection
/// indexes.
pub open spec fn session_off(index_ids: Seq<Seq<char>>) -> spec_fn(SessionModel) -> bool {
    |s: SessionModel| !index_ids.contains(s.index_id)
}

/// The state without the sessions held against the given collection
/// indexes.
pub open spec fn without_sessions(s: State, index_ids: Seq<Seq<char>>) -> State {
    State { sessions: s.sessions.filter(session_off(index_ids)), ..s }
}

/// The failure for a session that is not there.
pub open spec fn no_session() -> Failure {
    Failure { kind: FailureKind::NotFound, entity: Entity::Session }
}

/// What deleting the session numbered `id` does to a state and returns:
/// the session leaves and is returned, or there is none.
pub open spec fn deleted_session(s: State, id: int) -> (State, Result<SessionModel, Failure>) {
    if has_key(s.sessions, session_id(), id) {
        let at = index_by(s.sessions, session_id(), id);
        (State { sessions: s.sessions.remove(at), ..s }, Ok(s.sessions[at]))
    } else {
        (s, Err(no_session()))
    }
}

/// What creating a session does to a state and returns. The collection
/// index it is held against must exist.
pub open spec fn created_session(s: State, new: NewSession) -> (
    State,
    Result<SessionModel, Failure>,
) {
    if !has_key(s.collection_indexes, index_id(), new.index_id) {
        (s, Err(Failure { kind: FailureKind::NotFound, entity: Entity::CollectionIndex }))
    } else if s.last_session_id >= i32::MAX {
        (s, Err(Failure { kind: FailureKind::StoreError, entity: Entity::Session }))
    } else {
        let row = SessionModel {
            id: s.last_session_id + 1,
            name: new.name,
            index_id: new.index_id,
            history: new.history,
        };
        (
            State { sessions: s.sessions.push(row), last_session_id: s.last_session_id + 1, ..s },
            Ok(row),
        )
    }
}

/// A session after a change: what the change names is replaced, the rest
/// stays.
pub open spec fn changed(row: SessionModel, change: SessionChange) -> SessionModel {
    SessionModel {
        id: row.id,
        name: match change.name {
            Some(name) => name,
            None => row.name,
        },
        index_id: row.index_id,
        history: match change.history {
            Some(history) => history,
            None => row.history,
        },
    }
}

/// What changing a session does to a state and returns: the session is
/// replaced by the changed one, which is returned, or there is none.
pub open spec fn updated_session(s: State, change: SessionChange) -> (
    State,
    Result<SessionModel, Failure>,
) {
    if has_key(s.sessions, session_id(), change.id) {
        let at = index_by(s.sessions, session_id(), change.id);
        let row = changed(s.sessions[at], change);
        (State { sessions: s.sessions.update(at, row), ..s }, Ok(row))
    } else {
        (s, Err(no_session()))
    }
}

/// Taking sessions out keeps the state well formed.
pub proof fn lemma_sessions_filter_wf(s: State, keep: spec_fn(SessionModel) -> bool)
    requires
        s.wf(),
    ensures
        (State { sessions: s.sessions.filter(keep), ..s }).wf(),
{
    lemma_unique_filter(s.sessions, session_id(), keep);
    lemma_within_filter(s.sessions, session_id(), s.last_session_id, keep);
    lemma_refers_child_filter(s.sessions, session_index(), s.collection_indexes, index_id(), keep);
}

/// Deleting a session keeps the state well formed.
pub proof fn lemma_deleted_session_wf(s: State, id: int)
    requires
        s.wf(),
    ensures
        deleted_session(s, id).0.wf(),
{
    if has_key(s.sessions, session_id(), id) {
        let at = index_by(s.sessions, session_id(), id);
        lemma_remove_is_filter(s.sessions, session_id(), at);
        lemma_sessions_filter_wf(s, not_keyed(session_id(), id));
    }
}

/// Creating a session keeps the state well formed.
pub proof fn lemma_created_session_wf(s: State, new: NewSession)
    requires
        s.wf(),
    ensures
        created_session(s, new).0.wf(),
{
    let (after, r) = created_session(s, new);
    if r is Ok {
        let row = r->Ok_0;
        lemma_within_fresh(s.sessions, session_id(), s.last_session_id, row.id);
        lemma_unique_push(s.sessions, session_id(), row);
        lemma_within_push(s.sessions, session_id(), s.last_session_id, row);
        lemma_refers_child_push(s.sessions, session_index(), s.collection_indexes, index_id(), row);
    }
}

/// Changing a session keeps the state well formed.
pub proof fn lemma_updated_session_wf(s: State, change: SessionChange)
    requires
        s.wf(),
    ensures
        updated_session(s, change).0.wf(),
{
    if has_key(s.sessions, session_id(), change.id) {
        let at = index_by(s.sessions, session_id(), change.id);
        let row = changed(s.sessions[at], change);
        lemma_unique_update(s.sessions, session_id(), at, row);
        lemma_within_update(s.sessions, session_id(), s.last_session_id, at, row);
        assert(has_key(s.collection_indexes, index_id(), session_index()(s.sessions[at])));
        lemma_refers_child_update(
            s.sessions,
            session_index(),
            s.collection_indexes,
            index_id(),
            at,
            row,
        );
    }
}

/// The place of the session with the given number.
fn find_session(db: &Store, id: i32) -> (r: Option<usize>)
    ensures
        match r {
            Some(i) => i < db@.sessions.len() && db@.sessions[i as int].id == id,
            None => !has_key(db@.sessions, session_id(), id as int),
        },
{
    let mut i: usize = 0;
    while i < db.sessions.len()
        invariant
            i <= db.sessions.len(),
            forall|j: int| 0 <= j < i ==> session_id()(#[trigger] db@.sessions[j]) != id,
        decreases db.sessions.len() - i,
    {
        if db.sessions[i].id == id {
            return Some(i);
        }
        i += 1;
    }
    None
}

/// Takes out the sessions held against any of the given collection
/// indexes, and returns how many there were.
pub(crate) fn remove_sessions_of(db: &mut Store, index_ids: &Vec<String>) -> (removed: usize)
    requires
        old(db)@.wf(),
    ensures
        final(db)@.wf(),
        final(db)@ == without_sessions(old(db)@, texts(index_ids@)),
        removed == old(db)@.sessions.len() - final(db)@.sessions.len(),
{
    let ghost all = db@.sessions;
    let ghost keep = session_off(texts(index_ids@));
    let mut kept: Vec<Session> = Vec::new();
    let mut i: usize = 0;
    proof {
        lemma_sessions_filter_wf(db@, keep);
        assert(all.take(0).filter(keep) =~= Seq::empty()) by {
            reveal(Seq::filter);
        }
        assert(models(kept@) =~= Seq::empty());
    }
    while i < db.sessions.len()
        invariant
            i <= db.sessions.len(),
            db@ == old(db)@,
            all == db@.sessions,
            keep == session_off(texts(index_ids@)),
            models(kept@) == all.take(i as int).filter(keep),
            kept@.len() <= i,
        decreases db.sessions.len() - i,
    {
        proof {
            lemma_filter_step(all, keep, i as int);
        }
        if !contains_text(index_ids, &db.sessions[i].index_id) {
            let row = db.sessions[i].clone();
            proof {
                lemma_models_push(kept@, row);
            }
            kept.push(row);
        }
        i += 1;
    }
    assert(all.take(db.sessions.len() as int) =~= all);
    let removed: usize = db.sessions.len() - kept.len();
    db.sessions = kept;
    removed
}

/// Deletes the sessions held against any of the given collection indexes,
/// and returns how many there were. An empty list deletes nothing.
pub fn delete_sessions_by_index_ids(db: &mut Store, index_ids: Vec<String>) -> (removed: usize)
    requires
        old(db)@.wf(),
    ensures
        final(db)@.wf(),
        final(db)@ == without_sessions(old(db)@, texts(index_ids@)),
        removed == old(db)@.sessions.len() - final(db)@.sessions.len(),
{
    remove_sessions_of(db, &index_ids)
}

/// Deletes the sessions held against the given collection index, and
/// returns how many there were.
pub fn delete_sessions_by_index_id(db: &mut Store, index_id: String) -> (removed: usize)
    requires
        old(db)@.wf(),
    ensures
        final(db)@.wf(),
        final(db)@ == without_sessions(old(db)@, seq![index_id@]),
        removed == old(db)@.sessions.len() - final(db)@.sessions.len(),
{
    let mut index_ids: Vec<String> = Vec::new();
    index_ids.push(index_id);
    assert(texts(index_ids@) =~= seq![index_id@]);
    remove_sessions_of(db, &index_ids)
}

/// Deletes the session with the given number and returns it. A number
/// that no session has is a failure, and nothing is deleted.
pub fn delete_session_by_id(db: &mut Store, session_id: i32) -> (r: Result<Session, Failure>)
    requires
        old(db)@.wf(),
    ensures
        final(db)@.wf(),
        final(db)@ == deleted_session(old(db)@, session_id as int).0,
        match r {
            Ok(row) => Ok::<SessionModel, Failure>(row@),
            Err(e) => Err(e),
        } == deleted_session(old(db)@, session_id as int).1,
{
    proof {
        lemma_deleted_session_wf(db@, session_id as int);
    }
    match find_session(db, session_id) {
        Some(i) => {
            proof {
                lemma_index_by(db@.sessions, crate::model::session_id(), i as int);
                lemma_models_remove(db.sessions@, i as int);
            }
            let row = db.sessions.remove(i);
            Ok(row)
        },
        None => Err(Failure::new(FailureKind::NotFound, Entity::Session)),
    }
}

/// All sessions, in the order in which they were created.
pub fn get_sessions(db: &Store) -> (rows: Vec<Session>)
    ensures
        models(rows@) == db@.sessions,
{
    let rows = db.sessions.clone();
    assert(models(rows@) =~= db@.sessions);
    rows
}

/// The sessions held against the given collection index, in the order in
/// which they were created.
pub fn get_sessions_by_index_id(db: &Store, index_id: String) -> (rows: Vec<Session>)
    ensures
        models(rows@) == db@.sessions.filter(session_on(index_id@)),
{
    let ghost all = db@.sessions;
    let ghost keep = session_on(index_id@);
    let mut rows: Vec<Session> = Vec::new();
    let mut i: usize = 0;
    proof {
        assert(all.take(0).filter(keep) =~= Seq::empty()) by {
            reveal(Seq::filter);
        }
        assert(models(rows@) =~= Seq::empty());
    }
    while i < db.sessions.len()
        invariant
            i <= db.sessions.len(),
            all == db@.sessions,
            keep == session_on(index_id@),
            models(rows@) == all.take(i as int).filter(keep),
        decreases db.sessions.len() - i,
    {
        proof {
            lemma_filter_step(all, keep, i as int);
        }
        if db.sessions[i].index_id == index_id {
            let row = db.sessions[i].clone();
            proof {
                lemma_models_push(rows@, row);
            }
            rows.push(row);
        }
        i += 1;
    }
    assert(all.take(db.sessions.len() as int) =~= all);
    rows
}

/// Creates a session, with the next number. The collection index it is
/// held against must exist.
pub fn create_session(db: &mut Store, data: CreateSessionData) -> (r: Result<Session, Failure>)
    requires
        old(db)@.wf(),
    ensures
        final(db)@.wf(),
        final(db)@ == created_session(old(db)@, data@).0,
        match r {
            Ok(row) => Ok::<SessionModel, Failure>(row@),
            Err(e) => Err(e),
        } == created_session(old(db)@, data@).1,
{
    proof {
        lemma_created_session_wf(db@, data@);
    }
    if find_index(db, &data.index_id).is_none() {
        return Err(Failure::new(FailureKind::NotFound, Entity::CollectionIndex));
    }
    if db.last_session_id >= i32::MAX {
        return Err(Failure::new(FailureKind::StoreError, Entity::Session));
    }
    let id: i32 = db.last_session_id + 1;
    let row = Session { id, name: data.name, index_id: data.index_id, history: data.history };
    let stored = row.clone();
    proof {
        lemma_models_push(db.sessions@, stored);
    }
    db.sessions.push(stored);
    db.last_session_id = id;
    Ok(row)
}

/// Changes the name, the history, both or neither of the session with the
/// given number, and returns the session as it then is. A number that no
/// session has is a failure.
pub fn update_session(db: &mut Store, data: UpdateSessionData) -> (r: Result<Session, Failure>)
    requires
        old(db)@.wf(),
    ensures
        final(db)@.wf(),
        final(db)@ == updated_session(old(db)@, data@).0,
        match r {
            Ok(row) => Ok::<SessionModel, Failure>(row@),
            Err(e) => Err(e),
        } == updated_session(old(db)@, data@).1,
{
    proof {
        lemma_updated_session_wf(db@, data@);
    }
    match find_session(db, data.id) {
        Some(i) => {
            proof {
                lemma_index_by(db@.sessions, session_id(), i as int);
            }
            let name = match data.name {
                Some(name) => name,
                None => db.sessions[i].name.clone(),
            };
            let history = match data.history {
                Some(history) => history,
                None => db.sessions[i].history.clone(),
            };
            let row = Session {
                id: db.sessions[i].id,
                name,
                index_id: db.sessions[i].index_id.clone(),
                history,
            };
            let stored = row.clone();
            proof {
                lemma_models_update(db.sessions@, i as int, stored);
            }
            db.sessions.set(i, stored);
            Ok(row)
        },
        None => Err(Failure::new(FailureKind::NotFound, Entity::Session)),
    }
}

} // verus!
