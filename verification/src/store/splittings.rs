//! Splitting strategies: each pair of chunk size and overlap is stored
//! once, and asking for it again gives the stored row.

use vstd::prelude::*;
use crate::error::{Entity, Failure, FailureKind};
use crate::model::{
    chunk_splitting, profile_splitting, splitting_id, splitting_pair, splitting_sound,
    valid_splitting, State,
};
use crate::relations::{
    find_by, has_key, index_by, lemma_all_push, lemma_index_by, lemma_refers_parent_push, lemma_unique_push,
    lemma_within_fresh, lemma_within_push, row_by,
};
use crate::rows::{lemma_models_push, Splitting, SplittingModel};
use crate::store::Store;

verus! {

/// The chunk size and the overlap of a strategy to look up or to create.
#[derive(Clone, Copy, Debug, PartialEq, Eq)]
pub struct CreateGetOrCreateSplittingData {
    pub chunk_size: i32,
    pub chunk_overlap: i32,
}

/// A strategy, named either by its number or by its chunk size and
/// overlap.
#[derive(Clone, Copy, Debug, PartialEq, Eq)]
pub enum GetOrCreateSplittingData {
    Id(i32),
    Config(CreateGetOrCreateSplittingData),
}

/// What looking up or creating the strategy `(chunk_size, chunk_overlap)`
/// does to a state and returns: the stored strategy where there is one,
/// else a new one with the next number.
pub open spec fn got_or_created_splitting(s: State, chunk_size: int, chunk_overlap: int) -> (
    State,
    Result<SplittingModel, Failure>,
) {
    if !valid_splitting(chunk_size, chunk_overlap) {
        (s, Err(Failure { kind: FailureKind::ValidationError, entity: Entity::Splitting }))
    } else if has_key(s.splittings, splitting_pair(), (chunk_size, chunk_overlap)) {
        (s, Ok(row_by(s.splittings, splitting_pair(), (chunk_size, chunk_overlap))))
    } else if s.last_splitting_id >= i32::MAX {
        (s, Err(Failure { kind: FailureKind::StoreError, entity: Entity::Splitting }))
    } else {
        let row = SplittingModel { id: s.last_splitting_id + 1, chunk_size, chunk_overlap };
        (
            State {
                splittings: s.splittings.push(row),
                last_splitting_id: s.last_splitting_id + 1,
                ..s
            },
            Ok(row),
        )
    }
}

/// What resolving `data` to the number of a strategy does to a state and
/// returns: a number is taken as it is, a pair is looked up or created.
pub open spec fn resolved_splitting(s: State, data: GetOrCreateSplittingData) -> (
    State,
    Result<int, Failure>,
) {
    match data {
        GetOrCreateSplittingData::Id(id) => (s, Ok(id as int)),
        GetOrCreateSplittingData::Config(c) => {
            let (after, r) = got_or_created_splitting(
                s,
                c.chunk_size as int,
                c.chunk_overlap as int,
            );
            match r {
                Ok(row) => (after, Ok(row.id)),
                Err(e) => (after, Err(e)),
            }
        },
    }
}

/// The number of the strategy that `data` names, without creating it: a
/// number is taken as it is, a pair is looked up, and a pair that is not
/// stored names none.
pub open spec fn looked_up_splitting(s: State, data: GetOrCreateSplittingData) -> Option<int> {
    match data {
        GetOrCreateSplittingData::Id(id) => Some(id as int),
        GetOrCreateSplittingData::Config(c) => match find_by(
            s.splittings,
            splitting_pair(),
            (c.chunk_size as int, c.chunk_overlap as int),
        ) {
            Some(row) => Some(row.id),
            None => None,
        },
    }
}

/// Looking up or creating a strategy keeps the state well formed.
pub proof fn lemma_got_or_created_splitting_wf(s: State, chunk_size: int, chunk_overlap: int)
    requires
        s.wf(),
    ensures
        got_or_created_splitting(s, chunk_size, chunk_overlap).0.wf(),
{
    let (after, r) = got_or_created_splitting(s, chunk_size, chunk_overlap);
    if after != s {
        let row = SplittingModel { id: s.last_splitting_id + 1, chunk_size, chunk_overlap };
        lemma_within_fresh(s.splittings, splitting_id(), s.last_splitting_id, row.id);
        lemma_unique_push(s.splittings, splitting_id(), row);
        lemma_within_push(s.splittings, splitting_id(), s.last_splitting_id, row);
        lemma_unique_push(s.splittings, splitting_pair(), row);
        lemma_all_push(s.splittings, splitting_sound(), row);
        lemma_refers_parent_push(
            s.chunks,
            chunk_splitting(),
            s.splittings,
            splitting_id(),
            row,
        );
        lemma_refers_parent_push(
            s.index_profiles,
            profile_splitting(),
            s.splittings,
            splitting_id(),
            row,
        );
    }
}

/// Resolving a strategy keeps the state well formed.
pub proof fn lemma_resolved_splitting_wf(s: State, data: GetOrCreateSplittingData)
    requires
        s.wf(),
    ensures
        resolved_splitting(s, data).0.wf(),
{
    match data {
        GetOrCreateSplittingData::Id(id) => {},
        GetOrCreateSplittingData::Config(c) => {
            lemma_got_or_created_splitting_wf(s, c.chunk_size as int, c.chunk_overlap as int);
        },
    }
}

/// The place of the strategy with the given chunk size and overlap.
fn find_splitting(db: &Store, chunk_size: i32, chunk_overlap: i32) -> (r: Option<usize>)
    ensures
        match r {
            Some(i) => i < db@.splittings.len() && db@.splittings[i as int].chunk_size
                == chunk_size && db@.splittings[i as int].chunk_overlap == chunk_overlap,
            None => !has_key(
                db@.splittings,
                splitting_pair(),
                (chunk_size as int, chunk_overlap as int),
            ),
        },
{
    let mut i: usize = 0;
    while i < db.splittings.len()
        invariant
            i <= db.splittings.len(),
            forall|j: int|
                0 <= j < i ==> splitting_pair()(#[trigger] db@.splittings[j]) != (
                    chunk_size as int,
                    chunk_overlap as int,
                ),
        decreases db.splittings.len() - i,
    {
        if db.splittings[i].chunk_size == chunk_size && db.splittings[i].chunk_overlap
            == chunk_overlap {
            return Some(i);
        }
        i += 1;
    }
    None
}

/// The place of the strategy with the given number, which there is.
pub(crate) fn locate_splitting(db: &Store, id: i32) -> (at: usize)
    requires
        has_key(db@.splittings, splitting_id(), id as int),
    ensures
        at < db@.splittings.len(),
        db@.splittings[at as int].id == id,
{
    let ghost last = index_by(db@.splittings, splitting_id(), id as int);
    let n: usize = db.splittings.len();
    let mut at: usize = 0;
    while db.splittings[at].id != id
        invariant
            at <= last < n,
            n == db@.splittings.len(),
            splitting_id()(db@.splittings[last]) == id,
        decreases last - at,
    {
        assert(splitting_id()(db@.splittings[at as int]) != id);
        at += 1;
    }
    at
}

/// The place of the strategy with the given number.
pub(crate) fn find_splitting_by_id(db: &Store, id: i32) -> (r: Option<usize>)
    ensures
        match r {
            Some(i) => i < db@.splittings.len() && db@.splittings[i as int].id == id,
            None => !has_key(db@.splittings, splitting_id(), id as int),
        },
{
    let mut i: usize = 0;
    while i < db.splittings.len()
        invariant
            i <= db.splittings.len(),
            forall|j: int| 0 <= j < i ==> splitting_id()(#[trigger] db@.splittings[j]) != id,
        decreases db.splittings.len() - i,
    {
        if db.splittings[i].id == id {
            return Some(i);
        }
        i += 1;
    }
    None
}

/// The number of the strategy that `data` names, without creating it: a
/// number is taken as it is, a pair is looked up, and a pair that is not
/// stored names none. Nothing is written.
pub fn look_up_splitting_id(db: &Store, data: GetOrCreateSplittingData) -> (r: Option<i32>)
    requires
        db@.wf(),
    ensures
        match r {
            Some(id) => Some(id as int),
            None => None,
        } == looked_up_splitting(db@, data),
{
    match data {
        GetOrCreateSplittingData::Id(id) => Some(id),
        GetOrCreateSplittingData::Config(c) => {
            match find_splitting(db, c.chunk_size, c.chunk_overlap) {
                Some(i) => {
                    proof {
                        lemma_index_by(db@.splittings, splitting_pair(), i as int);
                    }
                    Some(db.splittings[i].id)
                },
                None => None,
            }
        },
    }
}

/// Looks the strategy up by its chunk size and overlap, and creates it
/// where there is none. A pair that makes no valid strategy is refused.
pub fn get_or_create_splitting(db: &mut Store, data: CreateGetOrCreateSplittingData) -> (r: Result<
    Splitting,
    Failure,
>)
    requires
        old(db)@.wf(),
    ensures
        final(db)@.wf(),
        final(db)@ == got_or_created_splitting(
            old(db)@,
            data.chunk_size as int,
            data.chunk_overlap as int,
        ).0,
        match r {
            Ok(row) => Ok::<SplittingModel, Failure>(row@),
            Err(e) => Err(e),
        } == got_or_created_splitting(
            old(db)@,
            data.chunk_size as int,
            data.chunk_overlap as int,
        ).1,
{
    proof {
        lemma_got_or_created_splitting_wf(
            db@,
            data.chunk_size as int,
            data.chunk_overlap as int,
        );
    }
    if !(data.chunk_size > 0 && 0 <= data.chunk_overlap && data.chunk_overlap < data.chunk_size) {
        return Err(Failure::new(FailureKind::ValidationError, Entity::Splitting));
    }
    match find_splitting(db, data.chunk_size, data.chunk_overlap) {
        Some(i) => {
            proof {
                lemma_index_by(db@.splittings, splitting_pair(), i as int);
            }
            Ok(db.splittings[i].clone())
        },
        None => {
            if db.last_splitting_id >= i32::MAX {
                return Err(Failure::new(FailureKind::StoreError, Entity::Splitting));
            }
            let id: i32 = db.last_splitting_id + 1;
            let row = Splitting {
                id,
                chunk_size: data.chunk_size,
                chunk_overlap: data.chunk_overlap,
            };
            proof {
                lemma_models_push(db.splittings@, row);
            }
            db.splittings.push(row.clone());
            db.last_splitting_id = id;
            Ok(row)
        },
    }
}

/// Resolves `data` to the number of a strategy: a number is taken as it
/// is, a pair is looked up or created.
pub fn get_or_create_splitting_id(db: &mut Store, data: GetOrCreateSplittingData) -> (r: Result<
    i32,
    Failure,
>)
    requires
        old(db)@.wf(),
    ensures
        final(db)@.wf(),
        final(db)@ == resolved_splitting(old(db)@, data).0,
        match r {
            Ok(id) => Ok::<int, Failure>(id as int),
            Err(e) => Err(e),
        } == resolved_splitting(old(db)@, data).1,
{
    match data {
        GetOrCreateSplittingData::Id(id) => Ok(id),
        GetOrCreateSplittingData::Config(c) => {
            match get_or_create_splitting(db, c) {
                Ok(row) => Ok(row.id),
                Err(e) => Err(e),
            }
        },
    }
}

} // verus!
