//! Collection indexes: the binding of a collection to an index profile,
//! with the documents indexed under it. Its sessions and its indexed
//! documents go before the index goes.

use vstd::prelude::*;
use crate::error::{Entity, Failure, FailureKind};
use crate::model::{
    collection_id, document_id, index_collection, index_id, index_profile, indexed_document,
    indexed_index, indexed_key, profile_id, session_index, State,
};
use crate::relations::{
    all, find_by, has_key, lemma_filter_source, lemma_filter_step, lemma_index_by,
    lemma_refers_child_filter, lemma_refers_child_push, lemma_refers_parent_filter,
    lemma_refers_parent_push, lemma_unique_filter, lemma_unique_push, refers, unique_by,
};
use crate::rows::{
    lemma_models_push, models, CollectionIndex, CollectionIndexDocument,
    CollectionIndexDocumentModel, CollectionIndexModel,
};
use crate::store::collections::find_collection;
use crate::store::collections_on_documents::{all_documents, is_document};
use crate::store::index_profiles::{
    find_profile, join_profile, locate_profile, with_all, IndexProfileWithAll, IndexProfileWithAllModel,
};
use crate::store::sessions::{lemma_sessions_filter_wf, remove_sessions_of, session_off};
use crate::store::{contains_number, contains_text, numbers, texts, Store};

verus! {

/// A collection index to create.
#[derive(Debug, PartialEq, Eq)]
pub struct CreateCollectionIndexData {
    pub name: String,
    pub collection_id: i32,
    pub index_id: i32,
}

/// The model of a [`CreateCollectionIndexData`].
pub struct NewCollectionIndex {
    pub name: Seq<char>,
    pub collection_id: int,
    pub index_id: int,
}

impl View for CreateCollectionIndexData {
    type V = NewCollectionIndex;

    open spec fn view(&self) -> NewCollectionIndex {
        NewCollectionIndex {
            name: self.name@,
            collection_id: self.collection_id as int,
            index_id: self.index_id as int,
        }
    }
}

/// A collection index together with its index profile, the rows that
/// profile names, and the documents indexed under it.
#[derive(Debug, PartialEq, Eq)]
pub struct CollectionIndexWithAll {
    pub index: CollectionIndex,
    pub profile: IndexProfileWithAll,
    pub indexed_documents: Vec<CollectionIndexDocument>,
}

/// The model of a [`CollectionIndexWithAll`].
pub struct CollectionIndexWithAllModel {
    pub index: CollectionIndexModel,
    pub profile: IndexProfileWithAllModel,
    pub indexed_documents: Seq<CollectionIndexDocumentModel>,
}

impl View for CollectionIndexWithAll {
    type V = CollectionIndexWithAllModel;

    open spec fn view(&self) -> CollectionIndexWithAllModel {
        CollectionIndexWithAllModel {
            index: self.index@,
            profile: self.profile@,
            indexed_documents: models(self.indexed_documents@),
        }
    }
}

/// Whether a collection index binds the given collection.
pub open spec fn index_of(collection_id: int) -> spec_fn(CollectionIndexModel) -> bool {
    |x: CollectionIndexModel| x.collection_id == collection_id
}

/// Whether a collection index is none of the given ones.
pub open spec fn index_off(index_ids: Seq<Seq<char>>) -> spec_fn(CollectionIndexModel) -> bool {
    |x: CollectionIndexModel| !index_ids.contains(x.id)
}

/// Whether an indexed document is under the given collection index.
pub open spec fn indexed_in(index_id: Seq<char>) -> spec_fn(CollectionIndexDocumentModel) -> bool {
    |m: CollectionIndexDocumentModel| m.index_id == index_id
}

/// Whether an indexed document is under none of the given collection
/// indexes.
pub open spec fn indexed_off(index_ids: Seq<Seq<char>>) -> spec_fn(
    CollectionIndexDocumentModel,
) -> bool {
    |m: CollectionIndexDocumentModel| !index_ids.contains(m.index_id)
}

/// Whether an indexed document is not one of the given documents under
/// the given collection index.
pub open spec fn indexed_apart(index_id: Seq<char>, document_ids: Seq<int>) -> spec_fn(
    CollectionIndexDocumentModel,
) -> bool {
    |m: CollectionIndexDocumentModel|
        !(m.index_id == index_id && document_ids.contains(m.document_id))
}

/// The rows for the given documents under the given collection index, in
/// the order of the documents.
pub open spec fn indexed_rows(index_id: Seq<char>, document_ids: Seq<int>) -> Seq<
    CollectionIndexDocumentModel,
> {
    document_ids.map_values(
        |document_id: int| CollectionIndexDocumentModel { index_id, document_id },
    )
}

/// The table after each of the given documents was put under the given
/// collection index, one after the other: a document that is under it
/// already is passed over.
pub open spec fn indexed_joined(
    members: Seq<CollectionIndexDocumentModel>,
    index_id: Seq<char>,
    document_ids: Seq<int>,
) -> Seq<CollectionIndexDocumentModel>
    decreases document_ids.len(),
{
    if document_ids.len() == 0 {
        members
    } else {
        let before = indexed_joined(members, index_id, document_ids.drop_last());
        if has_key(before, indexed_key(), (index_id, document_ids.last())) {
            before
        } else {
            before.push(CollectionIndexDocumentModel { index_id, document_id: document_ids.last() })
        }
    }
}

/// A collection index with its profile and its documents, in a state.
pub open spec fn index_with_all(s: State, index: CollectionIndexModel) -> CollectionIndexWithAllModel {
    CollectionIndexWithAllModel {
        index,
        profile: with_all(s, crate::relations::row_by(s.index_profiles, profile_id(), index.index_id)),
        indexed_documents: s.index_documents.filter(indexed_in(index.id)),
    }
}

/// What creating a collection index under the identifier `id` does to a
/// state and returns. The collection and the index profile must exist,
/// and the identifier must be new.
pub open spec fn created_index(s: State, id: Seq<char>, new: NewCollectionIndex) -> (
    State,
    Result<CollectionIndexModel, Failure>,
) {
    if !has_key(s.collections, collection_id(), new.collection_id) {
        (s, Err(Failure { kind: FailureKind::NotFound, entity: Entity::Collection }))
    } else if !has_key(s.index_profiles, profile_id(), new.index_id) {
        (s, Err(Failure { kind: FailureKind::NotFound, entity: Entity::IndexProfile }))
    } else if has_key(s.collection_indexes, index_id(), id) {
        (s, Err(Failure { kind: FailureKind::ConstraintViolation, entity: Entity::CollectionIndex }))
    } else {
        let row = CollectionIndexModel {
            id,
            name: new.name,
            collection_id: new.collection_id,
            index_id: new.index_id,
        };
        (State { collection_indexes: s.collection_indexes.push(row), ..s }, Ok(row))
    }
}

/// What putting documents under a collection index does to a state and
/// returns. The index and every one of the documents must exist; then all
/// are put under it, and else none.
pub open spec fn upserted_in_index(s: State, index_id: Seq<char>, document_ids: Seq<int>) -> (
    State,
    Result<Seq<CollectionIndexDocumentModel>, Failure>,
) {
    if !has_key(s.collection_indexes, crate::model::index_id(), index_id) {
        (s, Err(Failure { kind: FailureKind::NotFound, entity: Entity::CollectionIndex }))
    } else if !all(document_ids, is_document(s)) {
        (s, Err(Failure { kind: FailureKind::NotFound, entity: Entity::Document }))
    } else {
        (
            State {
                index_documents: indexed_joined(s.index_documents, index_id, document_ids),
                ..s
            },
            Ok(indexed_rows(index_id, document_ids)),
        )
    }
}

/// The state without the given collection indexes, and without the
/// sessions and the indexed documents that hang on them.
pub open spec fn without_indexes(s: State, index_ids: Seq<Seq<char>>) -> State {
    State {
        sessions: s.sessions.filter(session_off(index_ids)),
        index_documents: s.index_documents.filter(indexed_off(index_ids)),
        collection_indexes: s.collection_indexes.filter(index_off(index_ids)),
        ..s
    }
}

/// Creating a collection index keeps the state well formed.
pub proof fn lemma_created_index_wf(s: State, id: Seq<char>, new: NewCollectionIndex)
    requires
        s.wf(),
    ensures
        created_index(s, id, new).0.wf(),
{
    let (after, r) = created_index(s, id, new);
    if r is Ok {
        let row = r->Ok_0;
        lemma_unique_push(s.collection_indexes, index_id(), row);
        lemma_refers_child_push(
            s.collection_indexes,
            index_collection(),
            s.collections,
            collection_id(),
            row,
        );
        lemma_refers_child_push(
            s.collection_indexes,
            index_profile(),
            s.index_profiles,
            profile_id(),
            row,
        );
        lemma_refers_parent_push(
            s.index_documents,
            indexed_index(),
            s.collection_indexes,
            index_id(),
            row,
        );
        lemma_refers_parent_push(
            s.sessions,
            session_index(),
            s.collection_indexes,
            index_id(),
            row,
        );
    }
}

/// Putting documents that exist under a collection index that exists
/// keeps the indexed documents keyed and their references resolved.
pub proof fn lemma_indexed_joined(s: State, index_id: Seq<char>, document_ids: Seq<int>)
    requires
        s.wf(),
        has_key(s.collection_indexes, crate::model::index_id(), index_id),
        all(document_ids, is_document(s)),
    ensures
        unique_by(indexed_joined(s.index_documents, index_id, document_ids), indexed_key()),
        refers(
            indexed_joined(s.index_documents, index_id, document_ids),
            indexed_index(),
            s.collection_indexes,
            crate::model::index_id(),
        ),
        refers(
            indexed_joined(s.index_documents, index_id, document_ids),
            indexed_document(),
            s.documents,
            document_id(),
        ),
    decreases document_ids.len(),
{
    if document_ids.len() > 0 {
        let rest = document_ids.drop_last();
        assert forall|i: int| 0 <= i < rest.len() implies is_document(s)(#[trigger] rest[i]) by {
            assert(rest[i] == document_ids[i]);
        }
        lemma_indexed_joined(s, index_id, rest);
        let before = indexed_joined(s.index_documents, index_id, rest);
        let row = CollectionIndexDocumentModel { index_id, document_id: document_ids.last() };
        if !has_key(before, indexed_key(), (index_id, document_ids.last())) {
            assert(is_document(s)(document_ids[document_ids.len() - 1]));
            lemma_unique_push(before, indexed_key(), row);
            lemma_refers_child_push(
                before,
                indexed_index(),
                s.collection_indexes,
                crate::model::index_id(),
                row,
            );
            lemma_refers_child_push(before, indexed_document(), s.documents, document_id(), row);
        }
    }
}

/// Taking indexed documents out keeps the state well formed.
pub proof fn lemma_indexed_filter_wf(s: State, keep: spec_fn(CollectionIndexDocumentModel) -> bool)
    requires
        s.wf(),
    ensures
        (State { index_documents: s.index_documents.filter(keep), ..s }).wf(),
{
    lemma_unique_filter(s.index_documents, indexed_key(), keep);
    lemma_refers_child_filter(
        s.index_documents,
        indexed_index(),
        s.collection_indexes,
        index_id(),
        keep,
    );
    lemma_refers_child_filter(s.index_documents, indexed_document(), s.documents, document_id(), keep);
}

/// Taking collection indexes out, together with the sessions and the
/// indexed documents that hang on them, keeps the state well formed.
pub proof fn lemma_without_indexes_wf(s: State, index_ids: Seq<Seq<char>>)
    requires
        s.wf(),
    ensures
        without_indexes(s, index_ids).wf(),
{
    let sessions = s.sessions.filter(session_off(index_ids));
    let documents = s.index_documents.filter(indexed_off(index_ids));
    let keep = index_off(index_ids);
    lemma_sessions_filter_wf(s, session_off(index_ids));
    lemma_indexed_filter_wf(s, indexed_off(index_ids));
    lemma_unique_filter(s.collection_indexes, index_id(), keep);
    lemma_refers_child_filter(
        s.collection_indexes,
        index_collection(),
        s.collections,
        collection_id(),
        keep,
    );
    lemma_refers_child_filter(
        s.collection_indexes,
        index_profile(),
        s.index_profiles,
        profile_id(),
        keep,
    );
    assert forall|i: int, j: int|
        0 <= i < sessions.len() && 0 <= j < s.collection_indexes.len() && index_id()(
            #[trigger] s.collection_indexes[j],
        ) == session_index()(#[trigger] sessions[i]) implies keep(s.collection_indexes[j]) by {
        let at = lemma_filter_source(s.sessions, session_off(index_ids), i);
    }
    lemma_refers_parent_filter(sessions, session_index(), s.collection_indexes, index_id(), keep);
    assert forall|i: int, j: int|
        0 <= i < documents.len() && 0 <= j < s.collection_indexes.len() && index_id()(
            #[trigger] s.collection_indexes[j],
        ) == indexed_index()(#[trigger] documents[i]) implies keep(s.collection_indexes[j]) by {
        let at = lemma_filter_source(s.index_documents, indexed_off(index_ids), i);
    }
    lemma_refers_parent_filter(documents, indexed_index(), s.collection_indexes, index_id(), keep);
}

/// The place of the collection index with the given identifier.
pub(crate) fn find_index(db: &Store, id: &String) -> (r: Option<usize>)
    ensures
        match r {
            Some(i) => i < db@.collection_indexes.len() && db@.collection_indexes[i as int].id
                == id@,
            None => !has_key(db@.collection_indexes, index_id(), id@),
        },
{
    let mut i: usize = 0;
    while i < db.collection_indexes.len()
        invariant
            i <= db.collection_indexes.len(),
            forall|j: int| 0 <= j < i ==> index_id()(#[trigger] db@.collection_indexes[j]) != id@,
        decreases db.collection_indexes.len() - i,
    {
        if db.collection_indexes[i].id == *id {
            return Some(i);
        }
        i += 1;
    }
    None
}

/// Whether the document is under the collection index.
fn is_indexed(db: &Store, index_id: &String, document_id: i32) -> (found: bool)
    ensures
        found == has_key(db@.index_documents, indexed_key(), (index_id@, document_id as int)),
{
    let mut i: usize = 0;
    while i < db.index_documents.len()
        invariant
            i <= db.index_documents.len(),
            forall|j: int|
                0 <= j < i ==> indexed_key()(#[trigger] db@.index_documents[j]) != (
                    index_id@,
                    document_id as int,
                ),
        decreases db.index_documents.len() - i,
    {
        if db.index_documents[i].document_id == document_id && db.index_documents[i].index_id
            == *index_id {
            assert(indexed_key()(db@.index_documents[i as int]) == (
                index_id@,
                document_id as int,
            ));
            return true;
        }
        i += 1;
    }
    false
}

/// The documents indexed under the given collection index, in the order
/// in which they were put under it.
fn indexed_under(db: &Store, index_id: &String) -> (rows: Vec<CollectionIndexDocument>)
    ensures
        models(rows@) == db@.index_documents.filter(indexed_in(index_id@)),
{
    let ghost all = db@.index_documents;
    let ghost keep = indexed_in(index_id@);
    let mut rows: Vec<CollectionIndexDocument> = Vec::new();
    let mut i: usize = 0;
    proof {
        assert(all.take(0).filter(keep) =~= Seq::empty()) by {
            reveal(Seq::filter);
        }
        assert(models(rows@) =~= Seq::empty());
    }
    while i < db.index_documents.len()
        invariant
            i <= db.index_documents.len(),
            all == db@.index_documents,
            keep == indexed_in(index_id@),
            models(rows@) == all.take(i as int).filter(keep),
        decreases db.index_documents.len() - i,
    {
        proof {
            lemma_filter_step(all, keep, i as int);
        }
        if db.index_documents[i].index_id == *index_id {
            let row = db.index_documents[i].clone();
            proof {
                lemma_models_push(rows@, row);
            }
            rows.push(row);
        }
        i += 1;
    }
    assert(all.take(db.index_documents.len() as int) =~= all);
    rows
}

/// Deletes the given collection indexes: first the sessions held against
/// them, then the documents indexed under them, then the indexes
/// themselves. It returns how many indexes there were. An empty list
/// deletes nothing.
pub fn delete_collection_indexes_by_id(db: &mut Store, collection_index_ids: Vec<String>) -> (removed:
    usize)
    requires
        old(db)@.wf(),
    ensures
        final(db)@.wf(),
        final(db)@ == without_indexes(old(db)@, texts(collection_index_ids@)),
        removed == old(db)@.collection_indexes.len() - final(db)@.collection_indexes.len(),
{
    remove_indexes(db, &collection_index_ids)
}

/// Takes out the given collection indexes, after the sessions and the
/// indexed documents that hang on them.
pub(crate) fn remove_indexes(db: &mut Store, index_ids: &Vec<String>) -> (removed: usize)
    requires
        old(db)@.wf(),
    ensures
        final(db)@.wf(),
        final(db)@ == without_indexes(old(db)@, texts(index_ids@)),
        removed == old(db)@.collection_indexes.len() - final(db)@.collection_indexes.len(),
{
    let ghost ids = texts(index_ids@);
    proof {
        lemma_without_indexes_wf(db@, ids);
    }
    remove_sessions_of(db, index_ids);
    remove_indexed_of(db, index_ids);
    let ghost all = db@.collection_indexes;
    let ghost keep = index_off(ids);
    let ghost middle = db@;
    let mut kept: Vec<CollectionIndex> = Vec::new();
    let mut i: usize = 0;
    proof {
        assert(all.take(0).filter(keep) =~= Seq::empty()) by {
            reveal(Seq::filter);
        }
        assert(models(kept@) =~= Seq::empty());
    }
    while i < db.collection_indexes.len()
        invariant
            i <= db.collection_indexes.len(),
            db@ == middle,
            all == db@.collection_indexes,
            ids == texts(index_ids@),
            keep == index_off(ids),
            models(kept@) == all.take(i as int).filter(keep),
            kept@.len() <= i,
        decreases db.collection_indexes.len() - i,
    {
        proof {
            lemma_filter_step(all, keep, i as int);
        }
        if !contains_text(index_ids, &db.collection_indexes[i].id) {
            let row = db.collection_indexes[i].clone();
            proof {
                lemma_models_push(kept@, row);
            }
            kept.push(row);
        }
        i += 1;
    }
    assert(all.take(db.collection_indexes.len() as int) =~= all);
    let removed: usize = db.collection_indexes.len() - kept.len();
    db.collection_indexes = kept;
    removed
}

/// Takes out the documents indexed under any of the given collection
/// indexes.
fn remove_indexed_of(db: &mut Store, index_ids: &Vec<String>)
    requires
        old(db)@.wf(),
    ensures
        final(db)@.wf(),
        final(db)@ == (State {
            index_documents: old(db)@.index_documents.filter(indexed_off(texts(index_ids@))),
            ..old(db)@
        }),
{
    let ghost all = db@.index_documents;
    let ghost keep = indexed_off(texts(index_ids@));
    let mut kept: Vec<CollectionIndexDocument> = Vec::new();
    let mut i: usize = 0;
    proof {
        lemma_indexed_filter_wf(db@, keep);
        assert(all.take(0).filter(keep) =~= Seq::empty()) by {
            reveal(Seq::filter);
        }
        assert(models(kept@) =~= Seq::empty());
    }
    while i < db.index_documents.len()
        invariant
            i <= db.index_documents.len(),
            db@ == old(db)@,
            all == db@.index_documents,
            keep == indexed_off(texts(index_ids@)),
            models(kept@) == all.take(i as int).filter(keep),
        decreases db.index_documents.len() - i,
    {
        proof {
            lemma_filter_step(all, keep, i as int);
        }
        if !contains_text(index_ids, &db.index_documents[i].index_id) {
            let row = db.index_documents[i].clone();
            proof {
                lemma_models_push(kept@, row);
            }
            kept.push(row);
        }
        i += 1;
    }
    assert(all.take(db.index_documents.len() as int) =~= all);
    db.index_documents = kept;
}

/// Takes the given documents out from under the collection index, and
/// returns how many of them were under it.
pub fn remove_documents_from_collection_index(
    db: &mut Store,
    index_id: String,
    document_ids: Vec<i32>,
) -> (removed: usize)
    requires
        old(db)@.wf(),
    ensures
        final(db)@.wf(),
        final(db)@ == (State {
            index_documents: old(db)@.index_documents.filter(
                indexed_apart(index_id@, numbers(document_ids@)),
            ),
            ..old(db)@
        }),
        removed == old(db)@.index_documents.len() - final(db)@.index_documents.len(),
{
    let ghost all = db@.index_documents;
    let ghost keep = indexed_apart(index_id@, numbers(document_ids@));
    let mut kept: Vec<CollectionIndexDocument> = Vec::new();
    let mut i: usize = 0;
    proof {
        lemma_indexed_filter_wf(db@, keep);
        assert(all.take(0).filter(keep) =~= Seq::empty()) by {
            reveal(Seq::filter);
        }
        assert(models(kept@) =~= Seq::empty());
    }
    while i < db.index_documents.len()
        invariant
            i <= db.index_documents.len(),
            db@ == old(db)@,
            all == db@.index_documents,
            keep == indexed_apart(index_id@, numbers(document_ids@)),
            models(kept@) == all.take(i as int).filter(keep),
            kept@.len() <= i,
        decreases db.index_documents.len() - i,
    {
        proof {
            lemma_filter_step(all, keep, i as int);
        }
        if !(db.index_documents[i].index_id == index_id && contains_number(
            &document_ids,
            db.index_documents[i].document_id,
        )) {
            let row = db.index_documents[i].clone();
            proof {
                lemma_models_push(kept@, row);
            }
            kept.push(row);
        }
        i += 1;
    }
    assert(all.take(db.index_documents.len() as int) =~= all);
    let removed: usize = db.index_documents.len() - kept.len();
    db.index_documents = kept;
    removed
}

/// The collection indexes of the given collection, in the order in which
/// they were created.
pub fn get_collection_indexes_by_collection_id(db: &Store, collection_id: i32) -> (rows: Vec<
    CollectionIndex,
>)
    ensures
        models(rows@) == db@.collection_indexes.filter(index_of(collection_id as int)),
{
    let ghost all = db@.collection_indexes;
    let ghost keep = index_of(collection_id as int);
    let mut rows: Vec<CollectionIndex> = Vec::new();
    let mut i: usize = 0;
    proof {
        assert(all.take(0).filter(keep) =~= Seq::empty()) by {
            reveal(Seq::filter);
        }
        assert(models(rows@) =~= Seq::empty());
    }
    while i < db.collection_indexes.len()
        invariant
            i <= db.collection_indexes.len(),
            all == db@.collection_indexes,
            keep == index_of(collection_id as int),
            models(rows@) == all.take(i as int).filter(keep),
        decreases db.collection_indexes.len() - i,
    {
        proof {
            lemma_filter_step(all, keep, i as int);
        }
        if db.collection_indexes[i].collection_id == collection_id {
            let row = db.collection_indexes[i].clone();
            proof {
                lemma_models_push(rows@, row);
            }
            rows.push(row);
        }
        i += 1;
    }
    assert(all.take(db.collection_indexes.len() as int) =~= all);
    rows
}

/// The collection indexes of the given collection, each together with its
/// index profile, the rows that profile names, and the documents indexed
/// under it, in the order in which they were created.
pub fn get_collection_indexes_by_collection_id_with_all(db: &Store, collection_id: i32) -> (rows:
    Vec<CollectionIndexWithAll>)
    requires
        db@.wf(),
    ensures
        models(rows@) == db@.collection_indexes.filter(index_of(collection_id as int)).map_values(
            |x: CollectionIndexModel| index_with_all(db@, x),
        ),
{
    let ghost all = db@.collection_indexes;
    let ghost keep = index_of(collection_id as int);
    let ghost join = |x: CollectionIndexModel| index_with_all(db@, x);
    let mut rows: Vec<CollectionIndexWithAll> = Vec::new();
    let mut i: usize = 0;
    proof {
        assert(all.take(0).filter(keep) =~= Seq::empty()) by {
            reveal(Seq::filter);
        }
        assert(models(rows@) =~= all.take(0).filter(keep).map_values(join));
    }
    while i < db.collection_indexes.len()
        invariant
            i <= db.collection_indexes.len(),
            db@.wf(),
            all == db@.collection_indexes,
            keep == index_of(collection_id as int),
            join == |x: CollectionIndexModel| index_with_all(db@, x),
            models(rows@) == all.take(i as int).filter(keep).map_values(join),
        decreases db.collection_indexes.len() - i,
    {
        let ghost before = all.take(i as int).filter(keep);
        proof {
            lemma_filter_step(all, keep, i as int);
        }
        if db.collection_indexes[i].collection_id == collection_id {
            let index = db.collection_indexes[i].clone();
            proof {
                assert(has_key(db@.index_profiles, profile_id(), index_profile()(all[i as int])));
            }
            let at = locate_profile(db, index.index_id);
            proof {
                lemma_index_by(db@.index_profiles, profile_id(), at as int);
            }
            let profile = join_profile(db, at);
            let indexed_documents = indexed_under(db, &index.id);
            let row = CollectionIndexWithAll { index, profile, indexed_documents };
            proof {
                assert(row@ == join(all[i as int]));
                lemma_models_push(rows@, row);
                assert(before.push(all[i as int]).map_values(join) =~= before.map_values(
                    join,
                ).push(row@));
            }
            rows.push(row);
        }
        i += 1;
    }
    assert(all.take(db.collection_indexes.len() as int) =~= all);
    rows
}

/// The collection index with the given identifier, if there is one.
pub fn get_collection_index_by_id(db: &Store, collection_index_id: String) -> (r: Option<
    CollectionIndex,
>)
    requires
        db@.wf(),
    ensures
        match r {
            Some(row) => Some(row@),
            None => None,
        } == find_by(db@.collection_indexes, index_id(), collection_index_id@),
{
    match find_index(db, &collection_index_id) {
        Some(i) => {
            proof {
                lemma_index_by(db@.collection_indexes, index_id(), i as int);
            }
            Some(db.collection_indexes[i].clone())
        },
        None => None,
    }
}

/// Creates a collection index under the identifier `id`, which the caller
/// chooses and which must be new. The collection and the index profile
/// must exist.
pub fn create_collection_index(db: &mut Store, id: String, data: CreateCollectionIndexData) -> (r:
    Result<CollectionIndex, Failure>)
    requires
        old(db)@.wf(),
    ensures
        final(db)@.wf(),
        final(db)@ == created_index(old(db)@, id@, data@).0,
        match r {
            Ok(row) => Ok::<CollectionIndexModel, Failure>(row@),
            Err(e) => Err(e),
        } == created_index(old(db)@, id@, data@).1,
{
    proof {
        lemma_created_index_wf(db@, id@, data@);
    }
    if find_collection(db, data.collection_id).is_none() {
        return Err(Failure::new(FailureKind::NotFound, Entity::Collection));
    }
    if find_profile(db, data.index_id).is_none() {
        return Err(Failure::new(FailureKind::NotFound, Entity::IndexProfile));
    }
    match find_index(db, &id) {
        Some(at) => {
            assert(index_id()(db@.collection_indexes[at as int]) == id@);
            return Err(Failure::new(FailureKind::ConstraintViolation, Entity::CollectionIndex));
        },
        None => {},
    }
    let row = CollectionIndex {
        id,
        name: data.name,
        collection_id: data.collection_id,
        index_id: data.index_id,
    };
    let stored = row.clone();
    proof {
        lemma_models_push(db.collection_indexes@, stored);
    }
    db.collection_indexes.push(stored);
    Ok(row)
}

/// Puts the given documents under the collection index, and returns their
/// rows in the order of the documents. A document that is under it
/// already stays as it is. The index and every one of the documents must
/// exist; then all are put under it, and else none.
pub fn upsert_documents_in_collection_index(db: &mut Store, id: String, document_ids: Vec<i32>) -> (r:
    Result<Vec<CollectionIndexDocument>, Failure>)
    requires
        old(db)@.wf(),
    ensures
        final(db)@.wf(),
        final(db)@ == upserted_in_index(old(db)@, id@, numbers(document_ids@)).0,
        match r {
            Ok(rows) => Ok::<Seq<CollectionIndexDocumentModel>, Failure>(models(rows@)),
            Err(e) => Err(e),
        } == upserted_in_index(old(db)@, id@, numbers(document_ids@)).1,
{
    match find_index(db, &id) {
        Some(at) => {
            assert(index_id()(db@.collection_indexes[at as int]) == id@);
        },
        None => {
            return Err(Failure::new(FailureKind::NotFound, Entity::CollectionIndex));
        },
    }
    if !all_documents(db, &document_ids) {
        return Err(Failure::new(FailureKind::NotFound, Entity::Document));
    }
    let ghost start = db@;
    let ghost ids = numbers(document_ids@);
    let mut rows: Vec<CollectionIndexDocument> = Vec::new();
    let mut i: usize = 0;
    proof {
        lemma_indexed_joined(start, id@, ids);
        assert(ids.take(0) =~= Seq::<int>::empty());
        assert(models(rows@) =~= indexed_rows(id@, ids).take(0));
        assert(db@ == (State {
            index_documents: indexed_joined(start.index_documents, id@, ids.take(0)),
            ..start
        }));
    }
    while i < document_ids.len()
        invariant
            i <= document_ids.len(),
            ids == numbers(document_ids@),
            start == old(db)@,
            models(rows@) == indexed_rows(id@, ids).take(i as int),
            db@ == (State {
                index_documents: indexed_joined(start.index_documents, id@, ids.take(i as int)),
                ..start
            }),
        decreases document_ids.len() - i,
    {
        let document_id: i32 = document_ids[i];
        let row = CollectionIndexDocument { index_id: id.clone(), document_id };
        proof {
            assert(ids[i as int] == document_id as int);
            assert(ids.take(i + 1).drop_last() =~= ids.take(i as int));
            assert(ids.take(i + 1).last() == ids[i as int]);
            lemma_models_push(rows@, row);
            assert(indexed_rows(id@, ids).take(i + 1) =~= indexed_rows(id@, ids).take(
                i as int,
            ).push(row@));
        }
        if !is_indexed(db, &id, document_id) {
            let stored = row.clone();
            proof {
                lemma_models_push(db.index_documents@, stored);
            }
            db.index_documents.push(stored);
        }
        rows.push(row);
        i += 1;
    }
    assert(ids.take(document_ids.len() as int) =~= ids);
    assert(indexed_rows(id@, ids).take(document_ids.len() as int) =~= indexed_rows(id@, ids));
    Ok(rows)
}

} // verus!
