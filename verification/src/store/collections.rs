//! Collections: named sets of documents, each bound to index profiles by
//! its collection indexes. A collection goes last: its memberships, and
//! its collection indexes with all that hangs on them, go before it.

use vstd::prelude::*;
use crate::error::{Entity, Failure, FailureKind};
use crate::model::{collection_id, index_collection, membership_collection, State};
use crate::relations::{
    find_by, has_key, index_by, lemma_filter_source, lemma_filter_step, lemma_filter_target,
    lemma_index_by, lemma_refers_parent_filter, lemma_refers_parent_push,
    lemma_refers_parent_update, lemma_remove_is_filter, lemma_unique_filter, lemma_unique_push,
    lemma_unique_update, lemma_within_filter, lemma_within_fresh, lemma_within_push,
    lemma_within_update, not_keyed,
};
use crate::rows::{
    lemma_models_push, lemma_models_remove, lemma_models_update, models, Collection,
    CollectionIndex, CollectionIndexModel, CollectionModel,
};
use crate::store::collection_indexes::{
    get_collection_indexes_by_collection_id, index_of, index_off, lemma_without_indexes_wf,
    remove_indexes, without_indexes,
};
use crate::store::collections_on_documents::{
    delete_collection_on_documents, is_document, join_documents, joined,
    lemma_memberships_filter_wf, member_elsewhere,
};
use crate::store::documents::{
    add_documents, added_documents, lemma_added_documents_wf, CreateDocumentData, NewDocument,
    NewDocumentModel,
};
use crate::store::{numbers, texts, Store};

verus! {

/// A collection to create, with the documents to ingest into it.
#[derive(Debug, PartialEq, Eq)]
pub struct CreateCollectionData {
    pub name: String,
    pub documents: Vec<CreateDocumentData>,
}

impl CreateCollectionData {
    /// For each document, in their order, the content hash of content
    /// held in memory; for a file on disk there is none here.
    pub fn content_hashes(&self) -> (hashes: Vec<Option<String>>)
        ensures
            hashes@.len() == self.documents@.len(),
            forall|i: int|
                0 <= i < hashes@.len() ==> match self.documents@[i] {
                    CreateDocumentData::Path { .. } => (#[trigger] hashes@[i]) is None,
                    CreateDocumentData::File { content, .. } => hashes@[i] is Some
                        && hashes@[i]->Some_0@ == crate::hash::content_hash(content@),
                },
    {
        let mut hashes: Vec<Option<String>> = Vec::new();
        let mut i: usize = 0;
        while i < self.documents.len()
            invariant
                i <= self.documents.len(),
                hashes@.len() == i,
                forall|j: int|
                    0 <= j < i ==> match self.documents@[j] {
                        CreateDocumentData::Path { .. } => (#[trigger] hashes@[j]) is None,
                        CreateDocumentData::File { content, .. } => hashes@[j] is Some
                            && hashes@[j]->Some_0@ == crate::hash::content_hash(content@),
                    },
            decreases self.documents.len() - i,
        {
            hashes.push(self.documents[i].content_hash());
            i += 1;
        }
        hashes
    }
}

/// A collection together with its collection indexes.
#[derive(Debug, PartialEq, Eq)]
pub struct CollectionWithIndexes {
    pub collection: Collection,
    pub indexes: Vec<CollectionIndex>,
}

/// The model of a [`CollectionWithIndexes`].
pub struct CollectionWithIndexesModel {
    pub collection: CollectionModel,
    pub indexes: Seq<CollectionIndexModel>,
}

impl View for CollectionWithIndexes {
    type V = CollectionWithIndexesModel;

    open spec fn view(&self) -> CollectionWithIndexesModel {
        CollectionWithIndexesModel { collection: self.collection@, indexes: models(self.indexes@) }
    }
}

/// A collection together with its collection indexes, in a state.
pub open spec fn with_indexes(s: State, collection: CollectionModel) -> CollectionWithIndexesModel {
    CollectionWithIndexesModel {
        collection,
        indexes: s.collection_indexes.filter(index_of(collection.id)),
    }
}

/// The numbers of the given documents, in their order.
pub open spec fn ids_of(documents: Seq<crate::rows::DocumentModel>) -> Seq<int> {
    documents.map_values(|d: crate::rows::DocumentModel| d.id)
}

/// The identifiers of the collection indexes of a collection, in their
/// order.
pub open spec fn index_ids_of(s: State, collection_id: int) -> Seq<Seq<char>> {
    s.collection_indexes.filter(index_of(collection_id)).map_values(
        |x: CollectionIndexModel| x.id,
    )
}

/// The failure for a collection that is not there.
pub open spec fn no_collection() -> Failure {
    Failure { kind: FailureKind::NotFound, entity: Entity::Collection }
}

/// What creating a collection with documents does to a state and returns.
/// The documents are looked up or created in turn; then the collection is
/// written, with the next number, and each of the documents is put in it.
pub open spec fn created_collection(
    s: State,
    name: Seq<char>,
    news: Seq<NewDocumentModel>,
    update_time: int,
) -> (State, Result<CollectionModel, Failure>) {
    if s.last_collection_id >= i32::MAX {
        (s, Err(Failure { kind: FailureKind::StoreError, entity: Entity::Collection }))
    } else {
        let (ingested, r) = added_documents(s, news, update_time);
        match r {
            Err(e) => (ingested, Err(e)),
            Ok(documents) => {
                let row = CollectionModel { id: s.last_collection_id + 1, name };
                (
                    State {
                        collections: ingested.collections.push(row),
                        last_collection_id: s.last_collection_id + 1,
                        collection_documents: joined(
                            ingested.collection_documents,
                            row.id,
                            ids_of(documents),
                        ),
                        ..ingested
                    },
                    Ok(row),
                )
            },
        }
    }
}

/// What renaming a collection does to a state and returns: the collection
/// is replaced by the renamed one, which is returned, or there is none.
pub open spec fn renamed_collection(s: State, id: int, name: Seq<char>) -> (
    State,
    Result<CollectionModel, Failure>,
) {
    if has_key(s.collections, collection_id(), id) {
        let at = index_by(s.collections, collection_id(), id);
        let row = CollectionModel { id, name };
        (State { collections: s.collections.update(at, row), ..s }, Ok(row))
    } else {
        (s, Err(no_collection()))
    }
}

/// What deleting a collection does to a state and returns. Its
/// memberships go first; then its collection indexes, each after its
/// sessions and its indexed documents; then the collection itself, which
/// is returned. Where there is no such collection nothing is deleted.
pub open spec fn deleted_collection(s: State, id: int) -> (State, Result<CollectionModel, Failure>) {
    if has_key(s.collections, collection_id(), id) {
        let unjoined = State {
            collection_documents: s.collection_documents.filter(member_elsewhere(id)),
            ..s
        };
        let unbound = without_indexes(unjoined, index_ids_of(s, id));
        let at = index_by(s.collections, collection_id(), id);
        (State { collections: s.collections.remove(at), ..unbound }, Ok(s.collections[at]))
    } else {
        (s, Err(no_collection()))
    }
}

/// After the collection indexes of a collection were taken out, no
/// collection index binds that collection.
pub proof fn lemma_unbound(s: State, id: int, i: int)
    requires
        0 <= i < s.collection_indexes.filter(index_off(index_ids_of(s, id))).len(),
    ensures
        s.collection_indexes.filter(index_off(index_ids_of(s, id)))[i].collection_id != id,
{
    let ids = index_ids_of(s, id);
    let at = lemma_filter_source(s.collection_indexes, index_off(ids), i);
    let row = s.collection_indexes[at];
    if row.collection_id == id {
        let place = lemma_filter_target(s.collection_indexes, index_of(id), at);
        assert(ids[place] == row.id);
    }
}

/// Deleting a collection keeps the state well formed.
pub proof fn lemma_deleted_collection_wf(s: State, id: int)
    requires
        s.wf(),
    ensures
        deleted_collection(s, id).0.wf(),
{
    if has_key(s.collections, collection_id(), id) {
        let ids = index_ids_of(s, id);
        let unjoined = State {
            collection_documents: s.collection_documents.filter(member_elsewhere(id)),
            ..s
        };
        lemma_memberships_filter_wf(s, member_elsewhere(id));
        let unbound = without_indexes(unjoined, ids);
        lemma_without_indexes_wf(unjoined, ids);
        let at = index_by(s.collections, collection_id(), id);
        let keep = not_keyed(collection_id(), id);
        lemma_remove_is_filter(s.collections, collection_id(), at);
        lemma_unique_filter(s.collections, collection_id(), keep);
        lemma_within_filter(s.collections, collection_id(), s.last_collection_id, keep);
        let members = unbound.collection_documents;
        assert forall|i: int, j: int|
            0 <= i < members.len() && 0 <= j < s.collections.len() && collection_id()(
                #[trigger] s.collections[j],
            ) == membership_collection()(#[trigger] members[i]) implies keep(s.collections[j]) by {
            let from = lemma_filter_source(s.collection_documents, member_elsewhere(id), i);
        }
        lemma_refers_parent_filter(
            members,
            membership_collection(),
            s.collections,
            collection_id(),
            keep,
        );
        let indexes = unbound.collection_indexes;
        assert forall|i: int, j: int|
            0 <= i < indexes.len() && 0 <= j < s.collections.len() && collection_id()(
                #[trigger] s.collections[j],
            ) == index_collection()(#[trigger] indexes[i]) implies keep(s.collections[j]) by {
            lemma_unbound(s, id, i);
        }
        lemma_refers_parent_filter(
            indexes,
            index_collection(),
            s.collections,
            collection_id(),
            keep,
        );
    }
}

/// Renaming a collection keeps the state well formed.
pub proof fn lemma_renamed_collection_wf(s: State, id: int, name: Seq<char>)
    requires
        s.wf(),
    ensures
        renamed_collection(s, id, name).0.wf(),
{
    if has_key(s.collections, collection_id(), id) {
        let at = index_by(s.collections, collection_id(), id);
        let row = CollectionModel { id, name };
        lemma_unique_update(s.collections, collection_id(), at, row);
        lemma_within_update(s.collections, collection_id(), s.last_collection_id, at, row);
        lemma_refers_parent_update(
            s.collection_documents,
            membership_collection(),
            s.collections,
            collection_id(),
            at,
            row,
        );
        lemma_refers_parent_update(
            s.collection_indexes,
            index_collection(),
            s.collections,
            collection_id(),
            at,
            row,
        );
    }
}

/// The place of the collection with the given number.
pub(crate) fn find_collection(db: &Store, id: i32) -> (r: Option<usize>)
    ensures
        match r {
            Some(i) => i < db@.collections.len() && db@.collections[i as int].id == id,
            None => !has_key(db@.collections, collection_id(), id as int),
        },
{
    let mut i: usize = 0;
    while i < db.collections.len()
        invariant
            i <= db.collections.len(),
            forall|j: int| 0 <= j < i ==> collection_id()(#[trigger] db@.collections[j]) != id,
        decreases db.collections.len() - i,
    {
        if db.collections[i].id == id {
            return Some(i);
        }
        i += 1;
    }
    None
}

/// The identifiers of the collection indexes of a collection, in their
/// order.
fn index_ids(db: &Store, collection_id: i32) -> (ids: Vec<String>)
    ensures
        texts(ids@) == index_ids_of(db@, collection_id as int),
{
    let ghost all = db@.collection_indexes;
    let ghost keep = index_of(collection_id as int);
    let ghost name = |x: CollectionIndexModel| x.id;
    let mut ids: Vec<String> = Vec::new();
    let mut i: usize = 0;
    proof {
        assert(all.take(0).filter(keep) =~= Seq::empty()) by {
            reveal(Seq::filter);
        }
        assert(texts(ids@) =~= all.take(0).filter(keep).map_values(name));
    }
    while i < db.collection_indexes.len()
        invariant
            i <= db.collection_indexes.len(),
            all == db@.collection_indexes,
            keep == index_of(collection_id as int),
            name == |x: CollectionIndexModel| x.id,
            texts(ids@) == all.take(i as int).filter(keep).map_values(name),
        decreases db.collection_indexes.len() - i,
    {
        let ghost before = all.take(i as int).filter(keep);
        proof {
            lemma_filter_step(all, keep, i as int);
        }
        if db.collection_indexes[i].collection_id == collection_id {
            let id = db.collection_indexes[i].id.clone();
            proof {
                assert(texts(ids@.push(id)) =~= texts(ids@).push(id@));
                assert(before.push(all[i as int]).map_values(name) =~= before.map_values(
                    name,
                ).push(id@));
            }
            ids.push(id);
        }
        i += 1;
    }
    assert(all.take(db.collection_indexes.len() as int) =~= all);
    ids
}

/// Deletes the collection with the given number and returns it. Its
/// memberships go first; then its collection indexes, each after its
/// sessions and its indexed documents; then the collection itself. A
/// number that no collection has is a failure, and nothing is deleted.
pub fn delete_collection_by_id(db: &mut Store, collection_id: i32) -> (r: Result<Collection, Failure>)
    requires
        old(db)@.wf(),
    ensures
        final(db)@.wf(),
        final(db)@ == deleted_collection(old(db)@, collection_id as int).0,
        match r {
            Ok(row) => Ok::<CollectionModel, Failure>(row@),
            Err(e) => Err(e),
        } == deleted_collection(old(db)@, collection_id as int).1,
{
    proof {
        lemma_deleted_collection_wf(db@, collection_id as int);
    }
    let at = match find_collection(db, collection_id) {
        Some(at) => at,
        None => {
            return Err(Failure::new(FailureKind::NotFound, Entity::Collection));
        },
    };
    proof {
        lemma_index_by(db@.collections, crate::model::collection_id(), at as int);
    }
    let ids = index_ids(db, collection_id);
    delete_collection_on_documents(db, collection_id);
    remove_indexes(db, &ids);
    proof {
        lemma_models_remove(db.collections@, at as int);
    }
    let row = db.collections.remove(at);
    Ok(row)
}

/// The collection with the given number, if there is one.
pub fn get_collection_by_id(db: &Store, collection_id: i32) -> (r: Option<Collection>)
    requires
        db@.wf(),
    ensures
        match r {
            Some(row) => Some(row@),
            None => None,
        } == find_by(db@.collections, crate::model::collection_id(), collection_id as int),
{
    match find_collection(db, collection_id) {
        Some(i) => {
            proof {
                lemma_index_by(db@.collections, crate::model::collection_id(), i as int);
            }
            Some(db.collections[i].clone())
        },
        None => None,
    }
}

/// All collections, in the order in which they were created.
pub fn get_collections(db: &Store) -> (rows: Vec<Collection>)
    ensures
        models(rows@) == db@.collections,
{
    let rows = db.collections.clone();
    assert(models(rows@) =~= db@.collections);
    rows
}

/// All collections, each together with its collection indexes, in the
/// order in which they were created.
pub fn get_collections_with_indexes(db: &Store) -> (rows: Vec<CollectionWithIndexes>)
    ensures
        models(rows@) == db@.collections.map_values(|c: CollectionModel| with_indexes(db@, c)),
{
    let mut rows: Vec<CollectionWithIndexes> = Vec::new();
    let mut i: usize = 0;
    while i < db.collections.len()
        invariant
            i <= db.collections.len(),
            rows@.len() == i,
            forall|j: int|
                0 <= j < i ==> (#[trigger] rows@[j])@ == with_indexes(db@, db@.collections[j]),
        decreases db.collections.len() - i,
    {
        let collection = db.collections[i].clone();
        let indexes = get_collection_indexes_by_collection_id(db, collection.id);
        rows.push(CollectionWithIndexes { collection, indexes });
        i += 1;
    }
    assert(models(rows@) =~= db@.collections.map_values(
        |c: CollectionModel| with_indexes(db@, c),
    ));
    rows
}

/// Creates a collection with documents: the documents are looked up or
/// created in turn, then the collection is written, with the next number,
/// and each of the documents is put in it.
pub fn create_collection(db: &mut Store, name: String, news: Vec<NewDocument>, update_time: i64) -> (r:
    Result<Collection, Failure>)
    requires
        old(db)@.wf(),
    ensures
        final(db)@.wf(),
        final(db)@ == created_collection(old(db)@, name@, models(news@), update_time as int).0,
        match r {
            Ok(row) => Ok::<CollectionModel, Failure>(row@),
            Err(e) => Err(e),
        } == created_collection(old(db)@, name@, models(news@), update_time as int).1,
{
    if db.last_collection_id >= i32::MAX {
        return Err(Failure::new(FailureKind::StoreError, Entity::Collection));
    }
    let documents = match add_documents(db, news, update_time) {
        Ok(documents) => documents,
        Err(e) => {
            return Err(e);
        },
    };
    let ghost ingested = db@;
    proof {
        lemma_ingested_exist(old(db)@, models(news@), update_time as int);
    }
    let mut ids: Vec<i32> = Vec::new();
    let mut i: usize = 0;
    assert(numbers(ids@) =~= ids_of(models(documents@)).take(0));
    while i < documents.len()
        invariant
            i <= documents.len(),
            db@ == ingested,
            numbers(ids@) == ids_of(models(documents@)).take(i as int),
        decreases documents.len() - i,
    {
        proof {
            assert(ids_of(models(documents@)).take(i + 1) =~= ids_of(models(documents@)).take(
                i as int,
            ).push(documents@[i as int]@.id));
            assert(numbers(ids@.push(documents@[i as int].id)) =~= numbers(ids@).push(
                documents@[i as int].id as int,
            ));
        }
        ids.push(documents[i].id);
        i += 1;
    }
    assert(ids_of(models(documents@)).take(documents.len() as int) =~= ids_of(
        models(documents@),
    ));
    let id: i32 = db.last_collection_id + 1;
    let row = Collection { id, name };
    let stored = row.clone();
    proof {
        lemma_models_push(db.collections@, stored);
        lemma_within_fresh(
            ingested.collections,
            collection_id(),
            ingested.last_collection_id,
            id as int,
        );
        lemma_unique_push(ingested.collections, collection_id(), row@);
        lemma_within_push(
            ingested.collections,
            collection_id(),
            ingested.last_collection_id,
            row@,
        );
        lemma_refers_parent_push(
            ingested.collection_documents,
            membership_collection(),
            ingested.collections,
            collection_id(),
            row@,
        );
        lemma_refers_parent_push(
            ingested.collection_indexes,
            index_collection(),
            ingested.collections,
            collection_id(),
            row@,
        );
        crate::relations::lemma_has_key_push(
            ingested.collections,
            collection_id(),
            row@,
            id as int,
        );
    }
    db.collections.push(stored);
    db.last_collection_id = id;
    proof {
        assert(ids_of(models(documents@)) == numbers(ids@));
        assert forall|k: int| 0 <= k < numbers(ids@).len() implies is_document(db@)(
            #[trigger] numbers(ids@)[k],
        ) by {
            assert(is_document(ingested)(ids_of(models(documents@))[k]));
        }
    }
    join_documents(db, id, &ids);
    Ok(row)
}

/// Every document that looking up or creating returned is a document of
/// the state it left.
pub proof fn lemma_ingested_exist(s: State, news: Seq<NewDocumentModel>, update_time: int)
    requires
        s.wf(),
        added_documents(s, news, update_time).1 is Ok,
    ensures
        crate::relations::all(
            ids_of(added_documents(s, news, update_time).1->Ok_0),
            is_document(added_documents(s, news, update_time).0),
        ),
        added_documents(s, news, update_time).0.collections == s.collections,
        added_documents(s, news, update_time).0.last_collection_id == s.last_collection_id,
        added_documents(s, news, update_time).0.collection_documents == s.collection_documents,
    decreases news.len(),
{
    let (after, r) = added_documents(s, news, update_time);
    if news.len() > 0 {
        let (before, found) = added_documents(s, news.drop_last(), update_time);
        lemma_ingested_exist(s, news.drop_last(), update_time);
        lemma_added_documents_wf(s, news.drop_last(), update_time);
        let rows = found->Ok_0;
        let (next, one) = crate::store::documents::got_or_created_document(
            before,
            news.last(),
            update_time,
        );
        let row = one->Ok_0;
        let ids = ids_of(rows.push(row));
        assert forall|k: int| 0 <= k < ids.len() implies is_document(after)(#[trigger] ids[k]) by {
            if k < rows.len() {
                assert(ids[k] == ids_of(rows)[k]);
                assert(is_document(before)(ids_of(rows)[k]));
                if next != before {
                    crate::relations::lemma_has_key_push(
                        before.documents,
                        crate::model::document_id(),
                        row,
                        ids[k],
                    );
                }
            } else {
                assert(ids[k] == row.id);
                if next != before {
                    crate::relations::lemma_has_key_push(
                        before.documents,
                        crate::model::document_id(),
                        row,
                        row.id,
                    );
                } else {
                    crate::relations::lemma_index_by_has(
                        before.documents,
                        crate::model::document_hash(),
                        news.last().md5_hash,
                    );
                    let at = index_by(
                        before.documents,
                        crate::model::document_hash(),
                        news.last().md5_hash,
                    );
                    assert(crate::model::document_id()(before.documents[at]) == row.id);
                }
            }
        }
    }
}

/// Gives the collection with the given number a new name, and returns the
/// collection as it then is. A number that no collection has is a
/// failure.
pub fn update_collection_name(db: &mut Store, collection_id: i32, collection_name: String) -> (r:
    Result<Collection, Failure>)
    requires
        old(db)@.wf(),
    ensures
        final(db)@.wf(),
        final(db)@ == renamed_collection(old(db)@, collection_id as int, collection_name@).0,
        match r {
            Ok(row) => Ok::<CollectionModel, Failure>(row@),
            Err(e) => Err(e),
        } == renamed_collection(old(db)@, collection_id as int, collection_name@).1,
{
    proof {
        lemma_renamed_collection_wf(db@, collection_id as int, collection_name@);
    }
    match find_collection(db, collection_id) {
        Some(i) => {
            proof {
                lemma_index_by(db@.collections, crate::model::collection_id(), i as int);
            }
            let row = Collection { id: collection_id, name: collection_name };
            let stored = row.clone();
            proof {
                lemma_models_update(db.collections@, i as int, stored);
            }
            db.collections.set(i, stored);
            Ok(row)
        },
        None => Err(Failure::new(FailureKind::NotFound, Entity::Collection)),
    }
}

} // verus!
