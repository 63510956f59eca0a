//! The documents of a collection: a document is in a collection once or
//! not at all, and adding it again changes nothing.

use vstd::prelude::*;
use crate::error::{Entity, Failure, FailureKind};
use crate::model::{
    collection_id, document_id, membership_collection, membership_document, membership_key, State,
};
use crate::relations::{
    all, has_key, lemma_filter_step, lemma_refers_child_filter, lemma_refers_child_push,
    lemma_unique_filter, lemma_unique_push, refers, unique_by,
};
use crate::rows::{lemma_models_push, models, CollectionDocument, CollectionDocumentModel};
use crate::store::collections::find_collection;
use crate::store::documents::find_document;
use crate::store::{contains_number, numbers, Store};

verus! {

/// Whether a membership is in the given collection.
pub open spec fn member_of(collection_id: int) -> spec_fn(CollectionDocumentModel) -> bool {
    |m: CollectionDocumentModel| m.collection_id == collection_id
}

/// Whether a membership is in another collection than the given one.
pub open spec fn member_elsewhere(collection_id: int) -> spec_fn(CollectionDocumentModel) -> bool {
    |m: CollectionDocumentModel| m.collection_id != collection_id
}

/// Whether a membership is not that of one of the given documents in the
/// given collection.
pub open spec fn member_apart(collection_id: int, document_ids: Seq<int>) -> spec_fn(
    CollectionDocumentModel,
) -> bool {
    |m: CollectionDocumentModel|
        !(m.collection_id == collection_id && document_ids.contains(m.document_id))
}

/// Whether a number is that of a document of the state.
pub open spec fn is_document(s: State) -> spec_fn(int) -> bool {
    |id: int| has_key(s.documents, document_id(), id)
}

/// The memberships of the given documents in the given collection, in
/// the order of the documents.
pub open spec fn memberships(collection_id: int, document_ids: Seq<int>) -> Seq<
    CollectionDocumentModel,
> {
    document_ids.map_values(
        |document_id: int| CollectionDocumentModel { collection_id, document_id },
    )
}

/// The table after each of the given documents was put in the given
/// collection, one after the other: a document that is in it already is
/// passed over.
pub open spec fn joined(
    members: Seq<CollectionDocumentModel>,
    collection_id: int,
    document_ids: Seq<int>,
) -> Seq<CollectionDocumentModel>
    decreases document_ids.len(),
{
    if document_ids.len() == 0 {
        members
    } else {
        let before = joined(members, collection_id, document_ids.drop_last());
        if has_key(before, membership_key(), (collection_id, document_ids.last())) {
            before
        } else {
            before.push(
                CollectionDocumentModel { collection_id, document_id: document_ids.last() },
            )
        }
    }
}

/// What adding documents to a collection does to a state and returns.
/// The collection and every one of the documents must exist; then all are
/// added, and else none.
pub open spec fn added_to_collection(s: State, collection_id: int, document_ids: Seq<int>) -> (
    State,
    Result<Seq<CollectionDocumentModel>, Failure>,
) {
    if !has_key(s.collections, crate::model::collection_id(), collection_id) {
        (s, Err(Failure { kind: FailureKind::NotFound, entity: Entity::Collection }))
    } else if !all(document_ids, is_document(s)) {
        (s, Err(Failure { kind: FailureKind::NotFound, entity: Entity::Document }))
    } else {
        (
            State {
                collection_documents: joined(s.collection_documents, collection_id, document_ids),
                ..s
            },
            Ok(memberships(collection_id, document_ids)),
        )
    }
}

/// Putting documents that exist in a collection that exists keeps the
/// memberships keyed and their references resolved.
pub proof fn lemma_joined(s: State, collection_id: int, document_ids: Seq<int>)
    requires
        s.wf(),
        has_key(s.collections, crate::model::collection_id(), collection_id),
        all(document_ids, is_document(s)),
    ensures
        unique_by(joined(s.collection_documents, collection_id, document_ids), membership_key()),
        refers(
            joined(s.collection_documents, collection_id, document_ids),
            membership_collection(),
            s.collections,
            crate::model::collection_id(),
        ),
        refers(
            joined(s.collection_documents, collection_id, document_ids),
            membership_document(),
            s.documents,
            document_id(),
        ),
    decreases document_ids.len(),
{
    if document_ids.len() > 0 {
        let rest = document_ids.drop_last();
        assert forall|i: int| 0 <= i < rest.len() implies is_document(s)(#[trigger] rest[i]) by {
            assert(rest[i] == document_ids[i]);
        }
        lemma_joined(s, collection_id, rest);
        let before = joined(s.collection_documents, collection_id, rest);
        let row = CollectionDocumentModel { collection_id, document_id: document_ids.last() };
        if !has_key(before, membership_key(), (collection_id, document_ids.last())) {
            assert(is_document(s)(document_ids[document_ids.len() - 1]));
            lemma_unique_push(before, membership_key(), row);
            lemma_refers_child_push(
                before,
                membership_collection(),
                s.collections,
                crate::model::collection_id(),
                row,
            );
            lemma_refers_child_push(
                before,
                membership_document(),
                s.documents,
                document_id(),
                row,
            );
        }
    }
}

/// Adding documents to a collection keeps the state well formed.
pub proof fn lemma_added_to_collection_wf(s: State, collection_id: int, document_ids: Seq<int>)
    requires
        s.wf(),
    ensures
        added_to_collection(s, collection_id, document_ids).0.wf(),
{
    if has_key(s.collections, crate::model::collection_id(), collection_id) && all(
        document_ids,
        is_document(s),
    ) {
        lemma_joined(s, collection_id, document_ids);
    }
}

/// Taking memberships out keeps the state well formed.
pub proof fn lemma_memberships_filter_wf(s: State, keep: spec_fn(CollectionDocumentModel) -> bool)
    requires
        s.wf(),
    ensures
        (State { collection_documents: s.collection_documents.filter(keep), ..s }).wf(),
{
    lemma_unique_filter(s.collection_documents, membership_key(), keep);
    lemma_refers_child_filter(
        s.collection_documents,
        membership_collection(),
        s.collections,
        collection_id(),
        keep,
    );
    lemma_refers_child_filter(
        s.collection_documents,
        membership_document(),
        s.documents,
        document_id(),
        keep,
    );
}

/// Whether the document is in the collection.
fn is_member(db: &Store, collection_id: i32, document_id: i32) -> (found: bool)
    ensures
        found == has_key(
            db@.collection_documents,
            membership_key(),
            (collection_id as int, document_id as int),
        ),
{
    let mut i: usize = 0;
    while i < db.collection_documents.len()
        invariant
            i <= db.collection_documents.len(),
            forall|j: int|
                0 <= j < i ==> membership_key()(#[trigger] db@.collection_documents[j]) != (
                    collection_id as int,
                    document_id as int,
                ),
        decreases db.collection_documents.len() - i,
    {
        if db.collection_documents[i].collection_id == collection_id
            && db.collection_documents[i].document_id == document_id {
            assert(membership_key()(db@.collection_documents[i as int]) == (
                collection_id as int,
                document_id as int,
            ));
            return true;
        }
        i += 1;
    }
    false
}

/// Takes out the memberships of the collection, and returns how many
/// there were.
pub fn delete_collection_on_documents(db: &mut Store, collection_id: i32) -> (removed: usize)
    requires
        old(db)@.wf(),
    ensures
        final(db)@.wf(),
        final(db)@ == (State {
            collection_documents: old(db)@.collection_documents.filter(
                member_elsewhere(collection_id as int),
            ),
            ..old(db)@
        }),
        removed == old(db)@.collection_documents.len() - final(db)@.collection_documents.len(),
{
    let ghost all = db@.collection_documents;
    let ghost keep = member_elsewhere(collection_id as int);
    let mut kept: Vec<CollectionDocument> = Vec::new();
    let mut i: usize = 0;
    proof {
        lemma_memberships_filter_wf(db@, keep);
        assert(all.take(0).filter(keep) =~= Seq::empty()) by {
            reveal(Seq::filter);
        }
        assert(models(kept@) =~= Seq::empty());
    }
    while i < db.collection_documents.len()
        invariant
            i <= db.collection_documents.len(),
            db@ == old(db)@,
            all == db@.collection_documents,
            keep == member_elsewhere(collection_id as int),
            models(kept@) == all.take(i as int).filter(keep),
            kept@.len() <= i,
        decreases db.collection_documents.len() - i,
    {
        proof {
            lemma_filter_step(all, keep, i as int);
        }
        if db.collection_documents[i].collection_id != collection_id {
            let row = db.collection_documents[i].clone();
            proof {
                lemma_models_push(kept@, row);
            }
            kept.push(row);
        }
        i += 1;
    }
    assert(all.take(db.collection_documents.len() as int) =~= all);
    let removed: usize = db.collection_documents.len() - kept.len();
    db.collection_documents = kept;
    removed
}

/// Takes the given documents out of the collection, and returns how many
/// of them were in it.
pub fn delete_documents_in_collection(db: &mut Store, collection_id: i32, document_ids: Vec<i32>) -> (removed:
    usize)
    requires
        old(db)@.wf(),
    ensures
        final(db)@.wf(),
        final(db)@ == (State {
            collection_documents: old(db)@.collection_documents.filter(
                member_apart(collection_id as int, numbers(document_ids@)),
            ),
            ..old(db)@
        }),
        removed == old(db)@.collection_documents.len() - final(db)@.collection_documents.len(),
{
    let ghost all = db@.collection_documents;
    let ghost keep = member_apart(collection_id as int, numbers(document_ids@));
    let mut kept: Vec<CollectionDocument> = Vec::new();
    let mut i: usize = 0;
    proof {
        lemma_memberships_filter_wf(db@, keep);
        assert(all.take(0).filter(keep) =~= Seq::empty()) by {
            reveal(Seq::filter);
        }
        assert(models(kept@) =~= Seq::empty());
    }
    while i < db.collection_documents.len()
        invariant
            i <= db.collection_documents.len(),
            db@ == old(db)@,
            all == db@.collection_documents,
            keep == member_apart(collection_id as int, numbers(document_ids@)),
            models(kept@) == all.take(i as int).filter(keep),
            kept@.len() <= i,
        decreases db.collection_documents.len() - i,
    {
        proof {
            lemma_filter_step(all, keep, i as int);
        }
        if !(db.collection_documents[i].collection_id == collection_id && contains_number(
            &document_ids,
            db.collection_documents[i].document_id,
        )) {
            let row = db.collection_documents[i].clone();
            proof {
                lemma_models_push(kept@, row);
            }
            kept.push(row);
        }
        i += 1;
    }
    assert(all.take(db.collection_documents.len() as int) =~= all);
    let removed: usize = db.collection_documents.len() - kept.len();
    db.collection_documents = kept;
    removed
}

/// Writes the memberships of documents that exist in a collection that
/// exists, passing over those that are there.
pub(crate) fn join_documents(db: &mut Store, collection_id: i32, document_ids: &Vec<i32>) -> (rows:
    Vec<CollectionDocument>)
    requires
        old(db)@.wf(),
        has_key(old(db)@.collections, crate::model::collection_id(), collection_id as int),
        all(numbers(document_ids@), is_document(old(db)@)),
    ensures
        final(db)@.wf(),
        final(db)@ == (State {
            collection_documents: joined(
                old(db)@.collection_documents,
                collection_id as int,
                numbers(document_ids@),
            ),
            ..old(db)@
        }),
        models(rows@) == memberships(collection_id as int, numbers(document_ids@)),
{
    let ghost start = db@;
    let ghost ids = numbers(document_ids@);
    let mut rows: Vec<CollectionDocument> = Vec::new();
    let mut i: usize = 0;
    proof {
        lemma_joined(start, collection_id as int, ids);
        assert(ids.take(0) =~= Seq::<int>::empty());
        assert(models(rows@) =~= memberships(collection_id as int, ids).take(0));
        assert(db@ == (State {
            collection_documents: joined(
                start.collection_documents,
                collection_id as int,
                ids.take(0),
            ),
            ..start
        }));
    }
    while i < document_ids.len()
        invariant
            i <= document_ids.len(),
            ids == numbers(document_ids@),
            start == old(db)@,
            models(rows@) == memberships(collection_id as int, ids).take(i as int),
            db@ == (State {
                collection_documents: joined(
                    start.collection_documents,
                    collection_id as int,
                    ids.take(i as int),
                ),
                ..start
            }),
        decreases document_ids.len() - i,
    {
        let document_id: i32 = document_ids[i];
        let row = CollectionDocument { collection_id, document_id };
        proof {
            assert(ids[i as int] == document_id as int);
            assert(ids.take(i + 1).drop_last() =~= ids.take(i as int));
            assert(ids.take(i + 1).last() == ids[i as int]);
            lemma_models_push(rows@, row);
            assert(memberships(collection_id as int, ids).take(i + 1) =~= memberships(
                collection_id as int,
                ids,
            ).take(i as int).push(row@));
        }
        if !is_member(db, collection_id, document_id) {
            let stored = row.clone();
            proof {
                lemma_models_push(db.collection_documents@, stored);
            }
            db.collection_documents.push(stored);
        }
        rows.push(row);
        i += 1;
    }
    assert(ids.take(document_ids.len() as int) =~= ids);
    assert(memberships(collection_id as int, ids).take(document_ids.len() as int)
        =~= memberships(collection_id as int, ids));
    rows
}

/// Whether every one of the given numbers is that of a document.
pub(crate) fn all_documents(db: &Store, document_ids: &Vec<i32>) -> (found: bool)
    ensures
        found == all(numbers(document_ids@), is_document(db@)),
{
    let ghost ids = numbers(document_ids@);
    let mut i: usize = 0;
    while i < document_ids.len()
        invariant
            i <= document_ids.len(),
            ids == numbers(document_ids@),
            forall|j: int| 0 <= j < i ==> is_document(db@)(#[trigger] ids[j]),
        decreases document_ids.len() - i,
    {
        if find_document(db, document_ids[i]).is_none() {
            assert(!is_document(db@)(ids[i as int]));
            return false;
        }
        i += 1;
    }
    true
}

/// Puts the given documents in the collection, and returns their
/// memberships in the order of the documents. A document that is in the
/// collection already stays as it is. The collection and every one of the
/// documents must exist; then all are added, and else none.
pub fn add_documents_to_collection(db: &mut Store, collection_id: i32, document_ids: Vec<i32>) -> (r:
    Result<Vec<CollectionDocument>, Failure>)
    requires
        old(db)@.wf(),
    ensures
        final(db)@.wf(),
        final(db)@ == added_to_collection(
            old(db)@,
            collection_id as int,
            numbers(document_ids@),
        ).0,
        match r {
            Ok(rows) => Ok::<Seq<CollectionDocumentModel>, Failure>(models(rows@)),
            Err(e) => Err(e),
        } == added_to_collection(old(db)@, collection_id as int, numbers(document_ids@)).1,
{
    if find_collection(db, collection_id).is_none() {
        return Err(Failure::new(FailureKind::NotFound, Entity::Collection));
    }
    if !all_documents(db, &document_ids) {
        return Err(Failure::new(FailureKind::NotFound, Entity::Document));
    }
    Ok(join_documents(db, collection_id, &document_ids))
}

} // verus!
