//! Documents: a document is identified by the hash of its content, so
//! ingesting the same bytes again, under whatever name, gives the document
//! that is already there.

use vstd::prelude::*;
use vstd::string::StringExecFns;
use crate::error::{Entity, Failure, FailureKind};
use crate::hash::{content_hash, hash_in_md5};
use crate::model::{
    chunk_document, document_hash, document_id, indexed_document, membership_document, State,
};
use crate::relations::{
    has_key, index_by, lemma_filter_step, lemma_index_by, lemma_refers_parent_push, lemma_unique_push,
    lemma_within_fresh, lemma_within_push, row_by,
};
use crate::rows::{
    lemma_models_push, models, CollectionDocumentModel, Document, DocumentModel,
};
use crate::store::collections_on_documents::member_of;
use crate::store::Store;

verus! {

/// A document to ingest: either a file on disk or content held in memory.
#[derive(Debug, PartialEq, Eq)]
pub enum CreateDocumentData {
    Path { filename: String, filepath: String },
    File { filename: String, content: Vec<u8> },
}

/// What has to be done to the staging area before a document is written
/// to the store.
#[derive(Debug, PartialEq, Eq)]
pub enum Staging {
    /// The content is staged already.
    Keep,
    /// Copy the file at `from` to `to`.
    Copy { from: String, to: String },
    /// Write `content` to `to`.
    Write { to: String, content: Vec<u8> },
}

/// A document whose content has been hashed and staged.
#[derive(Debug, PartialEq, Eq)]
pub struct NewDocument {
    /// The name it is ingested under.
    pub filename: String,
    /// Where its content is staged.
    pub path: String,
    /// The content hash of its bytes.
    pub md5_hash: String,
}

/// The model of a [`NewDocument`].
pub struct NewDocumentModel {
    pub filename: Seq<char>,
    pub path: Seq<char>,
    pub md5_hash: Seq<char>,
}

impl View for NewDocument {
    type V = NewDocumentModel;

    open spec fn view(&self) -> NewDocumentModel {
        NewDocumentModel { filename: self.filename@, path: self.path@, md5_hash: self.md5_hash@ }
    }
}

/// Where content with the given hash is staged in the given folder: under
/// the name of its hash.
pub open spec fn staged_path(uploaded_dir: Seq<char>, md5_hash: Seq<char>) -> Seq<char> {
    uploaded_dir + seq!['/'] + md5_hash
}

/// The document to ingest for content with the given hash that is staged
/// in the given folder.
pub open spec fn staged(filename: Seq<char>, uploaded_dir: Seq<char>, md5_hash: Seq<char>) -> NewDocumentModel {
    NewDocumentModel { filename, path: staged_path(uploaded_dir, md5_hash), md5_hash }
}

impl NewDocument {
    /// The document to ingest for content whose hash is known: it is
    /// staged in the given folder under the name of its hash.
    pub fn staged(filename: String, uploaded_dir: &str, md5_hash: String) -> (new: NewDocument)
        ensures
            new@ == staged(filename@, uploaded_dir@, md5_hash@),
    {
        proof {
            reveal_strlit("/");
        }
        let mut path = String::from_str(uploaded_dir);
        path.append("/");
        path.append(md5_hash.as_str());
        assert(path@ =~= staged_path(uploaded_dir@, md5_hash@));
        NewDocument { filename, path, md5_hash }
    }

    /// The document to ingest for content held in memory: its hash is the
    /// content hash of the bytes.
    pub fn of_content(filename: String, uploaded_dir: &str, content: &[u8]) -> (new: NewDocument)
        ensures
            new@ == staged(filename@, uploaded_dir@, content_hash(content@)),
            new@.md5_hash.len() == 32,
    {
        NewDocument::staged(filename, uploaded_dir, hash_in_md5(content))
    }
}

impl Clone for NewDocument {
    fn clone(&self) -> (r: Self)
        ensures
            r@ == self@,
    {
        NewDocument {
            filename: self.filename.clone(),
            path: self.path.clone(),
            md5_hash: self.md5_hash.clone(),
        }
    }
}

impl CreateDocumentData {
    /// The name the document is ingested under.
    pub open spec fn spec_filename(self) -> Seq<char> {
        match self {
            CreateDocumentData::Path { filename, .. } => filename@,
            CreateDocumentData::File { filename, .. } => filename@,
        }
    }

    /// The name the document is ingested under.
    pub fn filename(&self) -> (name: String)
        ensures
            name@ == self.spec_filename(),
    {
        match self {
            CreateDocumentData::Path { filename, .. } => filename.clone(),
            CreateDocumentData::File { filename, .. } => filename.clone(),
        }
    }

    /// The content hash of content held in memory. A file on disk has to be
    /// read to be hashed, so for it there is none here.
    pub fn content_hash(&self) -> (hash: Option<String>)
        ensures
            match *self {
                CreateDocumentData::Path { .. } => hash is None,
                CreateDocumentData::File { content, .. } => hash is Some && hash->Some_0@
                    == content_hash(content@) && hash->Some_0@.len() == 32,
            },
    {
        match self {
            CreateDocumentData::Path { .. } => None,
            CreateDocumentData::File { content, .. } => Some(hash_in_md5(content.as_slice())),
        }
    }

    /// What has to be done to stage the content at `target`: nothing where
    /// something is `present` there already, else a copy of the file or a
    /// write of the content.
    pub fn staging(&self, target: &String, present: bool) -> (todo: Staging)
        ensures
            present ==> todo is Keep,
            !present ==> match *self {
                CreateDocumentData::Path { filepath, .. } => todo is Copy && todo->from@
                    == filepath@ && todo->Copy_to@ == target@,
                CreateDocumentData::File { content, .. } => todo is Write && todo->Write_to@
                    == target@ && todo->content@ == content@,
            },
    {
        if present {
            return Staging::Keep;
        }
        match self {
            CreateDocumentData::Path { filepath, .. } => Staging::Copy {
                from: filepath.clone(),
                to: target.clone(),
            },
            CreateDocumentData::File { content, .. } => Staging::Write {
                to: target.clone(),
                content: content.clone(),
            },
        }
    }
}

/// What looking up or creating a document does to a state and returns:
/// the stored document with that content hash where there is one, as it
/// is, else a new one with the next number.
pub open spec fn got_or_created_document(s: State, new: NewDocumentModel, update_time: int) -> (
    State,
    Result<DocumentModel, Failure>,
) {
    if has_key(s.documents, document_hash(), new.md5_hash) {
        (s, Ok(row_by(s.documents, document_hash(), new.md5_hash)))
    } else if s.last_document_id >= i32::MAX {
        (s, Err(Failure { kind: FailureKind::StoreError, entity: Entity::Document }))
    } else {
        let row = DocumentModel {
            id: s.last_document_id + 1,
            filename: new.filename,
            path: new.path,
            md5_hash: new.md5_hash,
            update_time,
        };
        (
            State { documents: s.documents.push(row), last_document_id: s.last_document_id + 1, ..s },
            Ok(row),
        )
    }
}

/// What looking up or creating each document of `news` in turn does to a
/// state and returns. It stops at the first that fails; what was created
/// before it stays.
pub open spec fn added_documents(s: State, news: Seq<NewDocumentModel>, update_time: int) -> (
    State,
    Result<Seq<DocumentModel>, Failure>,
)
    decreases news.len(),
{
    if news.len() == 0 {
        (s, Ok(Seq::empty()))
    } else {
        let (before, found) = added_documents(s, news.drop_last(), update_time);
        match found {
            Err(e) => (before, Err(e)),
            Ok(rows) => {
                let (after, r) = got_or_created_document(before, news.last(), update_time);
                match r {
                    Err(e) => (after, Err(e)),
                    Ok(row) => (after, Ok(rows.push(row))),
                }
            },
        }
    }
}

/// Looking up or creating a document keeps the state well formed.
pub proof fn lemma_got_or_created_document_wf(s: State, new: NewDocumentModel, update_time: int)
    requires
        s.wf(),
    ensures
        got_or_created_document(s, new, update_time).0.wf(),
{
    let (after, r) = got_or_created_document(s, new, update_time);
    if after != s {
        let row = DocumentModel {
            id: s.last_document_id + 1,
            filename: new.filename,
            path: new.path,
            md5_hash: new.md5_hash,
            update_time,
        };
        lemma_within_fresh(s.documents, document_id(), s.last_document_id, row.id);
        lemma_unique_push(s.documents, document_id(), row);
        lemma_within_push(s.documents, document_id(), s.last_document_id, row);
        lemma_unique_push(s.documents, document_hash(), row);
        lemma_refers_parent_push(s.chunks, chunk_document(), s.documents, document_id(), row);
        lemma_refers_parent_push(
            s.collection_documents,
            membership_document(),
            s.documents,
            document_id(),
            row,
        );
        lemma_refers_parent_push(
            s.index_documents,
            indexed_document(),
            s.documents,
            document_id(),
            row,
        );
    }
}

/// Looking up or creating documents in turn keeps the state well formed.
pub proof fn lemma_added_documents_wf(s: State, news: Seq<NewDocumentModel>, update_time: int)
    requires
        s.wf(),
    ensures
        added_documents(s, news, update_time).0.wf(),
    decreases news.len(),
{
    if news.len() > 0 {
        lemma_added_documents_wf(s, news.drop_last(), update_time);
        let (before, found) = added_documents(s, news.drop_last(), update_time);
        lemma_got_or_created_document_wf(before, news.last(), update_time);
    }
}

/// The place of the document with the given content hash.
pub(crate) fn find_document_by_hash(db: &Store, md5_hash: &String) -> (r: Option<usize>)
    ensures
        match r {
            Some(i) => i < db@.documents.len() && db@.documents[i as int].md5_hash == md5_hash@,
            None => !has_key(db@.documents, document_hash(), md5_hash@),
        },
{
    let mut i: usize = 0;
    while i < db.documents.len()
        invariant
            i <= db.documents.len(),
            forall|j: int| 0 <= j < i ==> document_hash()(#[trigger] db@.documents[j]) != md5_hash@,
        decreases db.documents.len() - i,
    {
        if db.documents[i].md5_hash == *md5_hash {
            return Some(i);
        }
        i += 1;
    }
    None
}

/// The place of the document with the given number, which there is.
pub(crate) fn locate_document(db: &Store, id: i32) -> (at: usize)
    requires
        has_key(db@.documents, document_id(), id as int),
    ensures
        at < db@.documents.len(),
        db@.documents[at as int].id == id,
{
    let ghost last = index_by(db@.documents, document_id(), id as int);
    let n: usize = db.documents.len();
    let mut at: usize = 0;
    while db.documents[at].id != id
        invariant
            at <= last < n,
            n == db@.documents.len(),
            document_id()(db@.documents[last]) == id,
        decreases last - at,
    {
        assert(document_id()(db@.documents[at as int]) != id);
        at += 1;
    }
    at
}

/// The place of the document with the given number.
pub(crate) fn find_document(db: &Store, id: i32) -> (r: Option<usize>)
    ensures
        match r {
            Some(i) => i < db@.documents.len() && db@.documents[i as int].id == id,
            None => !has_key(db@.documents, document_id(), id as int),
        },
{
    let mut i: usize = 0;
    while i < db.documents.len()
        invariant
            i <= db.documents.len(),
            forall|j: int| 0 <= j < i ==> document_id()(#[trigger] db@.documents[j]) != id,
        decreases db.documents.len() - i,
    {
        if db.documents[i].id == id {
            return Some(i);
        }
        i += 1;
    }
    None
}

/// All documents, in the order in which they were ingested.
pub fn get_documents(db: &Store) -> (rows: Vec<Document>)
    ensures
        models(rows@) == db@.documents,
{
    let rows = db.documents.clone();
    assert(models(rows@) =~= db@.documents);
    rows
}

/// The documents of a collection, in the order in which they were put in
/// it.
pub open spec fn documents_of(s: State, collection_id: int) -> Seq<DocumentModel> {
    s.collection_documents.filter(member_of(collection_id)).map_values(
        |m: CollectionDocumentModel| row_by(s.documents, document_id(), m.document_id),
    )
}

/// The documents of a collection, in the order in which they were put in
/// it.
pub fn get_documents_by_collection_id(db: &Store, collection_id: i32) -> (rows: Vec<Document>)
    requires
        db@.wf(),
    ensures
        models(rows@) == documents_of(db@, collection_id as int),
{
    let ghost all = db@.collection_documents;
    let ghost keep = member_of(collection_id as int);
    let ghost row_of = |m: CollectionDocumentModel|
        row_by(db@.documents, document_id(), m.document_id);
    let mut rows: Vec<Document> = Vec::new();
    let mut i: usize = 0;
    proof {
        assert(all.take(0).filter(keep) =~= Seq::empty()) by {
            reveal(Seq::filter);
        }
        assert(models(rows@) =~= all.take(0).filter(keep).map_values(row_of));
    }
    while i < db.collection_documents.len()
        invariant
            i <= db.collection_documents.len(),
            db@.wf(),
            all == db@.collection_documents,
            keep == member_of(collection_id as int),
            row_of == |m: CollectionDocumentModel|
                row_by(db@.documents, document_id(), m.document_id),
            models(rows@) == all.take(i as int).filter(keep).map_values(row_of),
        decreases db.collection_documents.len() - i,
    {
        let ghost before = all.take(i as int).filter(keep);
        proof {
            lemma_filter_step(all, keep, i as int);
        }
        if db.collection_documents[i].collection_id == collection_id {
            proof {
                assert(has_key(db@.documents, document_id(), membership_document()(all[i as int])));
            }
            let at = locate_document(db, db.collection_documents[i].document_id);
            let row = db.documents[at].clone();
            proof {
                lemma_index_by(db@.documents, document_id(), at as int);
                assert(row@ == row_of(all[i as int]));
                lemma_models_push(rows@, row);
                assert(before.push(all[i as int]).map_values(row_of) =~= before.map_values(
                    row_of,
                ).push(row@));
            }
            rows.push(row);
        }
        i += 1;
    }
    assert(all.take(db.collection_documents.len() as int) =~= all);
    rows
}

/// Looks a document up by its content hash, and creates it where there is
/// none. A document that is found is returned as it is: the name and the
/// path it was first ingested under stay.
pub fn get_or_create_document(db: &mut Store, new: NewDocument, update_time: i64) -> (r: Result<
    Document,
    Failure,
>)
    requires
        old(db)@.wf(),
    ensures
        final(db)@.wf(),
        final(db)@ == got_or_created_document(old(db)@, new@, update_time as int).0,
        match r {
            Ok(row) => Ok::<DocumentModel, Failure>(row@),
            Err(e) => Err(e),
        } == got_or_created_document(old(db)@, new@, update_time as int).1,
{
    proof {
        lemma_got_or_created_document_wf(db@, new@, update_time as int);
    }
    match find_document_by_hash(db, &new.md5_hash) {
        Some(i) => {
            proof {
                lemma_index_by(db@.documents, document_hash(), i as int);
            }
            Ok(db.documents[i].clone())
        },
        None => {
            if db.last_document_id >= i32::MAX {
                return Err(Failure::new(FailureKind::StoreError, Entity::Document));
            }
            let id: i32 = db.last_document_id + 1;
            let row = Document {
                id,
                filename: new.filename,
                path: new.path,
                md5_hash: new.md5_hash,
                update_time,
            };
            let stored = row.clone();
            proof {
                lemma_models_push(db.documents@, stored);
            }
            db.documents.push(stored);
            db.last_document_id = id;
            Ok(row)
        },
    }
}

/// Looks up or creates each of `news` in turn, and returns the documents
/// in the order of `news`. It stops at the first that fails; what was
/// created before it stays.
pub fn add_documents(db: &mut Store, news: Vec<NewDocument>, update_time: i64) -> (r: Result<
    Vec<Document>,
    Failure,
>)
    requires
        old(db)@.wf(),
    ensures
        final(db)@.wf(),
        final(db)@ == added_documents(old(db)@, models(news@), update_time as int).0,
        match r {
            Ok(rows) => Ok::<Seq<DocumentModel>, Failure>(models(rows@)),
            Err(e) => Err(e),
        } == added_documents(old(db)@, models(news@), update_time as int).1,
{
    let ghost all = models(news@);
    let ghost start = db@;
    let mut rows: Vec<Document> = Vec::new();
    let mut i: usize = 0;
    assert(all.take(0) =~= Seq::<NewDocumentModel>::empty());
    assert(models(rows@) =~= Seq::<DocumentModel>::empty());
    while i < news.len()
        invariant
            i <= news.len(),
            all == models(news@),
            start == old(db)@,
            db@.wf(),
            (db@, Ok::<Seq<DocumentModel>, Failure>(models(rows@))) == added_documents(
                start,
                all.take(i as int),
                update_time as int,
            ),
        decreases news.len() - i,
    {
        let ghost before = db@;
        let ghost rows_before = rows@;
        let new = news[i].clone();
        proof {
            assert(new@ == all[i as int]);
            assert(all.take(i + 1).drop_last() =~= all.take(i as int));
            assert(all.take(i + 1).last() == all[i as int]);
        }
        match get_or_create_document(db, new, update_time) {
            Ok(row) => {
                proof {
                    lemma_models_push(rows_before, row);
                }
                rows.push(row);
            },
            Err(e) => {
                proof {
                    assert(added_documents(start, all.take(i + 1), update_time as int) == (
                        db@,
                        Err::<Seq<DocumentModel>, Failure>(e),
                    ));
                    lemma_added_documents_stops(start, all, i + 1, update_time as int);
                }
                return Err(e);
            },
        }
        i += 1;
    }
    assert(all.take(news.len() as int) =~= all);
    Ok(rows)
}

/// Once looking up or creating has failed on a part of the list, it has
/// failed on the whole list, in the same state and with the same error.
pub proof fn lemma_added_documents_stops(
    s: State,
    news: Seq<NewDocumentModel>,
    n: int,
    update_time: int,
)
    requires
        0 <= n <= news.len(),
        added_documents(s, news.take(n), update_time).1 is Err,
    ensures
        added_documents(s, news, update_time) == added_documents(s, news.take(n), update_time),
    decreases news.len() - n,
{
    if n == news.len() {
        assert(news.take(n) =~= news);
    } else {
        assert(news.take(n + 1).drop_last() =~= news.take(n));
        lemma_added_documents_stops(s, news, n + 1, update_time);
    }
}

} // verus!
