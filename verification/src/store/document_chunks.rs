//! Chunks: the text of a document cut under a splitting strategy. The
//! chunks of one document under one strategy are written once, together,
//! and numbered from 0 in the order in which they were given.

use vstd::prelude::*;
use vstd::string::StringSliceAdditionalSpecFns;
use crate::error::{Entity, Failure, FailureKind};
use crate::hash::{hash_in_md5, text_hash};
use crate::model::{
    chunk_document, chunk_key, chunk_pair, chunk_sound, chunk_splitting, State,
};
use crate::relations::{has_key, index_by, lemma_filter_step};
use crate::rows::{lemma_models_push, models, DocumentChunk, DocumentChunkModel};
use crate::store::documents::find_document;
use crate::store::splittings::{
    find_splitting_by_id, get_or_create_splitting_id, lemma_resolved_splitting_wf,
    look_up_splitting_id, looked_up_splitting, resolved_splitting, GetOrCreateSplittingData,
};
use crate::store::{contains_number, numbers, Store};

verus! {

/// The text of a chunk to create, and what the caller notes about it.
#[derive(Debug, PartialEq, Eq)]
pub struct CreateChunkData {
    pub content: String,
    pub metadata: String,
}

/// The model of a [`CreateChunkData`].
pub struct CreateChunkModel {
    pub content: Seq<char>,
    pub metadata: Seq<char>,
}

impl View for CreateChunkData {
    type V = CreateChunkModel;

    open spec fn view(&self) -> CreateChunkModel {
        CreateChunkModel { content: self.content@, metadata: self.metadata@ }
    }
}

/// The chunks of a document to create under a splitting strategy, in
/// their order.
#[derive(Debug, PartialEq, Eq)]
pub struct CreateChunksByDocumentData {
    pub document_id: i32,
    pub splitting: GetOrCreateSplittingData,
    pub chunks: Vec<CreateChunkData>,
}

/// The content hash of a chunk, without the chunk.
#[derive(Debug, PartialEq, Eq)]
pub struct ChunkHash {
    pub md5_hash: String,
}

impl View for ChunkHash {
    type V = Seq<char>;

    open spec fn view(&self) -> Seq<char> {
        self.md5_hash@
    }
}

/// The chunk rows for `chunks`: numbered from 0 in their order, each with
/// the content hash of its own text.
pub open spec fn chunk_rows(document_id: int, splitting_id: int, chunks: Seq<CreateChunkModel>) -> Seq<
    DocumentChunkModel,
> {
    Seq::new(
        chunks.len(),
        |i: int|
            DocumentChunkModel {
                document_id,
                splitting_id,
                no: i,
                content: chunks[i].content,
                metadata: chunks[i].metadata,
                md5_hash: text_hash(chunks[i].content),
            },
    )
}

/// Whether a chunk belongs to the given document and strategy.
pub open spec fn chunk_of(document_id: int, splitting_id: int) -> spec_fn(
    DocumentChunkModel,
) -> bool {
    |c: DocumentChunkModel| c.document_id == document_id && c.splitting_id == splitting_id
}

/// Whether a chunk belongs to one of the given documents and to the given
/// strategy.
pub open spec fn chunk_among(document_ids: Seq<int>, splitting_id: int) -> spec_fn(
    DocumentChunkModel,
) -> bool {
    |c: DocumentChunkModel| document_ids.contains(c.document_id) && c.splitting_id == splitting_id
}

/// The error for a request that breaks a rule on chunks.
pub open spec fn chunk_error(kind: FailureKind) -> Failure {
    Failure { kind, entity: Entity::DocumentChunk }
}

/// What creating the chunks of a document does to a state and returns.
/// The list must not be empty and its places must fit 32 bits; the
/// document and the strategy must exist; and the document must have no
/// chunks under that strategy yet. Then all the rows are written, and
/// else none.
pub open spec fn created_chunks(
    s: State,
    document_id: int,
    splitting: GetOrCreateSplittingData,
    chunks: Seq<CreateChunkModel>,
) -> (State, Result<Seq<DocumentChunkModel>, Failure>) {
    if chunks.len() == 0 || chunks.len() > i32::MAX {
        (s, Err(chunk_error(FailureKind::ValidationError)))
    } else if !has_key(s.documents, crate::model::document_id(), document_id) {
        (s, Err(Failure { kind: FailureKind::NotFound, entity: Entity::Document }))
    } else {
        let (resolved, r) = resolved_splitting(s, splitting);
        match r {
            Err(e) => (resolved, Err(e)),
            Ok(splitting_id) => {
                if !has_key(resolved.splittings, crate::model::splitting_id(), splitting_id) {
                    (resolved, Err(Failure { kind: FailureKind::NotFound, entity: Entity::Splitting }))
                } else if has_key(resolved.chunks, chunk_pair(), (document_id, splitting_id)) {
                    (resolved, Err(chunk_error(FailureKind::ConstraintViolation)))
                } else {
                    let rows = chunk_rows(document_id, splitting_id, chunks);
                    (State { chunks: resolved.chunks + rows, ..resolved }, Ok(rows))
                }
            },
        }
    }
}

/// The chunks of a document under the strategy that `splitting` names, in
/// their order; none where it names no stored strategy.
pub open spec fn listed_chunks(s: State, document_id: int, splitting: GetOrCreateSplittingData) -> Seq<
    DocumentChunkModel,
> {
    match looked_up_splitting(s, splitting) {
        Some(splitting_id) => s.chunks.filter(chunk_of(document_id, splitting_id)),
        None => Seq::empty(),
    }
}

/// The content hashes of the chunks of the given documents under the
/// strategy that `splitting` names, in the order of the chunks; none
/// where it names no stored strategy.
pub open spec fn listed_chunk_hashes(
    s: State,
    document_ids: Seq<int>,
    splitting: GetOrCreateSplittingData,
) -> Seq<Seq<char>> {
    match looked_up_splitting(s, splitting) {
        Some(splitting_id) => s.chunks.filter(chunk_among(document_ids, splitting_id)).map_values(
            |c: DocumentChunkModel| c.md5_hash,
        ),
        None => Seq::empty(),
    }
}

/// Writing the chunk rows of a document that has none under the strategy
/// keeps the chunks well formed.
pub proof fn lemma_chunk_rows_wf(
    s: State,
    document_id: int,
    splitting_id: int,
    chunks: Seq<CreateChunkModel>,
)
    requires
        s.wf(),
        has_key(s.documents, crate::model::document_id(), document_id),
        has_key(s.splittings, crate::model::splitting_id(), splitting_id),
        !has_key(s.chunks, chunk_pair(), (document_id, splitting_id)),
    ensures
        (State { chunks: s.chunks + chunk_rows(document_id, splitting_id, chunks), ..s }).wf(),
{
    let rows = chunk_rows(document_id, splitting_id, chunks);
    let after = s.chunks + rows;
    let n = s.chunks.len() as int;
    assert forall|i: int| 0 <= i < after.len() implies has_key(
        s.documents,
        crate::model::document_id(),
        chunk_document()(#[trigger] after[i]),
    ) && has_key(s.splittings, crate::model::splitting_id(), chunk_splitting()(after[i]))
        && chunk_sound()(after[i]) by {
        if i < n {
            assert(after[i] == s.chunks[i]);
        } else {
            assert(after[i] == rows[i - n]);
        }
    }
    assert forall|i: int, j: int|
        0 <= i < after.len() && 0 <= j < after.len() && chunk_key()(#[trigger] after[i])
            == chunk_key()(#[trigger] after[j]) implies i == j by {
        if i < n && j < n {
            assert(after[i] == s.chunks[i] && after[j] == s.chunks[j]);
        } else if i >= n && j >= n {
            assert(after[i] == rows[i - n] && after[j] == rows[j - n]);
        } else if i < n {
            assert(after[i] == s.chunks[i] && after[j] == rows[j - n]);
            assert(chunk_pair()(s.chunks[i]) == (document_id, splitting_id));
        } else {
            assert(after[j] == s.chunks[j] && after[i] == rows[i - n]);
            assert(chunk_pair()(s.chunks[j]) == (document_id, splitting_id));
        }
    }
    assert forall|i: int, k: int|
        0 <= i < after.len() && 0 <= k < (#[trigger] after[i]).no implies #[trigger] has_key(
        after,
        chunk_key(),
        (after[i].document_id, after[i].splitting_id, k),
    ) by {
        if i < n {
            assert(after[i] == s.chunks[i]);
            let key = (s.chunks[i].document_id, s.chunks[i].splitting_id, k);
            assert(has_key(s.chunks, chunk_key(), key));
            let at = index_by(s.chunks, chunk_key(), key);
            assert(after[at] == s.chunks[at]);
        } else {
            assert(after[i] == rows[i - n]);
            assert(after[n + k] == rows[k]);
            assert(chunk_key()(after[n + k]) == (document_id, splitting_id, k));
        }
    }
}

/// Creating the chunks of a document keeps the state well formed.
pub proof fn lemma_created_chunks_wf(
    s: State,
    document_id: int,
    splitting: GetOrCreateSplittingData,
    chunks: Seq<CreateChunkModel>,
)
    requires
        s.wf(),
    ensures
        created_chunks(s, document_id, splitting, chunks).0.wf(),
{
    lemma_resolved_splitting_wf(s, splitting);
    let (resolved, r) = resolved_splitting(s, splitting);
    if r is Ok && has_key(s.documents, crate::model::document_id(), document_id) {
        let splitting_id = r->Ok_0;
        assert(resolved.documents == s.documents);
        if has_key(resolved.splittings, crate::model::splitting_id(), splitting_id) && !has_key(
            resolved.chunks,
            chunk_pair(),
            (document_id, splitting_id),
        ) {
            lemma_chunk_rows_wf(resolved, document_id, splitting_id, chunks);
        }
    }
}

/// Whether the document has a chunk under the strategy.
fn has_chunks(db: &Store, document_id: i32, splitting_id: i32) -> (found: bool)
    ensures
        found == has_key(db@.chunks, chunk_pair(), (document_id as int, splitting_id as int)),
{
    let mut i: usize = 0;
    while i < db.chunks.len()
        invariant
            i <= db.chunks.len(),
            forall|j: int|
                0 <= j < i ==> chunk_pair()(#[trigger] db@.chunks[j]) != (
                    document_id as int,
                    splitting_id as int,
                ),
        decreases db.chunks.len() - i,
    {
        if db.chunks[i].document_id == document_id && db.chunks[i].splitting_id == splitting_id {
            assert(chunk_pair()(db@.chunks[i as int]) == (document_id as int, splitting_id as int));
            return true;
        }
        i += 1;
    }
    false
}

/// Creates the chunks of a document under a splitting strategy, numbered
/// from 0 in the order of the list, each with the content hash of its own
/// text. Either all of them are written or none is.
pub fn create_chunks_by_document(db: &mut Store, data: CreateChunksByDocumentData) -> (r: Result<
    Vec<DocumentChunk>,
    Failure,
>)
    requires
        old(db)@.wf(),
    ensures
        final(db)@.wf(),
        final(db)@ == created_chunks(
            old(db)@,
            data.document_id as int,
            data.splitting,
            models(data.chunks@),
        ).0,
        match r {
            Ok(rows) => Ok::<Seq<DocumentChunkModel>, Failure>(models(rows@)),
            Err(e) => Err(e),
        } == created_chunks(
            old(db)@,
            data.document_id as int,
            data.splitting,
            models(data.chunks@),
        ).1,
{
    let ghost chunks = models(data.chunks@);
    proof {
        lemma_created_chunks_wf(db@, data.document_id as int, data.splitting, chunks);
    }
    if data.chunks.len() == 0 || data.chunks.len() > i32::MAX as usize {
        return Err(Failure::new(FailureKind::ValidationError, Entity::DocumentChunk));
    }
    if find_document(db, data.document_id).is_none() {
        return Err(Failure::new(FailureKind::NotFound, Entity::Document));
    }
    let splitting_id = match get_or_create_splitting_id(db, data.splitting) {
        Ok(id) => id,
        Err(e) => {
            return Err(e);
        },
    };
    if find_splitting_by_id(db, splitting_id).is_none() {
        return Err(Failure::new(FailureKind::NotFound, Entity::Splitting));
    }
    if has_chunks(db, data.document_id, splitting_id) {
        return Err(Failure::new(FailureKind::ConstraintViolation, Entity::DocumentChunk));
    }
    let ghost resolved = db@;
    let ghost rows = chunk_rows(data.document_id as int, splitting_id as int, chunks);
    let mut created: Vec<DocumentChunk> = Vec::new();
    let mut i: usize = 0;
    assert(models(created@) =~= rows.take(0));
    assert(resolved.chunks + rows.take(0) =~= resolved.chunks);
    while i < data.chunks.len()
        invariant
            i <= data.chunks.len(),
            data.chunks.len() <= i32::MAX,
            chunks == models(data.chunks@),
            rows == chunk_rows(data.document_id as int, splitting_id as int, chunks),
            models(created@) == rows.take(i as int),
            db@ == (State { chunks: resolved.chunks + rows.take(i as int), ..resolved }),
        decreases data.chunks.len() - i,
    {
        let chunk = &data.chunks[i];
        let row = DocumentChunk {
            document_id: data.document_id,
            splitting_id,
            no: i as i32,
            content: chunk.content.clone(),
            metadata: chunk.metadata.clone(),
            md5_hash: hash_in_md5(chunk.content.as_str().as_bytes()),
        };
        let stored = row.clone();
        proof {
            assert(chunk@ == chunks[i as int]);
            assert(row@ == rows[i as int]);
            lemma_models_push(created@, row);
            lemma_models_push(db.chunks@, stored);
            assert(rows.take(i + 1) =~= rows.take(i as int).push(rows[i as int]));
            assert(resolved.chunks + rows.take(i + 1) =~= (resolved.chunks + rows.take(
                i as int,
            )).push(rows[i as int]));
        }
        created.push(row);
        db.chunks.push(stored);
        i += 1;
    }
    assert(rows.take(data.chunks.len() as int) =~= rows);
    Ok(created)
}

/// The chunks of a document under a splitting strategy, in their order.
/// Nothing is written: a chunk size and overlap that no stored strategy
/// has give no chunks.
pub fn get_document_chunks(db: &Store, document_id: i32, splitting: GetOrCreateSplittingData) -> (rows:
    Vec<DocumentChunk>)
    requires
        db@.wf(),
    ensures
        models(rows@) == listed_chunks(db@, document_id as int, splitting),
{
    let mut rows: Vec<DocumentChunk> = Vec::new();
    let splitting_id = match look_up_splitting_id(db, splitting) {
        Some(id) => id,
        None => {
            assert(models(rows@) =~= Seq::empty());
            return rows;
        },
    };
    let ghost keep = chunk_of(document_id as int, splitting_id as int);
    let mut i: usize = 0;
    proof {
        assert(db@.chunks.take(0).filter(keep) =~= Seq::empty()) by {
            reveal(Seq::filter);
        }
        assert(models(rows@) =~= Seq::empty());
    }
    while i < db.chunks.len()
        invariant
            i <= db.chunks.len(),
            keep == chunk_of(document_id as int, splitting_id as int),
            models(rows@) == db@.chunks.take(i as int).filter(keep),
        decreases db.chunks.len() - i,
    {
        proof {
            lemma_filter_step(db@.chunks, keep, i as int);
        }
        if db.chunks[i].document_id == document_id && db.chunks[i].splitting_id == splitting_id {
            let row = db.chunks[i].clone();
            proof {
                lemma_models_push(rows@, row);
            }
            rows.push(row);
        }
        i += 1;
    }
    assert(db@.chunks.take(db@.chunks.len() as int) =~= db@.chunks);
    rows
}

/// The content hashes of the chunks of the given documents under a
/// splitting strategy, in the order of the chunks. Nothing is written: a
/// chunk size and overlap that no stored strategy has give no hashes.
pub fn get_chunk_md5hashes_by_documents_and_splitting(
    db: &Store,
    document_ids: Vec<i32>,
    splitting: GetOrCreateSplittingData,
) -> (rows: Vec<ChunkHash>)
    requires
        db@.wf(),
    ensures
        models(rows@) == listed_chunk_hashes(db@, numbers(document_ids@), splitting),
{
    let mut rows: Vec<ChunkHash> = Vec::new();
    let splitting_id = match look_up_splitting_id(db, splitting) {
        Some(id) => id,
        None => {
            assert(models(rows@) =~= Seq::empty());
            return rows;
        },
    };
    let ghost keep = chunk_among(numbers(document_ids@), splitting_id as int);
    let ghost hash = |c: DocumentChunkModel| c.md5_hash;
    let mut i: usize = 0;
    proof {
        assert(db@.chunks.take(0).filter(keep) =~= Seq::empty()) by {
            reveal(Seq::filter);
        }
        assert(models(rows@) =~= db@.chunks.take(0).filter(keep).map_values(hash));
    }
    while i < db.chunks.len()
        invariant
            i <= db.chunks.len(),
            keep == chunk_among(numbers(document_ids@), splitting_id as int),
            hash == |c: DocumentChunkModel| c.md5_hash,
            models(rows@) == db@.chunks.take(i as int).filter(keep).map_values(hash),
        decreases db.chunks.len() - i,
    {
        let ghost before = db@.chunks.take(i as int).filter(keep);
        proof {
            lemma_filter_step(db@.chunks, keep, i as int);
        }
        if db.chunks[i].splitting_id == splitting_id && contains_number(
            &document_ids,
            db.chunks[i].document_id,
        ) {
            let row = ChunkHash { md5_hash: db.chunks[i].md5_hash.clone() };
            proof {
                lemma_models_push(rows@, row);
                assert(before.push(db@.chunks[i as int]).map_values(hash) =~= before.map_values(
                    hash,
                ).push(row@));
            }
            rows.push(row);
        }
        i += 1;
    }
    assert(db@.chunks.take(db@.chunks.len() as int) =~= db@.chunks);
    rows
}

} // verus!
