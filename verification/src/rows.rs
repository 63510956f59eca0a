//! The rows of the store, and for each kind of row its mathematical model:
//! the same fields with integers unbounded and texts as sequences.

use vstd::prelude::*;

verus! {

/// A source document, identified by the hash of its content.
#[derive(Debug, PartialEq, Eq)]
pub struct Document {
    /// The number the store gave it.
    pub id: i32,
    /// The name it was first ingested under.
    pub filename: String,
    /// Where its content is staged.
    pub path: String,
    /// The content hash of its bytes.
    pub md5_hash: String,
    /// When it was ingested, as the caller's clock gave it.
    pub update_time: i64,
}

/// The model of a [`Document`].
pub struct DocumentModel {
    pub id: int,
    pub filename: Seq<char>,
    pub path: Seq<char>,
    pub md5_hash: Seq<char>,
    pub update_time: int,
}

impl View for Document {
    type V = DocumentModel;

    open spec fn view(&self) -> DocumentModel {
        DocumentModel {
            id: self.id as int,
            filename: self.filename@,
            path: self.path@,
            md5_hash: self.md5_hash@,
            update_time: self.update_time as int,
        }
    }
}

impl Clone for Document {
    fn clone(&self) -> (r: Self)
        ensures
            r@ == self@,
    {
        Document {
            id: self.id,
            filename: self.filename.clone(),
            path: self.path.clone(),
            md5_hash: self.md5_hash.clone(),
            update_time: self.update_time,
        }
    }
}

/// A splitting strategy: how large a chunk is, and how much of it repeats the chunk before.
#[derive(Debug, PartialEq, Eq)]
pub struct Splitting {
    /// The number the store gave it.
    pub id: i32,
    /// The size of a chunk.
    pub chunk_size: i32,
    /// The part of a chunk that overlaps the one before.
    pub chunk_overlap: i32,
}

/// The model of a [`Splitting`].
pub struct SplittingModel {
    pub id: int,
    pub chunk_size: int,
    pub chunk_overlap: int,
}

impl View for Splitting {
    type V = SplittingModel;

    open spec fn view(&self) -> SplittingModel {
        SplittingModel {
            id: self.id as int,
            chunk_size: self.chunk_size as int,
            chunk_overlap: self.chunk_overlap as int,
        }
    }
}

impl Clone for Splitting {
    fn clone(&self) -> (r: Self)
        ensures
            r@ == self@,
    {
        Splitting {
            id: self.id,
            chunk_size: self.chunk_size,
            chunk_overlap: self.chunk_overlap,
        }
    }
}

/// One chunk of a document under one splitting strategy.
#[derive(Debug, PartialEq, Eq)]
pub struct DocumentChunk {
    /// The document it was cut from.
    pub document_id: i32,
    /// The strategy it was cut under.
    pub splitting_id: i32,
    /// Its place among the chunks of that document and strategy, from 0.
    pub no: i32,
    /// Its text.
    pub content: String,
    /// What the caller noted about it.
    pub metadata: String,
    /// The content hash of its text.
    pub md5_hash: String,
}

/// The model of a [`DocumentChunk`].
pub struct DocumentChunkModel {
    pub document_id: int,
    pub splitting_id: int,
    pub no: int,
    pub content: Seq<char>,
    pub metadata: Seq<char>,
    pub md5_hash: Seq<char>,
}

impl View for DocumentChunk {
    type V = DocumentChunkModel;

    open spec fn view(&self) -> DocumentChunkModel {
        DocumentChunkModel {
            document_id: self.document_id as int,
            splitting_id: self.splitting_id as int,
            no: self.no as int,
            content: self.content@,
            metadata: self.metadata@,
            md5_hash: self.md5_hash@,
        }
    }
}

impl Clone for DocumentChunk {
    fn clone(&self) -> (r: Self)
        ensures
            r@ == self@,
    {
        DocumentChunk {
            document_id: self.document_id,
            splitting_id: self.splitting_id,
            no: self.no,
            content: self.content.clone(),
            metadata: self.metadata.clone(),
            md5_hash: self.md5_hash.clone(),
        }
    }
}

/// A stored embedding vector, in its stored form.
#[derive(Debug, PartialEq, Eq)]
pub struct EmbeddingVectorRow {
    /// The embeddings configuration it was computed under.
    pub embeddings_config_id: i32,
    /// The content hash of what it embeds.
    pub md5_hash: String,
    /// The vector, four bytes per value.
    pub vector: Vec<u8>,
}

/// The model of a [`EmbeddingVectorRow`].
pub struct EmbeddingVectorModel {
    pub embeddings_config_id: int,
    pub md5_hash: Seq<char>,
    pub vector: Seq<u8>,
}

impl View for EmbeddingVectorRow {
    type V = EmbeddingVectorModel;

    open spec fn view(&self) -> EmbeddingVectorModel {
        EmbeddingVectorModel {
            embeddings_config_id: self.embeddings_config_id as int,
            md5_hash: self.md5_hash@,
            vector: self.vector@,
        }
    }
}

impl Clone for EmbeddingVectorRow {
    fn clone(&self) -> (r: Self)
        ensures
            r@ == self@,
    {
        EmbeddingVectorRow {
            embeddings_config_id: self.embeddings_config_id,
            md5_hash: self.md5_hash.clone(),
            vector: self.vector.clone(),
        }
    }
}

/// A row of one of the four configuration registries.
#[derive(Debug, PartialEq, Eq)]
pub struct ConfigRow {
    /// The number the store gave it.
    pub id: i32,
    /// Its name.
    pub name: String,
    /// The tag of the client type it is, or is for.
    pub kind: String,
    /// Its settings: a JSON value as text.
    pub meta: String,
}

/// The model of a [`ConfigRow`].
pub struct ConfigModel {
    pub id: int,
    pub name: Seq<char>,
    pub kind: Seq<char>,
    pub meta: Seq<char>,
}

impl View for ConfigRow {
    type V = ConfigModel;

    open spec fn view(&self) -> ConfigModel {
        ConfigModel {
            id: self.id as int,
            name: self.name@,
            kind: self.kind@,
            meta: self.meta@,
        }
    }
}

impl Clone for ConfigRow {
    fn clone(&self) -> (r: Self)
        ensures
            r@ == self@,
    {
        ConfigRow {
            id: self.id,
            name: self.name.clone(),
            kind: self.kind.clone(),
            meta: self.meta.clone(),
        }
    }
}

/// A named collection of documents.
#[derive(Debug, PartialEq, Eq)]
pub struct Collection {
    /// The number the store gave it.
    pub id: i32,
    /// Its name.
    pub name: String,
}

/// The model of a [`Collection`].
pub struct CollectionModel {
    pub id: int,
    pub name: Seq<char>,
}

impl View for Collection {
    type V = CollectionModel;

    open spec fn view(&self) -> CollectionModel {
        CollectionModel {
            id: self.id as int,
            name: self.name@,
        }
    }
}

impl Clone for Collection {
    fn clone(&self) -> (r: Self)
        ensures
            r@ == self@,
    {
        Collection {
            id: self.id,
            name: self.name.clone(),
        }
    }
}

/// The membership of one document in one collection.
#[derive(Debug, PartialEq, Eq)]
pub struct CollectionDocument {
    /// The collection.
    pub collection_id: i32,
    /// The document.
    pub document_id: i32,
}

/// The model of a [`CollectionDocument`].
pub struct CollectionDocumentModel {
    pub collection_id: int,
    pub document_id: int,
}

impl View for CollectionDocument {
    type V = CollectionDocumentModel;

    open spec fn view(&self) -> CollectionDocumentModel {
        CollectionDocumentModel {
            collection_id: self.collection_id as int,
            document_id: self.document_id as int,
        }
    }
}

impl Clone for CollectionDocument {
    fn clone(&self) -> (r: Self)
        ensures
            r@ == self@,
    {
        CollectionDocument {
            collection_id: self.collection_id,
            document_id: self.document_id,
        }
    }
}

/// One fully specified way to index: a splitting strategy, and a client and a configuration on each side.
#[derive(Debug, PartialEq, Eq)]
pub struct IndexProfile {
    /// The number the store gave it.
    pub id: i32,
    /// Its name.
    pub name: String,
    /// The splitting strategy.
    pub splitting_id: i32,
    /// The embeddings client.
    pub embeddings_client_id: i32,
    /// The embeddings configuration.
    pub embeddings_config_id: i32,
    /// The vector database client.
    pub vector_db_client_id: i32,
    /// The vector database configuration.
    pub vector_db_config_id: i32,
}

/// The model of a [`IndexProfile`].
pub struct IndexProfileModel {
    pub id: int,
    pub name: Seq<char>,
    pub splitting_id: int,
    pub embeddings_client_id: int,
    pub embeddings_config_id: int,
    pub vector_db_client_id: int,
    pub vector_db_config_id: int,
}

impl View for IndexProfile {
    type V = IndexProfileModel;

    open spec fn view(&self) -> IndexProfileModel {
        IndexProfileModel {
            id: self.id as int,
            name: self.name@,
            splitting_id: self.splitting_id as int,
            embeddings_client_id: self.embeddings_client_id as int,
            embeddings_config_id: self.embeddings_config_id as int,
            vector_db_client_id: self.vector_db_client_id as int,
            vector_db_config_id: self.vector_db_config_id as int,
        }
    }
}

impl Clone for IndexProfile {
    fn clone(&self) -> (r: Self)
        ensures
            r@ == self@,
    {
        IndexProfile {
            id: self.id,
            name: self.name.clone(),
            splitting_id: self.splitting_id,
            embeddings_client_id: self.embeddings_client_id,
            embeddings_config_id: self.embeddings_config_id,
            vector_db_client_id: self.vector_db_client_id,
            vector_db_config_id: self.vector_db_config_id,
        }
    }
}

/// The binding of one collection to one index profile.
#[derive(Debug, PartialEq, Eq)]
pub struct CollectionIndex {
    /// Its identifier, chosen by the caller.
    pub id: String,
    /// Its name.
    pub name: String,
    /// The collection.
    pub collection_id: i32,
    /// The index profile.
    pub index_id: i32,
}

/// The model of a [`CollectionIndex`].
pub struct CollectionIndexModel {
    pub id: Seq<char>,
    pub name: Seq<char>,
    pub collection_id: int,
    pub index_id: int,
}

impl View for CollectionIndex {
    type V = CollectionIndexModel;

    open spec fn view(&self) -> CollectionIndexModel {
        CollectionIndexModel {
            id: self.id@,
            name: self.name@,
            collection_id: self.collection_id as int,
            index_id: self.index_id as int,
        }
    }
}

impl Clone for CollectionIndex {
    fn clone(&self) -> (r: Self)
        ensures
            r@ == self@,
    {
        CollectionIndex {
            id: self.id.clone(),
            name: self.name.clone(),
            collection_id: self.collection_id,
            index_id: self.index_id,
        }
    }
}

/// The membership of one document in one collection index.
#[derive(Debug, PartialEq, Eq)]
pub struct CollectionIndexDocument {
    /// The collection index.
    pub index_id: String,
    /// The document.
    pub document_id: i32,
}

/// The model of a [`CollectionIndexDocument`].
pub struct CollectionIndexDocumentModel {
    pub index_id: Seq<char>,
    pub document_id: int,
}

impl View for CollectionIndexDocument {
    type V = CollectionIndexDocumentModel;

    open spec fn view(&self) -> CollectionIndexDocumentModel {
        CollectionIndexDocumentModel {
            index_id: self.index_id@,
            document_id: self.document_id as int,
        }
    }
}

impl Clone for CollectionIndexDocument {
    fn clone(&self) -> (r: Self)
        ensures
            r@ == self@,
    {
        CollectionIndexDocument {
            index_id: self.index_id.clone(),
            document_id: self.document_id,
        }
    }
}

/// A conversation held against one collection index.
#[derive(Debug, PartialEq, Eq)]
pub struct Session {
    /// The number the store gave it.
    pub id: i32,
    /// Its name.
    pub name: String,
    /// The collection index it is held against.
    pub index_id: String,
    /// The conversation so far, as the caller wrote it down.
    pub history: String,
}

/// The model of a [`Session`].
pub struct SessionModel {
    pub id: int,
    pub name: Seq<char>,
    pub index_id: Seq<char>,
    pub history: Seq<char>,
}

impl View for Session {
    type V = SessionModel;

    open spec fn view(&self) -> SessionModel {
        SessionModel {
            id: self.id as int,
            name: self.name@,
            index_id: self.index_id@,
            history: self.history@,
        }
    }
}

impl Clone for Session {
    fn clone(&self) -> (r: Self)
        ensures
            r@ == self@,
    {
        Session {
            id: self.id,
            name: self.name.clone(),
            index_id: self.index_id.clone(),
            history: self.history.clone(),
        }
    }
}

/// The models of the rows of a table, in the order of the rows.
pub open spec fn models<T: View>(rows: Seq<T>) -> Seq<T::V> {
    rows.map_values(|row: T| row@)
}

/// The models of a table with one more row are the models of the table
/// with the model of that row after them.
pub proof fn lemma_models_push<T: View>(rows: Seq<T>, row: T)
    ensures
        models(rows.push(row)) == models(rows).push(row@),
{
    assert(models(rows.push(row)) =~= models(rows).push(row@));
}

/// The models of a table in which one row was replaced are the models of
/// the table with the model of the new row in that place.
pub proof fn lemma_models_update<T: View>(rows: Seq<T>, at: int, row: T)
    requires
        0 <= at < rows.len(),
    ensures
        models(rows.update(at, row)) == models(rows).update(at, row@),
{
    assert(models(rows.update(at, row)) =~= models(rows).update(at, row@));
}

/// The models of a table from which one row was taken out are the models
/// of the table without the model in that place.
pub proof fn lemma_models_remove<T: View>(rows: Seq<T>, at: int)
    requires
        0 <= at < rows.len(),
    ensures
        models(rows.remove(at)) == models(rows).remove(at),
{
    assert(models(rows.remove(at)) =~= models(rows).remove(at));
}

} // verus!
