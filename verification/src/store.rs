//! The store: the tables in memory, and the operations on them.
//!
//! Each operation is a function on a [`Store`] whose contract says, over
//! the store's model, what it returns and what it changes. An operation
//! that fails leaves the store as it was, but where its contract says
//! otherwise.

use vstd::prelude::*;
use crate::model::State;
use crate::rows::{
    models, Collection, CollectionDocument, CollectionIndex, CollectionIndexDocument, ConfigRow,
    Document, DocumentChunk, EmbeddingVectorRow, IndexProfile, Session, Splitting,
};

pub mod collection_indexes;
pub mod collections;
pub mod collections_on_documents;
pub mod document_chunks;
pub mod documents;
pub mod embedding_vectors;
pub mod embeddings_clients;
pub mod embeddings_configs;
pub mod index_profiles;
pub mod registry;
pub mod sessions;
pub mod splittings;
pub mod vector_db_clients;
pub mod vector_db_configs;

verus! {

/// The tables of the store. Its view is the [`State`] they hold.
pub struct Store {
    documents: Vec<Document>,
    last_document_id: i32,
    splittings: Vec<Splitting>,
    last_splitting_id: i32,
    chunks: Vec<DocumentChunk>,
    vectors: Vec<EmbeddingVectorRow>,
    embeddings_clients: Vec<ConfigRow>,
    last_embeddings_client_id: i32,
    embeddings_configs: Vec<ConfigRow>,
    last_embeddings_config_id: i32,
    vector_db_clients: Vec<ConfigRow>,
    last_vector_db_client_id: i32,
    vector_db_configs: Vec<ConfigRow>,
    last_vector_db_config_id: i32,
    collections: Vec<Collection>,
    last_collection_id: i32,
    collection_documents: Vec<CollectionDocument>,
    index_profiles: Vec<IndexProfile>,
    last_index_profile_id: i32,
    collection_indexes: Vec<CollectionIndex>,
    index_documents: Vec<CollectionIndexDocument>,
    sessions: Vec<Session>,
    last_session_id: i32,
}

impl View for Store {
    type V = State;

    closed spec fn view(&self) -> State {
        State {
            documents: models(self.documents@),
            last_document_id: self.last_document_id as int,
            splittings: models(self.splittings@),
            last_splitting_id: self.last_splitting_id as int,
            chunks: models(self.chunks@),
            vectors: models(self.vectors@),
            embeddings_clients: models(self.embeddings_clients@),
            last_embeddings_client_id: self.last_embeddings_client_id as int,
            embeddings_configs: models(self.embeddings_configs@),
            last_embeddings_config_id: self.last_embeddings_config_id as int,
            vector_db_clients: models(self.vector_db_clients@),
            last_vector_db_client_id: self.last_vector_db_client_id as int,
            vector_db_configs: models(self.vector_db_configs@),
            last_vector_db_config_id: self.last_vector_db_config_id as int,
            collections: models(self.collections@),
            last_collection_id: self.last_collection_id as int,
            collection_documents: models(self.collection_documents@),
            index_profiles: models(self.index_profiles@),
            last_index_profile_id: self.last_index_profile_id as int,
            collection_indexes: models(self.collection_indexes@),
            index_documents: models(self.index_documents@),
            sessions: models(self.sessions@),
            last_session_id: self.last_session_id as int,
        }
    }
}

/// The numbers of a list, as integers.
pub open spec fn numbers(ids: Seq<i32>) -> Seq<int> {
    ids.map_values(|id: i32| id as int)
}

/// The texts of a list, as sequences of characters.
pub open spec fn texts(ids: Seq<String>) -> Seq<Seq<char>> {
    ids.map_values(|id: String| id@)
}

/// Whether `id` is among `ids`.
pub(crate) fn contains_number(ids: &Vec<i32>, id: i32) -> (found: bool)
    ensures
        found == numbers(ids@).contains(id as int),
{
    let mut i: usize = 0;
    while i < ids.len()
        invariant
            i <= ids.len(),
            forall|j: int| 0 <= j < i ==> numbers(ids@)[j] != id as int,
        decreases ids.len() - i,
    {
        if ids[i] == id {
            assert(numbers(ids@)[i as int] == id as int);
            return true;
        }
        i += 1;
    }
    false
}

/// Whether `id` is among `ids`.
pub(crate) fn contains_text(ids: &Vec<String>, id: &String) -> (found: bool)
    ensures
        found == texts(ids@).contains(id@),
{
    let mut i: usize = 0;
    while i < ids.len()
        invariant
            i <= ids.len(),
            forall|j: int| 0 <= j < i ==> texts(ids@)[j] != id@,
        decreases ids.len() - i,
    {
        if ids[i] == *id {
            assert(texts(ids@)[i as int] == id@);
            return true;
        }
        i += 1;
    }
    false
}

impl Store {
    /// A store in which nothing was written yet.
    pub fn new() -> (db: Store)
        ensures
            db@ == State::empty(),
            db@.wf(),
    {
        let db = Store {
            documents: Vec::new(),
            last_document_id: 0,
            splittings: Vec::new(),
            last_splitting_id: 0,
            chunks: Vec::new(),
            vectors: Vec::new(),
            embeddings_clients: Vec::new(),
            last_embeddings_client_id: 0,
            embeddings_configs: Vec::new(),
            last_embeddings_config_id: 0,
            vector_db_clients: Vec::new(),
            last_vector_db_client_id: 0,
            vector_db_configs: Vec::new(),
            last_vector_db_config_id: 0,
            collections: Vec::new(),
            last_collection_id: 0,
            collection_documents: Vec::new(),
            index_profiles: Vec::new(),
            last_index_profile_id: 0,
            collection_indexes: Vec::new(),
            index_documents: Vec::new(),
            sessions: Vec::new(),
            last_session_id: 0,
        };
        proof {
            assert(db@.documents =~= Seq::empty());
            assert(db@.splittings =~= Seq::empty());
            assert(db@.chunks =~= Seq::empty());
            assert(db@.vectors =~= Seq::empty());
            assert(db@.embeddings_clients =~= Seq::empty());
            assert(db@.embeddings_configs =~= Seq::empty());
            assert(db@.vector_db_clients =~= Seq::empty());
            assert(db@.vector_db_configs =~= Seq::empty());
            assert(db@.collections =~= Seq::empty());
            assert(db@.collection_documents =~= Seq::empty());
            assert(db@.index_profiles =~= Seq::empty());
            assert(db@.collection_indexes =~= Seq::empty());
            assert(db@.index_documents =~= Seq::empty());
            assert(db@.sessions =~= Seq::empty());
        }
        db
    }
}

} // verus!
