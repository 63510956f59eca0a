//! The mathematical model of the store: one sequence of row models per
//! table, in the order in which the rows were written, and for each table
//! that numbers its rows the last number given out.
//!
//! [`State::wf`] says what holds of every state the store can be in: which
//! keys are unique, which references resolve, and what is true of each row
//! by itself.

use vstd::prelude::*;
use crate::hash::text_hash;
use crate::relations::{all, has_key, refers, unique_by, within};
use crate::rows::{
    CollectionDocumentModel, CollectionIndexDocumentModel, CollectionIndexModel, CollectionModel,
    ConfigModel, DocumentChunkModel, DocumentModel, EmbeddingVectorModel, IndexProfileModel,
    SessionModel, SplittingModel,
};
use crate::vector_codec::decodable;

verus! {

/// All that the store holds.
pub struct State {
    pub documents: Seq<DocumentModel>,
    pub last_document_id: int,
    pub splittings: Seq<SplittingModel>,
    pub last_splitting_id: int,
    pub chunks: Seq<DocumentChunkModel>,
    pub vectors: Seq<EmbeddingVectorModel>,
    pub embeddings_clients: Seq<ConfigModel>,
    pub last_embeddings_client_id: int,
    pub embeddings_configs: Seq<ConfigModel>,
    pub last_embeddings_config_id: int,
    pub vector_db_clients: Seq<ConfigModel>,
    pub last_vector_db_client_id: int,
    pub vector_db_configs: Seq<ConfigModel>,
    pub last_vector_db_config_id: int,
    pub collections: Seq<CollectionModel>,
    pub last_collection_id: int,
    pub collection_documents: Seq<CollectionDocumentModel>,
    pub index_profiles: Seq<IndexProfileModel>,
    pub last_index_profile_id: int,
    pub collection_indexes: Seq<CollectionIndexModel>,
    pub index_documents: Seq<CollectionIndexDocumentModel>,
    pub sessions: Seq<SessionModel>,
    pub last_session_id: int,
}

/// The number of a document.
pub open spec fn document_id() -> spec_fn(DocumentModel) -> int {
    |d: DocumentModel| d.id
}

/// The content hash of a document.
pub open spec fn document_hash() -> spec_fn(DocumentModel) -> Seq<char> {
    |d: DocumentModel| d.md5_hash
}

/// The number of a splitting strategy.
pub open spec fn splitting_id() -> spec_fn(SplittingModel) -> int {
    |s: SplittingModel| s.id
}

/// The chunk size and the overlap of a splitting strategy.
pub open spec fn splitting_pair() -> spec_fn(SplittingModel) -> (int, int) {
    |s: SplittingModel| (s.chunk_size, s.chunk_overlap)
}

/// The document, the splitting strategy and the place of a chunk.
pub open spec fn chunk_key() -> spec_fn(DocumentChunkModel) -> (int, int, int) {
    |c: DocumentChunkModel| (c.document_id, c.splitting_id, c.no)
}

/// The document and the splitting strategy of a chunk.
pub open spec fn chunk_pair() -> spec_fn(DocumentChunkModel) -> (int, int) {
    |c: DocumentChunkModel| (c.document_id, c.splitting_id)
}

/// The document of a chunk.
pub open spec fn chunk_document() -> spec_fn(DocumentChunkModel) -> int {
    |c: DocumentChunkModel| c.document_id
}

/// The splitting strategy of a chunk.
pub open spec fn chunk_splitting() -> spec_fn(DocumentChunkModel) -> int {
    |c: DocumentChunkModel| c.splitting_id
}

/// The embeddings configuration and the content hash of a stored vector.
pub open spec fn vector_key() -> spec_fn(EmbeddingVectorModel) -> (int, Seq<char>) {
    |v: EmbeddingVectorModel| (v.embeddings_config_id, v.md5_hash)
}

/// The number of a registry row.
pub open spec fn config_id() -> spec_fn(ConfigModel) -> int {
    |c: ConfigModel| c.id
}

/// The number of a collection.
pub open spec fn collection_id() -> spec_fn(CollectionModel) -> int {
    |c: CollectionModel| c.id
}

/// The collection and the document of a membership.
pub open spec fn membership_key() -> spec_fn(CollectionDocumentModel) -> (int, int) {
    |m: CollectionDocumentModel| (m.collection_id, m.document_id)
}

/// The collection of a membership.
pub open spec fn membership_collection() -> spec_fn(CollectionDocumentModel) -> int {
    |m: CollectionDocumentModel| m.collection_id
}

/// The document of a membership.
pub open spec fn membership_document() -> spec_fn(CollectionDocumentModel) -> int {
    |m: CollectionDocumentModel| m.document_id
}

/// The number of an index profile.
pub open spec fn profile_id() -> spec_fn(IndexProfileModel) -> int {
    |p: IndexProfileModel| p.id
}

/// The splitting strategy of an index profile.
pub open spec fn profile_splitting() -> spec_fn(IndexProfileModel) -> int {
    |p: IndexProfileModel| p.splitting_id
}

/// The embeddings client of an index profile.
pub open spec fn profile_embeddings_client() -> spec_fn(IndexProfileModel) -> int {
    |p: IndexProfileModel| p.embeddings_client_id
}

/// The embeddings configuration of an index profile.
pub open spec fn profile_embeddings_config() -> spec_fn(IndexProfileModel) -> int {
    |p: IndexProfileModel| p.embeddings_config_id
}

/// The vector database client of an index profile.
pub open spec fn profile_vector_db_client() -> spec_fn(IndexProfileModel) -> int {
    |p: IndexProfileModel| p.vector_db_client_id
}

/// The vector database configuration of an index profile.
pub open spec fn profile_vector_db_config() -> spec_fn(IndexProfileModel) -> int {
    |p: IndexProfileModel| p.vector_db_config_id
}

/// The identifier of a collection index.
pub open spec fn index_id() -> spec_fn(CollectionIndexModel) -> Seq<char> {
    |x: CollectionIndexModel| x.id
}

/// The collection of a collection index.
pub open spec fn index_collection() -> spec_fn(CollectionIndexModel) -> int {
    |x: CollectionIndexModel| x.collection_id
}

/// The index profile of a collection index.
pub open spec fn index_profile() -> spec_fn(CollectionIndexModel) -> int {
    |x: CollectionIndexModel| x.index_id
}

/// The collection index and the document of an indexed document.
pub open spec fn indexed_key() -> spec_fn(CollectionIndexDocumentModel) -> (Seq<char>, int) {
    |m: CollectionIndexDocumentModel| (m.index_id, m.document_id)
}

/// The collection index of an indexed document.
pub open spec fn indexed_index() -> spec_fn(CollectionIndexDocumentModel) -> Seq<char> {
    |m: CollectionIndexDocumentModel| m.index_id
}

/// The document of an indexed document.
pub open spec fn indexed_document() -> spec_fn(CollectionIndexDocumentModel) -> int {
    |m: CollectionIndexDocumentModel| m.document_id
}

/// The number of a session.
pub open spec fn session_id() -> spec_fn(SessionModel) -> int {
    |s: SessionModel| s.id
}

/// The collection index of a session.
pub open spec fn session_index() -> spec_fn(SessionModel) -> Seq<char> {
    |s: SessionModel| s.index_id
}

/// A chunk size and an overlap that make a strategy: the size is positive,
/// the overlap is not negative and less than the size.
pub open spec fn valid_splitting(chunk_size: int, chunk_overlap: int) -> bool {
    chunk_size > 0 && 0 <= chunk_overlap < chunk_size
}

/// What holds of each splitting strategy by itself.
pub open spec fn splitting_sound() -> spec_fn(SplittingModel) -> bool {
    |s: SplittingModel| valid_splitting(s.chunk_size, s.chunk_overlap)
}

/// What holds of each chunk by itself: its place is not negative, and its
/// hash is the content hash of its own text.
pub open spec fn chunk_sound() -> spec_fn(DocumentChunkModel) -> bool {
    |c: DocumentChunkModel| c.no >= 0 && c.md5_hash == text_hash(c.content)
}

/// What holds of each stored vector by itself: it can be decoded.
pub open spec fn vector_sound() -> spec_fn(EmbeddingVectorModel) -> bool {
    |v: EmbeddingVectorModel| decodable(v.vector)
}

/// The places of the chunks of each document under each strategy have no
/// gap: below the place of a chunk, every place is taken.
pub open spec fn dense(chunks: Seq<DocumentChunkModel>) -> bool {
    forall|i: int, k: int|
        0 <= i < chunks.len() && 0 <= k < (#[trigger] chunks[i]).no ==> #[trigger] has_key(
            chunks,
            chunk_key(),
            (chunks[i].document_id, chunks[i].splitting_id, k),
        )
}

/// A table that numbers its rows: the numbers run from 1 to `last`, which
/// a 32-bit integer holds, and no two rows have the same.
pub open spec fn numbered<T>(rows: Seq<T>, key: spec_fn(T) -> int, last: int) -> bool {
    &&& 0 <= last <= i32::MAX
    &&& within(rows, key, last)
    &&& unique_by(rows, key)
}

impl State {
    /// The state of a store in which nothing was written yet.
    pub open spec fn empty() -> State {
        State {
            documents: Seq::empty(),
            last_document_id: 0,
            splittings: Seq::empty(),
            last_splitting_id: 0,
            chunks: Seq::empty(),
            vectors: Seq::empty(),
            embeddings_clients: Seq::empty(),
            last_embeddings_client_id: 0,
            embeddings_configs: Seq::empty(),
            last_embeddings_config_id: 0,
            vector_db_clients: Seq::empty(),
            last_vector_db_client_id: 0,
            vector_db_configs: Seq::empty(),
            last_vector_db_config_id: 0,
            collections: Seq::empty(),
            last_collection_id: 0,
            collection_documents: Seq::empty(),
            index_profiles: Seq::empty(),
            last_index_profile_id: 0,
            collection_indexes: Seq::empty(),
            index_documents: Seq::empty(),
            sessions: Seq::empty(),
            last_session_id: 0,
        }
    }

    /// Documents are numbered, and no two have the same content hash.
    pub open spec fn documents_wf(self) -> bool {
        &&& numbered(self.documents, document_id(), self.last_document_id)
        &&& unique_by(self.documents, document_hash())
    }

    /// Splitting strategies are numbered, each is valid, and no two have
    /// the same chunk size and overlap.
    pub open spec fn splittings_wf(self) -> bool {
        &&& numbered(self.splittings, splitting_id(), self.last_splitting_id)
        &&& unique_by(self.splittings, splitting_pair())
        &&& all(self.splittings, splitting_sound())
    }

    /// Each chunk belongs to a document and a strategy that exist, carries
    /// the hash of its own text, and has a place of its own in a row of
    /// places without gaps.
    pub open spec fn chunks_wf(self) -> bool {
        &&& refers(self.chunks, chunk_document(), self.documents, document_id())
        &&& refers(self.chunks, chunk_splitting(), self.splittings, splitting_id())
        &&& unique_by(self.chunks, chunk_key())
        &&& all(self.chunks, chunk_sound())
        &&& dense(self.chunks)
    }

    /// There is at most one vector per configuration and content hash, and
    /// each can be decoded.
    pub open spec fn vectors_wf(self) -> bool {
        &&& unique_by(self.vectors, vector_key())
        &&& all(self.vectors, vector_sound())
    }

    /// The rows of each of the four registries are numbered.
    pub open spec fn registries_wf(self) -> bool {
        &&& numbered(self.embeddings_clients, config_id(), self.last_embeddings_client_id)
        &&& numbered(self.embeddings_configs, config_id(), self.last_embeddings_config_id)
        &&& numbered(self.vector_db_clients, config_id(), self.last_vector_db_client_id)
        &&& numbered(self.vector_db_configs, config_id(), self.last_vector_db_config_id)
    }

    /// Collections are numbered.
    pub open spec fn collections_wf(self) -> bool {
        numbered(self.collections, collection_id(), self.last_collection_id)
    }

    /// Each membership joins a collection and a document that exist, and
    /// no document is twice in one collection.
    pub open spec fn memberships_wf(self) -> bool {
        &&& refers(
            self.collection_documents,
            membership_collection(),
            self.collections,
            collection_id(),
        )
        &&& refers(
            self.collection_documents,
            membership_document(),
            self.documents,
            document_id(),
        )
        &&& unique_by(self.collection_documents, membership_key())
    }

    /// Index profiles are numbered, and each names a strategy, two clients
    /// and two configurations that exist.
    pub open spec fn profiles_wf(self) -> bool {
        &&& numbered(self.index_profiles, profile_id(), self.last_index_profile_id)
        &&& refers(self.index_profiles, profile_splitting(), self.splittings, splitting_id())
        &&& refers(
            self.index_profiles,
            profile_embeddings_client(),
            self.embeddings_clients,
            config_id(),
        )
        &&& refers(
            self.index_profiles,
            profile_embeddings_config(),
            self.embeddings_configs,
            config_id(),
        )
        &&& refers(
            self.index_profiles,
            profile_vector_db_client(),
            self.vector_db_clients,
            config_id(),
        )
        &&& refers(
            self.index_profiles,
            profile_vector_db_config(),
            self.vector_db_configs,
            config_id(),
        )
    }

    /// No two collection indexes have the same identifier, and each binds
    /// a collection and an index profile that exist.
    pub open spec fn indexes_wf(self) -> bool {
        &&& unique_by(self.collection_indexes, index_id())
        &&& refers(self.collection_indexes, index_collection(), self.collections, collection_id())
        &&& refers(self.collection_indexes, index_profile(), self.index_profiles, profile_id())
    }

    /// Each indexed document joins a collection index and a document that
    /// exist, and no document is twice in one collection index.
    pub open spec fn indexed_wf(self) -> bool {
        &&& refers(self.index_documents, indexed_index(), self.collection_indexes, index_id())
        &&& refers(self.index_documents, indexed_document(), self.documents, document_id())
        &&& unique_by(self.index_documents, indexed_key())
    }

    /// Sessions are numbered, and each is held against a collection index
    /// that exists.
    pub open spec fn sessions_wf(self) -> bool {
        &&& numbered(self.sessions, session_id(), self.last_session_id)
        &&& refers(self.sessions, session_index(), self.collection_indexes, index_id())
    }

    /// What holds of every state the store can be in.
    pub open spec fn wf(self) -> bool {
        &&& self.documents_wf()
        &&& self.splittings_wf()
        &&& self.chunks_wf()
        &&& self.vectors_wf()
        &&& self.registries_wf()
        &&& self.collections_wf()
        &&& self.memberships_wf()
        &&& self.profiles_wf()
        &&& self.indexes_wf()
        &&& self.indexed_wf()
        &&& self.sessions_wf()
    }
}

} // verus!
