//! The failures that the operations of this crate report.

use vstd::prelude::*;

verus! {

/// Why an operation failed.
#[derive(Clone, Copy, Debug, PartialEq, Eq, Structural)]
pub enum FailureKind {
    /// A row that the operation needs does not exist.
    NotFound,
    /// A row with the same key already exists.
    ConstraintViolation,
    /// Stored or supplied data is not in the form it has to be in.
    FormatError,
    /// The store itself could not carry the operation out.
    StoreError,
    /// The caller's input breaks a stated rule.
    ValidationError,
}

/// The kind of row an error is about.
#[derive(Clone, Copy, Debug, PartialEq, Eq, Structural)]
pub enum Entity {
    Document,
    Splitting,
    DocumentChunk,
    EmbeddingVector,
    EmbeddingsClient,
    EmbeddingsConfig,
    VectorDbClient,
    VectorDbConfig,
    Collection,
    CollectionDocument,
    IndexProfile,
    CollectionIndex,
    CollectionIndexDocument,
    Session,
}

/// A failed operation: what kind of failure, and on which kind of row.
#[derive(Clone, Copy, Debug, PartialEq, Eq, Structural)]
pub struct Failure {
    pub kind: FailureKind,
    pub entity: Entity,
}

impl Failure {
    /// Builds the error of the given kind about the given entity.
    pub fn new(kind: FailureKind, entity: Entity) -> (e: Failure)
        ensures
            e == (Failure { kind, entity }),
    {
        Failure { kind, entity }
    }

    /// Whether trying the same operation again can succeed: only a failure
    /// of the store itself is transient.
    pub fn is_retryable(&self) -> (r: bool)
        ensures
            r == (self.kind == FailureKind::StoreError),
    {
        match self.kind {
            FailureKind::StoreError => true,
            _ => false,
        }
    }

    /// The name of the failure's kind.
    pub fn kind_name(&self) -> (s: &'static str)
        ensures
            s@ == kind_text(self.kind),
    {
        match self.kind {
            FailureKind::NotFound => "not found",
            FailureKind::ConstraintViolation => "constraint violation",
            FailureKind::FormatError => "format error",
            FailureKind::StoreError => "store error",
            FailureKind::ValidationError => "validation error",
        }
    }

    /// The name of the entity the failure is about.
    pub fn entity_name(&self) -> (s: &'static str)
        ensures
            s@ == entity_text(self.entity),
    {
        match self.entity {
            Entity::Document => "document",
            Entity::Splitting => "splitting",
            Entity::DocumentChunk => "document chunk",
            Entity::EmbeddingVector => "embedding vector",
            Entity::EmbeddingsClient => "embeddings client",
            Entity::EmbeddingsConfig => "embeddings config",
            Entity::VectorDbClient => "vector db client",
            Entity::VectorDbConfig => "vector db config",
            Entity::Collection => "collection",
            Entity::CollectionDocument => "collection document",
            Entity::IndexProfile => "index profile",
            Entity::CollectionIndex => "collection index",
            Entity::CollectionIndexDocument => "collection index document",
            Entity::Session => "session",
        }
    }

    /// A line for a person to read: the kind, a colon, the entity.
    pub fn message(&self) -> (s: String)
        ensures
            s@ == kind_text(self.kind) + ": "@ + entity_text(self.entity),
    {
        let mut s = String::from_str(self.kind_name());
        s.append(": ");
        s.append(self.entity_name());
        s
    }
}

/// The text that names a kind of failure.
pub open spec fn kind_text(kind: FailureKind) -> Seq<char> {
    match kind {
        FailureKind::NotFound => "not found"@,
        FailureKind::ConstraintViolation => "constraint violation"@,
        FailureKind::FormatError => "format error"@,
        FailureKind::StoreError => "store error"@,
        FailureKind::ValidationError => "validation error"@,
    }
}

/// The text that names an entity.
pub open spec fn entity_text(entity: Entity) -> Seq<char> {
    match entity {
        Entity::Document => "document"@,
        Entity::Splitting => "splitting"@,
        Entity::DocumentChunk => "document chunk"@,
        Entity::EmbeddingVector => "embedding vector"@,
        Entity::EmbeddingsClient => "embeddings client"@,
        Entity::EmbeddingsConfig => "embeddings config"@,
        Entity::VectorDbClient => "vector db client"@,
        Entity::VectorDbConfig => "vector db config"@,
        Entity::Collection => "collection"@,
        Entity::CollectionDocument => "collection document"@,
        Entity::IndexProfile => "index profile"@,
        Entity::CollectionIndex => "collection index"@,
        Entity::CollectionIndexDocument => "collection index document"@,
        Entity::Session => "session"@,
    }
}

} // verus!
