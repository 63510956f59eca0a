use docstore::error::{Entity, Failure, FailureKind};

#[test]
fn only_a_failure_of_the_store_is_worth_a_retry() {
    assert!(Failure::new(FailureKind::StoreError, Entity::Document).is_retryable());
    assert!(!Failure::new(FailureKind::ValidationError, Entity::Splitting).is_retryable());
    assert!(!Failure::new(FailureKind::FormatError, Entity::EmbeddingVector).is_retryable());
    assert!(!Failure::new(FailureKind::NotFound, Entity::Session).is_retryable());
    assert!(!Failure::new(FailureKind::ConstraintViolation, Entity::CollectionIndex).is_retryable());
}

#[test]
fn a_failure_names_its_kind_and_its_entity() {
    let e = Failure::new(FailureKind::NotFound, Entity::Collection);
    assert_eq!(e.kind, FailureKind::NotFound);
    assert_eq!(e.entity, Entity::Collection);
    assert_eq!(e.kind_name(), "not found");
    assert_eq!(e.entity_name(), "collection");
    assert_eq!(e.message(), "not found: collection");
}

#[test]
fn every_kind_and_entity_has_its_own_name() {
    assert_eq!(
        Failure::new(FailureKind::FormatError, Entity::EmbeddingVector).message(),
        "format error: embedding vector"
    );
    assert_eq!(
        Failure::new(FailureKind::ConstraintViolation, Entity::CollectionIndexDocument).message(),
        "constraint violation: collection index document"
    );
    assert_eq!(
        Failure::new(FailureKind::StoreError, Entity::VectorDbConfig).message(),
        "store error: vector db config"
    );
    assert_eq!(
        Failure::new(FailureKind::ValidationError, Entity::DocumentChunk).message(),
        "validation error: document chunk"
    );
}
