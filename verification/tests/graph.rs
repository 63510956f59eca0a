use docstore::error::{Entity, Failure, FailureKind};
use docstore::store::collection_indexes::{
    create_collection_index, delete_collection_indexes_by_id, get_collection_index_by_id,
    get_collection_indexes_by_collection_id, get_collection_indexes_by_collection_id_with_all,
    remove_documents_from_collection_index, upsert_documents_in_collection_index,
    CreateCollectionIndexData,
};
use docstore::store::collections::{
    create_collection, delete_collection_by_id, get_collection_by_id, get_collections,
    get_collections_with_indexes, update_collection_name, CreateCollectionData,
};
use docstore::store::collections_on_documents::{
    add_documents_to_collection, delete_collection_on_documents, delete_documents_in_collection,
};
use docstore::store::documents::{
    get_documents, get_documents_by_collection_id, get_or_create_document, CreateDocumentData,
    NewDocument,
};
use docstore::store::embeddings_clients::{create_embeddings_client, CreateEmbeddingsClientData};
use docstore::store::embeddings_configs::{create_embeddings_config, CreateEmbeddingsConfigData};
use docstore::store::index_profiles::{
    create_index_profile, create_index_profile_with_all, get_index_profile_by_id,
    get_index_profile_with_all_by_id, get_index_profiles, get_index_profiles_with_all,
    CreateIndexProfileData,
};
use docstore::store::sessions::{
    create_session, delete_session_by_id, delete_sessions_by_index_id,
    delete_sessions_by_index_ids, get_sessions, get_sessions_by_index_id, update_session,
    CreateSessionData, UpdateSessionData,
};
use docstore::store::splittings::{get_or_create_splitting, CreateGetOrCreateSplittingData};
use docstore::store::vector_db_clients::{create_vector_db_client, CreateVectorDbClientData};
use docstore::store::vector_db_configs::{create_vector_db_config, CreateVectorDbData};
use docstore::store::Store;

fn new_document(filename: &str, content: &[u8]) -> NewDocument {
    NewDocument::of_content(filename.to_string(), "/uploaded", content)
}

fn failure(kind: FailureKind, entity: Entity) -> Failure {
    Failure { kind, entity }
}

fn settings() -> serde_json::Value {
    serde_json::from_str("{}").unwrap()
}

/// One row in each registry and one splitting, all with the number 1.
fn with_registries() -> Store {
    let mut db = Store::new();
    get_or_create_splitting(&mut db, CreateGetOrCreateSplittingData { chunk_size: 100, chunk_overlap: 10 })
        .unwrap();
    create_embeddings_client(
        &mut db,
        CreateEmbeddingsClientData { name: "ec".to_string(), kind: "openai".to_string(), meta: settings() },
    )
    .unwrap();
    create_embeddings_config(
        &mut db,
        CreateEmbeddingsConfigData { name: "eg".to_string(), kind: "openai".to_string(), meta: settings() },
    )
    .unwrap();
    create_vector_db_client(
        &mut db,
        CreateVectorDbClientData { name: "vc".to_string(), kind: "qdrant".to_string(), meta: settings() },
    )
    .unwrap();
    create_vector_db_config(
        &mut db,
        CreateVectorDbData { name: "vg".to_string(), kind: "qdrant".to_string(), meta: settings() },
    )
    .unwrap();
    db
}

fn profile(name: &str) -> CreateIndexProfileData {
    CreateIndexProfileData {
        name: name.to_string(),
        splitting_id: 1,
        embeddings_client_id: 1,
        embeddings_config_id: 1,
        vector_db_client_id: 1,
        vector_db_config_id: 1,
    }
}

fn binding(name: &str, collection_id: i32, index_id: i32) -> CreateCollectionIndexData {
    CreateCollectionIndexData { name: name.to_string(), collection_id, index_id }
}

fn session(name: &str, index_id: &str) -> CreateSessionData {
    CreateSessionData { name: name.to_string(), index_id: index_id.to_string(), history: "[]".to_string() }
}

#[test]
fn a_collection_is_created_with_its_documents() {
    let mut db = Store::new();
    let c = create_collection(
        &mut db,
        "papers".to_string(),
        vec![new_document("a", b"a"), new_document("b", b"b"), new_document("a2", b"a")],
        3,
    )
    .unwrap();
    assert_eq!(c.id, 1);
    assert_eq!(c.name, "papers");
    let docs = get_documents_by_collection_id(&db, c.id);
    assert_eq!(docs.len(), 2);
    assert_eq!(docs[0].filename, "a");
    assert_eq!(docs[1].filename, "b");
    assert_eq!(get_documents(&db).len(), 2);
    let empty = create_collection(&mut db, "empty".to_string(), vec![], 4).unwrap();
    assert_eq!(empty.id, 2);
    assert!(get_documents_by_collection_id(&db, empty.id).is_empty());
    assert_eq!(get_collections(&db).len(), 2);
    assert_eq!(get_collection_by_id(&db, 2).unwrap().name, "empty");
    assert_eq!(get_collection_by_id(&db, 3), None);
}

#[test]
fn a_collection_request_gives_the_hashes_of_content_in_memory() {
    let data = CreateCollectionData {
        name: "c".to_string(),
        documents: vec![
            CreateDocumentData::File { filename: "a".to_string(), content: b"hello".to_vec() },
            CreateDocumentData::Path { filename: "b".to_string(), filepath: "/tmp/b".to_string() },
        ],
    };
    assert_eq!(
        data.content_hashes(),
        vec![Some("5d41402abc4b2a76b9719d911017c592".to_string()), None]
    );
}

#[test]
fn a_collection_is_renamed() {
    let mut db = Store::new();
    create_collection(&mut db, "old".to_string(), vec![], 1).unwrap();
    let renamed = update_collection_name(&mut db, 1, "new".to_string()).unwrap();
    assert_eq!(renamed.id, 1);
    assert_eq!(renamed.name, "new");
    assert_eq!(get_collection_by_id(&db, 1).unwrap().name, "new");
    assert_eq!(
        update_collection_name(&mut db, 2, "x".to_string()),
        Err(failure(FailureKind::NotFound, Entity::Collection))
    );
}

#[test]
fn documents_are_added_to_a_collection_once() {
    let mut db = Store::new();
    let c = create_collection(&mut db, "c".to_string(), vec![], 1).unwrap();
    let a = get_or_create_document(&mut db, new_document("a", b"a"), 1).unwrap();
    let b = get_or_create_document(&mut db, new_document("b", b"b"), 1).unwrap();
    let rows = add_documents_to_collection(&mut db, c.id, vec![a.id, b.id, a.id]).unwrap();
    assert_eq!(rows.len(), 3);
    assert_eq!((rows[0].collection_id, rows[0].document_id), (c.id, a.id));
    assert_eq!((rows[2].collection_id, rows[2].document_id), (c.id, a.id));
    assert_eq!(get_documents_by_collection_id(&db, c.id).len(), 2);
    add_documents_to_collection(&mut db, c.id, vec![b.id]).unwrap();
    assert_eq!(get_documents_by_collection_id(&db, c.id).len(), 2);
    assert_eq!(add_documents_to_collection(&mut db, c.id, vec![]), Ok(vec![]));
}

#[test]
fn documents_are_added_to_a_collection_all_or_not_at_all() {
    let mut db = Store::new();
    let c = create_collection(&mut db, "c".to_string(), vec![], 1).unwrap();
    let a = get_or_create_document(&mut db, new_document("a", b"a"), 1).unwrap();
    assert_eq!(
        add_documents_to_collection(&mut db, c.id, vec![a.id, 77]),
        Err(failure(FailureKind::NotFound, Entity::Document))
    );
    assert!(get_documents_by_collection_id(&db, c.id).is_empty());
    assert_eq!(
        add_documents_to_collection(&mut db, 9, vec![a.id]),
        Err(failure(FailureKind::NotFound, Entity::Collection))
    );
}

#[test]
fn documents_are_taken_out_of_a_collection() {
    let mut db = Store::new();
    let c = create_collection(
        &mut db,
        "c".to_string(),
        vec![new_document("a", b"a"), new_document("b", b"b"), new_document("c", b"c")],
        1,
    )
    .unwrap();
    let d = create_collection(&mut db, "d".to_string(), vec![new_document("a", b"a")], 1).unwrap();
    assert_eq!(delete_documents_in_collection(&mut db, c.id, vec![1, 3, 8]), 2);
    let left = get_documents_by_collection_id(&db, c.id);
    assert_eq!(left.len(), 1);
    assert_eq!(left[0].filename, "b");
    assert_eq!(get_documents_by_collection_id(&db, d.id).len(), 1);
    assert_eq!(delete_collection_on_documents(&mut db, c.id), 1);
    assert_eq!(delete_collection_on_documents(&mut db, c.id), 0);
    assert_eq!(get_documents_by_collection_id(&db, d.id).len(), 1);
    assert_eq!(get_documents(&db).len(), 3);
}

#[test]
fn an_index_profile_names_rows_that_exist() {
    let mut db = with_registries();
    assert!(get_index_profiles(&db).is_empty());
    let p = create_index_profile(&mut db, profile("p")).unwrap();
    assert_eq!(p.id, 1);
    assert_eq!(p.name, "p");
    let cases = [
        (CreateIndexProfileData { splitting_id: 2, ..profile("x") }, Entity::Splitting),
        (CreateIndexProfileData { embeddings_client_id: 2, ..profile("x") }, Entity::EmbeddingsClient),
        (CreateIndexProfileData { embeddings_config_id: 2, ..profile("x") }, Entity::EmbeddingsConfig),
        (CreateIndexProfileData { vector_db_client_id: 2, ..profile("x") }, Entity::VectorDbClient),
        (CreateIndexProfileData { vector_db_config_id: 2, ..profile("x") }, Entity::VectorDbConfig),
    ];
    for (data, entity) in cases {
        assert_eq!(create_index_profile(&mut db, data), Err(failure(FailureKind::NotFound, entity)));
    }
    assert_eq!(get_index_profiles(&db).len(), 1);
    assert_eq!(get_index_profile_by_id(&db, 1).unwrap().name, "p");
    assert_eq!(get_index_profile_by_id(&db, 2), None);
}

#[test]
fn an_index_profile_is_read_with_the_rows_it_names() {
    let mut db = with_registries();
    let all = create_index_profile_with_all(&mut db, profile("p")).unwrap();
    assert_eq!(all.profile.id, 1);
    assert_eq!(all.splitting.chunk_size, 100);
    assert_eq!(all.embeddings_client.name, "ec");
    assert_eq!(all.embeddings_config.name, "eg");
    assert_eq!(all.vector_db_client.name, "vc");
    assert_eq!(all.vector_db_config.name, "vg");
    assert_eq!(get_index_profile_with_all_by_id(&db, 1), Some(all));
    assert_eq!(get_index_profile_with_all_by_id(&db, 5), None);
    let listed = get_index_profiles_with_all(&db);
    assert_eq!(listed.len(), 1);
    assert_eq!(listed[0].vector_db_config.kind, "qdrant");
}

#[test]
fn a_collection_index_binds_a_collection_and_a_profile_that_exist() {
    let mut db = with_registries();
    create_index_profile(&mut db, profile("p")).unwrap();
    let c = create_collection(&mut db, "c".to_string(), vec![], 1).unwrap();
    assert_eq!(
        create_collection_index(&mut db, "i1".to_string(), binding("b", 9, 1)),
        Err(failure(FailureKind::NotFound, Entity::Collection))
    );
    assert_eq!(
        create_collection_index(&mut db, "i1".to_string(), binding("b", c.id, 9)),
        Err(failure(FailureKind::NotFound, Entity::IndexProfile))
    );
    let made = create_collection_index(&mut db, "i1".to_string(), binding("b", c.id, 1)).unwrap();
    assert_eq!(made.id, "i1");
    assert_eq!(made.collection_id, c.id);
    assert_eq!(made.index_id, 1);
    assert_eq!(
        create_collection_index(&mut db, "i1".to_string(), binding("again", c.id, 1)),
        Err(failure(FailureKind::ConstraintViolation, Entity::CollectionIndex))
    );
    create_collection_index(&mut db, "i2".to_string(), binding("b2", c.id, 1)).unwrap();
    assert_eq!(get_collection_index_by_id(&db, "i2".to_string()).unwrap().name, "b2");
    assert_eq!(get_collection_index_by_id(&db, "i3".to_string()), None);
    assert_eq!(get_collection_indexes_by_collection_id(&db, c.id).len(), 2);
    assert!(get_collection_indexes_by_collection_id(&db, 7).is_empty());
    let listed = get_collections_with_indexes(&db);
    assert_eq!(listed.len(), 1);
    assert_eq!(listed[0].indexes.len(), 2);
}

#[test]
fn documents_are_put_under_a_collection_index_once() {
    let mut db = with_registries();
    create_index_profile(&mut db, profile("p")).unwrap();
    let c = create_collection(
        &mut db,
        "c".to_string(),
        vec![new_document("a", b"a"), new_document("b", b"b")],
        1,
    )
    .unwrap();
    create_collection_index(&mut db, "i1".to_string(), binding("b", c.id, 1)).unwrap();
    let rows = upsert_documents_in_collection_index(&mut db, "i1".to_string(), vec![1, 2, 1]).unwrap();
    assert_eq!(rows.len(), 3);
    assert_eq!(rows[1].index_id, "i1");
    assert_eq!(rows[1].document_id, 2);
    upsert_documents_in_collection_index(&mut db, "i1".to_string(), vec![2]).unwrap();
    let all = get_collection_indexes_by_collection_id_with_all(&db, c.id);
    assert_eq!(all.len(), 1);
    assert_eq!(all[0].index.id, "i1");
    assert_eq!(all[0].profile.splitting.chunk_overlap, 10);
    assert_eq!(all[0].indexed_documents.len(), 2);
    assert_eq!(
        upsert_documents_in_collection_index(&mut db, "i1".to_string(), vec![1, 5]),
        Err(failure(FailureKind::NotFound, Entity::Document))
    );
    assert_eq!(
        upsert_documents_in_collection_index(&mut db, "nope".to_string(), vec![1]),
        Err(failure(FailureKind::NotFound, Entity::CollectionIndex))
    );
    assert_eq!(remove_documents_from_collection_index(&mut db, "i1".to_string(), vec![2, 9]), 1);
    assert_eq!(remove_documents_from_collection_index(&mut db, "i1".to_string(), vec![2]), 0);
    assert_eq!(remove_documents_from_collection_index(&mut db, "other".to_string(), vec![1]), 0);
    let all = get_collection_indexes_by_collection_id_with_all(&db, c.id);
    assert_eq!(all[0].indexed_documents.len(), 1);
    assert_eq!(all[0].indexed_documents[0].document_id, 1);
}

#[test]
fn sessions_are_created_changed_and_deleted() {
    let mut db = with_registries();
    create_index_profile(&mut db, profile("p")).unwrap();
    let c = create_collection(&mut db, "c".to_string(), vec![], 1).unwrap();
    create_collection_index(&mut db, "i1".to_string(), binding("b", c.id, 1)).unwrap();
    create_collection_index(&mut db, "i2".to_string(), binding("b", c.id, 1)).unwrap();
    assert_eq!(
        create_session(&mut db, session("s", "nope")),
        Err(failure(FailureKind::NotFound, Entity::CollectionIndex))
    );
    let s1 = create_session(&mut db, session("s1", "i1")).unwrap();
    let s2 = create_session(&mut db, session("s2", "i2")).unwrap();
    let s3 = create_session(&mut db, session("s3", "i1")).unwrap();
    assert_eq!((s1.id, s2.id, s3.id), (1, 2, 3));
    assert_eq!(get_sessions(&db).len(), 3);
    let on_first: Vec<i32> = get_sessions_by_index_id(&db, "i1".to_string()).iter().map(|s| s.id).collect();
    assert_eq!(on_first, vec![1, 3]);
    let changed = update_session(
        &mut db,
        UpdateSessionData { id: 1, name: None, history: Some("[1]".to_string()) },
    )
    .unwrap();
    assert_eq!(changed.name, "s1");
    assert_eq!(changed.history, "[1]");
    assert_eq!(changed.index_id, "i1");
    let changed = update_session(
        &mut db,
        UpdateSessionData { id: 1, name: Some("renamed".to_string()), history: None },
    )
    .unwrap();
    assert_eq!(changed.name, "renamed");
    assert_eq!(changed.history, "[1]");
    let same = update_session(&mut db, UpdateSessionData { id: 1, name: None, history: None }).unwrap();
    assert_eq!(same, changed);
    assert_eq!(
        update_session(&mut db, UpdateSessionData { id: 9, name: None, history: None }),
        Err(failure(FailureKind::NotFound, Entity::Session))
    );
    let gone = delete_session_by_id(&mut db, 2).unwrap();
    assert_eq!(gone.name, "s2");
    assert_eq!(
        delete_session_by_id(&mut db, 2),
        Err(failure(FailureKind::NotFound, Entity::Session))
    );
    assert_eq!(delete_sessions_by_index_id(&mut db, "i2".to_string()), 0);
    assert_eq!(delete_sessions_by_index_id(&mut db, "i1".to_string()), 2);
    assert!(get_sessions(&db).is_empty());
    // A number is not given out twice.
    assert_eq!(create_session(&mut db, session("s4", "i1")).unwrap().id, 4);
    assert_eq!(delete_sessions_by_index_ids(&mut db, vec![]), 0);
    assert_eq!(delete_sessions_by_index_ids(&mut db, vec!["i2".to_string(), "i1".to_string()]), 1);
}

#[test]
fn collection_indexes_go_after_their_sessions_and_their_documents() {
    let mut db = with_registries();
    create_index_profile(&mut db, profile("p")).unwrap();
    let c = create_collection(&mut db, "c".to_string(), vec![new_document("a", b"a")], 1).unwrap();
    for id in ["i1", "i2", "i3"] {
        create_collection_index(&mut db, id.to_string(), binding("b", c.id, 1)).unwrap();
        create_session(&mut db, session("s", id)).unwrap();
        upsert_documents_in_collection_index(&mut db, id.to_string(), vec![1]).unwrap();
    }
    assert_eq!(delete_collection_indexes_by_id(&mut db, vec![]), 0);
    assert_eq!(get_sessions(&db).len(), 3);
    assert_eq!(
        delete_collection_indexes_by_id(&mut db, vec!["i1".to_string(), "i3".to_string(), "zz".to_string()]),
        2
    );
    let left = get_collection_indexes_by_collection_id_with_all(&db, c.id);
    assert_eq!(left.len(), 1);
    assert_eq!(left[0].index.id, "i2");
    assert_eq!(left[0].indexed_documents.len(), 1);
    let sessions = get_sessions(&db);
    assert_eq!(sessions.len(), 1);
    assert_eq!(sessions[0].index_id, "i2");
    assert_eq!(
        create_session(&mut db, session("late", "i1")),
        Err(failure(FailureKind::NotFound, Entity::CollectionIndex))
    );
}

#[test]
fn deleting_a_collection_leaves_nothing_of_it_behind() {
    let mut db = with_registries();
    create_index_profile(&mut db, profile("p")).unwrap();
    let c = create_collection(&mut db, "c".to_string(), vec![new_document("a", b"a")], 1).unwrap();
    let other = create_collection(&mut db, "other".to_string(), vec![new_document("a", b"a")], 1).unwrap();
    create_collection_index(&mut db, "i".to_string(), binding("b", c.id, 1)).unwrap();
    create_collection_index(&mut db, "o".to_string(), binding("b", other.id, 1)).unwrap();
    create_session(&mut db, session("s", "i")).unwrap();
    create_session(&mut db, session("t", "o")).unwrap();
    upsert_documents_in_collection_index(&mut db, "i".to_string(), vec![1]).unwrap();
    upsert_documents_in_collection_index(&mut db, "o".to_string(), vec![1]).unwrap();

    let gone = delete_collection_by_id(&mut db, c.id).unwrap();
    assert_eq!(gone.id, c.id);
    assert_eq!(gone.name, "c");
    assert_eq!(get_collection_by_id(&db, c.id), None);
    assert!(get_documents_by_collection_id(&db, c.id).is_empty());
    assert!(get_collection_indexes_by_collection_id(&db, c.id).is_empty());
    assert_eq!(get_collection_index_by_id(&db, "i".to_string()), None);
    assert!(get_sessions_by_index_id(&db, "i".to_string()).is_empty());
    assert_eq!(remove_documents_from_collection_index(&mut db, "i".to_string(), vec![1]), 0);

    // What belongs to the other collection, and the documents, stay.
    assert_eq!(get_collections(&db).len(), 1);
    assert_eq!(get_documents(&db).len(), 1);
    assert_eq!(get_documents_by_collection_id(&db, other.id).len(), 1);
    assert_eq!(get_sessions(&db).len(), 1);
    let left = get_collection_indexes_by_collection_id_with_all(&db, other.id);
    assert_eq!(left.len(), 1);
    assert_eq!(left[0].indexed_documents.len(), 1);
    assert_eq!(get_index_profiles(&db).len(), 1);

    // A second time there is nothing to delete, and nothing changes.
    assert_eq!(
        delete_collection_by_id(&mut db, c.id),
        Err(failure(FailureKind::NotFound, Entity::Collection))
    );
    assert_eq!(get_collections(&db).len(), 1);
    assert_eq!(get_sessions(&db).len(), 1);
}

#[test]
fn deleting_a_collection_that_has_nothing_deletes_just_it() {
    let mut db = Store::new();
    create_collection(&mut db, "a".to_string(), vec![], 1).unwrap();
    create_collection(&mut db, "b".to_string(), vec![], 1).unwrap();
    assert_eq!(delete_collection_by_id(&mut db, 1).unwrap().name, "a");
    let left = get_collections(&db);
    assert_eq!(left.len(), 1);
    assert_eq!(left[0].id, 2);
    assert_eq!(create_collection(&mut db, "c".to_string(), vec![], 1).unwrap().id, 3);
}
