use docstore::error::{Entity, Failure, FailureKind};
use docstore::hash::hash_in_md5;
use docstore::store::document_chunks::{
    create_chunks_by_document, get_chunk_md5hashes_by_documents_and_splitting,
    get_document_chunks, CreateChunkData, CreateChunksByDocumentData,
};
use docstore::store::documents::{
    add_documents, get_documents, get_or_create_document, CreateDocumentData, NewDocument, Staging,
};
use docstore::store::embedding_vectors::{
    get_embedding_vector_by_md5hash, upsert_embedding_vector_by_md5hash,
    upsert_embedding_vector_by_md5hash_in_batch, upsert_encoded_vectors_in_batch,
    GetEmbeddingVectorByMD5Hash, UpsertEmbeddingVectorByMD5Hash,
};
use docstore::rows::EmbeddingVectorRow;
use docstore::store::splittings::{
    get_or_create_splitting, get_or_create_splitting_id, look_up_splitting_id,
    CreateGetOrCreateSplittingData, GetOrCreateSplittingData,
};
use docstore::store::Store;

fn new_document(filename: &str, content: &[u8]) -> NewDocument {
    NewDocument::of_content(filename.to_string(), "/uploaded", content)
}

fn pair(chunk_size: i32, chunk_overlap: i32) -> CreateGetOrCreateSplittingData {
    CreateGetOrCreateSplittingData { chunk_size, chunk_overlap }
}

fn chunk(content: &str) -> CreateChunkData {
    CreateChunkData { content: content.to_string(), metadata: "{}".to_string() }
}

fn key(embeddings_config_id: i32, md5_hash: &str) -> GetEmbeddingVectorByMD5Hash {
    GetEmbeddingVectorByMD5Hash { embeddings_config_id, md5_hash: md5_hash.to_string() }
}

fn bits(values: &[f32]) -> Vec<u32> {
    values.iter().map(|v| v.to_bits()).collect()
}

fn failure(kind: FailureKind, entity: Entity) -> Failure {
    Failure { kind, entity }
}

#[test]
fn same_bytes_under_another_name_give_the_same_document() {
    let mut db = Store::new();
    let first = get_or_create_document(&mut db, new_document("a.txt", b"same bytes"), 10).unwrap();
    let second = get_or_create_document(&mut db, new_document("b.txt", b"same bytes"), 20).unwrap();
    assert_eq!(first.id, 1);
    assert_eq!(second.id, first.id);
    assert_eq!(second.filename, "a.txt");
    assert_eq!(second.update_time, 10);
    assert_eq!(second, first);
    let all = get_documents(&db);
    assert_eq!(all.len(), 1);
    assert_eq!(all[0].filename, "a.txt");
}

#[test]
fn other_bytes_give_another_document() {
    let mut db = Store::new();
    let first = get_or_create_document(&mut db, new_document("a.txt", b"one"), 1).unwrap();
    let second = get_or_create_document(&mut db, new_document("a.txt", b"two"), 2).unwrap();
    assert_eq!(first.id, 1);
    assert_eq!(second.id, 2);
    assert_eq!(second.md5_hash, hash_in_md5(b"two"));
    assert_eq!(second.path, format!("/uploaded/{}", hash_in_md5(b"two")));
    assert_eq!(get_documents(&db).len(), 2);
}

#[test]
fn add_documents_resolves_each_in_turn() {
    let mut db = Store::new();
    let docs = add_documents(
        &mut db,
        vec![
            new_document("a.txt", b"one"),
            new_document("b.txt", b"two"),
            new_document("c.txt", b"one"),
        ],
        5,
    )
    .unwrap();
    assert_eq!(docs.len(), 3);
    assert_eq!(docs[0].id, 1);
    assert_eq!(docs[1].id, 2);
    assert_eq!(docs[2].id, 1);
    assert_eq!(docs[2].filename, "a.txt");
    assert_eq!(get_documents(&db).len(), 2);
    assert_eq!(add_documents(&mut db, vec![], 6), Ok(vec![]));
}

#[test]
fn content_is_staged_under_the_name_of_its_hash() {
    let new = NewDocument::of_content("a.txt".to_string(), "/data/uploaded", b"hello");
    assert_eq!(new.filename, "a.txt");
    assert_eq!(new.md5_hash, "5d41402abc4b2a76b9719d911017c592");
    assert_eq!(new.path, "/data/uploaded/5d41402abc4b2a76b9719d911017c592");
    let streamed = NewDocument::staged("b.txt".to_string(), "up", "abc".to_string());
    assert_eq!(streamed.filename, "b.txt");
    assert_eq!(streamed.md5_hash, "abc");
    assert_eq!(streamed.path, "up/abc");
}

#[test]
fn content_in_memory_is_hashed_and_a_file_is_not() {
    let file = CreateDocumentData::File { filename: "a.txt".to_string(), content: b"hello".to_vec() };
    let path = CreateDocumentData::Path {
        filename: "b.txt".to_string(),
        filepath: "/tmp/b.txt".to_string(),
    };
    assert_eq!(file.content_hash(), Some("5d41402abc4b2a76b9719d911017c592".to_string()));
    assert_eq!(path.content_hash(), None);
    assert_eq!(file.filename(), "a.txt");
    assert_eq!(path.filename(), "b.txt");
}

#[test]
fn content_is_staged_only_where_nothing_is_there() {
    let file = CreateDocumentData::File { filename: "a.txt".to_string(), content: b"hello".to_vec() };
    let path = CreateDocumentData::Path {
        filename: "b.txt".to_string(),
        filepath: "/tmp/b.txt".to_string(),
    };
    let target = "/uploaded/5d41402abc4b2a76b9719d911017c592".to_string();
    assert_eq!(file.staging(&target, true), Staging::Keep);
    assert_eq!(path.staging(&target, true), Staging::Keep);
    assert_eq!(
        file.staging(&target, false),
        Staging::Write { to: target.clone(), content: b"hello".to_vec() }
    );
    assert_eq!(
        path.staging(&target, false),
        Staging::Copy { from: "/tmp/b.txt".to_string(), to: target.clone() }
    );
}

#[test]
fn a_splitting_is_stored_once() {
    let mut db = Store::new();
    let first = get_or_create_splitting(&mut db, pair(500, 50)).unwrap();
    assert_eq!(first.id, 1);
    assert_eq!(first.chunk_size, 500);
    assert_eq!(first.chunk_overlap, 50);
    for _ in 0..20 {
        assert_eq!(get_or_create_splitting(&mut db, pair(500, 50)).unwrap().id, 1);
    }
    let other = get_or_create_splitting(&mut db, pair(500, 49)).unwrap();
    assert_eq!(other.id, 2);
    assert_eq!(get_or_create_splitting(&mut db, pair(50, 5)).unwrap().id, 3);
    assert_eq!(get_or_create_splitting(&mut db, pair(500, 50)).unwrap().id, 1);
}

#[test]
fn a_splitting_pair_has_to_be_valid() {
    let mut db = Store::new();
    let invalid = failure(FailureKind::ValidationError, Entity::Splitting);
    assert_eq!(get_or_create_splitting(&mut db, pair(0, 0)), Err(invalid));
    assert_eq!(get_or_create_splitting(&mut db, pair(-5, 0)), Err(invalid));
    assert_eq!(get_or_create_splitting(&mut db, pair(10, -1)), Err(invalid));
    assert_eq!(get_or_create_splitting(&mut db, pair(10, 10)), Err(invalid));
    assert_eq!(get_or_create_splitting(&mut db, pair(10, 11)), Err(invalid));
    assert_eq!(get_or_create_splitting(&mut db, pair(1, 0)).unwrap().id, 1);
    assert_eq!(get_or_create_splitting(&mut db, pair(10, 9)).unwrap().id, 2);
}

#[test]
fn a_splitting_is_resolved_from_a_number_or_a_pair() {
    let mut db = Store::new();
    assert_eq!(get_or_create_splitting_id(&mut db, GetOrCreateSplittingData::Id(42)), Ok(42));
    assert_eq!(
        get_or_create_splitting_id(&mut db, GetOrCreateSplittingData::Config(pair(100, 10))),
        Ok(1)
    );
    assert_eq!(
        get_or_create_splitting_id(&mut db, GetOrCreateSplittingData::Config(pair(100, 10))),
        Ok(1)
    );
    assert_eq!(
        get_or_create_splitting_id(&mut db, GetOrCreateSplittingData::Config(pair(10, 100))),
        Err(failure(FailureKind::ValidationError, Entity::Splitting))
    );
}

#[test]
fn chunks_are_numbered_in_input_order_and_hashed() {
    let mut db = Store::new();
    let doc = get_or_create_document(&mut db, new_document("a.txt", b"c0c1c2"), 1).unwrap();
    let rows = create_chunks_by_document(
        &mut db,
        CreateChunksByDocumentData {
            document_id: doc.id,
            splitting: GetOrCreateSplittingData::Config(pair(2, 0)),
            chunks: vec![chunk("c0"), chunk("c1"), chunk("c2")],
        },
    )
    .unwrap();
    assert_eq!(rows.len(), 3);
    for (i, row) in rows.iter().enumerate() {
        assert_eq!(row.no, i as i32);
        assert_eq!(row.document_id, doc.id);
        assert_eq!(row.splitting_id, 1);
        assert_eq!(row.content, format!("c{}", i));
        assert_eq!(row.metadata, "{}");
        assert_eq!(row.md5_hash, hash_in_md5(row.content.as_bytes()));
    }
    let stored = get_document_chunks(&db, doc.id, GetOrCreateSplittingData::Id(1));
    assert_eq!(stored, rows);
}

#[test]
fn chunks_of_a_text_that_is_not_ascii_are_hashed_by_its_bytes() {
    let mut db = Store::new();
    let doc = get_or_create_document(&mut db, new_document("a.txt", b"x"), 1).unwrap();
    let text = "gr\u{fc}\u{df}e \u{4f60}\u{597d}";
    let rows = create_chunks_by_document(
        &mut db,
        CreateChunksByDocumentData {
            document_id: doc.id,
            splitting: GetOrCreateSplittingData::Config(pair(20, 0)),
            chunks: vec![chunk(text)],
        },
    )
    .unwrap();
    assert_eq!(rows[0].md5_hash, format!("{:x}", md5::compute(text)));
}

#[test]
fn chunks_are_created_all_or_not_at_all() {
    let mut db = Store::new();
    let doc = get_or_create_document(&mut db, new_document("a.txt", b"x"), 1).unwrap();
    let request = |document_id: i32, splitting: GetOrCreateSplittingData, chunks: Vec<CreateChunkData>| {
        CreateChunksByDocumentData { document_id, splitting, chunks }
    };
    assert_eq!(
        create_chunks_by_document(
            &mut db,
            request(doc.id, GetOrCreateSplittingData::Config(pair(10, 1)), vec![])
        ),
        Err(failure(FailureKind::ValidationError, Entity::DocumentChunk))
    );
    assert_eq!(
        create_chunks_by_document(
            &mut db,
            request(99, GetOrCreateSplittingData::Config(pair(10, 1)), vec![chunk("a")])
        ),
        Err(failure(FailureKind::NotFound, Entity::Document))
    );
    assert_eq!(
        create_chunks_by_document(
            &mut db,
            request(doc.id, GetOrCreateSplittingData::Id(7), vec![chunk("a")])
        ),
        Err(failure(FailureKind::NotFound, Entity::Splitting))
    );
    assert_eq!(
        create_chunks_by_document(
            &mut db,
            request(doc.id, GetOrCreateSplittingData::Config(pair(1, 1)), vec![chunk("a")])
        ),
        Err(failure(FailureKind::ValidationError, Entity::Splitting))
    );
    // Nothing was written by any of the requests that failed: the first
    // strategy that is created gets the number 1.
    assert_eq!(get_or_create_splitting(&mut db, pair(10, 1)).unwrap().id, 1);
    assert_eq!(get_document_chunks(&db, doc.id, GetOrCreateSplittingData::Id(1)), vec![]);
}

#[test]
fn chunks_of_a_document_under_a_strategy_are_written_once() {
    let mut db = Store::new();
    let doc = get_or_create_document(&mut db, new_document("a.txt", b"x"), 1).unwrap();
    let request = |chunks: Vec<CreateChunkData>| CreateChunksByDocumentData {
        document_id: doc.id,
        splitting: GetOrCreateSplittingData::Config(pair(10, 1)),
        chunks,
    };
    assert_eq!(create_chunks_by_document(&mut db, request(vec![chunk("a"), chunk("b")])).unwrap().len(), 2);
    assert_eq!(
        create_chunks_by_document(&mut db, request(vec![chunk("c")])),
        Err(failure(FailureKind::ConstraintViolation, Entity::DocumentChunk))
    );
    let stored = get_document_chunks(&db, doc.id, GetOrCreateSplittingData::Id(1));
    assert_eq!(stored.len(), 2);
    // Under another strategy the same document is chunked anew, from 0.
    let again = create_chunks_by_document(
        &mut db,
        CreateChunksByDocumentData {
            document_id: doc.id,
            splitting: GetOrCreateSplittingData::Config(pair(20, 2)),
            chunks: vec![chunk("ab")],
        },
    )
    .unwrap();
    assert_eq!(again[0].no, 0);
    assert_eq!(again[0].splitting_id, 2);
}

#[test]
fn listing_chunks_writes_nothing() {
    let mut db = Store::new();
    let doc = get_or_create_document(&mut db, new_document("a.txt", b"x"), 1).unwrap();
    // A pair that is not stored gives nothing, and is not stored by asking.
    assert_eq!(
        get_document_chunks(&db, doc.id, GetOrCreateSplittingData::Config(pair(10, 1))),
        vec![]
    );
    assert!(get_chunk_md5hashes_by_documents_and_splitting(
        &db,
        vec![doc.id],
        GetOrCreateSplittingData::Config(pair(10, 1))
    )
    .is_empty());
    // A pair that makes no strategy gives nothing too, and no failure.
    assert_eq!(
        get_document_chunks(&db, doc.id, GetOrCreateSplittingData::Config(pair(0, 5))),
        vec![]
    );
    assert_eq!(look_up_splitting_id(&db, GetOrCreateSplittingData::Config(pair(10, 1))), None);
    assert_eq!(look_up_splitting_id(&db, GetOrCreateSplittingData::Id(5)), Some(5));
    // The first strategy that is created still gets the number 1.
    assert_eq!(get_or_create_splitting(&mut db, pair(20, 2)).unwrap().id, 1);
    assert_eq!(look_up_splitting_id(&db, GetOrCreateSplittingData::Config(pair(20, 2))), Some(1));
    create_chunks_by_document(
        &mut db,
        CreateChunksByDocumentData {
            document_id: doc.id,
            splitting: GetOrCreateSplittingData::Config(pair(20, 2)),
            chunks: vec![chunk("a"), chunk("b")],
        },
    )
    .unwrap();
    let by_pair = get_document_chunks(&db, doc.id, GetOrCreateSplittingData::Config(pair(20, 2)));
    let by_id = get_document_chunks(&db, doc.id, GetOrCreateSplittingData::Id(1));
    assert_eq!(by_pair.len(), 2);
    assert_eq!(by_pair, by_id);
    assert!(get_document_chunks(&db, doc.id + 1, GetOrCreateSplittingData::Id(1)).is_empty());
}

#[test]
fn chunk_hashes_are_listed_for_the_given_documents_only() {
    let mut db = Store::new();
    let a = get_or_create_document(&mut db, new_document("a.txt", b"a"), 1).unwrap();
    let b = get_or_create_document(&mut db, new_document("b.txt", b"b"), 1).unwrap();
    let c = get_or_create_document(&mut db, new_document("c.txt", b"c"), 1).unwrap();
    for (doc, texts) in [(&a, vec!["a0", "a1"]), (&b, vec!["b0"]), (&c, vec!["c0"])] {
        create_chunks_by_document(
            &mut db,
            CreateChunksByDocumentData {
                document_id: doc.id,
                splitting: GetOrCreateSplittingData::Config(pair(10, 1)),
                chunks: texts.into_iter().map(chunk).collect(),
            },
        )
        .unwrap();
    }
    let hashes = get_chunk_md5hashes_by_documents_and_splitting(
        &db,
        vec![c.id, a.id],
        GetOrCreateSplittingData::Id(1),
    );
    let listed: Vec<String> = hashes.into_iter().map(|h| h.md5_hash).collect();
    assert_eq!(listed, vec![hash_in_md5(b"a0"), hash_in_md5(b"a1"), hash_in_md5(b"c0")]);
    let none = get_chunk_md5hashes_by_documents_and_splitting(
        &db,
        vec![a.id],
        GetOrCreateSplittingData::Id(2),
    );
    assert!(none.is_empty());
    let by_pair = get_chunk_md5hashes_by_documents_and_splitting(
        &db,
        vec![b.id],
        GetOrCreateSplittingData::Config(pair(10, 1)),
    );
    assert_eq!(by_pair.len(), 1);
    assert_eq!(by_pair[0].md5_hash, hash_in_md5(b"b0"));
}

#[test]
fn a_vector_is_read_back_as_it_was_written() {
    let mut db = Store::new();
    assert_eq!(get_embedding_vector_by_md5hash(&db, key(7, "h1")), Ok(None));
    let row = upsert_embedding_vector_by_md5hash(
        &mut db,
        UpsertEmbeddingVectorByMD5Hash { identity: key(7, "h1"), vector: bits(&[0.1, 0.2, 0.3]) },
    );
    assert_eq!(row.embeddings_config_id, 7);
    assert_eq!(row.md5_hash, "h1");
    assert_eq!(row.vector.len(), 12);
    assert_eq!(&row.vector[0..4], &0.1f32.to_be_bytes());
    let read = get_embedding_vector_by_md5hash(&db, key(7, "h1")).unwrap().unwrap();
    assert_eq!(read.embeddings_config_id, 7);
    assert_eq!(read.md5_hash, "h1");
    assert_eq!(read.vector, bits(&[0.1, 0.2, 0.3]));
    assert_eq!(get_embedding_vector_by_md5hash(&db, key(8, "h1")), Ok(None));
    assert_eq!(get_embedding_vector_by_md5hash(&db, key(7, "h2")), Ok(None));
}

#[test]
fn a_vector_written_again_replaces_the_one_that_was_there() {
    let mut db = Store::new();
    upsert_embedding_vector_by_md5hash(
        &mut db,
        UpsertEmbeddingVectorByMD5Hash { identity: key(1, "h"), vector: bits(&[1.0, 2.0, 3.0]) },
    );
    upsert_embedding_vector_by_md5hash(
        &mut db,
        UpsertEmbeddingVectorByMD5Hash { identity: key(2, "h"), vector: bits(&[9.0]) },
    );
    upsert_embedding_vector_by_md5hash(
        &mut db,
        UpsertEmbeddingVectorByMD5Hash { identity: key(1, "h"), vector: bits(&[4.0]) },
    );
    assert_eq!(get_embedding_vector_by_md5hash(&db, key(1, "h")).unwrap().unwrap().vector, bits(&[4.0]));
    assert_eq!(get_embedding_vector_by_md5hash(&db, key(2, "h")).unwrap().unwrap().vector, bits(&[9.0]));
}

#[test]
fn a_batch_of_vectors_is_written_in_order() {
    let mut db = Store::new();
    let n = upsert_embedding_vector_by_md5hash_in_batch(
        &mut db,
        vec![
            UpsertEmbeddingVectorByMD5Hash { identity: key(1, "a"), vector: bits(&[1.0]) },
            UpsertEmbeddingVectorByMD5Hash { identity: key(1, "b"), vector: bits(&[2.0]) },
            UpsertEmbeddingVectorByMD5Hash { identity: key(1, "a"), vector: bits(&[3.0]) },
        ],
    );
    assert_eq!(n, Ok(3));
    assert_eq!(get_embedding_vector_by_md5hash(&db, key(1, "a")).unwrap().unwrap().vector, bits(&[3.0]));
    assert_eq!(get_embedding_vector_by_md5hash(&db, key(1, "b")).unwrap().unwrap().vector, bits(&[2.0]));
    assert_eq!(upsert_embedding_vector_by_md5hash_in_batch(&mut db, vec![]), Ok(0));
}

#[test]
fn a_batch_with_a_malformed_vector_writes_nothing() {
    let mut db = Store::new();
    upsert_embedding_vector_by_md5hash(
        &mut db,
        UpsertEmbeddingVectorByMD5Hash { identity: key(1, "kept"), vector: bits(&[5.0]) },
    );
    let r = upsert_encoded_vectors_in_batch(
        &mut db,
        vec![
            EmbeddingVectorRow {
                embeddings_config_id: 1,
                md5_hash: "h1".to_string(),
                vector: 1.5f32.to_be_bytes().to_vec(),
            },
            EmbeddingVectorRow {
                embeddings_config_id: 1,
                md5_hash: "kept".to_string(),
                vector: 2.5f32.to_be_bytes().to_vec(),
            },
            EmbeddingVectorRow {
                embeddings_config_id: 1,
                md5_hash: "h1_bad_len_bytes".to_string(),
                vector: vec![1, 2, 3, 4, 5],
            },
        ],
    );
    assert_eq!(r, Err(failure(FailureKind::FormatError, Entity::EmbeddingVector)));
    assert_eq!(get_embedding_vector_by_md5hash(&db, key(1, "h1")), Ok(None));
    assert_eq!(get_embedding_vector_by_md5hash(&db, key(1, "h1_bad_len_bytes")), Ok(None));
    assert_eq!(get_embedding_vector_by_md5hash(&db, key(1, "kept")).unwrap().unwrap().vector, bits(&[5.0]));
}

#[test]
fn a_batch_of_encoded_vectors_is_written_whole() {
    let mut db = Store::new();
    let r = upsert_encoded_vectors_in_batch(
        &mut db,
        vec![
            EmbeddingVectorRow {
                embeddings_config_id: 1,
                md5_hash: "h1".to_string(),
                vector: 1.5f32.to_be_bytes().to_vec(),
            },
            EmbeddingVectorRow { embeddings_config_id: 1, md5_hash: "h2".to_string(), vector: vec![] },
        ],
    );
    assert_eq!(r, Ok(2));
    assert_eq!(get_embedding_vector_by_md5hash(&db, key(1, "h1")).unwrap().unwrap().vector, bits(&[1.5]));
    assert_eq!(get_embedding_vector_by_md5hash(&db, key(1, "h2")).unwrap().unwrap().vector, Vec::<u32>::new());
}

#[test]
fn end_to_end_hello() {
    let mut db = Store::new();
    let doc = get_or_create_document(&mut db, new_document("hello.txt", b"hello"), 1).unwrap();
    let splitting_id =
        get_or_create_splitting_id(&mut db, GetOrCreateSplittingData::Config(pair(100, 10)))
            .unwrap();
    assert_eq!(splitting_id, 1);
    let rows = create_chunks_by_document(
        &mut db,
        CreateChunksByDocumentData {
            document_id: doc.id,
            splitting: GetOrCreateSplittingData::Id(splitting_id),
            chunks: vec![chunk("hello")],
        },
    )
    .unwrap();
    assert_eq!(rows.len(), 1);
    assert_eq!(rows[0].no, 0);
    assert_eq!(rows[0].md5_hash, "5d41402abc4b2a76b9719d911017c592");
    assert_eq!(rows[0].md5_hash, doc.md5_hash);
    upsert_embedding_vector_by_md5hash(
        &mut db,
        UpsertEmbeddingVectorByMD5Hash {
            identity: key(7, &rows[0].md5_hash),
            vector: bits(&[0.1, 0.2, 0.3]),
        },
    );
    let read = get_embedding_vector_by_md5hash(&db, key(7, &rows[0].md5_hash)).unwrap().unwrap();
    let values: Vec<f32> = read.vector.iter().map(|b| f32::from_bits(*b)).collect();
    assert_eq!(values.len(), 3);
    assert_eq!(values[0].to_bits(), 0.1f32.to_bits());
    assert_eq!(values[1].to_bits(), 0.2f32.to_bits());
    assert_eq!(values[2].to_bits(), 0.3f32.to_bits());
}
