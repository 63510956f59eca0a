//! What holds across operations: laws that relate two calls, or a call
//! and the state it leaves, each proved from the meaning of the
//! operations on the model.

use vstd::prelude::*;
use crate::error::{Entity, Failure};
use crate::hash::{content_hash, text_hash};
use crate::model::{
    chunk_key, chunk_pair, chunk_splitting, collection_id, config_id, document_hash,
    membership_key, numbered, splitting_id, splitting_pair, valid_splitting, vector_key,
    vector_sound, State,
};
use crate::relations::{
    all, find_by, has_key, index_by, keyed, lemma_filter_all, lemma_filter_source,
    lemma_has_key_filter, lemma_has_key_push, lemma_index_by, lemma_one_keyed,
    lemma_remove_is_filter, lemma_within_fresh, not_keyed,
};
use crate::rows::{
    CollectionDocumentModel, DocumentModel, EmbeddingVectorModel, SplittingModel,
};
use crate::store::collection_indexes::{index_off, indexed_off, without_indexes};
use crate::store::collections::{
    deleted_collection, index_ids_of, lemma_unbound, no_collection,
};
use crate::store::collections_on_documents::{
    added_to_collection, is_document, joined, member_elsewhere,
};
use crate::store::registry::{
    created_config, lemma_created_config, read_config_by_id, ConfigData, NewConfig, Registry,
};
use crate::store::document_chunks::{chunk_rows, created_chunks, CreateChunkModel};
use crate::store::documents::{got_or_created_document, staged, NewDocumentModel};
use crate::store::embedding_vectors::{
    got_vector, lemma_stored_rows_sound, lemma_upserted_vector, malformed_vector, read_row,
    stored_batch, stored_row, stored_rows, upserted_vector, upserted_vectors,
    EmbeddingVectorDataModel,
};
use crate::store::sessions::{session_off, without_sessions};
use crate::store::splittings::{
    got_or_created_splitting, resolved_splitting, GetOrCreateSplittingData,
};
use crate::vector_codec::{decodable, lemma_decode_encode};

verus! {

/// Content is identity. Ingesting two documents with the same content
/// hash, one after the other and under whatever names, gives the same
/// document both times, and the second ingestion changes nothing: the
/// name that is recorded is the one the content first came under.
pub proof fn law_same_content_same_document(
    s: State,
    first: NewDocumentModel,
    second: NewDocumentModel,
    first_time: int,
    second_time: int,
)
    requires
        s.wf(),
        first.md5_hash == second.md5_hash,
    ensures
        ({
            let (once, found) = got_or_created_document(s, first, first_time);
            let (twice, again) = got_or_created_document(once, second, second_time);
            &&& twice == once
            &&& again == found
            &&& found is Ok && !has_key(s.documents, document_hash(), first.md5_hash)
                ==> found->Ok_0.filename == first.filename
            &&& found is Ok ==> find_by(twice.documents, document_hash(), first.md5_hash) == Some(
                found->Ok_0,
            )
        }),
{
    let (once, found) = got_or_created_document(s, first, first_time);
    crate::store::documents::lemma_got_or_created_document_wf(s, first, first_time);
    if has_key(s.documents, document_hash(), first.md5_hash) {
    } else if found is Ok {
        let row = found->Ok_0;
        lemma_has_key_push(s.documents, document_hash(), row, first.md5_hash);
        assert(once.documents[s.documents.len() as int] == row);
        lemma_index_by(once.documents, document_hash(), s.documents.len() as int);
    }
}

/// The same bytes are the same document. Ingesting the same bytes twice,
/// under whatever names and at whatever times, gives the same document
/// both times, under the name the bytes first came under.
pub proof fn law_same_bytes_same_document(
    s: State,
    uploaded_dir: Seq<char>,
    bytes: Seq<u8>,
    first_name: Seq<char>,
    second_name: Seq<char>,
    first_time: int,
    second_time: int,
)
    requires
        s.wf(),
    ensures
        ({
            let first = staged(first_name, uploaded_dir, content_hash(bytes));
            let second = staged(second_name, uploaded_dir, content_hash(bytes));
            let (once, found) = got_or_created_document(s, first, first_time);
            let (twice, again) = got_or_created_document(once, second, second_time);
            &&& again == found
            &&& twice == once
            &&& found is Ok && !has_key(s.documents, document_hash(), content_hash(bytes))
                ==> found->Ok_0.filename == first_name
        }),
{
    law_same_content_same_document(
        s,
        staged(first_name, uploaded_dir, content_hash(bytes)),
        staged(second_name, uploaded_dir, content_hash(bytes)),
        first_time,
        second_time,
    );
}

/// A document that is found is returned as it is stored: what the caller
/// says of its name and its path is not applied to it.
pub proof fn law_found_document_unchanged(s: State, new: NewDocumentModel, update_time: int)
    requires
        s.wf(),
        has_key(s.documents, document_hash(), new.md5_hash),
    ensures
        got_or_created_document(s, new, update_time) == (
            s,
            Ok::<DocumentModel, Failure>(
                s.documents[index_by(s.documents, document_hash(), new.md5_hash)],
            ),
        ),
{
}

/// A splitting strategy is stored once. Asking for the same chunk size
/// and overlap again gives the same strategy and changes nothing, however
/// often it is asked; and after the first time exactly one strategy has
/// that chunk size and overlap.
pub proof fn law_splitting_stored_once(s: State, chunk_size: int, chunk_overlap: int)
    requires
        s.wf(),
    ensures
        ({
            let (once, found) = got_or_created_splitting(s, chunk_size, chunk_overlap);
            &&& got_or_created_splitting(once, chunk_size, chunk_overlap) == (once, found)
            &&& found is Ok ==> once.splittings.filter(
                keyed(splitting_pair(), (chunk_size, chunk_overlap)),
            ) == seq![found->Ok_0]
        }),
{
    let (once, found) = got_or_created_splitting(s, chunk_size, chunk_overlap);
    crate::store::splittings::lemma_got_or_created_splitting_wf(s, chunk_size, chunk_overlap);
    let pair = (chunk_size, chunk_overlap);
    if found is Ok {
        if has_key(s.splittings, splitting_pair(), pair) {
        } else {
            let row = found->Ok_0;
            lemma_has_key_push(s.splittings, splitting_pair(), row, pair);
            assert(once.splittings[s.splittings.len() as int] == row);
            lemma_index_by(once.splittings, splitting_pair(), s.splittings.len() as int);
        }
        lemma_one_keyed(once.splittings, splitting_pair(), pair);
    }
}

/// The state after the same chunk size and overlap were asked for `n`
/// times, one call after the other.
pub open spec fn asked(s: State, chunk_size: int, chunk_overlap: int, n: nat) -> State
    decreases n,
{
    if n == 0 {
        s
    } else {
        got_or_created_splitting(
            asked(s, chunk_size, chunk_overlap, (n - 1) as nat),
            chunk_size,
            chunk_overlap,
        ).0
    }
}

/// However often a chunk size and overlap are asked for, every call gives
/// what the first gave, and the store is as the first call left it: the
/// table has grown by one row where the pair was new, and not at all where
/// it was stored. Each call has the store to itself, so calls that race
/// are calls in some order, and every order of equal calls is this one.
pub proof fn law_splitting_asked_often(s: State, chunk_size: int, chunk_overlap: int, n: nat)
    requires
        s.wf(),
        n >= 1,
    ensures
        ({
            let (once, found) = got_or_created_splitting(s, chunk_size, chunk_overlap);
            let before = asked(s, chunk_size, chunk_overlap, (n - 1) as nat);
            &&& got_or_created_splitting(before, chunk_size, chunk_overlap) == (once, found)
            &&& asked(s, chunk_size, chunk_overlap, n) == once
            &&& found is Ok ==> once.splittings.filter(
                keyed(splitting_pair(), (chunk_size, chunk_overlap)),
            ) == seq![found->Ok_0]
            &&& once.splittings.len() == if found is Ok && !has_key(
                s.splittings,
                splitting_pair(),
                (chunk_size, chunk_overlap),
            ) {
                s.splittings.len() + 1
            } else {
                s.splittings.len()
            }
            &&& valid_splitting(chunk_size, chunk_overlap) && s.last_splitting_id < i32::MAX
                ==> found is Ok
        }),
    decreases n,
{
    law_splitting_stored_once(s, chunk_size, chunk_overlap);
    let (once, found) = got_or_created_splitting(s, chunk_size, chunk_overlap);
    let before = asked(s, chunk_size, chunk_overlap, (n - 1) as nat);
    if n > 1 {
        law_splitting_asked_often(s, chunk_size, chunk_overlap, (n - 1) as nat);
        assert(before == once);
    } else {
        assert(before == s);
    }
    assert(asked(s, chunk_size, chunk_overlap, n) == got_or_created_splitting(
        before,
        chunk_size,
        chunk_overlap,
    ).0);
}

/// A splitting strategy is created only from a valid pair: a positive
/// chunk size, and an overlap that is not negative and less than it.
pub proof fn law_splitting_validated(s: State, chunk_size: int, chunk_overlap: int)
    ensures
        got_or_created_splitting(s, chunk_size, chunk_overlap).1 is Ok ==> valid_splitting(
            chunk_size,
            chunk_overlap,
        ),
        !valid_splitting(chunk_size, chunk_overlap) ==> got_or_created_splitting(
            s,
            chunk_size,
            chunk_overlap,
        ).0 == s,
{
}

/// Chunks are numbered as they were given. Where creating the chunks of a
/// document succeeds there is one chunk for each item of the list, the
/// chunk for the item at place `i` has the number `i` and the content
/// hash of its own text, and every one of them is in the store.
pub proof fn law_chunks_in_sequence(
    s: State,
    document_id: int,
    splitting: GetOrCreateSplittingData,
    chunks: Seq<CreateChunkModel>,
)
    requires
        s.wf(),
        created_chunks(s, document_id, splitting, chunks).1 is Ok,
    ensures
        ({
            let (after, r) = created_chunks(s, document_id, splitting, chunks);
            let rows = r->Ok_0;
            &&& rows.len() == chunks.len()
            &&& forall|i: int|
                0 <= i < rows.len() ==> {
                    &&& (#[trigger] rows[i]).no == i
                    &&& rows[i].document_id == document_id
                    &&& rows[i].content == chunks[i].content
                    &&& rows[i].metadata == chunks[i].metadata
                    &&& rows[i].md5_hash == text_hash(chunks[i].content)
                    &&& has_key(after.chunks, chunk_key(), chunk_key()(rows[i]))
                }
        }),
{
    let (after, r) = created_chunks(s, document_id, splitting, chunks);
    let rows = r->Ok_0;
    let before = after.chunks.len() - rows.len();
    assert forall|i: int| 0 <= i < rows.len() implies has_key(
        after.chunks,
        chunk_key(),
        chunk_key()(#[trigger] rows[i]),
    ) by {
        assert(after.chunks[before + i] == rows[i]);
    }
}

/// Creating chunks is all or nothing: where it fails, no chunk was
/// written.
pub proof fn law_chunks_all_or_nothing(
    s: State,
    document_id: int,
    splitting: GetOrCreateSplittingData,
    chunks: Seq<CreateChunkModel>,
)
    ensures
        created_chunks(s, document_id, splitting, chunks).1 is Err ==> created_chunks(
            s,
            document_id,
            splitting,
            chunks,
        ).0.chunks == s.chunks,
        created_chunks(s, document_id, splitting, chunks).1 is Ok ==> created_chunks(
            s,
            document_id,
            splitting,
            chunks,
        ).0.chunks == s.chunks + chunk_rows(
            document_id,
            created_chunks(s, document_id, splitting, chunks).1->Ok_0[0].splitting_id,
            chunks,
        ),
{
    let (after, r) = created_chunks(s, document_id, splitting, chunks);
    if r is Ok {
        let rows = r->Ok_0;
        assert(rows.len() > 0);
    }
}

/// Creating chunks that fails changes nothing at all: not even a
/// strategy is left behind.
pub proof fn law_chunks_failure_changes_nothing(
    s: State,
    document_id: int,
    splitting: GetOrCreateSplittingData,
    chunks: Seq<CreateChunkModel>,
)
    requires
        s.wf(),
        created_chunks(s, document_id, splitting, chunks).1 is Err,
    ensures
        created_chunks(s, document_id, splitting, chunks).0 == s,
{
    let (resolved, r) = resolved_splitting(s, splitting);
    if r is Ok && resolved != s {
        let id = r->Ok_0;
        assert(id == s.last_splitting_id + 1);
        lemma_within_fresh(s.splittings, splitting_id(), s.last_splitting_id, id);
        if has_key(s.chunks, chunk_pair(), (document_id, id)) {
            let at = index_by(s.chunks, chunk_pair(), (document_id, id));
            assert(has_key(s.splittings, splitting_id(), chunk_splitting()(s.chunks[at])));
        }
        lemma_has_key_push(
            s.splittings,
            splitting_id(),
            SplittingModel {
                id,
                chunk_size: splitting->Config_0.chunk_size as int,
                chunk_overlap: splitting->Config_0.chunk_overlap as int,
            },
            id,
        );
    }
}

/// Deleting a collection leaves nothing of it behind: no membership in
/// it, no collection index that binds it, no session and no indexed
/// document on one of its collection indexes, and not the collection
/// itself. Deleting it a second time finds no collection and changes
/// nothing.
pub proof fn law_collection_deleted_whole(s: State, id: int)
    requires
        s.wf(),
        has_key(s.collections, collection_id(), id),
    ensures
        ({
            let after = deleted_collection(s, id).0;
            let indexes = index_ids_of(s, id);
            &&& !has_key(after.collections, collection_id(), id)
            &&& forall|i: int|
                0 <= i < after.collection_documents.len() ==> (
                #[trigger] after.collection_documents[i]).collection_id != id
            &&& forall|i: int|
                0 <= i < after.collection_indexes.len() ==> {
                    &&& (#[trigger] after.collection_indexes[i]).collection_id != id
                    &&& !indexes.contains(after.collection_indexes[i].id)
                }
            &&& forall|i: int|
                0 <= i < after.sessions.len() ==> !indexes.contains(
                    (#[trigger] after.sessions[i]).index_id,
                )
            &&& forall|i: int|
                0 <= i < after.index_documents.len() ==> !indexes.contains(
                    (#[trigger] after.index_documents[i]).index_id,
                )
            &&& deleted_collection(after, id) == (
                after,
                Err::<crate::rows::CollectionModel, Failure>(no_collection()),
            )
        }),
{
    let after = deleted_collection(s, id).0;
    let indexes = index_ids_of(s, id);
    let at = index_by(s.collections, collection_id(), id);
    lemma_remove_is_filter(s.collections, collection_id(), at);
    lemma_has_key_filter(s.collections, collection_id(), not_keyed(collection_id(), id), id);
    assert forall|i: int| 0 <= i < after.collection_documents.len() implies (
    #[trigger] after.collection_documents[i]).collection_id != id by {
        let from = lemma_filter_source(s.collection_documents, member_elsewhere(id), i);
    }
    assert forall|i: int| 0 <= i < after.collection_indexes.len() implies {
        &&& (#[trigger] after.collection_indexes[i]).collection_id != id
        &&& !indexes.contains(after.collection_indexes[i].id)
    } by {
        lemma_unbound(s, id, i);
        let from = lemma_filter_source(s.collection_indexes, index_off(indexes), i);
    }
    assert forall|i: int| 0 <= i < after.sessions.len() implies !indexes.contains(
        (#[trigger] after.sessions[i]).index_id,
    ) by {
        let from = lemma_filter_source(s.sessions, session_off(indexes), i);
    }
    assert forall|i: int| 0 <= i < after.index_documents.len() implies !indexes.contains(
        (#[trigger] after.index_documents[i]).index_id,
    ) by {
        let from = lemma_filter_source(s.index_documents, indexed_off(indexes), i);
    }
}

/// Deleting a collection touches nothing else: the documents, their
/// chunks and vectors, the strategies, the registries and the index
/// profiles stay as they are.
pub proof fn law_collection_deleted_alone(s: State, id: int)
    ensures
        ({
            let after = deleted_collection(s, id).0;
            &&& after.documents == s.documents
            &&& after.chunks == s.chunks
            &&& after.vectors == s.vectors
            &&& after.splittings == s.splittings
            &&& after.index_profiles == s.index_profiles
            &&& after.embeddings_clients == s.embeddings_clients
            &&& after.embeddings_configs == s.embeddings_configs
            &&& after.vector_db_clients == s.vector_db_clients
            &&& after.vector_db_configs == s.vector_db_configs
        }),
{
}

/// A batch of vectors is written whole or not at all: where one of its
/// rows cannot be decoded the batch fails and the store stays as it was.
pub proof fn law_batch_all_or_nothing(s: State, rows: Seq<EmbeddingVectorModel>)
    ensures
        !all(rows, vector_sound()) ==> stored_batch(s, rows) == (
            s,
            Err::<nat, Failure>(malformed_vector()),
        ),
        all(rows, vector_sound()) ==> stored_batch(s, rows).1 == Ok::<nat, Failure>(rows.len()),
{
}

/// A batch of vectors given as values can always be stored: each is
/// encoded to a payload that can be decoded, so the batch never fails and
/// all of it is written.
pub proof fn law_batch_of_values_is_written(s: State, batch: Seq<EmbeddingVectorDataModel>)
    ensures
        stored_batch(s, stored_rows(batch)) == (
            State { vectors: upserted_vectors(s.vectors, stored_rows(batch)), ..s },
            Ok::<nat, Failure>(batch.len()),
        ),
{
    lemma_stored_rows_sound(batch);
}

/// A stored payload that cannot be decoded is never read as a vector:
/// the lookup of its key is a format error.
pub proof fn law_malformed_payload_is_refused(
    s: State,
    embeddings_config_id: int,
    md5_hash: Seq<char>,
)
    ensures
        match find_by(s.vectors, vector_key(), (embeddings_config_id, md5_hash)) {
            Some(row) => !decodable(row.vector) ==> got_vector(s, embeddings_config_id, md5_hash)
                == Err::<Option<EmbeddingVectorDataModel>, Failure>(malformed_vector()),
            None => true,
        },
{
}

/// What was written is what is read. After a vector was written under a
/// key, reading that key gives the vector back, bit for bit, and there is
/// one row under that key however often it was written.
pub proof fn law_vector_read_back(s: State, data: EmbeddingVectorDataModel)
    requires
        s.wf(),
    ensures
        ({
            let after = State { vectors: upserted_vector(s.vectors, stored_row(data)), ..s };
            &&& got_vector(after, data.embeddings_config_id, data.md5_hash) == Ok::<
                Option<EmbeddingVectorDataModel>,
                Failure,
            >(Some(data))
            &&& after.vectors.filter(
                keyed(vector_key(), (data.embeddings_config_id, data.md5_hash)),
            ) == seq![stored_row(data)]
        }),
{
    let row = stored_row(data);
    lemma_decode_encode(data.vector);
    lemma_upserted_vector(s.vectors, row);
    let after = upserted_vector(s.vectors, row);
    assert(read_row(row) == data);
    assert(has_key(after, vector_key(), vector_key()(row)));
    lemma_one_keyed(after, vector_key(), vector_key()(row));
}

/// Writing a vector under a key that has one replaces it: the vector
/// written last is the one that is read.
pub proof fn law_last_writer_wins(
    s: State,
    first: EmbeddingVectorDataModel,
    second: EmbeddingVectorDataModel,
)
    requires
        s.wf(),
        first.embeddings_config_id == second.embeddings_config_id,
        first.md5_hash == second.md5_hash,
    ensures
        ({
            let once = upserted_vector(s.vectors, stored_row(first));
            let twice = State { vectors: upserted_vector(once, stored_row(second)), ..s };
            &&& got_vector(twice, second.embeddings_config_id, second.md5_hash) == Ok::<
                Option<EmbeddingVectorDataModel>,
                Failure,
            >(Some(second))
            &&& twice.vectors.len() == once.len()
        }),
{
    lemma_decode_encode(first.vector);
    lemma_decode_encode(second.vector);
    lemma_upserted_vector(s.vectors, stored_row(first));
    let once = upserted_vector(s.vectors, stored_row(first));
    lemma_upserted_vector(once, stored_row(second));
    assert(read_row(stored_row(second)) == second);
    assert(has_key(once, vector_key(), vector_key()(stored_row(second))));
}

/// Deleting no collection index deletes nothing: with an empty list the
/// store stays as it is.
pub proof fn law_delete_no_index(s: State)
    ensures
        without_indexes(s, Seq::<Seq<char>>::empty()) == s,
        without_sessions(s, Seq::<Seq<char>>::empty()) == s,
{
    let none = Seq::<Seq<char>>::empty();
    lemma_filter_all(s.sessions, session_off(none));
    lemma_filter_all(s.index_documents, indexed_off(none));
    lemma_filter_all(s.collection_indexes, index_off(none));
}

/// Every document that was put in a collection is in it afterwards.
pub proof fn lemma_joined_has(
    members: Seq<CollectionDocumentModel>,
    collection_id: int,
    document_ids: Seq<int>,
    k: (int, int),
)
    requires
        has_key(members, membership_key(), k) || (k.0 == collection_id && document_ids.contains(
            k.1,
        )),
    ensures
        has_key(joined(members, collection_id, document_ids), membership_key(), k),
    decreases document_ids.len(),
{
    if document_ids.len() > 0 {
        let rest = document_ids.drop_last();
        let last = document_ids.last();
        let before = joined(members, collection_id, rest);
        let row = CollectionDocumentModel { collection_id, document_id: last };
        if has_key(members, membership_key(), k) || rest.contains(k.1) && k.0 == collection_id {
            if !has_key(members, membership_key(), k) {
                let at = choose|i: int| 0 <= i < rest.len() && rest[i] == k.1;
                assert(rest[at] == k.1);
            }
            lemma_joined_has(members, collection_id, rest, k);
            if !has_key(before, membership_key(), (collection_id, last)) {
                lemma_has_key_push(before, membership_key(), row, k);
            }
        } else {
            let at = choose|i: int| 0 <= i < document_ids.len() && document_ids[i] == k.1;
            if at < rest.len() {
                assert(rest[at] == k.1);
            }
            assert(k == (collection_id, last));
            if !has_key(before, membership_key(), k) {
                lemma_has_key_push(before, membership_key(), row, k);
            }
        }
    }
}

/// Putting documents in a collection that are all in it changes nothing.
pub proof fn lemma_joined_present(
    members: Seq<CollectionDocumentModel>,
    collection_id: int,
    document_ids: Seq<int>,
)
    requires
        forall|i: int|
            0 <= i < document_ids.len() ==> has_key(
                members,
                membership_key(),
                (collection_id, #[trigger] document_ids[i]),
            ),
    ensures
        joined(members, collection_id, document_ids) == members,
    decreases document_ids.len(),
{
    if document_ids.len() > 0 {
        let rest = document_ids.drop_last();
        assert forall|i: int| 0 <= i < rest.len() implies has_key(
            members,
            membership_key(),
            (collection_id, #[trigger] rest[i]),
        ) by {
            assert(rest[i] == document_ids[i]);
        }
        lemma_joined_present(members, collection_id, rest);
        assert(document_ids.last() == document_ids[document_ids.len() - 1]);
    }
}

/// Membership is idempotent. Adding documents to a collection a second
/// time changes nothing, and returns the same memberships.
pub proof fn law_membership_idempotent(s: State, collection_id: int, document_ids: Seq<int>)
    requires
        s.wf(),
    ensures
        ({
            let (once, found) = added_to_collection(s, collection_id, document_ids);
            added_to_collection(once, collection_id, document_ids) == (once, found)
        }),
{
    let (once, found) = added_to_collection(s, collection_id, document_ids);
    if found is Ok {
        assert forall|i: int| 0 <= i < document_ids.len() implies has_key(
            once.collection_documents,
            membership_key(),
            (collection_id, #[trigger] document_ids[i]),
        ) by {
            lemma_joined_has(
                s.collection_documents,
                collection_id,
                document_ids,
                (collection_id, document_ids[i]),
            );
        }
        lemma_joined_present(once.collection_documents, collection_id, document_ids);
        assert(all(document_ids, is_document(once))) by {
            assert forall|i: int| 0 <= i < document_ids.len() implies is_document(once)(
                #[trigger] document_ids[i],
            ) by {
                assert(is_document(s)(document_ids[i]));
            }
        }
    }
}

/// What is created is what is read. A registry row that was created is
/// read back, under its number, as it was returned.
pub proof fn law_config_read_back(registry: Registry, new: NewConfig, entity: Entity)
    requires
        numbered(registry.rows, config_id(), registry.last_id),
    ensures
        ({
            let (after, made) = created_config(registry, new, entity);
            made is Ok ==> read_config_by_id(after.rows, made->Ok_0.id, entity) == Ok::<
                Option<ConfigData>,
                Failure,
            >(Some(made->Ok_0))
        }),
{
    let (after, made) = created_config(registry, new, entity);
    if made is Ok {
        lemma_created_config(registry, new, entity);
        let at = registry.rows.len() as int;
        assert(config_id()(after.rows[at]) == made->Ok_0.id);
        lemma_index_by(after.rows, config_id(), at);
    }
}

} // verus!
