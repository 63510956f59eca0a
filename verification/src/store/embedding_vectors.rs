//! Embedding vectors: at most one per embeddings configuration and
//! content hash, kept in its stored form. Writing a vector under a key
//! that has one replaces it whole.

use vstd::prelude::*;
use crate::error::{Entity, Failure, FailureKind};
use crate::model::{vector_key, vector_sound, State};
use crate::relations::{
    all, find_by, has_key, index_by, lemma_all_push, lemma_all_update, lemma_index_by,
    lemma_unique_push, lemma_unique_update, unique_by,
};
use crate::rows::{
    lemma_models_push, lemma_models_update, models, EmbeddingVectorModel, EmbeddingVectorRow,
};
use crate::store::Store;
use crate::vector_codec::{decodable, decode, decoded, encode, encoded, lemma_decode_encode};

verus! {

/// The key of a vector: the embeddings configuration it was computed
/// under, and the content hash of what it embeds.
#[derive(Debug, PartialEq, Eq)]
pub struct GetEmbeddingVectorByMD5Hash {
    pub embeddings_config_id: i32,
    pub md5_hash: String,
}

/// A vector to write under a key. Each value is given as its 32 bits.
#[derive(Debug, PartialEq, Eq)]
pub struct UpsertEmbeddingVectorByMD5Hash {
    pub identity: GetEmbeddingVectorByMD5Hash,
    pub vector: Vec<u32>,
}

/// A vector as it is read back. Each value is given as its 32 bits.
#[derive(Debug, PartialEq, Eq)]
pub struct EmbeddingVectorData {
    pub md5_hash: String,
    pub vector: Vec<u32>,
    pub embeddings_config_id: i32,
}

/// The model of an [`EmbeddingVectorData`].
pub struct EmbeddingVectorDataModel {
    pub md5_hash: Seq<char>,
    pub vector: Seq<u32>,
    pub embeddings_config_id: int,
}

impl View for EmbeddingVectorData {
    type V = EmbeddingVectorDataModel;

    open spec fn view(&self) -> EmbeddingVectorDataModel {
        EmbeddingVectorDataModel {
            md5_hash: self.md5_hash@,
            vector: self.vector@,
            embeddings_config_id: self.embeddings_config_id as int,
        }
    }
}

impl View for UpsertEmbeddingVectorByMD5Hash {
    type V = EmbeddingVectorDataModel;

    open spec fn view(&self) -> EmbeddingVectorDataModel {
        EmbeddingVectorDataModel {
            md5_hash: self.identity.md5_hash@,
            vector: self.vector@,
            embeddings_config_id: self.identity.embeddings_config_id as int,
        }
    }
}

/// The row that stores a vector: the same key, the values encoded.
pub open spec fn stored_row(data: EmbeddingVectorDataModel) -> EmbeddingVectorModel {
    EmbeddingVectorModel {
        embeddings_config_id: data.embeddings_config_id,
        md5_hash: data.md5_hash,
        vector: encoded(data.vector),
    }
}

/// The vector that a row stores: the same key, the bytes decoded.
pub open spec fn read_row(row: EmbeddingVectorModel) -> EmbeddingVectorDataModel {
    EmbeddingVectorDataModel {
        md5_hash: row.md5_hash,
        vector: decoded(row.vector),
        embeddings_config_id: row.embeddings_config_id,
    }
}

/// The rows that store the vectors of a batch, in its order.
pub open spec fn stored_rows(batch: Seq<EmbeddingVectorDataModel>) -> Seq<EmbeddingVectorModel> {
    batch.map_values(|data: EmbeddingVectorDataModel| stored_row(data))
}

/// The table after `row` was written: in the place of the row with its
/// key where there is one, and else after the others.
pub open spec fn upserted_vector(
    vectors: Seq<EmbeddingVectorModel>,
    row: EmbeddingVectorModel,
) -> Seq<EmbeddingVectorModel> {
    if has_key(vectors, vector_key(), vector_key()(row)) {
        vectors.update(index_by(vectors, vector_key(), vector_key()(row)), row)
    } else {
        vectors.push(row)
    }
}

/// The table after the rows of a batch were written, one after the other.
pub open spec fn upserted_vectors(
    vectors: Seq<EmbeddingVectorModel>,
    rows: Seq<EmbeddingVectorModel>,
) -> Seq<EmbeddingVectorModel>
    decreases rows.len(),
{
    if rows.len() == 0 {
        vectors
    } else {
        upserted_vector(upserted_vectors(vectors, rows.drop_last()), rows.last())
    }
}

/// The error for a vector that cannot be decoded.
pub open spec fn malformed_vector() -> Failure {
    Failure { kind: FailureKind::FormatError, entity: Entity::EmbeddingVector }
}

/// What writing a batch of rows does to a state and returns: where every
/// row can be decoded all are written and their number is returned; where
/// one cannot, none is written.
pub open spec fn stored_batch(s: State, rows: Seq<EmbeddingVectorModel>) -> (
    State,
    Result<nat, Failure>,
) {
    if all(rows, vector_sound()) {
        (State { vectors: upserted_vectors(s.vectors, rows), ..s }, Ok(rows.len()))
    } else {
        (s, Err(malformed_vector()))
    }
}

/// What reading the vector under a key gives: nothing where there is no
/// row under the key, the vector decoded where the row can be decoded, and
/// a format error where it cannot.
pub open spec fn got_vector(s: State, embeddings_config_id: int, md5_hash: Seq<char>) -> Result<
    Option<EmbeddingVectorDataModel>,
    Failure,
> {
    match find_by(s.vectors, vector_key(), (embeddings_config_id, md5_hash)) {
        Some(row) => if decodable(row.vector) {
            Ok(Some(read_row(row)))
        } else {
            Err(malformed_vector())
        },
        None => Ok(None),
    }
}

/// Writing a row that can be decoded keeps the table keyed and each of
/// its rows decodable; the row is then the one under its key.
pub proof fn lemma_upserted_vector(vectors: Seq<EmbeddingVectorModel>, row: EmbeddingVectorModel)
    requires
        unique_by(vectors, vector_key()),
        all(vectors, vector_sound()),
        decodable(row.vector),
    ensures
        unique_by(upserted_vector(vectors, row), vector_key()),
        all(upserted_vector(vectors, row), vector_sound()),
        find_by(upserted_vector(vectors, row), vector_key(), vector_key()(row)) == Some(row),
{
    let key = vector_key()(row);
    let after = upserted_vector(vectors, row);
    if has_key(vectors, vector_key(), key) {
        let at = index_by(vectors, vector_key(), key);
        lemma_unique_update(vectors, vector_key(), at, row);
        lemma_all_update(vectors, vector_sound(), at, row);
        assert(after[at] == row);
        lemma_index_by(after, vector_key(), at);
    } else {
        lemma_unique_push(vectors, vector_key(), row);
        lemma_all_push(vectors, vector_sound(), row);
        assert(after[vectors.len() as int] == row);
        lemma_index_by(after, vector_key(), vectors.len() as int);
    }
}

/// Writing rows that can be decoded keeps the table keyed and each of its
/// rows decodable.
pub proof fn lemma_upserted_vectors(
    vectors: Seq<EmbeddingVectorModel>,
    rows: Seq<EmbeddingVectorModel>,
)
    requires
        unique_by(vectors, vector_key()),
        all(vectors, vector_sound()),
        all(rows, vector_sound()),
    ensures
        unique_by(upserted_vectors(vectors, rows), vector_key()),
        all(upserted_vectors(vectors, rows), vector_sound()),
    decreases rows.len(),
{
    if rows.len() > 0 {
        assert forall|i: int| 0 <= i < rows.drop_last().len() implies vector_sound()(
            #[trigger] rows.drop_last()[i],
        ) by {
            assert(rows.drop_last()[i] == rows[i]);
        }
        lemma_upserted_vectors(vectors, rows.drop_last());
        assert(vector_sound()(rows[rows.len() - 1]));
        lemma_upserted_vector(upserted_vectors(vectors, rows.drop_last()), rows.last());
    }
}

/// Writing a batch keeps the state well formed.
pub proof fn lemma_stored_batch_wf(s: State, rows: Seq<EmbeddingVectorModel>)
    requires
        s.wf(),
    ensures
        stored_batch(s, rows).0.wf(),
{
    if all(rows, vector_sound()) {
        lemma_upserted_vectors(s.vectors, rows);
    }
}

/// The rows that store a batch can all be decoded.
pub proof fn lemma_stored_rows_sound(batch: Seq<EmbeddingVectorDataModel>)
    ensures
        all(stored_rows(batch), vector_sound()),
{
    assert forall|i: int| 0 <= i < stored_rows(batch).len() implies vector_sound()(
        #[trigger] stored_rows(batch)[i],
    ) by {
        lemma_decode_encode(batch[i].vector);
    }
}

/// The place of the vector under a key.
fn find_vector(db: &Store, embeddings_config_id: i32, md5_hash: &String) -> (r: Option<usize>)
    ensures
        match r {
            Some(i) => i < db@.vectors.len() && vector_key()(db@.vectors[i as int]) == (
                embeddings_config_id as int,
                md5_hash@,
            ),
            None => !has_key(db@.vectors, vector_key(), (embeddings_config_id as int, md5_hash@)),
        },
{
    let mut i: usize = 0;
    while i < db.vectors.len()
        invariant
            i <= db.vectors.len(),
            forall|j: int|
                0 <= j < i ==> vector_key()(#[trigger] db@.vectors[j]) != (
                    embeddings_config_id as int,
                    md5_hash@,
                ),
        decreases db.vectors.len() - i,
    {
        if db.vectors[i].embeddings_config_id == embeddings_config_id && db.vectors[i].md5_hash
            == *md5_hash {
            return Some(i);
        }
        i += 1;
    }
    None
}

/// Writes one row that can be decoded.
fn upsert_row(db: &mut Store, row: EmbeddingVectorRow)
    requires
        old(db)@.wf(),
        decodable(row@.vector),
    ensures
        final(db)@.wf(),
        final(db)@ == (State { vectors: upserted_vector(old(db)@.vectors, row@), ..old(db)@ }),
{
    proof {
        lemma_upserted_vector(db@.vectors, row@);
    }
    match find_vector(db, row.embeddings_config_id, &row.md5_hash) {
        Some(i) => {
            proof {
                lemma_index_by(db@.vectors, vector_key(), i as int);
                lemma_models_update(db.vectors@, i as int, row);
            }
            db.vectors.set(i, row);
        },
        None => {
            proof {
                lemma_models_push(db.vectors@, row);
            }
            db.vectors.push(row);
        },
    }
}

/// The vector under a key, decoded, if there is one. A stored payload
/// whose length is no multiple of four is a format error: no vector is
/// made from it. In a well-formed store there is no such payload, so
/// there the lookup does not fail.
pub fn get_embedding_vector_by_md5hash(db: &Store, data: GetEmbeddingVectorByMD5Hash) -> (r: Result<
    Option<EmbeddingVectorData>,
    Failure,
>)
    requires
        unique_by(db@.vectors, vector_key()),
    ensures
        match r {
            Ok(Some(found)) => Ok::<Option<EmbeddingVectorDataModel>, Failure>(Some(found@)),
            Ok(None) => Ok(None),
            Err(e) => Err(e),
        } == got_vector(db@, data.embeddings_config_id as int, data.md5_hash@),
        db@.wf() ==> r is Ok,
{
    match find_vector(db, data.embeddings_config_id, &data.md5_hash) {
        Some(i) => {
            proof {
                lemma_index_by(db@.vectors, vector_key(), i as int);
                if db@.wf() {
                    assert(vector_sound()(db@.vectors[i as int]));
                }
            }
            match decode(db.vectors[i].vector.as_slice()) {
                Ok(vector) => Ok(
                    Some(
                        EmbeddingVectorData {
                            md5_hash: db.vectors[i].md5_hash.clone(),
                            vector,
                            embeddings_config_id: db.vectors[i].embeddings_config_id,
                        },
                    ),
                ),
                Err(e) => Err(e),
            }
        },
        None => Ok(None),
    }
}

/// Writes a vector under its key, in place of the one that is there or as
/// a new row, and returns the row as it is stored.
pub fn upsert_embedding_vector_by_md5hash(db: &mut Store, data: UpsertEmbeddingVectorByMD5Hash) -> (row:
    EmbeddingVectorRow)
    requires
        old(db)@.wf(),
    ensures
        final(db)@.wf(),
        row@ == stored_row(data@),
        final(db)@ == (State {
            vectors: upserted_vector(old(db)@.vectors, stored_row(data@)),
            ..old(db)@
        }),
        got_vector(final(db)@, data@.embeddings_config_id, data@.md5_hash) == Ok::<
            Option<EmbeddingVectorDataModel>,
            Failure,
        >(Some(data@)),
{
    let row = EmbeddingVectorRow {
        embeddings_config_id: data.identity.embeddings_config_id,
        md5_hash: data.identity.md5_hash,
        vector: encode(&data.vector),
    };
    proof {
        lemma_decode_encode(data@.vector);
        lemma_upserted_vector(db@.vectors, row@);
    }
    upsert_row(db, row.clone());
    row
}

/// Writes a batch of rows that hold vectors in their stored form. Where
/// every row can be decoded all are written, one after the other, and
/// their number is returned; where one cannot, none is written.
pub fn upsert_encoded_vectors_in_batch(db: &mut Store, rows: Vec<EmbeddingVectorRow>) -> (r: Result<
    usize,
    Failure,
>)
    requires
        old(db)@.wf(),
    ensures
        final(db)@.wf(),
        final(db)@ == stored_batch(old(db)@, models(rows@)).0,
        match r {
            Ok(n) => Ok::<nat, Failure>(n as nat),
            Err(e) => Err(e),
        } == stored_batch(old(db)@, models(rows@)).1,
{
    let ghost batch = models(rows@);
    let mut i: usize = 0;
    while i < rows.len()
        invariant
            i <= rows.len(),
            batch == models(rows@),
            db@ == old(db)@,
            db@.wf(),
            forall|j: int| 0 <= j < i ==> vector_sound()(#[trigger] batch[j]),
        decreases rows.len() - i,
    {
        if rows[i].vector.len() % 4 != 0 {
            assert(!vector_sound()(batch[i as int]));
            return Err(Failure::new(FailureKind::FormatError, Entity::EmbeddingVector));
        }
        i += 1;
    }
    Ok(upsert_rows(db, &rows))
}

/// Writes rows that can all be decoded, one after the other, and returns
/// their number.
fn upsert_rows(db: &mut Store, rows: &Vec<EmbeddingVectorRow>) -> (n: usize)
    requires
        old(db)@.wf(),
        all(models(rows@), vector_sound()),
    ensures
        final(db)@.wf(),
        final(db)@ == (State {
            vectors: upserted_vectors(old(db)@.vectors, models(rows@)),
            ..old(db)@
        }),
        n == rows@.len(),
{
    let ghost batch = models(rows@);
    let ghost start = db@;
    let mut i: usize = 0;
    assert(batch.take(0) =~= Seq::<EmbeddingVectorModel>::empty());
    while i < rows.len()
        invariant
            i <= rows.len(),
            batch == models(rows@),
            all(batch, vector_sound()),
            db@.wf(),
            db@ == (State { vectors: upserted_vectors(start.vectors, batch.take(i as int)), ..start }),
        decreases rows.len() - i,
    {
        let row = rows[i].clone();
        proof {
            assert(row@ == batch[i as int]);
            assert(vector_sound()(batch[i as int]));
            assert(batch.take(i + 1).drop_last() =~= batch.take(i as int));
            assert(batch.take(i + 1).last() == batch[i as int]);
        }
        upsert_row(db, row);
        i += 1;
    }
    assert(batch.take(rows.len() as int) =~= batch);
    rows.len()
}

/// Writes a batch of vectors as one: each is encoded, and the rows are
/// written as [`upsert_encoded_vectors_in_batch`] writes them, all or
/// none. It returns their number.
pub fn upsert_embedding_vector_by_md5hash_in_batch(
    db: &mut Store,
    data: Vec<UpsertEmbeddingVectorByMD5Hash>,
) -> (r: Result<usize, Failure>)
    requires
        old(db)@.wf(),
    ensures
        final(db)@.wf(),
        final(db)@ == stored_batch(old(db)@, stored_rows(models(data@))).0,
        match r {
            Ok(n) => Ok::<nat, Failure>(n as nat),
            Err(e) => Err(e),
        } == stored_batch(old(db)@, stored_rows(models(data@))).1,
{
    let ghost batch = models(data@);
    let mut rows: Vec<EmbeddingVectorRow> = Vec::new();
    let mut i: usize = 0;
    assert(models(rows@) =~= stored_rows(batch).take(0));
    while i < data.len()
        invariant
            i <= data.len(),
            batch == models(data@),
            models(rows@) == stored_rows(batch).take(i as int),
        decreases data.len() - i,
    {
        let row = EmbeddingVectorRow {
            embeddings_config_id: data[i].identity.embeddings_config_id,
            md5_hash: data[i].identity.md5_hash.clone(),
            vector: encode(&data[i].vector),
        };
        proof {
            assert(row@ == stored_rows(batch)[i as int]);
            lemma_models_push(rows@, row);
            assert(stored_rows(batch).take(i + 1) =~= stored_rows(batch).take(i as int).push(
                row@,
            ));
        }
        rows.push(row);
        i += 1;
    }
    assert(stored_rows(batch).take(data.len() as int) =~= stored_rows(batch));
    upsert_encoded_vectors_in_batch(db, rows)
}

} // verus!
