//! The registry of embeddings clients.

use vstd::prelude::*;
use crate::error::{Entity, Failure};
use crate::model::{config_id, numbered, profile_embeddings_client, State};
use crate::relations::has_key;
use crate::store::registry::{
    all_read, create_row, created_config, lemma_created_config, lemma_upserted_config_data,
    maybe_read, one_read, read_config_by_id, read_configs, read_row_by_id, read_rows,
    upsert_row, upserted_config_data, ConfigExData, CreateConfigData, Registry,
};
use crate::store::Store;

verus! {

/// A row of this registry as it is read.
pub type EmbeddingsClientExData = ConfigExData;

/// A row of this registry to write.
pub type CreateEmbeddingsClientData = CreateConfigData;

/// This registry, in a state.
pub open spec fn registry(s: State) -> Registry {
    Registry { rows: s.embeddings_clients, last_id: s.last_embeddings_client_id }
}

/// The state with this registry replaced.
pub open spec fn with_registry(s: State, registry: Registry) -> State {
    State { embeddings_clients: registry.rows, last_embeddings_client_id: registry.last_id, ..s }
}

/// Replacing this registry by a numbered one that has every number it
/// had keeps the state well formed.
pub proof fn lemma_with_registry_wf(s: State, after: Registry)
    requires
        s.wf(),
        numbered(after.rows, config_id(), after.last_id),
        forall|k: int| has_key(s.embeddings_clients, config_id(), k) ==> has_key(after.rows, config_id(), k),
    ensures
        with_registry(s, after).wf(),
{
    assert forall|i: int| 0 <= i < s.index_profiles.len() implies has_key(
        after.rows,
        config_id(),
        profile_embeddings_client()(#[trigger] s.index_profiles[i]),
    ) by {
        assert(has_key(s.embeddings_clients, config_id(), profile_embeddings_client()(s.index_profiles[i])));
    }
}

/// All rows, read, in the order in which they were created. A row whose
/// text holds no settings is a format error.
pub fn get_embeddings_clients(db: &Store) -> (r: Result<Vec<EmbeddingsClientExData>, Failure>)
    ensures
        all_read(r) == read_configs(db@.embeddings_clients, Entity::EmbeddingsClient),
{
    read_rows(&db.embeddings_clients, Entity::EmbeddingsClient)
}

/// The row with the given number, read, if there is one. A row whose
/// text holds no settings is a format error.
pub fn get_embeddings_client_by_id(db: &Store, client_id: i32) -> (r: Result<Option<EmbeddingsClientExData>, Failure>)
    requires
        db@.wf(),
    ensures
        maybe_read(r) == read_config_by_id(db@.embeddings_clients, client_id as int, Entity::EmbeddingsClient),
{
    read_row_by_id(&db.embeddings_clients, client_id, Entity::EmbeddingsClient)
}

/// Creates a row, with the next number, and returns it as it is read.
pub fn create_embeddings_client(db: &mut Store, data: CreateEmbeddingsClientData) -> (r: Result<EmbeddingsClientExData, Failure>)
    requires
        old(db)@.wf(),
    ensures
        final(db)@.wf(),
        final(db)@ == with_registry(
            old(db)@,
            created_config(registry(old(db)@), data@, Entity::EmbeddingsClient).0,
        ),
        one_read(r) == created_config(registry(old(db)@), data@, Entity::EmbeddingsClient).1,
{
    proof {
        lemma_created_config(registry(db@), data@, Entity::EmbeddingsClient);
        lemma_with_registry_wf(db@, created_config(registry(db@), data@, Entity::EmbeddingsClient).0);
    }
    create_row(&mut db.embeddings_clients, &mut db.last_embeddings_client_id, data, Entity::EmbeddingsClient)
}

/// Overwrites the row with the given number, or creates a row with the
/// next number where there is none, and returns it as it is read.
pub fn upsert_embeddings_client(db: &mut Store, client_id: i32, data: CreateEmbeddingsClientData) -> (r: Result<EmbeddingsClientExData, Failure>)
    requires
        old(db)@.wf(),
    ensures
        final(db)@.wf(),
        final(db)@ == with_registry(
            old(db)@,
            upserted_config_data(registry(old(db)@), client_id as int, data@, Entity::EmbeddingsClient).0,
        ),
        one_read(r) == upserted_config_data(
            registry(old(db)@),
            client_id as int,
            data@,
            Entity::EmbeddingsClient,
        ).1,
{
    proof {
        lemma_upserted_config_data(registry(db@), client_id as int, data@, Entity::EmbeddingsClient);
        lemma_with_registry_wf(
            db@,
            upserted_config_data(registry(db@), client_id as int, data@, Entity::EmbeddingsClient).0,
        );
    }
    upsert_row(&mut db.embeddings_clients, &mut db.last_embeddings_client_id, client_id, data, Entity::EmbeddingsClient)
}

} // verus!
