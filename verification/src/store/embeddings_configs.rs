//! The registry of embeddings configurations.

use vstd::prelude::*;
use crate::error::{Entity, Failure};
use crate::model::{config_id, numbered, profile_embeddings_config, State};
use crate::relations::has_key;
use crate::store::registry::{
    all_read, create_row, created_config, lemma_created_config, lemma_upserted_config_data,
    maybe_read, one_read, of_kind, read_config_by_id, read_configs, read_row_by_id, read_rows,
    select_by_kind, upsert_row, upserted_config_data, ConfigExData, CreateConfigData, Registry,
};
use crate::store::Store;

verus! {

/// A row of this registry as it is read.
pub type EmbeddingsConfigExData = ConfigExData;

/// A row of this registry to write.
pub type CreateEmbeddingsConfigData = CreateConfigData;

/// This registry, in a state.
pub open spec fn registry(s: State) -> Registry {
    Registry { rows: s.embeddings_configs, last_id: s.last_embeddings_config_id }
}

/// The state with this registry replaced.
pub open spec fn with_registry(s: State, registry: Registry) -> State {
    State { embeddings_configs: registry.rows, last_embeddings_config_id: registry.last_id, ..s }
}

/// Replacing this registry by a numbered one that has every number it
/// had keeps the state well formed.
pub proof fn lemma_with_registry_wf(s: State, after: Registry)
    requires
        s.wf(),
        numbered(after.rows, config_id(), after.last_id),
        forall|k: int| has_key(s.embeddings_configs, config_id(), k) ==> has_key(after.rows, config_id(), k),
    ensures
        with_registry(s, after).wf(),
{
    assert forall|i: int| 0 <= i < s.index_profiles.len() implies has_key(
        after.rows,
        config_id(),
        profile_embeddings_config()(#[trigger] s.index_profiles[i]),
    ) by {
        assert(has_key(s.embeddings_configs, config_id(), profile_embeddings_config()(s.index_profiles[i])));
    }
}

/// All rows, read, in the order in which they were created. A row whose
/// text holds no settings is a format error.
pub fn get_embeddings_configs(db: &Store) -> (r: Result<Vec<EmbeddingsConfigExData>, Failure>)
    ensures
        all_read(r) == read_configs(db@.embeddings_configs, Entity::EmbeddingsConfig),
{
    read_rows(&db.embeddings_configs, Entity::EmbeddingsConfig)
}

/// The row with the given number, read, if there is one. A row whose
/// text holds no settings is a format error.
pub fn get_embeddings_config_by_id(db: &Store, embeddings_config_id: i32) -> (r: Result<Option<EmbeddingsConfigExData>, Failure>)
    requires
        db@.wf(),
    ensures
        maybe_read(r) == read_config_by_id(db@.embeddings_configs, embeddings_config_id as int, Entity::EmbeddingsConfig),
{
    read_row_by_id(&db.embeddings_configs, embeddings_config_id, Entity::EmbeddingsConfig)
}

/// The rows for the given client type, read, in the order in which they
/// were created. A row whose text holds no settings is a format error.
pub fn get_embeddings_configs_by_client_type(db: &Store, client_type: String) -> (r: Result<
    Vec<EmbeddingsConfigExData>,
    Failure,
>)
    ensures
        all_read(r) == read_configs(db@.embeddings_configs.filter(of_kind(client_type@)), Entity::EmbeddingsConfig),
{
    let rows = select_by_kind(&db.embeddings_configs, &client_type);
    read_rows(&rows, Entity::EmbeddingsConfig)
}

/// Creates a row, with the next number, and returns it as it is read.
pub fn create_embeddings_config(db: &mut Store, data: CreateEmbeddingsConfigData) -> (r: Result<EmbeddingsConfigExData, Failure>)
    requires
        old(db)@.wf(),
    ensures
        final(db)@.wf(),
        final(db)@ == with_registry(
            old(db)@,
            created_config(registry(old(db)@), data@, Entity::EmbeddingsConfig).0,
        ),
        one_read(r) == created_config(registry(old(db)@), data@, Entity::EmbeddingsConfig).1,
{
    proof {
        lemma_created_config(registry(db@), data@, Entity::EmbeddingsConfig);
        lemma_with_registry_wf(db@, created_config(registry(db@), data@, Entity::EmbeddingsConfig).0);
    }
    create_row(&mut db.embeddings_configs, &mut db.last_embeddings_config_id, data, Entity::EmbeddingsConfig)
}

/// Overwrites the row with the given number, or creates a row with the
/// next number where there is none, and returns it as it is read.
pub fn upsert_embeddings_config(db: &mut Store, config_id: i32, data: CreateEmbeddingsConfigData) -> (r: Result<EmbeddingsConfigExData, Failure>)
    requires
        old(db)@.wf(),
    ensures
        final(db)@.wf(),
        final(db)@ == with_registry(
            old(db)@,
            upserted_config_data(registry(old(db)@), config_id as int, data@, Entity::EmbeddingsConfig).0,
        ),
        one_read(r) == upserted_config_data(
            registry(old(db)@),
            config_id as int,
            data@,
            Entity::EmbeddingsConfig,
        ).1,
{
    proof {
        lemma_upserted_config_data(registry(db@), config_id as int, data@, Entity::EmbeddingsConfig);
        lemma_with_registry_wf(
            db@,
            upserted_config_data(registry(db@), config_id as int, data@, Entity::EmbeddingsConfig).0,
        );
    }
    upsert_row(&mut db.embeddings_configs, &mut db.last_embeddings_config_id, config_id, data, Entity::EmbeddingsConfig)
}

} // verus!
