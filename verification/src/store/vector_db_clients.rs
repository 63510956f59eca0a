//! The registry of vector database clients.

use vstd::prelude::*;
use crate::error::{Entity, Failure};
use crate::model::{config_id, numbered, profile_vector_db_client, State};
use crate::relations::has_key;
use crate::store::registry::{
    all_read, create_row, created_config, lemma_created_config, lemma_upserted_config_data,
    maybe_read, one_read, read_config_by_id, read_configs, read_row_by_id, read_rows,
    upsert_row, upserted_config_data, ConfigExData, CreateConfigData, Registry,
};
use crate::store::Store;

verus! {

/// A row of this registry as it is read.
pub type VectorDbClientExData = ConfigExData;

/// A row of this registry to write.
pub type CreateVectorDbClientData = CreateConfigData;

/// This registry, in a state.
pub open spec fn registry(s: State) -> Registry {
    Registry { rows: s.vector_db_clients, last_id: s.last_vector_db_client_id }
}

/// The state with this registry replaced.
pub open spec fn with_registry(s: State, registry: Registry) -> State {
    State { vector_db_clients: registry.rows, last_vector_db_client_id: registry.last_id, ..s }
}

/// Replacing this registry by a numbered one that has every number it
/// had keeps the state well formed.
pub proof fn lemma_with_registry_wf(s: State, after: Registry)
    requires
        s.wf(),
        numbered(after.rows, config_id(), after.last_id),
        forall|k: int| has_key(s.vector_db_clients, config_id(), k) ==> has_key(after.rows, config_id(), k),
    ensures
        with_registry(s, after).wf(),
{
    assert forall|i: int| 0 <= i < s.index_profiles.len() implies has_key(
        after.rows,
        config_id(),
        profile_vector_db_client()(#[trigger] s.index_profiles[i]),
    ) by {
        assert(has_key(s.vector_db_clients, config_id(), profile_vector_db_client()(s.index_profiles[i])));
    }
}

/// All rows, read, in the order in which they were created. A row whose
/// text holds no settings is a format error.
pub fn get_vector_db_clients(db: &Store) -> (r: Result<Vec<VectorDbClientExData>, Failure>)
    ensures
        all_read(r) == read_configs(db@.vector_db_clients, Entity::VectorDbClient),
{
    read_rows(&db.vector_db_clients, Entity::VectorDbClient)
}

/// The row with the given number, read, if there is one. A row whose
/// text holds no settings is a format error.
pub fn get_vector_db_client_by_id(db: &Store, client_id: i32) -> (r: Result<Option<VectorDbClientExData>, Failure>)
    requires
        db@.wf(),
    ensures
        maybe_read(r) == read_config_by_id(db@.vector_db_clients, client_id as int, Entity::VectorDbClient),
{
    read_row_by_id(&db.vector_db_clients, client_id, Entity::VectorDbClient)
}

/// Creates a row, with the next number, and returns it as it is read.
pub fn create_vector_db_client(db: &mut Store, data: CreateVectorDbClientData) -> (r: Result<VectorDbClientExData, Failure>)
    requires
        old(db)@.wf(),
    ensures
        final(db)@.wf(),
        final(db)@ == with_registry(
            old(db)@,
            created_config(registry(old(db)@), data@, Entity::VectorDbClient).0,
        ),
        one_read(r) == created_config(registry(old(db)@), data@, Entity::VectorDbClient).1,
{
    proof {
        lemma_created_config(registry(db@), data@, Entity::VectorDbClient);
        lemma_with_registry_wf(db@, created_config(registry(db@), data@, Entity::VectorDbClient).0);
    }
    create_row(&mut db.vector_db_clients, &mut db.last_vector_db_client_id, data, Entity::VectorDbClient)
}

/// Overwrites the row with the given number, or creates a row with the
/// next number where there is none, and returns it as it is read.
pub fn upsert_vector_db_client(db: &mut Store, client_id: i32, data: CreateVectorDbClientData) -> (r: Result<VectorDbClientExData, Failure>)
    requires
        old(db)@.wf(),
    ensures
        final(db)@.wf(),
        final(db)@ == with_registry(
            old(db)@,
            upserted_config_data(registry(old(db)@), client_id as int, data@, Entity::VectorDbClient).0,
        ),
        one_read(r) == upserted_config_data(
            registry(old(db)@),
            client_id as int,
            data@,
            Entity::VectorDbClient,
        ).1,
{
    proof {
        lemma_upserted_config_data(registry(db@), client_id as int, data@, Entity::VectorDbClient);
        lemma_with_registry_wf(
            db@,
            upserted_config_data(registry(db@), client_id as int, data@, Entity::VectorDbClient).0,
        );
    }
    upsert_row(&mut db.vector_db_clients, &mut db.last_vector_db_client_id, client_id, data, Entity::VectorDbClient)
}

} // verus!
