//! Index profiles: each names a splitting strategy, an embeddings client
//! and configuration, and a vector database client and configuration,
//! all of which have to exist.

use vstd::prelude::*;
use crate::error::{Entity, Failure, FailureKind};
use crate::model::{
    config_id, index_profile, profile_embeddings_client, profile_embeddings_config, profile_id,
    profile_splitting, profile_vector_db_client, profile_vector_db_config, splitting_id, State,
};
use crate::relations::{
    find_by, has_key, index_by, lemma_index_by, lemma_refers_child_push, lemma_refers_parent_push,
    lemma_unique_push, lemma_within_fresh, lemma_within_push, row_by,
};
use crate::rows::{
    lemma_models_push, models, ConfigModel, ConfigRow, IndexProfile, IndexProfileModel, Splitting,
    SplittingModel,
};
use crate::store::registry::{find_config, locate_config};
use crate::store::splittings::{find_splitting_by_id, locate_splitting};
use crate::store::Store;

verus! {

/// An index profile to create.
#[derive(Debug, PartialEq, Eq)]
pub struct CreateIndexProfileData {
    pub name: String,
    pub splitting_id: i32,
    pub embeddings_client_id: i32,
    pub embeddings_config_id: i32,
    pub vector_db_client_id: i32,
    pub vector_db_config_id: i32,
}

/// The model of a [`CreateIndexProfileData`].
pub struct NewIndexProfile {
    pub name: Seq<char>,
    pub splitting_id: int,
    pub embeddings_client_id: int,
    pub embeddings_config_id: int,
    pub vector_db_client_id: int,
    pub vector_db_config_id: int,
}

impl View for CreateIndexProfileData {
    type V = NewIndexProfile;

    open spec fn view(&self) -> NewIndexProfile {
        NewIndexProfile {
            name: self.name@,
            splitting_id: self.splitting_id as int,
            embeddings_client_id: self.embeddings_client_id as int,
            embeddings_config_id: self.embeddings_config_id as int,
            vector_db_client_id: self.vector_db_client_id as int,
            vector_db_config_id: self.vector_db_config_id as int,
        }
    }
}

/// An index profile together with the five rows it names.
#[derive(Debug, PartialEq, Eq)]
pub struct IndexProfileWithAll {
    pub profile: IndexProfile,
    pub embeddings_client: ConfigRow,
    pub embeddings_config: ConfigRow,
    pub vector_db_client: ConfigRow,
    pub vector_db_config: ConfigRow,
    pub splitting: Splitting,
}

/// The model of an [`IndexProfileWithAll`].
pub struct IndexProfileWithAllModel {
    pub profile: IndexProfileModel,
    pub embeddings_client: ConfigModel,
    pub embeddings_config: ConfigModel,
    pub vector_db_client: ConfigModel,
    pub vector_db_config: ConfigModel,
    pub splitting: SplittingModel,
}

impl View for IndexProfileWithAll {
    type V = IndexProfileWithAllModel;

    open spec fn view(&self) -> IndexProfileWithAllModel {
        IndexProfileWithAllModel {
            profile: self.profile@,
            embeddings_client: self.embeddings_client@,
            embeddings_config: self.embeddings_config@,
            vector_db_client: self.vector_db_client@,
            vector_db_config: self.vector_db_config@,
            splitting: self.splitting@,
        }
    }
}

/// An index profile together with the five rows it names in a state.
pub open spec fn with_all(s: State, profile: IndexProfileModel) -> IndexProfileWithAllModel {
    IndexProfileWithAllModel {
        profile,
        embeddings_client: row_by(s.embeddings_clients, config_id(), profile.embeddings_client_id),
        embeddings_config: row_by(s.embeddings_configs, config_id(), profile.embeddings_config_id),
        vector_db_client: row_by(s.vector_db_clients, config_id(), profile.vector_db_client_id),
        vector_db_config: row_by(s.vector_db_configs, config_id(), profile.vector_db_config_id),
        splitting: row_by(s.splittings, splitting_id(), profile.splitting_id),
    }
}

/// The failure for a row that an index profile names and that is not
/// there.
pub open spec fn missing(entity: Entity) -> Failure {
    Failure { kind: FailureKind::NotFound, entity }
}

/// What creating an index profile does to a state and returns. Each of
/// the five rows it names must exist.
pub open spec fn created_profile(s: State, new: NewIndexProfile) -> (
    State,
    Result<IndexProfileModel, Failure>,
) {
    if !has_key(s.splittings, splitting_id(), new.splitting_id) {
        (s, Err(missing(Entity::Splitting)))
    } else if !has_key(s.embeddings_clients, config_id(), new.embeddings_client_id) {
        (s, Err(missing(Entity::EmbeddingsClient)))
    } else if !has_key(s.embeddings_configs, config_id(), new.embeddings_config_id) {
        (s, Err(missing(Entity::EmbeddingsConfig)))
    } else if !has_key(s.vector_db_clients, config_id(), new.vector_db_client_id) {
        (s, Err(missing(Entity::VectorDbClient)))
    } else if !has_key(s.vector_db_configs, config_id(), new.vector_db_config_id) {
        (s, Err(missing(Entity::VectorDbConfig)))
    } else if s.last_index_profile_id >= i32::MAX {
        (s, Err(Failure { kind: FailureKind::StoreError, entity: Entity::IndexProfile }))
    } else {
        let row = IndexProfileModel {
            id: s.last_index_profile_id + 1,
            name: new.name,
            splitting_id: new.splitting_id,
            embeddings_client_id: new.embeddings_client_id,
            embeddings_config_id: new.embeddings_config_id,
            vector_db_client_id: new.vector_db_client_id,
            vector_db_config_id: new.vector_db_config_id,
        };
        (
            State {
                index_profiles: s.index_profiles.push(row),
                last_index_profile_id: s.last_index_profile_id + 1,
                ..s
            },
            Ok(row),
        )
    }
}

/// Creating an index profile keeps the state well formed.
pub proof fn lemma_created_profile_wf(s: State, new: NewIndexProfile)
    requires
        s.wf(),
    ensures
        created_profile(s, new).0.wf(),
{
    let (after, r) = created_profile(s, new);
    if r is Ok {
        let row = r->Ok_0;
        lemma_within_fresh(s.index_profiles, profile_id(), s.last_index_profile_id, row.id);
        lemma_unique_push(s.index_profiles, profile_id(), row);
        lemma_within_push(s.index_profiles, profile_id(), s.last_index_profile_id, row);
        lemma_refers_child_push(
            s.index_profiles,
            profile_splitting(),
            s.splittings,
            splitting_id(),
            row,
        );
        lemma_refers_child_push(
            s.index_profiles,
            profile_embeddings_client(),
            s.embeddings_clients,
            config_id(),
            row,
        );
        lemma_refers_child_push(
            s.index_profiles,
            profile_embeddings_config(),
            s.embeddings_configs,
            config_id(),
            row,
        );
        lemma_refers_child_push(
            s.index_profiles,
            profile_vector_db_client(),
            s.vector_db_clients,
            config_id(),
            row,
        );
        lemma_refers_child_push(
            s.index_profiles,
            profile_vector_db_config(),
            s.vector_db_configs,
            config_id(),
            row,
        );
        lemma_refers_parent_push(
            s.collection_indexes,
            index_profile(),
            s.index_profiles,
            profile_id(),
            row,
        );
    }
}

/// The place of the index profile with the given number, which there is.
pub(crate) fn locate_profile(db: &Store, id: i32) -> (at: usize)
    requires
        has_key(db@.index_profiles, profile_id(), id as int),
    ensures
        at < db@.index_profiles.len(),
        db@.index_profiles[at as int].id == id,
{
    let ghost last = index_by(db@.index_profiles, profile_id(), id as int);
    let n: usize = db.index_profiles.len();
    let mut at: usize = 0;
    while db.index_profiles[at].id != id
        invariant
            at <= last < n,
            n == db@.index_profiles.len(),
            profile_id()(db@.index_profiles[last]) == id,
        decreases last - at,
    {
        assert(profile_id()(db@.index_profiles[at as int]) != id);
        at += 1;
    }
    at
}

/// The place of the index profile with the given number.
pub(crate) fn find_profile(db: &Store, id: i32) -> (r: Option<usize>)
    ensures
        match r {
            Some(i) => i < db@.index_profiles.len() && db@.index_profiles[i as int].id == id,
            None => !has_key(db@.index_profiles, profile_id(), id as int),
        },
{
    let mut i: usize = 0;
    while i < db.index_profiles.len()
        invariant
            i <= db.index_profiles.len(),
            forall|j: int| 0 <= j < i ==> profile_id()(#[trigger] db@.index_profiles[j]) != id,
        decreases db.index_profiles.len() - i,
    {
        if db.index_profiles[i].id == id {
            return Some(i);
        }
        i += 1;
    }
    None
}

/// The index profile at the given place together with the five rows it
/// names.
pub(crate) fn join_profile(db: &Store, at: usize) -> (r: IndexProfileWithAll)
    requires
        db@.wf(),
        at < db@.index_profiles.len(),
    ensures
        r@ == with_all(db@, db@.index_profiles[at as int]),
{
    let profile = db.index_profiles[at].clone();
    let ghost p = db@.index_profiles[at as int];
    proof {
        assert(has_key(db@.splittings, splitting_id(), profile_splitting()(p)));
        assert(has_key(db@.embeddings_clients, config_id(), profile_embeddings_client()(p)));
        assert(has_key(db@.embeddings_configs, config_id(), profile_embeddings_config()(p)));
        assert(has_key(db@.vector_db_clients, config_id(), profile_vector_db_client()(p)));
        assert(has_key(db@.vector_db_configs, config_id(), profile_vector_db_config()(p)));
    }
    let s = locate_splitting(db, profile.splitting_id);
    let ec = locate_config(&db.embeddings_clients, profile.embeddings_client_id);
    let eg = locate_config(&db.embeddings_configs, profile.embeddings_config_id);
    let vc = locate_config(&db.vector_db_clients, profile.vector_db_client_id);
    let vg = locate_config(&db.vector_db_configs, profile.vector_db_config_id);
    proof {
        lemma_index_by(db@.splittings, splitting_id(), s as int);
        lemma_index_by(db@.embeddings_clients, config_id(), ec as int);
        lemma_index_by(db@.embeddings_configs, config_id(), eg as int);
        lemma_index_by(db@.vector_db_clients, config_id(), vc as int);
        lemma_index_by(db@.vector_db_configs, config_id(), vg as int);
    }
    IndexProfileWithAll {
        profile,
        embeddings_client: db.embeddings_clients[ec].clone(),
        embeddings_config: db.embeddings_configs[eg].clone(),
        vector_db_client: db.vector_db_clients[vc].clone(),
        vector_db_config: db.vector_db_configs[vg].clone(),
        splitting: db.splittings[s].clone(),
    }
}

/// All index profiles, in the order in which they were created.
pub fn get_index_profiles(db: &Store) -> (rows: Vec<IndexProfile>)
    ensures
        models(rows@) == db@.index_profiles,
{
    let rows = db.index_profiles.clone();
    assert(models(rows@) =~= db@.index_profiles);
    rows
}

/// All index profiles, each together with the five rows it names, in the
/// order in which they were created.
pub fn get_index_profiles_with_all(db: &Store) -> (rows: Vec<IndexProfileWithAll>)
    requires
        db@.wf(),
    ensures
        models(rows@) == db@.index_profiles.map_values(|p: IndexProfileModel| with_all(db@, p)),
{
    let mut rows: Vec<IndexProfileWithAll> = Vec::new();
    let mut i: usize = 0;
    while i < db.index_profiles.len()
        invariant
            i <= db.index_profiles.len(),
            db@.wf(),
            rows@.len() == i,
            forall|j: int|
                0 <= j < i ==> (#[trigger] rows@[j])@ == with_all(db@, db@.index_profiles[j]),
        decreases db.index_profiles.len() - i,
    {
        rows.push(join_profile(db, i));
        i += 1;
    }
    assert(models(rows@) =~= db@.index_profiles.map_values(
        |p: IndexProfileModel| with_all(db@, p),
    ));
    rows
}

/// The index profile with the given number, if there is one.
pub fn get_index_profile_by_id(db: &Store, index_profile_id: i32) -> (r: Option<IndexProfile>)
    requires
        db@.wf(),
    ensures
        match r {
            Some(row) => Some(row@),
            None => None,
        } == find_by(db@.index_profiles, profile_id(), index_profile_id as int),
{
    match find_profile(db, index_profile_id) {
        Some(i) => {
            proof {
                lemma_index_by(db@.index_profiles, profile_id(), i as int);
            }
            Some(db.index_profiles[i].clone())
        },
        None => None,
    }
}

/// The index profile with the given number together with the five rows
/// it names, if there is one.
pub fn get_index_profile_with_all_by_id(db: &Store, index_profile_id: i32) -> (r: Option<
    IndexProfileWithAll,
>)
    requires
        db@.wf(),
    ensures
        match r {
            Some(row) => Some(row@),
            None => None,
        } == match find_by(db@.index_profiles, profile_id(), index_profile_id as int) {
            Some(p) => Some(with_all(db@, p)),
            None => None,
        },
{
    match find_profile(db, index_profile_id) {
        Some(i) => {
            proof {
                lemma_index_by(db@.index_profiles, profile_id(), i as int);
            }
            Some(join_profile(db, i))
        },
        None => None,
    }
}

/// Creates an index profile, with the next number. Each of the five rows
/// it names must exist.
pub fn create_index_profile(db: &mut Store, data: CreateIndexProfileData) -> (r: Result<
    IndexProfile,
    Failure,
>)
    requires
        old(db)@.wf(),
    ensures
        final(db)@.wf(),
        final(db)@ == created_profile(old(db)@, data@).0,
        match r {
            Ok(row) => Ok::<IndexProfileModel, Failure>(row@),
            Err(e) => Err(e),
        } == created_profile(old(db)@, data@).1,
{
    proof {
        lemma_created_profile_wf(db@, data@);
    }
    if find_splitting_by_id(db, data.splitting_id).is_none() {
        return Err(Failure::new(FailureKind::NotFound, Entity::Splitting));
    }
    if find_config(&db.embeddings_clients, data.embeddings_client_id).is_none() {
        return Err(Failure::new(FailureKind::NotFound, Entity::EmbeddingsClient));
    }
    if find_config(&db.embeddings_configs, data.embeddings_config_id).is_none() {
        return Err(Failure::new(FailureKind::NotFound, Entity::EmbeddingsConfig));
    }
    if find_config(&db.vector_db_clients, data.vector_db_client_id).is_none() {
        return Err(Failure::new(FailureKind::NotFound, Entity::VectorDbClient));
    }
    if find_config(&db.vector_db_configs, data.vector_db_config_id).is_none() {
        return Err(Failure::new(FailureKind::NotFound, Entity::VectorDbConfig));
    }
    if db.last_index_profile_id >= i32::MAX {
        return Err(Failure::new(FailureKind::StoreError, Entity::IndexProfile));
    }
    let id: i32 = db.last_index_profile_id + 1;
    let row = IndexProfile {
        id,
        name: data.name,
        splitting_id: data.splitting_id,
        embeddings_client_id: data.embeddings_client_id,
        embeddings_config_id: data.embeddings_config_id,
        vector_db_client_id: data.vector_db_client_id,
        vector_db_config_id: data.vector_db_config_id,
    };
    let stored = row.clone();
    proof {
        lemma_models_push(db.index_profiles@, stored);
    }
    db.index_profiles.push(stored);
    db.last_index_profile_id = id;
    Ok(row)
}

/// Creates an index profile, with the next number, and returns it
/// together with the five rows it names, each of which must exist.
pub fn create_index_profile_with_all(db: &mut Store, data: CreateIndexProfileData) -> (r: Result<
    IndexProfileWithAll,
    Failure,
>)
    requires
        old(db)@.wf(),
    ensures
        final(db)@.wf(),
        final(db)@ == created_profile(old(db)@, data@).0,
        match r {
            Ok(row) => Ok::<IndexProfileWithAllModel, Failure>(row@),
            Err(e) => Err(e),
        } == match created_profile(old(db)@, data@).1 {
            Ok(p) => Ok(with_all(final(db)@, p)),
            Err(e) => Err(e),
        },
{
    match create_index_profile(db, data) {
        Ok(row) => {
            proof {
                let before = old(db)@.index_profiles;
                assert(db@.index_profiles == before.push(row@));
                assert(db@.index_profiles.len() == db.index_profiles@.len());
            }
            let at: usize = db.index_profiles.len() - 1;
            Ok(join_profile(db, at))
        },
        Err(e) => Err(e),
    }
}

} // verus!
