//! What the four configuration registries have in common: a numbered
//! table of rows with a name, a client type tag and settings as text.

use vstd::prelude::*;
use crate::error::{Entity, Failure, FailureKind};
use crate::json::{parse_settings, parsed_json, read_settings, write_settings, written_settings};
use crate::model::{config_id, numbered};
use crate::relations::{
    find_by, has_key, index_by, lemma_index_by, lemma_filter_step, lemma_unique_push, lemma_unique_update,
    lemma_within_fresh, lemma_within_push, lemma_within_update,
};
use crate::rows::{lemma_models_push, lemma_models_update, models, ConfigModel, ConfigRow};

verus! {

/// A registry: its rows, and the last number it gave out.
pub struct Registry {
    pub rows: Seq<ConfigModel>,
    pub last_id: int,
}

/// The registry after a new row was written, and that row; where the
/// numbers have run out, the registry as it was and no row.
pub open spec fn inserted_config(
    registry: Registry,
    name: Seq<char>,
    kind: Seq<char>,
    meta: Seq<char>,
) -> (Registry, Option<ConfigModel>) {
    if registry.last_id >= i32::MAX {
        (registry, None)
    } else {
        let row = ConfigModel { id: registry.last_id + 1, name, kind, meta };
        (Registry { rows: registry.rows.push(row), last_id: registry.last_id + 1 }, Some(row))
    }
}

/// The registry after the row numbered `id` was overwritten, where there
/// is one, or a new row was written, where there is none; and that row.
pub open spec fn upserted_config(
    registry: Registry,
    id: int,
    name: Seq<char>,
    kind: Seq<char>,
    meta: Seq<char>,
) -> (Registry, Option<ConfigModel>) {
    if has_key(registry.rows, config_id(), id) {
        let row = ConfigModel { id, name, kind, meta };
        (
            Registry {
                rows: registry.rows.update(index_by(registry.rows, config_id(), id), row),
                last_id: registry.last_id,
            },
            Some(row),
        )
    } else {
        inserted_config(registry, name, kind, meta)
    }
}

/// Whether a row has the given client type tag.
pub open spec fn of_kind(kind: Seq<char>) -> spec_fn(ConfigModel) -> bool {
    |row: ConfigModel| row.kind == kind
}

/// Writing a new row keeps a registry numbered, and every number it had.
pub proof fn lemma_inserted_config(
    registry: Registry,
    name: Seq<char>,
    kind: Seq<char>,
    meta: Seq<char>,
)
    requires
        numbered(registry.rows, config_id(), registry.last_id),
    ensures
        numbered(
            inserted_config(registry, name, kind, meta).0.rows,
            config_id(),
            inserted_config(registry, name, kind, meta).0.last_id,
        ),
        forall|k: int|
            has_key(registry.rows, config_id(), k) ==> has_key(
                inserted_config(registry, name, kind, meta).0.rows,
                config_id(),
                k,
            ),
{
    if registry.last_id < i32::MAX {
        let row = ConfigModel { id: registry.last_id + 1, name, kind, meta };
        lemma_within_fresh(registry.rows, config_id(), registry.last_id, row.id);
        lemma_unique_push(registry.rows, config_id(), row);
        lemma_within_push(registry.rows, config_id(), registry.last_id, row);
        assert forall|k: int| has_key(registry.rows, config_id(), k) implies has_key(
            registry.rows.push(row),
            config_id(),
            k,
        ) by {
            crate::relations::lemma_has_key_push(registry.rows, config_id(), row, k);
        }
    }
}

/// Overwriting or writing a row keeps a registry numbered, and every
/// number it had.
pub proof fn lemma_upserted_config(
    registry: Registry,
    id: int,
    name: Seq<char>,
    kind: Seq<char>,
    meta: Seq<char>,
)
    requires
        numbered(registry.rows, config_id(), registry.last_id),
    ensures
        numbered(
            upserted_config(registry, id, name, kind, meta).0.rows,
            config_id(),
            upserted_config(registry, id, name, kind, meta).0.last_id,
        ),
        forall|k: int|
            has_key(registry.rows, config_id(), k) ==> has_key(
                upserted_config(registry, id, name, kind, meta).0.rows,
                config_id(),
                k,
            ),
{
    if has_key(registry.rows, config_id(), id) {
        let row = ConfigModel { id, name, kind, meta };
        let at = index_by(registry.rows, config_id(), id);
        lemma_unique_update(registry.rows, config_id(), at, row);
        lemma_within_update(registry.rows, config_id(), registry.last_id, at, row);
        assert forall|k: int| has_key(registry.rows, config_id(), k) implies has_key(
            registry.rows.update(at, row),
            config_id(),
            k,
        ) by {
            crate::relations::lemma_has_key_update(registry.rows, config_id(), at, row, k);
        }
    } else {
        lemma_inserted_config(registry, name, kind, meta);
    }
}

/// The place of the row with the given number, which there is.
pub(crate) fn locate_config(rows: &Vec<ConfigRow>, id: i32) -> (at: usize)
    requires
        has_key(models(rows@), config_id(), id as int),
    ensures
        at < models(rows@).len(),
        models(rows@)[at as int].id == id,
{
    let ghost last = index_by(models(rows@), config_id(), id as int);
    let n: usize = rows.len();
    let mut at: usize = 0;
    while rows[at].id != id
        invariant
            at <= last < n,
            n == models(rows@).len(),
            config_id()(models(rows@)[last]) == id,
        decreases last - at,
    {
        assert(config_id()(models(rows@)[at as int]) != id);
        at += 1;
    }
    at
}

/// The place of the row with the given number.
pub(crate) fn find_config(rows: &Vec<ConfigRow>, id: i32) -> (r: Option<usize>)
    ensures
        match r {
            Some(i) => i < rows@.len() && models(rows@)[i as int].id == id,
            None => !has_key(models(rows@), config_id(), id as int),
        },
{
    let mut i: usize = 0;
    while i < rows.len()
        invariant
            i <= rows.len(),
            forall|j: int| 0 <= j < i ==> config_id()(#[trigger] models(rows@)[j]) != id,
        decreases rows.len() - i,
    {
        if rows[i].id == id {
            return Some(i);
        }
        i += 1;
    }
    None
}

/// Writes a new row, with the number after `last_id`, into a table of
/// registry rows. The settings are given as the text that is stored. Where
/// the numbers have run out nothing is written and no row is returned.
pub fn insert_config(
    rows: &mut Vec<ConfigRow>,
    last_id: &mut i32,
    name: String,
    kind: String,
    meta: String,
) -> (r: Option<ConfigRow>)
    ensures
        (Registry { rows: models(final(rows)@), last_id: *final(last_id) as int }) == inserted_config(
            Registry { rows: models(old(rows)@), last_id: *old(last_id) as int },
            name@,
            kind@,
            meta@,
        ).0,
        match r {
            Some(row) => Some(row@),
            None => None,
        } == inserted_config(
            Registry { rows: models(old(rows)@), last_id: *old(last_id) as int },
            name@,
            kind@,
            meta@,
        ).1,
{
    if *last_id >= i32::MAX {
        return None;
    }
    let id: i32 = *last_id + 1;
    let row = ConfigRow { id, name, kind, meta };
    let stored = row.clone();
    proof {
        lemma_models_push(rows@, stored);
    }
    rows.push(stored);
    *last_id = id;
    Some(row)
}

/// Overwrites the row numbered `id` in a table of registry rows, or
/// writes a new row, with the number after `last_id`, where there is none
/// with that number. The settings are given as the text that is stored.
/// No two rows of the table may have the same number.
pub fn upsert_config(
    rows: &mut Vec<ConfigRow>,
    last_id: &mut i32,
    id: i32,
    name: String,
    kind: String,
    meta: String,
) -> (r: Option<ConfigRow>)
    requires
        crate::relations::unique_by(models(old(rows)@), config_id()),
    ensures
        (Registry { rows: models(final(rows)@), last_id: *final(last_id) as int }) == upserted_config(
            Registry { rows: models(old(rows)@), last_id: *old(last_id) as int },
            id as int,
            name@,
            kind@,
            meta@,
        ).0,
        match r {
            Some(row) => Some(row@),
            None => None,
        } == upserted_config(
            Registry { rows: models(old(rows)@), last_id: *old(last_id) as int },
            id as int,
            name@,
            kind@,
            meta@,
        ).1,
{
    match find_config(rows, id) {
        Some(i) => {
            let row = ConfigRow { id, name, kind, meta };
            let stored = row.clone();
            proof {
                lemma_index_by(models(rows@), config_id(), i as int);
                lemma_models_update(rows@, i as int, stored);
            }
            rows.set(i, stored);
            Some(row)
        },
        None => insert_config(rows, last_id, name, kind, meta),
    }
}

/// The rows with the given client type tag, in their order.
pub(crate) fn select_by_kind(rows: &Vec<ConfigRow>, kind: &String) -> (found: Vec<ConfigRow>)
    ensures
        models(found@) == models(rows@).filter(of_kind(kind@)),
{
    let ghost all = models(rows@);
    let ghost keep = of_kind(kind@);
    let mut found: Vec<ConfigRow> = Vec::new();
    let mut i: usize = 0;
    proof {
        assert(all.take(0).filter(keep) =~= Seq::empty()) by {
            reveal(Seq::filter);
        }
        assert(models(found@) =~= Seq::empty());
    }
    while i < rows.len()
        invariant
            i <= rows.len(),
            all == models(rows@),
            keep == of_kind(kind@),
            models(found@) == all.take(i as int).filter(keep),
        decreases rows.len() - i,
    {
        proof {
            lemma_filter_step(all, keep, i as int);
        }
        if rows[i].kind == *kind {
            let row = rows[i].clone();
            proof {
                lemma_models_push(found@, row);
            }
            found.push(row);
        }
        i += 1;
    }
    assert(all.take(rows.len() as int) =~= all);
    found
}

/// A registry row as it is read: its settings parsed.
#[derive(Debug, PartialEq, Eq)]
pub struct ConfigExData {
    pub id: i32,
    pub name: String,
    /// The tag of the client type the row is, or is for.
    pub kind: String,
    /// The settings of the row.
    pub meta: serde_json::Value,
}

/// The model of a [`ConfigExData`].
pub struct ConfigData {
    pub id: int,
    pub name: Seq<char>,
    pub kind: Seq<char>,
    pub meta: serde_json::Value,
}

impl View for ConfigExData {
    type V = ConfigData;

    open spec fn view(&self) -> ConfigData {
        ConfigData { id: self.id as int, name: self.name@, kind: self.kind@, meta: self.meta }
    }
}

/// A registry row to write.
#[derive(Debug, PartialEq, Eq)]
pub struct CreateConfigData {
    pub name: String,
    /// The tag of the client type the row is, or is for.
    pub kind: String,
    /// The settings of the row.
    pub meta: serde_json::Value,
}

/// The model of a [`CreateConfigData`].
pub struct NewConfig {
    pub name: Seq<char>,
    pub kind: Seq<char>,
    pub meta: serde_json::Value,
}

impl View for CreateConfigData {
    type V = NewConfig;

    open spec fn view(&self) -> NewConfig {
        NewConfig { name: self.name@, kind: self.kind@, meta: self.meta }
    }
}

/// What reading a row gives: the row with its settings parsed, or a
/// format error where its text holds no settings.
pub open spec fn read_config(row: ConfigModel, entity: Entity) -> Result<ConfigData, Failure> {
    match read_settings(row.meta, entity) {
        Ok(meta) => Ok(ConfigData { id: row.id, name: row.name, kind: row.kind, meta }),
        Err(e) => Err(e),
    }
}

/// Whether the text of a row holds settings.
pub open spec fn readable() -> spec_fn(ConfigModel) -> bool {
    |row: ConfigModel| parsed_json(row.meta) is Some
}

/// What reading rows gives: each row with its settings parsed, in their
/// order, or a format error where the text of one holds no settings.
pub open spec fn read_configs(rows: Seq<ConfigModel>, entity: Entity) -> Result<
    Seq<ConfigData>,
    Failure,
> {
    if crate::relations::all(rows, readable()) {
        Ok(
            rows.map_values(
                |row: ConfigModel|
                    ConfigData {
                        id: row.id,
                        name: row.name,
                        kind: row.kind,
                        meta: parsed_json(row.meta)->Some_0,
                    },
            ),
        )
    } else {
        Err(Failure { kind: FailureKind::FormatError, entity })
    }
}

/// What reading the row numbered `id` gives: nothing where there is no
/// such row, and else what reading that row gives.
pub open spec fn read_config_by_id(rows: Seq<ConfigModel>, id: int, entity: Entity) -> Result<
    Option<ConfigData>,
    Failure,
> {
    match find_by(rows, config_id(), id) {
        None => Ok(None),
        Some(row) => match read_config(row, entity) {
            Ok(data) => Ok(Some(data)),
            Err(e) => Err(e),
        },
    }
}

/// What creating a row does to a registry and returns. The settings are
/// written out and read back before the row is written, so a row that
/// could not be read is never stored.
pub open spec fn created_config(registry: Registry, new: NewConfig, entity: Entity) -> (
    Registry,
    Result<ConfigData, Failure>,
) {
    match written_settings(new.meta, entity) {
        Err(e) => (registry, Err(e)),
        Ok(text) => match read_settings(text, entity) {
            Err(e) => (registry, Err(e)),
            Ok(meta) => match inserted_config(registry, new.name, new.kind, text) {
                (after, Some(row)) => (
                    after,
                    Ok(ConfigData { id: row.id, name: row.name, kind: row.kind, meta }),
                ),
                (after, None) => (
                    after,
                    Err(Failure { kind: FailureKind::StoreError, entity }),
                ),
            },
        },
    }
}

/// What overwriting the row numbered `id`, or creating a row where there
/// is none, does to a registry and returns.
pub open spec fn upserted_config_data(registry: Registry, id: int, new: NewConfig, entity: Entity) -> (
    Registry,
    Result<ConfigData, Failure>,
) {
    match written_settings(new.meta, entity) {
        Err(e) => (registry, Err(e)),
        Ok(text) => match read_settings(text, entity) {
            Err(e) => (registry, Err(e)),
            Ok(meta) => match upserted_config(registry, id, new.name, new.kind, text) {
                (after, Some(row)) => (
                    after,
                    Ok(ConfigData { id: row.id, name: row.name, kind: row.kind, meta }),
                ),
                (after, None) => (
                    after,
                    Err(Failure { kind: FailureKind::StoreError, entity }),
                ),
            },
        },
    }
}

/// Creating a row keeps a registry numbered, and every number it had.
pub proof fn lemma_created_config(registry: Registry, new: NewConfig, entity: Entity)
    requires
        numbered(registry.rows, config_id(), registry.last_id),
    ensures
        numbered(
            created_config(registry, new, entity).0.rows,
            config_id(),
            created_config(registry, new, entity).0.last_id,
        ),
        forall|k: int|
            has_key(registry.rows, config_id(), k) ==> has_key(
                created_config(registry, new, entity).0.rows,
                config_id(),
                k,
            ),
{
    match written_settings(new.meta, entity) {
        Err(e) => {},
        Ok(text) => {
            lemma_inserted_config(registry, new.name, new.kind, text);
        },
    }
}

/// Overwriting or creating a row keeps a registry numbered, and every
/// number it had.
pub proof fn lemma_upserted_config_data(registry: Registry, id: int, new: NewConfig, entity: Entity)
    requires
        numbered(registry.rows, config_id(), registry.last_id),
    ensures
        numbered(
            upserted_config_data(registry, id, new, entity).0.rows,
            config_id(),
            upserted_config_data(registry, id, new, entity).0.last_id,
        ),
        forall|k: int|
            has_key(registry.rows, config_id(), k) ==> has_key(
                upserted_config_data(registry, id, new, entity).0.rows,
                config_id(),
                k,
            ),
{
    match written_settings(new.meta, entity) {
        Err(e) => {},
        Ok(text) => {
            lemma_upserted_config(registry, id, new.name, new.kind, text);
        },
    }
}

/// The model of what reading or writing one row returned.
pub open spec fn one_read(r: Result<ConfigExData, Failure>) -> Result<ConfigData, Failure> {
    match r {
        Ok(read) => Ok(read@),
        Err(e) => Err(e),
    }
}

/// The model of what looking one row up returned.
pub open spec fn maybe_read(r: Result<Option<ConfigExData>, Failure>) -> Result<
    Option<ConfigData>,
    Failure,
> {
    match r {
        Ok(Some(read)) => Ok(Some(read@)),
        Ok(None) => Ok(None),
        Err(e) => Err(e),
    }
}

/// The model of what reading rows returned.
pub open spec fn all_read(r: Result<Vec<ConfigExData>, Failure>) -> Result<
    Seq<ConfigData>,
    Failure,
> {
    match r {
        Ok(read) => Ok(models(read@)),
        Err(e) => Err(e),
    }
}

impl ConfigExData {
    /// Reads a row: parses its settings. Text that holds no settings is a
    /// format error about `entity`.
    pub fn from_data(data: ConfigRow, entity: Entity) -> (r: Result<ConfigExData, Failure>)
        ensures
            match r {
                Ok(read) => Ok::<ConfigData, Failure>(read@),
                Err(e) => Err(e),
            } == read_config(data@, entity),
    {
        match parse_settings(data.meta.as_str(), entity) {
            Ok(meta) => Ok(ConfigExData { id: data.id, name: data.name, kind: data.kind, meta }),
            Err(e) => Err(e),
        }
    }
}

/// Reads rows, in their order.
pub(crate) fn read_rows(rows: &Vec<ConfigRow>, entity: Entity) -> (r: Result<
    Vec<ConfigExData>,
    Failure,
>)
    ensures
        match r {
            Ok(read) => Ok::<Seq<ConfigData>, Failure>(models(read@)),
            Err(e) => Err(e),
        } == read_configs(models(rows@), entity),
{
    let ghost all = models(rows@);
    let mut read: Vec<ConfigExData> = Vec::new();
    let mut i: usize = 0;
    while i < rows.len()
        invariant
            i <= rows.len(),
            all == models(rows@),
            read@.len() == i,
            forall|j: int| 0 <= j < i ==> readable()(#[trigger] all[j]),
            forall|j: int|
                0 <= j < i ==> (#[trigger] read@[j])@ == (ConfigData {
                    id: all[j].id,
                    name: all[j].name,
                    kind: all[j].kind,
                    meta: parsed_json(all[j].meta)->Some_0,
                }),
        decreases rows.len() - i,
    {
        match ConfigExData::from_data(rows[i].clone(), entity) {
            Ok(data) => {
                read.push(data);
            },
            Err(e) => {
                assert(!readable()(all[i as int]));
                return Err(e);
            },
        }
        i += 1;
    }
    proof {
        let expected = read_configs(all, entity);
        assert(expected is Ok);
        assert(models(read@) =~= expected->Ok_0);
    }
    Ok(read)
}

/// Reads the row numbered `id`, if there is one.
pub(crate) fn read_row_by_id(rows: &Vec<ConfigRow>, id: i32, entity: Entity) -> (r: Result<
    Option<ConfigExData>,
    Failure,
>)
    requires
        crate::relations::unique_by(models(rows@), config_id()),
    ensures
        match r {
            Ok(Some(read)) => Ok::<Option<ConfigData>, Failure>(Some(read@)),
            Ok(None) => Ok(None),
            Err(e) => Err(e),
        } == read_config_by_id(models(rows@), id as int, entity),
{
    match find_config(rows, id) {
        None => Ok(None),
        Some(i) => {
            proof {
                lemma_index_by(models(rows@), config_id(), i as int);
            }
            match ConfigExData::from_data(rows[i].clone(), entity) {
                Ok(data) => Ok(Some(data)),
                Err(e) => Err(e),
            }
        },
    }
}

/// Creates a row from settings that can be written out and read back.
pub(crate) fn create_row(
    rows: &mut Vec<ConfigRow>,
    last_id: &mut i32,
    data: CreateConfigData,
    entity: Entity,
) -> (r: Result<ConfigExData, Failure>)
    requires
        numbered(models(old(rows)@), config_id(), *old(last_id) as int),
    ensures
        (Registry { rows: models(final(rows)@), last_id: *final(last_id) as int }) == created_config(
            Registry { rows: models(old(rows)@), last_id: *old(last_id) as int },
            data@,
            entity,
        ).0,
        match r {
            Ok(read) => Ok::<ConfigData, Failure>(read@),
            Err(e) => Err(e),
        } == created_config(
            Registry { rows: models(old(rows)@), last_id: *old(last_id) as int },
            data@,
            entity,
        ).1,
{
    let text = match write_settings(&data.meta, entity) {
        Ok(text) => text,
        Err(e) => {
            return Err(e);
        },
    };
    let meta = match parse_settings(text.as_str(), entity) {
        Ok(meta) => meta,
        Err(e) => {
            return Err(e);
        },
    };
    match insert_config(rows, last_id, data.name, data.kind, text) {
        Some(row) => Ok(ConfigExData { id: row.id, name: row.name, kind: row.kind, meta }),
        None => Err(Failure::new(FailureKind::StoreError, entity)),
    }
}

/// Overwrites the row numbered `id`, or creates a row where there is
/// none, from settings that can be written out and read back.
pub(crate) fn upsert_row(
    rows: &mut Vec<ConfigRow>,
    last_id: &mut i32,
    id: i32,
    data: CreateConfigData,
    entity: Entity,
) -> (r: Result<ConfigExData, Failure>)
    requires
        numbered(models(old(rows)@), config_id(), *old(last_id) as int),
    ensures
        (Registry { rows: models(final(rows)@), last_id: *final(last_id) as int })
            == upserted_config_data(
            Registry { rows: models(old(rows)@), last_id: *old(last_id) as int },
            id as int,
            data@,
            entity,
        ).0,
        match r {
            Ok(read) => Ok::<ConfigData, Failure>(read@),
            Err(e) => Err(e),
        } == upserted_config_data(
            Registry { rows: models(old(rows)@), last_id: *old(last_id) as int },
            id as int,
            data@,
            entity,
        ).1,
{
    let text = match write_settings(&data.meta, entity) {
        Ok(text) => text,
        Err(e) => {
            return Err(e);
        },
    };
    let meta = match parse_settings(text.as_str(), entity) {
        Ok(meta) => meta,
        Err(e) => {
            return Err(e);
        },
    };
    match upsert_config(rows, last_id, id, data.name, data.kind, text) {
        Some(row) => Ok(ConfigExData { id: row.id, name: row.name, kind: row.kind, meta }),
        None => Err(Failure::new(FailureKind::StoreError, entity)),
    }
}

} // verus!
