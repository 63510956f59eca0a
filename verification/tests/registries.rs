use docstore::error::{Entity, Failure, FailureKind};
use docstore::json::{parse_settings, write_settings};
use docstore::rows::ConfigRow;
use docstore::store::registry::{insert_config, upsert_config};
use docstore::store::embeddings_clients::{
    create_embeddings_client, get_embeddings_client_by_id, get_embeddings_clients,
    upsert_embeddings_client, CreateEmbeddingsClientData, EmbeddingsClientExData,
};
use docstore::store::embeddings_configs::{
    create_embeddings_config, get_embeddings_config_by_id, get_embeddings_configs,
    get_embeddings_configs_by_client_type, upsert_embeddings_config, CreateEmbeddingsConfigData,
    EmbeddingsConfigExData,
};
use docstore::store::vector_db_clients::{
    create_vector_db_client, get_vector_db_client_by_id, get_vector_db_clients,
    upsert_vector_db_client, CreateVectorDbClientData, VectorDbClientExData,
};
use docstore::store::vector_db_configs::{
    create_vector_db_config, get_vector_db_config_by_id, get_vector_db_configs,
    get_vector_db_configs_by_client_type, upsert_vector_db_config, CreateVectorDbData,
};
use docstore::store::Store;

fn json(text: &str) -> serde_json::Value {
    serde_json::from_str(text).unwrap()
}

fn client(name: &str, kind: &str, meta: &str) -> CreateEmbeddingsClientData {
    CreateEmbeddingsClientData { name: name.to_string(), kind: kind.to_string(), meta: json(meta) }
}

#[test]
fn settings_are_parsed_from_their_text() {
    let value = parse_settings("{\"model\": \"ada\", \"dim\": 3}", Entity::EmbeddingsConfig).unwrap();
    assert_eq!(value["model"], serde_json::Value::from("ada"));
    assert_eq!(value["dim"], serde_json::Value::from(3));
    assert!(value.is_object());
    assert_eq!(parse_settings("null", Entity::EmbeddingsConfig), Ok(serde_json::Value::Null));
    assert_eq!(
        parse_settings(" [1, 2.5, \"x\", true] ", Entity::EmbeddingsConfig),
        Ok(json("[1,2.5,\"x\",true]"))
    );
}

#[test]
fn text_that_holds_no_settings_is_a_format_error() {
    for text in ["", "{", "{\"a\":}", "nul", "[1,]", "{\"a\":1} x"] {
        assert_eq!(
            parse_settings(text, Entity::VectorDbClient),
            Err(Failure { kind: FailureKind::FormatError, entity: Entity::VectorDbClient })
        );
    }
}

#[test]
fn settings_are_written_out_as_text() {
    assert_eq!(
        write_settings(&json("{ \"b\" : [1, 2], \"a\" : null }"), Entity::EmbeddingsClient),
        Ok("{\"a\":null,\"b\":[1,2]}".to_string())
    );
    assert_eq!(write_settings(&serde_json::Value::Null, Entity::EmbeddingsClient), Ok("null".to_string()));
    assert_eq!(
        write_settings(&serde_json::Value::from("a \"quoted\" text"), Entity::EmbeddingsClient),
        Ok("\"a \\\"quoted\\\" text\"".to_string())
    );
}

#[test]
fn a_row_is_read_with_its_settings_parsed() {
    let row = ConfigRow {
        id: 3,
        name: "n".to_string(),
        kind: "openai".to_string(),
        meta: "{\"key\": [1, 2]}".to_string(),
    };
    let read = EmbeddingsClientExData::from_data(row, Entity::EmbeddingsClient).unwrap();
    assert_eq!(read.id, 3);
    assert_eq!(read.name, "n");
    assert_eq!(read.kind, "openai");
    assert_eq!(read.meta, json("{\"key\":[1,2]}"));
}

#[test]
fn a_row_whose_text_is_corrupt_is_a_format_error() {
    let row = ConfigRow {
        id: 3,
        name: "n".to_string(),
        kind: "openai".to_string(),
        meta: "{corrupt".to_string(),
    };
    assert_eq!(
        EmbeddingsConfigExData::from_data(row, Entity::EmbeddingsConfig),
        Err(Failure { kind: FailureKind::FormatError, entity: Entity::EmbeddingsConfig })
    );
}

#[test]
fn rows_are_written_with_their_settings_as_text() {
    let mut rows: Vec<ConfigRow> = Vec::new();
    let mut last_id = 0;
    let a = insert_config(&mut rows, &mut last_id, "a".to_string(), "k".to_string(), "{}".to_string())
        .unwrap();
    let b = insert_config(&mut rows, &mut last_id, "b".to_string(), "k".to_string(), "[1]".to_string())
        .unwrap();
    assert_eq!((a.id, b.id, last_id), (1, 2, 2));
    assert_eq!(rows.len(), 2);
    assert_eq!(rows[1], ConfigRow { id: 2, name: "b".to_string(), kind: "k".to_string(), meta: "[1]".to_string() });
    // A number that is there is overwritten in place.
    let changed =
        upsert_config(&mut rows, &mut last_id, 1, "a2".to_string(), "k2".to_string(), "null".to_string())
            .unwrap();
    assert_eq!(changed, ConfigRow { id: 1, name: "a2".to_string(), kind: "k2".to_string(), meta: "null".to_string() });
    assert_eq!(rows.len(), 2);
    assert_eq!(rows[0], changed);
    assert_eq!(last_id, 2);
    // A number that is not there gives a new row with the next number.
    let made =
        upsert_config(&mut rows, &mut last_id, 9, "c".to_string(), "k".to_string(), "0".to_string())
            .unwrap();
    assert_eq!(made.id, 3);
    assert_eq!((rows.len(), last_id), (3, 3));
}

#[test]
fn no_row_is_written_when_the_numbers_have_run_out() {
    let mut rows: Vec<ConfigRow> = Vec::new();
    let mut last_id = i32::MAX - 1;
    let last =
        insert_config(&mut rows, &mut last_id, "a".to_string(), "k".to_string(), "{}".to_string())
            .unwrap();
    assert_eq!(last.id, i32::MAX);
    assert_eq!(
        insert_config(&mut rows, &mut last_id, "b".to_string(), "k".to_string(), "{}".to_string()),
        None
    );
    assert_eq!(
        upsert_config(&mut rows, &mut last_id, 5, "b".to_string(), "k".to_string(), "{}".to_string()),
        None
    );
    assert_eq!((rows.len(), last_id), (1, i32::MAX));
}

#[test]
fn embeddings_clients_are_created_read_and_overwritten() {
    let mut db = Store::new();
    assert_eq!(get_embeddings_clients(&db), Ok(vec![]));
    assert_eq!(get_embeddings_client_by_id(&db, 1), Ok(None));
    let a = create_embeddings_client(&mut db, client("a", "openai", "{\"k\": 1}")).unwrap();
    let b = create_embeddings_client(&mut db, client("b", "local", "[]")).unwrap();
    assert_eq!((a.id, b.id), (1, 2));
    assert_eq!(a.meta, json("{\"k\":1}"));
    assert_eq!(get_embeddings_client_by_id(&db, 2).unwrap().unwrap().name, "b");
    let changed = upsert_embeddings_client(&mut db, 1, client("a2", "openai", "{\"k\": 2}")).unwrap();
    assert_eq!(changed.id, 1);
    assert_eq!(changed.name, "a2");
    let all = get_embeddings_clients(&db).unwrap();
    assert_eq!(all.len(), 2);
    assert_eq!(all[0].name, "a2");
    assert_eq!(all[0].meta, json("{\"k\":2}"));
    assert_eq!(all[1].name, "b");
}

#[test]
fn upsert_under_a_number_that_is_not_there_creates_with_the_next_number() {
    let mut db = Store::new();
    let made = upsert_embeddings_client(&mut db, 40, client("a", "openai", "{}")).unwrap();
    assert_eq!(made.id, 1);
    assert_eq!(get_embeddings_client_by_id(&db, 40), Ok(None));
    assert_eq!(get_embeddings_clients(&db).unwrap().len(), 1);
}

#[test]
fn embeddings_configs_are_listed_by_client_type() {
    let mut db = Store::new();
    let config = |name: &str, kind: &str| CreateEmbeddingsConfigData {
        name: name.to_string(),
        kind: kind.to_string(),
        meta: json("{\"dim\": 3}"),
    };
    create_embeddings_config(&mut db, config("a", "openai")).unwrap();
    create_embeddings_config(&mut db, config("b", "local")).unwrap();
    create_embeddings_config(&mut db, config("c", "openai")).unwrap();
    let openai = get_embeddings_configs_by_client_type(&db, "openai".to_string()).unwrap();
    let names: Vec<&str> = openai.iter().map(|c| c.name.as_str()).collect();
    assert_eq!(names, vec!["a", "c"]);
    assert_eq!(get_embeddings_configs_by_client_type(&db, "none".to_string()), Ok(vec![]));
    assert_eq!(get_embeddings_configs(&db).unwrap().len(), 3);
    assert_eq!(get_embeddings_config_by_id(&db, 3).unwrap().unwrap().name, "c");
    let changed = upsert_embeddings_config(&mut db, 2, config("b2", "openai")).unwrap();
    assert_eq!(changed.id, 2);
    assert_eq!(get_embeddings_configs_by_client_type(&db, "openai".to_string()).unwrap().len(), 3);
}

#[test]
fn vector_db_registries_keep_their_own_numbers() {
    let mut db = Store::new();
    let c = create_vector_db_client(
        &mut db,
        CreateVectorDbClientData { name: "qdrant".to_string(), kind: "qdrant".to_string(), meta: json("{}") },
    )
    .unwrap();
    let g = create_vector_db_config(
        &mut db,
        CreateVectorDbData { name: "cfg".to_string(), kind: "qdrant".to_string(), meta: json("{\"url\": \"x\"}") },
    )
    .unwrap();
    assert_eq!((c.id, g.id), (1, 1));
    assert_eq!(get_vector_db_clients(&db).unwrap().len(), 1);
    assert_eq!(get_vector_db_configs(&db).unwrap().len(), 1);
    let read: VectorDbClientExData = get_vector_db_client_by_id(&db, 1).unwrap().unwrap();
    assert_eq!(read.name, "qdrant");
    assert_eq!(get_vector_db_config_by_id(&db, 1).unwrap().unwrap().meta, json("{\"url\":\"x\"}"));
    assert_eq!(get_vector_db_config_by_id(&db, 2), Ok(None));
    let changed = upsert_vector_db_client(
        &mut db,
        1,
        CreateVectorDbClientData { name: "q2".to_string(), kind: "qdrant".to_string(), meta: json("1") },
    )
    .unwrap();
    assert_eq!(changed.name, "q2");
    let made = upsert_vector_db_config(
        &mut db,
        9,
        CreateVectorDbData { name: "n".to_string(), kind: "k".to_string(), meta: json("2") },
    )
    .unwrap();
    assert_eq!(made.id, 2);
    let listed = get_vector_db_configs_by_client_type(&db, "k".to_string()).unwrap();
    assert_eq!(listed.len(), 1);
    assert_eq!(listed[0].name, "n");
    assert_eq!(get_vector_db_configs_by_client_type(&db, "none".to_string()), Ok(vec![]));
}
