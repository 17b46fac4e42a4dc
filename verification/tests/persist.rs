use schema_query::coercion::parse_json;
use schema_query::json::{JsonValue, Member};
use schema_query::schema::{ColumnInfo, DatabaseSchema, EnumInfo, TableInfo};

fn saved_column(name: &str, sql_type: &str, nullable: bool, primary: bool) -> ColumnInfo {
    ColumnInfo {
        name: name.to_string(),
        sql_type: sql_type.to_string(),
        is_nullable: nullable,
        is_primary: primary,
        default_value: None,
        enum_values: None,
    }
}

fn saved_catalog() -> DatabaseSchema {
    let mut status = saved_column("status", "device_status", false, false);
    status.enum_values = Some(vec!["healthy".to_string(), "broken".to_string()]);
    let mut id = saved_column("id", "uuid", false, true);
    id.default_value = Some("gen_random_uuid()".to_string());
    DatabaseSchema {
        tables: vec![
            TableInfo {
                name: "labs".to_string(),
                schema: "public".to_string(),
                columns: vec![id, saved_column("name", "text", true, false), status],
                primary_keys: vec!["id".to_string()],
            },
            TableInfo {
                name: "events".to_string(),
                schema: "audit".to_string(),
                columns: vec![saved_column("seq", "bigint", false, true)],
                primary_keys: vec!["seq".to_string()],
            },
            TableInfo {
                name: "empty".to_string(),
                schema: "public".to_string(),
                columns: Vec::new(),
                primary_keys: Vec::new(),
            },
        ],
        enums: vec![EnumInfo {
            name: "device_status".to_string(),
            values: vec!["healthy".to_string(), "broken".to_string()],
        }],
        version: "PostgreSQL 16.2".to_string(),
    }
}

fn as_serde(value: &JsonValue) -> serde_json::Value {
    match value {
        JsonValue::Null => serde_json::Value::Null,
        JsonValue::Bool(b) => serde_json::Value::Bool(*b),
        JsonValue::Int(i) => serde_json::Value::Number((*i).into()),
        JsonValue::Float(bits) => serde_json::Number::from_f64(f64::from_bits(*bits))
            .map(serde_json::Value::Number)
            .unwrap_or(serde_json::Value::Null),
        JsonValue::Str(s) => serde_json::Value::String(s.clone()),
        JsonValue::Array(items) => serde_json::Value::Array(items.iter().map(as_serde).collect()),
        JsonValue::Object(members) => {
            let mut map = serde_json::Map::new();
            for member in members {
                map.insert(member.key.clone(), as_serde(&member.value));
            }
            serde_json::Value::Object(map)
        }
    }
}

fn keys_of(value: &JsonValue) -> Vec<String> {
    match value {
        JsonValue::Object(members) => members.iter().map(|m| m.key.clone()).collect(),
        _ => Vec::new(),
    }
}

fn under<'a>(value: &'a JsonValue, key: &str) -> &'a JsonValue {
    match value {
        JsonValue::Object(members) => &members.iter().rev().find(|m| m.key == key).unwrap().value,
        _ => panic!("not an object"),
    }
}

#[test]
fn saved_form_has_tables_under_both_names() {
    let saved = saved_catalog().to_json();
    assert_eq!(keys_of(&saved), vec!["tables", "enums", "version"]);
    assert_eq!(
        keys_of(under(&saved, "tables")),
        vec!["public.labs", "labs", "audit.events", "events", "public.empty", "empty"]
    );
    assert_eq!(under(under(&saved, "tables"), "labs"), under(under(&saved, "tables"), "public.labs"));
    assert_eq!(keys_of(under(&saved, "enums")), vec!["device_status"]);
    assert_eq!(under(&saved, "version"), &JsonValue::Str("PostgreSQL 16.2".to_string()));
    let labs = under(under(&saved, "tables"), "labs");
    assert_eq!(keys_of(labs), vec!["name", "schema", "columns", "primary_keys"]);
    assert_eq!(under(labs, "primary_keys"), &JsonValue::Array(vec![JsonValue::Str("id".to_string())]));
    let id = match under(labs, "columns") {
        JsonValue::Array(items) => &items[0],
        _ => panic!("columns is no array"),
    };
    assert_eq!(
        id,
        &JsonValue::Object(vec![
            Member { key: "name".to_string(), value: JsonValue::Str("id".to_string()) },
            Member { key: "sql_type".to_string(), value: JsonValue::Str("uuid".to_string()) },
            Member { key: "is_nullable".to_string(), value: JsonValue::Bool(false) },
            Member { key: "is_primary".to_string(), value: JsonValue::Bool(true) },
            Member { key: "default_value".to_string(), value: JsonValue::Str("gen_random_uuid()".to_string()) },
            Member { key: "enum_values".to_string(), value: JsonValue::Null },
        ])
    );
}

#[test]
fn save_then_load_gives_the_catalog_back() {
    let catalog = saved_catalog();
    assert_eq!(DatabaseSchema::from_json(&catalog.to_json()), Some(saved_catalog()));
    let empty = DatabaseSchema { tables: Vec::new(), enums: Vec::new(), version: String::new() };
    assert_eq!(
        DatabaseSchema::from_json(&empty.to_json()),
        Some(DatabaseSchema { tables: Vec::new(), enums: Vec::new(), version: String::new() })
    );
}

#[test]
fn save_then_load_through_text_preserves_every_table() {
    let catalog = saved_catalog();
    let text = serde_json::to_string_pretty(&as_serde(&catalog.to_json())).unwrap();
    let loaded = DatabaseSchema::load_from_text(&text).unwrap();
    assert_eq!(loaded.version, catalog.version);
    assert_eq!(loaded.enums, catalog.enums);
    assert_eq!(loaded.tables.len(), catalog.tables.len());
    for table in &catalog.tables {
        let key = format!("{}.{}", table.schema, table.name);
        let again = loaded.table(&key).unwrap();
        assert_eq!(again.columns, table.columns);
        assert_eq!(again.primary_keys, table.primary_keys);
        assert_eq!(again, table);
        assert_eq!(loaded.table(&table.name).unwrap(), table);
    }
}

#[test]
fn load_rejects_what_is_no_catalog() {
    assert_eq!(DatabaseSchema::load_from_text("not json"), None);
    assert_eq!(DatabaseSchema::load_from_text("[]"), None);
    assert_eq!(DatabaseSchema::load_from_text("{}"), None);
    assert_eq!(DatabaseSchema::load_from_text("{\"tables\": {}, \"enums\": {}}"), None);
    assert_eq!(DatabaseSchema::load_from_text("{\"tables\": [], \"enums\": {}, \"version\": \"v\"}"), None);
    assert_eq!(
        DatabaseSchema::load_from_text("{\"tables\": {\"t\": 1}, \"enums\": {}, \"version\": \"v\"}"),
        None
    );
    assert_eq!(
        DatabaseSchema::load_from_text("{\"tables\": {}, \"enums\": {\"e\": {\"name\": \"e\"}}, \"version\": \"v\"}"),
        None
    );
    assert_eq!(
        DatabaseSchema::load_from_text("{\"tables\": {}, \"enums\": {}, \"version\": \"v\"}"),
        Some(DatabaseSchema { tables: Vec::new(), enums: Vec::new(), version: "v".to_string() })
    );
    assert_eq!(DatabaseSchema::from_json(&JsonValue::Null), None);
}

#[test]
fn load_takes_optional_fields_as_absent() {
    let text = "{\"version\": \"v\", \"enums\": {}, \"tables\": {\"s.t\": {\"name\": \"t\", \"schema\": \"s\", \
\"primary_keys\": [], \"columns\": [{\"name\": \"c\", \"sql_type\": \"text\", \"is_nullable\": true, \"is_primary\": false}]}, \
\"t\": {\"name\": \"t\", \"schema\": \"s\", \"primary_keys\": [], \"columns\": []}}}";
    let loaded = DatabaseSchema::load_from_text(text).unwrap();
    assert_eq!(loaded.tables.len(), 1);
    assert_eq!(loaded.tables[0].columns, vec![saved_column("c", "text", true, false)]);
    let wrong = text.replace("\"is_nullable\": true", "\"is_nullable\": \"yes\"");
    assert_eq!(DatabaseSchema::load_from_text(&wrong), None);
    assert!(parse_json(&wrong).is_some());
}
