use schema_query::builder::{BindValue, JoinType, QueryBuilder};
use schema_query::json::{JsonValue, Member};
use schema_query::schema::{ColumnInfo, DatabaseSchema, TableInfo};

fn plain_column(name: &str, sql_type: &str, nullable: bool, primary: bool) -> ColumnInfo {
    ColumnInfo {
        name: name.to_string(),
        sql_type: sql_type.to_string(),
        is_nullable: nullable,
        is_primary: primary,
        default_value: None,
        enum_values: None,
    }
}

fn labs_catalog() -> DatabaseSchema {
    DatabaseSchema {
        tables: vec![
            TableInfo {
                name: "labs".to_string(),
                schema: "public".to_string(),
                columns: vec![plain_column("id", "uuid", false, true), plain_column("name", "text", true, false)],
                primary_keys: vec!["id".to_string()],
            },
            TableInfo {
                name: "notes".to_string(),
                schema: "public".to_string(),
                columns: vec![
                    plain_column("id", "integer", false, true),
                    plain_column("name", "text", false, false),
                    plain_column("note", "text", true, false),
                ],
                primary_keys: vec!["id".to_string()],
            },
        ],
        enums: Vec::new(),
        version: String::new(),
    }
}

fn object(members: Vec<(&str, JsonValue)>) -> JsonValue {
    JsonValue::Object(members.into_iter().map(|(k, v)| Member { key: k.to_string(), value: v }).collect())
}

const LAB_ID: u128 = 0x550e8400e29b41d4a716446655440000;

#[test]
fn select_by_primary_key() {
    let catalog = labs_catalog();
    let (sql, params) = QueryBuilder::new(&catalog, "labs")
        .unwrap()
        .where_eq("id", Some(BindValue::Uuid(LAB_ID)))
        .build_select();
    assert_eq!(sql, "SELECT labs.* FROM labs WHERE labs.id = $1");
    assert_eq!(params, vec![BindValue::Uuid(LAB_ID)]);
}

#[test]
fn new_fails_on_an_unknown_table() {
    let catalog = labs_catalog();
    assert!(QueryBuilder::new(&catalog, "devices").is_none());
    assert!(QueryBuilder::new(&catalog, "public.labs").is_some());
    assert!(QueryBuilder::new(&catalog, "labs").is_some());
    assert!(QueryBuilder::new(&catalog, "").is_none());
}

#[test]
fn a_plain_builder_has_no_where() {
    let catalog = labs_catalog();
    let (sql, params) = QueryBuilder::new(&catalog, "labs").unwrap().build_select();
    assert_eq!(sql, "SELECT labs.* FROM labs");
    assert!(params.is_empty());
    let (sql, params) = QueryBuilder::new(&catalog, "labs").unwrap().limit(10).offset(20).build_select();
    assert_eq!(sql, "SELECT labs.* FROM labs LIMIT 10 OFFSET 20");
    assert!(!sql.contains("WHERE"));
    assert!(params.is_empty());
    let (sql, _) = QueryBuilder::new(&catalog, "labs").unwrap().offset(5).build_select();
    assert_eq!(sql, "SELECT labs.* FROM labs OFFSET 5");
    let (sql, _) = QueryBuilder::new(&catalog, "labs").unwrap().limit(-1).build_select();
    assert_eq!(sql, "SELECT labs.* FROM labs LIMIT -1");
}

#[test]
fn where_eq_without_a_value_tests_for_null() {
    let catalog = labs_catalog();
    let (sql, params) = QueryBuilder::new(&catalog, "labs").unwrap().where_eq("name", None).build_select();
    assert_eq!(sql, "SELECT labs.* FROM labs WHERE labs.name IS NULL");
    assert_eq!(params.len(), 0);
}

#[test]
fn where_eq_with_a_value_binds_it() {
    let catalog = labs_catalog();
    let (sql, params) = QueryBuilder::new(&catalog, "labs")
        .unwrap()
        .where_eq("name", Some(BindValue::Text("x".to_string())))
        .build_select();
    assert_eq!(sql, "SELECT labs.* FROM labs WHERE labs.name = $1");
    assert_eq!(sql.matches('=').count(), 1);
    assert_eq!(params, vec![BindValue::Text("x".to_string())]);
}

#[test]
fn placeholders_count_bound_values_only() {
    let catalog = labs_catalog();
    let (sql, params) = QueryBuilder::new(&catalog, "labs")
        .unwrap()
        .where_eq("name", None)
        .where_eq("id", Some(BindValue::Uuid(LAB_ID)))
        .where_eq("age", Some(BindValue::Int(3)))
        .build_select();
    assert_eq!(
        sql,
        "SELECT labs.* FROM labs WHERE labs.name IS NULL AND labs.id = $1 AND labs.age = $2"
    );
    assert_eq!(params, vec![BindValue::Uuid(LAB_ID), BindValue::Int(3)]);
}

#[test]
fn where_in_binds_one_parameter_for_each_value() {
    let catalog = labs_catalog();
    let (sql, params) = QueryBuilder::new(&catalog, "labs")
        .unwrap()
        .where_eq("name", Some(BindValue::Text("x".to_string())))
        .where_in("id", vec![BindValue::Int(1), BindValue::Int(2), BindValue::Int(3)])
        .build_select();
    assert_eq!(sql, "SELECT labs.* FROM labs WHERE labs.name = $1 AND id IN ($2, $3, $4)");
    assert_eq!(
        params,
        vec![BindValue::Text("x".to_string()), BindValue::Int(1), BindValue::Int(2), BindValue::Int(3)]
    );
    let (sql, params) =
        QueryBuilder::new(&catalog, "labs").unwrap().where_in("id", vec![BindValue::Int(9)]).build_select();
    assert_eq!(sql, "SELECT labs.* FROM labs WHERE id IN ($1)");
    assert_eq!(params, vec![BindValue::Int(9)]);
}

#[test]
fn select_qualifies_bare_names() {
    let catalog = labs_catalog();
    let (sql, _) = QueryBuilder::new(&catalog, "labs")
        .unwrap()
        .select(&["id", "notes.name", "count(x) AS total", "name as n", "basic"])
        .build_select();
    assert_eq!(sql, "SELECT labs.id, notes.name, count(x) AS total, name as n, labs.basic FROM labs");
    let (sql, _) = QueryBuilder::new(&catalog, "labs").unwrap().select(&[]).build_select();
    assert_eq!(sql, "SELECT  FROM labs");
}

#[test]
fn joins_are_single_equalities_on_the_base_table() {
    let catalog = labs_catalog();
    let (sql, params) = QueryBuilder::new(&catalog, "labs")
        .unwrap()
        .inner_join("notes", "id", "lab_id", None)
        .left_join("users", "owner_id", "id", Some("u".to_string()))
        .where_eq("id", Some(BindValue::Int(1)))
        .order_by("name", true)
        .order_by("id", false)
        .limit(5)
        .build_select();
    assert_eq!(
        sql,
        "SELECT labs.*, notes.*, u.* FROM labs INNER JOIN notes ON labs.id = notes.lab_id \
LEFT JOIN users AS u ON labs.owner_id = u.id WHERE labs.id = $1 ORDER BY labs.name ASC, labs.id DESC LIMIT 5"
    );
    assert_eq!(params, vec![BindValue::Int(1)]);
}

#[test]
fn builder_state_is_readable() {
    let catalog = labs_catalog();
    let builder = QueryBuilder::new(&catalog, "labs").unwrap().left_join("notes", "id", "lab_id", None);
    assert_eq!(builder.table, "labs");
    assert_eq!(builder.joins.len(), 1);
    assert_eq!(builder.joins[0].kind, JoinType::Left);
    assert_eq!(builder.joins[0].alias, None);
    assert_eq!(builder.get_column_type("id"), Some("uuid".to_string()));
    assert_eq!(builder.get_column_type("name"), Some("text".to_string()));
    assert_eq!(builder.get_column_type("missing"), None);
}

#[test]
fn insert_omits_null_keys() {
    let catalog = labs_catalog();
    let value = object(vec![("name", JsonValue::Str("x".to_string())), ("note", JsonValue::Null)]);
    let (sql, params) = QueryBuilder::build_insert(&value, &catalog, "notes").unwrap();
    assert_eq!(sql, "INSERT INTO public.notes (name) VALUES ($1)");
    assert!(!sql.contains("note,") && !sql.contains("NULL"));
    assert_eq!(params, vec![BindValue::Text("x".to_string())]);
}

#[test]
fn insert_follows_catalog_order() {
    let catalog = labs_catalog();
    let value = object(vec![
        ("note", JsonValue::Str("n".to_string())),
        ("unknown", JsonValue::Int(1)),
        ("id", JsonValue::Int(7)),
        ("name", JsonValue::Bool(true)),
    ]);
    let (sql, params) = QueryBuilder::build_insert(&value, &catalog, "notes").unwrap();
    assert_eq!(sql, "INSERT INTO public.notes (id, name, note) VALUES ($1, $2, $3)");
    assert_eq!(
        params,
        vec![BindValue::Int(7), BindValue::Bool(true), BindValue::Text("n".to_string())]
    );
}

#[test]
fn insert_skips_values_without_a_scalar_shape() {
    let catalog = labs_catalog();
    let value = object(vec![
        ("id", JsonValue::Array(vec![JsonValue::Int(1)])),
        ("name", object(vec![("a", JsonValue::Int(1))])),
        ("note", JsonValue::Float(0x3ff8000000000000)),
    ]);
    let (sql, params) = QueryBuilder::build_insert(&value, &catalog, "notes").unwrap();
    assert_eq!(sql, "INSERT INTO public.notes (note) VALUES ($1)");
    assert_eq!(params, vec![BindValue::Float(0x3ff8000000000000)]);
}

#[test]
fn insert_with_nothing_to_write() {
    let catalog = labs_catalog();
    let (sql, params) = QueryBuilder::build_insert(&object(Vec::new()), &catalog, "labs").unwrap();
    assert_eq!(sql, "INSERT INTO public.labs () VALUES ()");
    assert!(params.is_empty());
}

#[test]
fn insert_fails_without_a_table_or_an_object() {
    let catalog = labs_catalog();
    let value = object(vec![("name", JsonValue::Str("x".to_string()))]);
    assert_eq!(QueryBuilder::build_insert(&value, &catalog, "devices"), None);
    assert_eq!(QueryBuilder::build_insert(&JsonValue::Int(1), &catalog, "labs"), None);
    assert_eq!(QueryBuilder::build_insert(&JsonValue::Array(Vec::new()), &catalog, "labs"), None);
    assert!(QueryBuilder::build_insert(&value, &catalog, "public.labs").is_some());
}

#[test]
fn insert_takes_the_last_of_a_repeated_key() {
    let catalog = labs_catalog();
    let value = object(vec![("name", JsonValue::Str("first".to_string())), ("name", JsonValue::Null)]);
    let (sql, params) = QueryBuilder::build_insert(&value, &catalog, "labs").unwrap();
    assert_eq!(sql, "INSERT INTO public.labs () VALUES ()");
    assert!(params.is_empty());
}
