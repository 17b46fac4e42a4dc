use schema_query::builder::{BindValue, OrderEntry};
use schema_query::json::{JsonValue, Member};
use schema_query::requests::{
    plan_insert, plan_query, raw_params, text_filter_param, CommandError, DatabaseConfig, Filter,
    InsertParams, JoinParams, PostgresEnum, QueryParams, RawQueryParams,
};
use schema_query::schema::{ColumnInfo, DatabaseSchema, TableInfo};

fn col(name: &str, sql_type: &str) -> ColumnInfo {
    ColumnInfo {
        name: name.to_string(),
        sql_type: sql_type.to_string(),
        is_nullable: true,
        is_primary: false,
        default_value: None,
        enum_values: None,
    }
}

fn catalog() -> DatabaseSchema {
    DatabaseSchema {
        tables: vec![TableInfo {
            name: "labs".to_string(),
            schema: "public".to_string(),
            columns: vec![col("id", "uuid"), col("name", "text")],
            primary_keys: Vec::new(),
        }],
        enums: Vec::new(),
        version: String::new(),
    }
}

fn query(table: &str) -> QueryParams {
    QueryParams {
        table: table.to_string(),
        columns: None,
        conditions: None,
        order_by: None,
        limit: None,
        offset: None,
        joins: None,
    }
}

fn filter(column: &str, value: JsonValue) -> Filter {
    Filter { column: column.to_string(), value }
}

const ID_TEXT: &str = "550e8400-e29b-41d4-a716-446655440000";
const ID: u128 = 0x550e8400e29b41d4a716446655440000;

#[test]
fn a_query_for_an_unknown_table_fails() {
    let out = plan_query(&catalog(), &query("devices"));
    assert_eq!(
        out,
        Err(CommandError { message: "Table 'devices' not found in the database schema".to_string() })
    );
}

#[test]
fn a_bare_query_selects_everything() {
    let out = plan_query(&catalog(), &query("labs")).unwrap();
    assert_eq!(out.0, "SELECT labs.* FROM labs");
    assert!(out.1.is_empty());
}

#[test]
fn text_filters_on_uuid_columns_bind_uuids() {
    let mut params = query("labs");
    params.conditions = Some(vec![
        filter("id", JsonValue::Str(ID_TEXT.to_string())),
        filter("name", JsonValue::Str(ID_TEXT.to_string())),
        filter("id", JsonValue::Str("nope".to_string())),
        filter("other", JsonValue::Str(ID_TEXT.to_string())),
    ]);
    let (sql, binds) = plan_query(&catalog(), &params).unwrap();
    assert_eq!(
        sql,
        "SELECT labs.* FROM labs WHERE labs.id = $1 AND labs.name = $2 AND labs.id = $3 AND labs.other = $4"
    );
    assert_eq!(
        binds,
        vec![
            BindValue::Uuid(ID),
            BindValue::Text(ID_TEXT.to_string()),
            BindValue::Text("nope".to_string()),
            BindValue::Text(ID_TEXT.to_string()),
        ]
    );
    assert_eq!(text_filter_param(Some("uuid".to_string()), "s".to_string(), Some(1)), BindValue::Uuid(1));
    assert_eq!(text_filter_param(Some("text".to_string()), "s".to_string(), Some(1)), BindValue::Text("s".to_string()));
    assert_eq!(text_filter_param(None, "s".to_string(), Some(1)), BindValue::Text("s".to_string()));
    assert_eq!(text_filter_param(Some("uuid".to_string()), "s".to_string(), None), BindValue::Text("s".to_string()));
}

#[test]
fn filters_of_every_shape() {
    let mut params = query("labs");
    params.conditions = Some(vec![
        filter("a", JsonValue::Int(1)),
        filter("b", JsonValue::Null),
        filter("c", JsonValue::Array(Vec::new())),
        filter("d", JsonValue::Bool(false)),
        filter("e", JsonValue::Object(Vec::new())),
        filter("f", JsonValue::Float(1.5f64.to_bits())),
    ]);
    let (sql, binds) = plan_query(&catalog(), &params).unwrap();
    assert_eq!(
        sql,
        "SELECT labs.* FROM labs WHERE labs.a = $1 AND labs.b IS NULL AND labs.d = $2 AND labs.f = $3"
    );
    assert_eq!(
        binds,
        vec![BindValue::Int(1), BindValue::Bool(false), BindValue::Float(1.5f64.to_bits())]
    );
}

#[test]
fn a_full_query_request() {
    let params = QueryParams {
        table: "public.labs".to_string(),
        columns: Some(vec!["id".to_string(), "n.body AS note".to_string()]),
        conditions: Some(vec![filter("name", JsonValue::Str("x".to_string()))]),
        order_by: Some(vec![
            OrderEntry { column: "name".to_string(), ascending: false },
            OrderEntry { column: "id".to_string(), ascending: true },
        ]),
        limit: Some(10),
        offset: Some(0),
        joins: Some(vec![
            JoinParams {
                table: "notes".to_string(),
                left_column: "id".to_string(),
                right_column: "lab_id".to_string(),
                kind: "left".to_string(),
                alias: Some("n".to_string()),
            },
            JoinParams {
                table: "skipped".to_string(),
                left_column: "id".to_string(),
                right_column: "id".to_string(),
                kind: "right".to_string(),
                alias: None,
            },
            JoinParams {
                table: "owners".to_string(),
                left_column: "owner".to_string(),
                right_column: "id".to_string(),
                kind: "inner".to_string(),
                alias: None,
            },
        ]),
    };
    let (sql, binds) = plan_query(&catalog(), &params).unwrap();
    assert_eq!(
        sql,
        "SELECT public.labs.id, n.body AS note FROM public.labs LEFT JOIN notes AS n ON public.labs.id = n.lab_id \
INNER JOIN owners ON public.labs.owner = owners.id WHERE public.labs.name = $1 \
ORDER BY public.labs.name DESC, public.labs.id ASC LIMIT 10 OFFSET 0"
    );
    assert_eq!(binds, vec![BindValue::Text("x".to_string())]);
}

#[test]
fn an_insert_request_compiles_or_names_the_table() {
    let value = JsonValue::Object(vec![
        Member { key: "name".to_string(), value: JsonValue::Str("x".to_string()) },
        Member { key: "id".to_string(), value: JsonValue::Null },
    ]);
    let ok = plan_insert(&catalog(), &InsertParams { table: "labs".to_string(), value });
    assert_eq!(
        ok,
        Ok(("INSERT INTO public.labs (name) VALUES ($1)".to_string(), vec![BindValue::Text("x".to_string())]))
    );
    let missing = plan_insert(&catalog(), &InsertParams { table: "devices".to_string(), value: JsonValue::Object(Vec::new()) });
    assert_eq!(
        missing,
        Err(CommandError { message: "Failed to build insert query for table devices".to_string() })
    );
    let scalar = plan_insert(&catalog(), &InsertParams { table: "labs".to_string(), value: JsonValue::Int(1) });
    assert_eq!(
        scalar,
        Err(CommandError { message: "Failed to build insert query for table labs".to_string() })
    );
}

#[test]
fn raw_parameters_are_converted_in_order() {
    let request = RawQueryParams {
        sql: "SELECT $1, $2, $3".to_string(),
        params: Some(vec![JsonValue::Str(ID_TEXT.to_string()), JsonValue::Int(2), JsonValue::Str("2015-05-15T00:00:00Z".to_string())]),
    };
    assert_eq!(
        raw_params(&request),
        vec![BindValue::Uuid(ID), BindValue::Int(2), BindValue::Timestamp(1431648000, 0)]
    );
    let none = RawQueryParams { sql: "SELECT 1".to_string(), params: None };
    assert!(raw_params(&none).is_empty());
}

#[test]
fn enum_labels_are_read_for_types_that_are_not_built_in() {
    assert!(PostgresEnum::accepts(16384));
    assert!(PostgresEnum::accepts(u32::MAX));
    assert!(!PostgresEnum::accepts(16383));
    assert!(!PostgresEnum::accepts(25));
    assert_eq!(PostgresEnum("healthy".to_string()).0, "healthy");
}

#[test]
fn connection_settings_are_read_from_texts() {
    let text = |s: &str| Some(s.to_string());
    let config = DatabaseConfig::from_values(
        text("db.internal"),
        text("6543"),
        text("app"),
        "pw".to_string(),
        "db".to_string(),
        text("20"),
    );
    assert_eq!(
        config,
        DatabaseConfig {
            host: "db.internal".to_string(),
            port: 6543,
            user: "app".to_string(),
            password: "pw".to_string(),
            database: "db".to_string(),
            max_connections: 20,
        }
    );
    let odd = DatabaseConfig::from_values(None, text("65536"), None, String::new(), String::new(), text("many"));
    assert_eq!(odd.host, "localhost");
    assert_eq!(odd.port, 5432);
    assert_eq!(odd.user, "postgres");
    assert_eq!(odd.max_connections, 5);
    let signed = DatabaseConfig::from_values(None, text("-1"), None, String::new(), String::new(), text(""));
    assert_eq!(signed.port, 5432);
    assert_eq!(signed.max_connections, 5);
    let none = DatabaseConfig::from_values(None, None, None, String::new(), String::new(), None);
    assert_eq!(none.port, 5432);
    assert_eq!(none.max_connections, 5);
}

#[test]
fn enum_labels_are_read_from_utf8_bytes() {
    assert_eq!(PostgresEnum::from_raw(b"healthy"), Some(PostgresEnum("healthy".to_string())));
    assert_eq!(PostgresEnum::from_raw(&[0xc3, 0xa9]), Some(PostgresEnum("\u{e9}".to_string())));
    assert_eq!(PostgresEnum::from_raw(&[]), Some(PostgresEnum(String::new())));
    assert_eq!(PostgresEnum::from_raw(&[0xff, 0xfe]), None);
    assert_eq!(PostgresEnum::from_raw(&[0xc3]), None);
}

#[test]
fn connection_settings_have_defaults() {
    let config = DatabaseConfig::with_defaults(None, None, None, "pw".to_string(), "db".to_string(), None);
    assert_eq!(
        config,
        DatabaseConfig {
            host: "localhost".to_string(),
            port: 5432,
            user: "postgres".to_string(),
            password: "pw".to_string(),
            database: "db".to_string(),
            max_connections: 5,
        }
    );
    let config = DatabaseConfig::with_defaults(
        Some("db.internal".to_string()),
        Some(6543),
        Some("app".to_string()),
        "pw".to_string(),
        "db".to_string(),
        Some(20),
    );
    assert_eq!(config.host, "db.internal");
    assert_eq!(config.port, 6543);
    assert_eq!(config.user, "app");
    assert_eq!(config.max_connections, 20);
}
