use schema_query::schema::{ColumnInfo, DatabaseSchema, EnumInfo, TableInfo};

fn column(name: &str, sql_type: &str, nullable: bool, labels: Option<Vec<&str>>) -> ColumnInfo {
    ColumnInfo {
        name: name.to_string(),
        sql_type: sql_type.to_string(),
        is_nullable: nullable,
        is_primary: false,
        default_value: None,
        enum_values: labels.map(|l| l.iter().map(|s| s.to_string()).collect()),
    }
}

fn table(schema: &str, name: &str, columns: Vec<ColumnInfo>) -> TableInfo {
    TableInfo { name: name.to_string(), schema: schema.to_string(), columns, primary_keys: Vec::new() }
}

fn status_enum() -> EnumInfo {
    EnumInfo {
        name: "device_status".to_string(),
        values: vec!["healthy".to_string(), "in-progress".to_string()],
    }
}

#[test]
fn declarations_of_a_small_catalog() {
    let catalog = DatabaseSchema {
        tables: vec![table(
            "public",
            "labs",
            vec![
                column("id", "uuid", false, None),
                column("name", "text", true, None),
                column("status", "device_status", false, Some(vec!["healthy", "in-progress"])),
                column("tags", "ARRAY", false, None),
                column("created_at", "timestamp with time zone", true, None),
                column("scores", "_integer", false, None),
            ],
        )],
        enums: vec![status_enum()],
        version: String::new(),
    };
    let expected = "// This file is auto-generated. Do not edit manually.\n\n\
export enum DeviceStatus {\n  HEALTHY = 'healthy',\n  IN_PROGRESS = 'in-progress',\n}\n\n\
export interface Labs {\n  id: string\n  name: string | null\n  status: DeviceStatus\n  tags: string[]\n  createdAt: Date | null\n  scores: number[]\n}\n\n";
    assert_eq!(catalog.generate_typescript_types(), expected);
}

#[test]
fn declarations_of_an_empty_catalog() {
    let catalog = DatabaseSchema { tables: Vec::new(), enums: Vec::new(), version: String::new() };
    assert_eq!(
        catalog.generate_typescript_types(),
        "// This file is auto-generated. Do not edit manually.\n\n"
    );
}

#[test]
fn a_repeated_table_name_takes_the_namespace() {
    let catalog = DatabaseSchema {
        tables: vec![
            table("public", "labs", vec![column("id", "uuid", false, None)]),
            table("audit_log", "labs", vec![column("seq", "bigint", false, None)]),
        ],
        enums: Vec::new(),
        version: String::new(),
    };
    let expected = "// This file is auto-generated. Do not edit manually.\n\n\
export interface Labs {\n  id: string\n}\n\n\
export interface Labs_AuditLog {\n  seq: number\n}\n\n";
    assert_eq!(catalog.generate_typescript_types(), expected);
}

#[test]
fn a_repeated_column_is_declared_once() {
    let catalog = DatabaseSchema {
        tables: vec![table(
            "public",
            "t",
            vec![
                column("id", "integer", false, None),
                column("id", "text", true, None),
                column("i\u{200B}d", "text", true, None),
                column("note", "text", true, None),
            ],
        )],
        enums: Vec::new(),
        version: String::new(),
    };
    let expected = "// This file is auto-generated. Do not edit manually.\n\n\
export interface T {\n  id: number\n  note: string | null\n}\n\n";
    assert_eq!(catalog.generate_typescript_types(), expected);
}

#[test]
fn a_repeated_enum_name_is_declared_once_with_the_last_labels() {
    let catalog = DatabaseSchema {
        tables: Vec::new(),
        enums: vec![
            EnumInfo { name: "mood".to_string(), values: vec!["sad".to_string()] },
            EnumInfo { name: "mood".to_string(), values: vec!["ok".to_string(), "happy".to_string()] },
        ],
        version: String::new(),
    };
    let expected = "// This file is auto-generated. Do not edit manually.\n\n\
export enum Mood {\n  OK = 'ok',\n  HAPPY = 'happy',\n}\n\n";
    assert_eq!(catalog.generate_typescript_types(), expected);
}
