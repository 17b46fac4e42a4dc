use schema_query::builder::BindValue;
use schema_query::coercion::{
    cell_to_json, json_fallback, parse_json, row_to_json, smart_param, smart_text_param,
    timestamp_json, Cell, Decoded, WireType,
};
use schema_query::json::{JsonValue, Member};

fn cell(name: &str, wire: WireType, value: Decoded, text: Option<&str>) -> Cell {
    Cell { name: name.to_string(), wire, value, text: text.map(|t| t.to_string()) }
}

fn text(s: &str) -> JsonValue {
    JsonValue::Str(s.to_string())
}

#[test]
fn wire_types_are_resolved_from_the_descriptor() {
    assert_eq!(WireType::classify(25, "text"), WireType::Text);
    assert_eq!(WireType::classify(1043, "varchar"), WireType::Text);
    assert_eq!(WireType::classify(23, "int4"), WireType::Int32);
    assert_eq!(WireType::classify(20, "int8"), WireType::Int64);
    assert_eq!(WireType::classify(701, "float8"), WireType::Float64);
    assert_eq!(WireType::classify(16, "bool"), WireType::Bool);
    assert_eq!(WireType::classify(1184, "timestamptz"), WireType::TimestampTz);
    assert_eq!(WireType::classify(114, "json"), WireType::Json);
    assert_eq!(WireType::classify(3802, "jsonb"), WireType::Json);
    assert_eq!(WireType::classify(1009, "_text"), WireType::Array);
    assert_eq!(WireType::classify(2950, "uuid"), WireType::Uuid);
    assert_eq!(WireType::classify(16384, "device_status"), WireType::Enum);
    assert_eq!(WireType::classify(16383, "device_status"), WireType::Unknown);
    assert_eq!(WireType::classify(1114, "timestamp"), WireType::Unknown);
    assert_eq!(WireType::classify(20000, "_device_status"), WireType::Array);
}

#[test]
fn null_cells_are_null_for_every_wire_type() {
    let all = [
        WireType::Text,
        WireType::Int32,
        WireType::Int64,
        WireType::Float64,
        WireType::Bool,
        WireType::TimestampTz,
        WireType::Json,
        WireType::Array,
        WireType::Uuid,
        WireType::Enum,
        WireType::Unknown,
    ];
    for wire in all {
        assert_eq!(cell_to_json(&cell("c", wire, Decoded::Null, None)), JsonValue::Null);
        assert_eq!(cell_to_json(&cell("c", wire, Decoded::Null, Some("ignored"))), JsonValue::Null);
    }
}

#[test]
fn a_null_timestamp_is_the_null_marker() {
    let out = cell_to_json(&cell("created_at", WireType::TimestampTz, Decoded::Null, None));
    assert_eq!(out, JsonValue::Null);
    assert_ne!(out, text(""));
}

#[test]
fn timestamps_are_written_in_rfc_3339() {
    let out = cell_to_json(&cell("t", WireType::TimestampTz, Decoded::Timestamp(1431648000, 0), None));
    assert_eq!(out, text("2015-05-15T00:00:00+00:00"));
    let out = cell_to_json(&cell("t", WireType::TimestampTz, Decoded::Timestamp(0, 500_000_000), None));
    assert_eq!(out, text("1970-01-01T00:00:00.500+00:00"));
    let out = cell_to_json(&cell("t", WireType::TimestampTz, Decoded::Timestamp(i64::MAX, 0), None));
    assert_eq!(out, JsonValue::Null);
    assert_eq!(timestamp_json(Some("x".to_string())), text("x"));
    assert_eq!(timestamp_json(None), JsonValue::Null);
}

#[test]
fn scalar_cells_keep_their_value() {
    assert_eq!(cell_to_json(&cell("c", WireType::Text, Decoded::Text("hi".to_string()), None)), text("hi"));
    assert_eq!(cell_to_json(&cell("c", WireType::Int32, Decoded::Int(-5), None)), JsonValue::Int(-5));
    assert_eq!(cell_to_json(&cell("c", WireType::Int64, Decoded::Int(i64::MAX), None)), JsonValue::Int(i64::MAX));
    assert_eq!(cell_to_json(&cell("c", WireType::Bool, Decoded::Bool(false), None)), JsonValue::Bool(false));
}

#[test]
fn doubles_keep_their_bits_and_non_finite_ones_are_null() {
    let one_and_a_half = 1.5f64.to_bits();
    assert_eq!(
        cell_to_json(&cell("c", WireType::Float64, Decoded::Float(one_and_a_half), None)),
        JsonValue::Float(one_and_a_half)
    );
    let tenth = 0.1f64.to_bits();
    assert_eq!(cell_to_json(&cell("c", WireType::Float64, Decoded::Float(tenth), None)), JsonValue::Float(tenth));
    for odd in [f64::NAN, f64::INFINITY, f64::NEG_INFINITY] {
        assert_eq!(
            cell_to_json(&cell("c", WireType::Float64, Decoded::Float(odd.to_bits()), None)),
            JsonValue::Null
        );
    }
    assert_eq!(
        cell_to_json(&cell("c", WireType::Float64, Decoded::Float(f64::MAX.to_bits()), None)),
        JsonValue::Float(f64::MAX.to_bits())
    );
}

#[test]
fn enum_cells_are_their_label() {
    let out = cell_to_json(&cell("status", WireType::Enum, Decoded::Text("healthy".to_string()), None));
    assert_eq!(out, text("healthy"));
    let out = cell_to_json(&cell("status", WireType::Enum, Decoded::Failed, Some("broken")));
    assert_eq!(out, text("broken"));
    let out = cell_to_json(&cell("status", WireType::Enum, Decoded::Failed, None));
    assert_eq!(out, JsonValue::Null);
}

#[test]
fn uuid_cells_are_hyphenated_text() {
    let out = cell_to_json(&cell("id", WireType::Uuid, Decoded::Uuid(0x550e8400e29b41d4a716446655440000), None));
    assert_eq!(out, text("550e8400-e29b-41d4-a716-446655440000"));
    let out = cell_to_json(&cell("id", WireType::Uuid, Decoded::Uuid(0), None));
    assert_eq!(out, text("00000000-0000-0000-0000-000000000000"));
    let out = cell_to_json(&cell("id", WireType::Uuid, Decoded::Failed, Some("not-a-uuid")));
    assert_eq!(out, text("not-a-uuid"));
}

#[test]
fn json_cells_get_camel_case_keys() {
    let value = JsonValue::Object(vec![Member {
        key: "device_status".to_string(),
        value: JsonValue::Array(vec![JsonValue::Object(vec![Member {
            key: "last_seen".to_string(),
            value: JsonValue::Int(1),
        }])]),
    }]);
    let out = cell_to_json(&cell("meta", WireType::Json, Decoded::Json(value), None));
    let expected = JsonValue::Object(vec![Member {
        key: "deviceStatus".to_string(),
        value: JsonValue::Array(vec![JsonValue::Object(vec![Member {
            key: "lastSeen".to_string(),
            value: JsonValue::Int(1),
        }])]),
    }]);
    assert_eq!(out, expected);
}

#[test]
fn a_failed_json_cell_parses_its_text() {
    let out = cell_to_json(&cell("meta", WireType::Json, Decoded::Failed, Some("{\"device_status\":\"ok\"}")));
    assert_eq!(
        out,
        JsonValue::Object(vec![Member { key: "deviceStatus".to_string(), value: text("ok") }])
    );
    let out = cell_to_json(&cell("meta", WireType::Json, Decoded::Failed, Some("not json")));
    assert_eq!(out, text("not json"));
    let out = cell_to_json(&cell("meta", WireType::Json, Decoded::Failed, None));
    assert_eq!(out, JsonValue::Null);
    assert_eq!(json_fallback("raw".to_string(), None), text("raw"));
    assert_eq!(json_fallback("raw".to_string(), Some(JsonValue::Int(1))), JsonValue::Int(1));
}

#[test]
fn array_cells_are_arrays_of_strings() {
    let out = cell_to_json(&cell(
        "tags",
        WireType::Array,
        Decoded::TextArray(vec!["a".to_string(), "b".to_string()]),
        None,
    ));
    assert_eq!(out, JsonValue::Array(vec![text("a"), text("b")]));
    let out = cell_to_json(&cell("tags", WireType::Array, Decoded::TextArray(Vec::new()), None));
    assert_eq!(out, JsonValue::Array(Vec::new()));
    let out = cell_to_json(&cell("tags", WireType::Array, Decoded::Failed, Some("{a,b}")));
    assert_eq!(out, JsonValue::Null);
}

#[test]
fn unrecognized_cells_are_plain_text_or_null() {
    let out = cell_to_json(&cell("c", WireType::Unknown, Decoded::Text("10.0.0.1".to_string()), None));
    assert_eq!(out, text("10.0.0.1"));
    let out = cell_to_json(&cell("c", WireType::Unknown, Decoded::Failed, Some("10.0.0.1")));
    assert_eq!(out, text("10.0.0.1"));
    let out = cell_to_json(&cell("c", WireType::Unknown, Decoded::Failed, None));
    assert_eq!(out, JsonValue::Null);
}

#[test]
fn rows_become_objects_with_camel_case_keys() {
    let cells = vec![
        cell("id", WireType::Int32, Decoded::Int(1), None),
        cell("created_at", WireType::TimestampTz, Decoded::Null, None),
        cell("device_status", WireType::Enum, Decoded::Text("healthy".to_string()), None),
    ];
    let expected = JsonValue::Object(vec![
        Member { key: "id".to_string(), value: JsonValue::Int(1) },
        Member { key: "createdAt".to_string(), value: JsonValue::Null },
        Member { key: "deviceStatus".to_string(), value: text("healthy") },
    ]);
    assert_eq!(row_to_json(&cells), expected);
    assert_eq!(row_to_json(&Vec::new()), JsonValue::Object(Vec::new()));
}

#[test]
fn json_text_is_read_into_values() {
    let parsed = parse_json("{\"b\": [1, 2.5, true, null, \"s\"], \"a\": {\"n\": -7}}").unwrap();
    let expected = JsonValue::Object(vec![
        Member { key: "a".to_string(), value: JsonValue::Object(vec![Member { key: "n".to_string(), value: JsonValue::Int(-7) }]) },
        Member {
            key: "b".to_string(),
            value: JsonValue::Array(vec![
                JsonValue::Int(1),
                JsonValue::Float(2.5f64.to_bits()),
                JsonValue::Bool(true),
                JsonValue::Null,
                text("s"),
            ]),
        },
    ]);
    assert_eq!(parsed, expected);
    assert_eq!(parse_json("18446744073709551615"), Some(JsonValue::Float(18446744073709551615f64.to_bits())));
    assert_eq!(parse_json("9223372036854775807"), Some(JsonValue::Int(i64::MAX)));
    assert_eq!(parse_json("{oops"), None);
    assert_eq!(parse_json(""), None);
}

#[test]
fn smart_parameters_read_timestamps_then_uuids_then_text() {
    assert_eq!(smart_param(&text("2015-05-15T00:00:00Z")), BindValue::Timestamp(1431648000, 0));
    assert_eq!(smart_param(&text("2015-05-15T02:00:00.250+02:00")), BindValue::Timestamp(1431648000, 250_000_000));
    assert_eq!(
        smart_param(&text("550e8400-e29b-41d4-a716-446655440000")),
        BindValue::Uuid(0x550e8400e29b41d4a716446655440000)
    );
    assert_eq!(
        smart_param(&text("550e8400e29b41d4a716446655440000")),
        BindValue::Uuid(0x550e8400e29b41d4a716446655440000)
    );
    assert_eq!(smart_param(&text("hello")), BindValue::Text("hello".to_string()));
    assert_eq!(smart_param(&text("")), BindValue::Text(String::new()));
    assert_eq!(smart_text_param("s".to_string(), Some((1, 2)), Some(3)), BindValue::Timestamp(1, 2));
    assert_eq!(smart_text_param("s".to_string(), None, Some(3)), BindValue::Uuid(3));
    assert_eq!(smart_text_param("s".to_string(), None, None), BindValue::Text("s".to_string()));
}

#[test]
fn smart_parameters_of_other_shapes() {
    assert_eq!(smart_param(&JsonValue::Int(4)), BindValue::Int(4));
    assert_eq!(smart_param(&JsonValue::Float(9)), BindValue::Float(9));
    assert_eq!(smart_param(&JsonValue::Bool(true)), BindValue::Bool(true));
    assert_eq!(smart_param(&JsonValue::Null), BindValue::Null);
    assert_eq!(
        smart_param(&JsonValue::Array(vec![text("a"), JsonValue::Int(1), text("b")])),
        BindValue::TextArray(vec!["a".to_string(), String::new(), "b".to_string()])
    );
    assert_eq!(smart_param(&JsonValue::Object(Vec::new())), BindValue::Text(String::new()));
}
