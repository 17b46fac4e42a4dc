use schema_query::casing::{camel_case, pascal_case, to_camel_case};
use schema_query::json::{convert_json_keys_to_camel_case, find_member, JsonValue, Member};
use schema_query::text::{
    chars_of, contains_chars, join_strings, push_decimal, push_signed_decimal, replace_char,
    same_text, string_of, strip_char, trim_end_len,
};

fn member(key: &str, value: JsonValue) -> Member {
    Member { key: key.to_string(), value }
}

#[test]
fn camel_case_rule_on_names() {
    assert_eq!(to_camel_case("created_at"), "createdAt");
    assert_eq!(to_camel_case("id"), "id");
    assert_eq!(to_camel_case("a_b_c"), "aBC");
}

#[test]
fn camel_case_rule_edges() {
    assert_eq!(to_camel_case(""), "");
    assert_eq!(to_camel_case("_"), "");
    assert_eq!(to_camel_case("_id"), "Id");
    assert_eq!(to_camel_case("a__b"), "aB");
    assert_eq!(to_camel_case("trailing_"), "trailing");
    assert_eq!(to_camel_case("a_1"), "a1");
    assert_eq!(to_camel_case("a_\u{e9}"), "a\u{e9}");
    assert_eq!(to_camel_case("already_Upper"), "alreadyUpper");
}

#[test]
fn camel_case_keys_inside_objects() {
    let input = JsonValue::Object(vec![member("device_status", JsonValue::Str("ok".to_string()))]);
    let expected = JsonValue::Object(vec![member("deviceStatus", JsonValue::Str("ok".to_string()))]);
    assert_eq!(convert_json_keys_to_camel_case(input), expected);
}

#[test]
fn camel_case_keys_at_every_depth() {
    let input = JsonValue::Object(vec![
        member(
            "outer_key",
            JsonValue::Array(vec![
                JsonValue::Object(vec![member("inner_key", JsonValue::Int(1))]),
                JsonValue::Str("left_alone".to_string()),
            ]),
        ),
        member("plain", JsonValue::Null),
    ]);
    let expected = JsonValue::Object(vec![
        member(
            "outerKey",
            JsonValue::Array(vec![
                JsonValue::Object(vec![member("innerKey", JsonValue::Int(1))]),
                JsonValue::Str("left_alone".to_string()),
            ]),
        ),
        member("plain", JsonValue::Null),
    ]);
    assert_eq!(convert_json_keys_to_camel_case(input), expected);
}

#[test]
fn camel_case_keys_leave_scalars() {
    assert_eq!(convert_json_keys_to_camel_case(JsonValue::Str("a_b".to_string())), JsonValue::Str("a_b".to_string()));
    assert_eq!(convert_json_keys_to_camel_case(JsonValue::Int(-3)), JsonValue::Int(-3));
    assert_eq!(convert_json_keys_to_camel_case(JsonValue::Bool(true)), JsonValue::Bool(true));
    assert_eq!(convert_json_keys_to_camel_case(JsonValue::Null), JsonValue::Null);
    assert_eq!(convert_json_keys_to_camel_case(JsonValue::Float(7)), JsonValue::Float(7));
}

#[test]
fn find_member_takes_the_last_of_equal_keys() {
    let members = vec![
        member("a", JsonValue::Int(1)),
        member("b", JsonValue::Int(2)),
        member("a", JsonValue::Int(3)),
    ];
    assert_eq!(find_member(&members, "a"), Some(2));
    assert_eq!(find_member(&members, "b"), Some(1));
    assert_eq!(find_member(&members, "c"), None);
}

#[test]
fn pascal_case_capitalizes_each_word() {
    assert_eq!(pascal_case("device_status"), "DeviceStatus");
    assert_eq!(pascal_case("labs"), "Labs");
    assert_eq!(pascal_case("FOO_bar"), "FooBar");
    assert_eq!(pascal_case("a__b"), "AB");
    assert_eq!(pascal_case(""), "");
    assert_eq!(pascal_case("_x_"), "X");
}

#[test]
fn camel_case_lowers_the_first_character() {
    assert_eq!(camel_case("created_at"), "createdAt");
    assert_eq!(camel_case("id"), "id");
    assert_eq!(camel_case("ID"), "id");
    assert_eq!(camel_case(""), "");
}

#[test]
fn text_round_trip_through_characters() {
    let chars = chars_of("h\u{e9}llo");
    assert_eq!(chars, vec!['h', '\u{e9}', 'l', 'l', 'o']);
    assert_eq!(string_of(&chars), "h\u{e9}llo");
}

#[test]
fn join_strings_puts_the_separator_between() {
    let parts = vec!["a".to_string(), "b".to_string(), "c".to_string()];
    assert_eq!(join_strings(&parts, ", "), "a, b, c");
    assert_eq!(join_strings(&vec!["only".to_string()], ", "), "only");
    assert_eq!(join_strings(&Vec::new(), ", "), "");
}

#[test]
fn decimal_numerals() {
    let mut out = String::from("$");
    push_decimal(&mut out, 0);
    assert_eq!(out, "$0");
    let mut out = String::new();
    push_decimal(&mut out, 1234567890);
    assert_eq!(out, "1234567890");
    let mut out = String::new();
    push_signed_decimal(&mut out, -42);
    assert_eq!(out, "-42");
    let mut out = String::new();
    push_signed_decimal(&mut out, i64::MIN);
    assert_eq!(out, "-9223372036854775808");
    let mut out = String::new();
    push_signed_decimal(&mut out, i64::MAX);
    assert_eq!(out, "9223372036854775807");
}

#[test]
fn text_searching_and_trimming() {
    assert!(same_text("abc", "abc"));
    assert!(!same_text("abc", "abd"));
    assert!(contains_chars(&chars_of("my_enum_type"), &chars_of("enum")));
    assert!(!contains_chars(&chars_of("text"), &chars_of("enum")));
    assert!(contains_chars(&chars_of("text"), &chars_of("")));
    assert_eq!(trim_end_len(&chars_of("integer[][]"), &chars_of("[]")), 7);
    assert_eq!(trim_end_len(&chars_of("integer"), &chars_of("[]")), 7);
    assert_eq!(trim_end_len(&chars_of("[]"), &chars_of("[]")), 0);
    assert_eq!(strip_char("a\u{200B}b\u{200B}", '\u{200B}'), "ab");
    assert_eq!(replace_char("in-progress-now", '-', '_'), "in_progress_now");
}
