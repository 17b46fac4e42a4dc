//! Conversions between database cells and structured values: decoded cells
//! to JSON-like values on the way out, JSON-like values to bind parameters
//! on the way in.

use vstd::prelude::*;
use crate::builder::BindValue;
use crate::casing::{camel_text, to_camel_case};
use crate::json::{camel_keys, convert_json_keys_to_camel_case, JsonModel, JsonValue, Member};
use crate::text::{chars_of, same_text};

verus! {

#[verifier::external_type_specification]
#[verifier::external_body]
/// A value of `serde_json`, carried through as it is.
pub struct ExSerdeValue(serde_json::Value);

/// What `uuid::Uuid::parse_str` makes of a text: the UUID as a 128-bit
/// number, or nothing where the text is no UUID.
pub uninterp spec fn uuid_parse(s: Seq<char>) -> Option<u128>;

/// The text that `uuid::Uuid` displays for a 128-bit number.
pub uninterp spec fn uuid_hyphenated(id: u128) -> Seq<char>;

/// What `chrono::DateTime::parse_from_rfc3339` makes of a text: the instant
/// as seconds and nanoseconds since the Unix epoch, or nothing where the
/// text is no RFC 3339 timestamp.
pub uninterp spec fn rfc3339_parse(s: Seq<char>) -> Option<(i64, u32)>;

/// The RFC 3339 text that chrono writes for an instant in UTC, or nothing
/// where chrono cannot represent the instant.
pub uninterp spec fn rfc3339_of(secs: i64, nanos: u32) -> Option<Seq<char>>;

/// The content of a value of `serde_json`.
pub uninterp spec fn serde_model(v: serde_json::Value) -> JsonModel;

/// What `serde_json::from_str` reads from a text: the content of the value,
/// or nothing where the text is not JSON.
pub uninterp spec fn json_parse(s: Seq<char>) -> Option<JsonModel>;

/// `uuid::Uuid::parse_str`, with the UUID handed back as its 128-bit
/// number. The result depends on the text alone.
#[verifier::external_body]
pub(crate) fn parse_uuid(s: &str) -> (r: Option<u128>)
    ensures
        r == uuid_parse(s@),
{
    uuid::Uuid::parse_str(s).ok().map(|u| u.as_u128())
}

/// `uuid::Uuid::from_u128` and the UUID's `Display`: the hyphenated
/// lower-case text of the UUID with this number.
#[verifier::external_body]
fn uuid_text(id: u128) -> (r: String)
    ensures
        r@ == uuid_hyphenated(id),
{
    uuid::Uuid::from_u128(id).to_string()
}

/// `chrono::DateTime::parse_from_rfc3339`, with the instant handed back in
/// UTC as seconds and nanoseconds. The result depends on the text alone.
#[verifier::external_body]
fn parse_rfc3339(s: &str) -> (r: Option<(i64, u32)>)
    ensures
        r == rfc3339_parse(s@),
{
    chrono::DateTime::parse_from_rfc3339(s).ok().map(
        |t| {
            let utc = t.with_timezone(&chrono::Utc);
            (utc.timestamp(), utc.timestamp_subsec_nanos())
        },
    )
}

/// `chrono::DateTime::from_timestamp` followed by `to_rfc3339`: the text of
/// the instant, or nothing where `from_timestamp` rejects the numbers.
#[verifier::external_body]
fn rfc3339_text(secs: i64, nanos: u32) -> (r: Option<String>)
    ensures
        match r {
            Some(t) => rfc3339_of(secs, nanos) == Some(t@),
            None => rfc3339_of(secs, nanos) is None,
        },
{
    chrono::DateTime::from_timestamp(secs, nanos).map(|t| t.to_rfc3339())
}

/// `serde_json::from_str` at the type `serde_json::Value`: the value that
/// the text holds, or nothing where it is not JSON.
#[verifier::external_body]
fn parse_serde(s: &str) -> (r: Option<serde_json::Value>)
    ensures
        match r {
            Some(v) => json_parse(s@) == Some(serde_model(v)),
            None => json_parse(s@) is None,
        },
{
    serde_json::from_str(s).ok()
}

/// Converts a value of `serde_json` variant by variant. A number becomes an
/// integer where `as_i64` gives one, else the bits of what `as_f64` gives;
/// the members of an object keep the order in which its map yields them.
#[verifier::external_body]
fn from_serde(v: &serde_json::Value) -> (r: JsonValue)
    ensures
        r.model() == serde_model(*v),
{
    match v {
        serde_json::Value::Null => JsonValue::Null,
        serde_json::Value::Bool(b) => JsonValue::Bool(*b),
        serde_json::Value::Number(n) => match n.as_i64() {
            Some(i) => JsonValue::Int(i),
            None => JsonValue::Float(n.as_f64().map(|x| x.to_bits()).unwrap_or_default()),
        },
        serde_json::Value::String(s) => JsonValue::Str(s.clone()),
        serde_json::Value::Array(a) => JsonValue::Array(a.iter().map(from_serde).collect()),
        serde_json::Value::Object(o) => JsonValue::Object(
            o.iter().map(|(k, x)| Member { key: k.clone(), value: from_serde(x) }).collect(),
        ),
    }
}

/// Reads a JSON text.
pub fn parse_json(s: &str) -> (r: Option<JsonValue>)
    ensures
        match r {
            Some(v) => json_parse(s@) == Some(v.model()),
            None => json_parse(s@) is None,
        },
{
    match parse_serde(s) {
        Some(v) => Some(from_serde(&v)),
        None => None,
    }
}

/// The wire type of a result column, resolved once from its descriptor.
#[derive(Debug, Clone, Copy, PartialEq, Eq, Structural)]
pub enum WireType {
    Text,
    Int32,
    Int64,
    Float64,
    Bool,
    TimestampTz,
    Json,
    Array,
    Uuid,
    Enum,
    Unknown,
}

/// The first object identifier that the database gives to a type that is
/// not built in.
pub const FIRST_USER_OID: u32 = 16384;

/// The wire type of a column with the type identifier `oid` and the type
/// name `name`.
pub open spec fn wire_type_of(oid: u32, name: Seq<char>) -> WireType {
    if oid == 1043 || oid == 25 {
        WireType::Text
    } else if oid == 23 {
        WireType::Int32
    } else if oid == 20 {
        WireType::Int64
    } else if oid == 701 {
        WireType::Float64
    } else if oid == 16 {
        WireType::Bool
    } else if oid == 1184 {
        WireType::TimestampTz
    } else if oid == 114 || oid == 3802 {
        WireType::Json
    } else if name.len() > 0 && name[0] == '_' {
        WireType::Array
    } else if name == "uuid"@ {
        WireType::Uuid
    } else if oid >= FIRST_USER_OID {
        WireType::Enum
    } else {
        WireType::Unknown
    }
}

impl WireType {
    /// Resolves the wire type of a column from its type identifier and its
    /// type name.
    pub fn classify(oid: u32, name: &str) -> (wire: WireType)
        ensures
            wire == wire_type_of(oid, name@),
    {
        if oid == 1043 || oid == 25 {
            WireType::Text
        } else if oid == 23 {
            WireType::Int32
        } else if oid == 20 {
            WireType::Int64
        } else if oid == 701 {
            WireType::Float64
        } else if oid == 16 {
            WireType::Bool
        } else if oid == 1184 {
            WireType::TimestampTz
        } else if oid == 114 || oid == 3802 {
            WireType::Json
        } else {
            let chars = chars_of(name);
            if chars.len() > 0 && chars[0] == '_' {
                WireType::Array
            } else if same_text(name, "uuid") {
                WireType::Uuid
            } else if oid >= FIRST_USER_OID {
                WireType::Enum
            } else {
                WireType::Unknown
            }
        }
    }
}

/// What the driver read from one cell by the decoder of its wire type.
/// `Failed` stands for a decoder that gave an error.
#[derive(Debug, PartialEq, Eq)]
pub enum Decoded {
    Null,
    Failed,
    Text(String),
    Int(i64),
    Float(u64),
    Bool(bool),
    Timestamp(i64, u32),
    Json(JsonValue),
    TextArray(Vec<String>),
    Uuid(u128),
}

/// One cell of a result row: the column's name and wire type, what was
/// decoded, and the plain-text reading of the cell that is tried when the
/// decoder failed (absent if that failed as well).
#[derive(Debug, PartialEq, Eq)]
pub struct Cell {
    pub name: String,
    pub wire: WireType,
    pub value: Decoded,
    pub text: Option<String>,
}

/// Whether the bit pattern of a double stands for a finite number.
pub open spec fn finite_bits(bits: u64) -> bool {
    (bits >> 52) & 0x7ff != 0x7ff
}

/// A text as a structured string, or the null marker where there is none.
pub open spec fn text_or_null(text: Option<String>) -> JsonModel {
    match text {
        Some(s) => JsonModel::Str(s@),
        None => JsonModel::Null,
    }
}

/// The structured value for a timestamp, given what rendering it gave.
pub open spec fn timestamp_model(rendered: Option<Seq<char>>) -> JsonModel {
    match rendered {
        Some(t) => JsonModel::Str(t),
        None => JsonModel::Null,
    }
}

/// The structured value for a JSON cell whose decoder failed, given its
/// plain text and what parsing that text gave.
pub open spec fn json_fallback_model(text: Seq<char>, parsed: Option<JsonModel>) -> JsonModel {
    match parsed {
        Some(m) => camel_keys(m),
        None => JsonModel::Str(text),
    }
}

/// A list of texts as a structured array of strings.
pub open spec fn text_array_model(items: Seq<String>) -> JsonModel {
    JsonModel::Array(Seq::new(items.len(), |i: int| JsonModel::Str(items[i]@)))
}

/// The structured value of a cell. SQL NULL is the null marker whatever the
/// wire type. A failed decoder falls back to the cell's plain text, which a
/// JSON column parses again, and to the null marker where there is none; a
/// failed array is the null marker.
pub open spec fn cell_model(wire: WireType, value: Decoded, text: Option<String>) -> JsonModel {
    match value {
        Decoded::Null => JsonModel::Null,
        Decoded::Failed => match wire {
            WireType::Array => JsonModel::Null,
            WireType::Json => match text {
                Some(s) => json_fallback_model(s@, json_parse(s@)),
                None => JsonModel::Null,
            },
            _ => text_or_null(text),
        },
        Decoded::Text(s) => JsonModel::Str(s@),
        Decoded::Int(i) => JsonModel::Int(i),
        Decoded::Float(bits) => if finite_bits(bits) {
            JsonModel::Float(bits)
        } else {
            JsonModel::Null
        },
        Decoded::Bool(b) => JsonModel::Bool(b),
        Decoded::Timestamp(secs, nanos) => timestamp_model(rfc3339_of(secs, nanos)),
        Decoded::Json(v) => camel_keys(v.model()),
        Decoded::TextArray(items) => text_array_model(items@),
        Decoded::Uuid(id) => JsonModel::Str(uuid_hyphenated(id)),
    }
}

/// SQL NULL is the null marker, whatever the column's wire type and
/// whatever its plain text.
pub proof fn lemma_null_cell_is_null(wire: WireType, text: Option<String>)
    ensures
        cell_model(wire, Decoded::Null, text) == JsonModel::Null,
{
}

/// The structured value for a timestamp, given what rendering it gave: the
/// text, or the null marker where it could not be rendered.
pub fn timestamp_json(rendered: Option<String>) -> (out: JsonValue)
    ensures
        out.model() == timestamp_model(
            match rendered {
                Some(t) => Some(t@),
                None => None,
            },
        ),
{
    match rendered {
        Some(t) => JsonValue::Str(t),
        None => JsonValue::Null,
    }
}

/// The structured value for a JSON cell whose decoder failed, given its
/// plain text and what parsing that text gave: the parsed value with its
/// keys in camel case, or the text itself where it is not JSON.
pub fn json_fallback(text: String, parsed: Option<JsonValue>) -> (out: JsonValue)
    ensures
        out.model() == json_fallback_model(
            text@,
            match parsed {
                Some(v) => Some(v.model()),
                None => None,
            },
        ),
{
    match parsed {
        Some(v) => convert_json_keys_to_camel_case(v),
        None => JsonValue::Str(text),
    }
}

fn text_json(text: &Option<String>) -> (out: JsonValue)
    ensures
        out.model() == text_or_null(*text),
{
    match text {
        Some(s) => JsonValue::Str(s.clone()),
        None => JsonValue::Null,
    }
}

fn text_array_json(items: &Vec<String>) -> (out: JsonValue)
    ensures
        out.model() == text_array_model(items@),
{
    let mut values: Vec<JsonValue> = Vec::new();
    let mut i: usize = 0;
    while i < items.len()
        invariant
            i <= items.len(),
            values.len() == i,
            forall|j: int| 0 <= j < i ==> (#[trigger] values@[j]).model() == JsonModel::Str(items@[j]@),
        decreases items.len() - i,
    {
        values.push(JsonValue::Str(items[i].clone()));
        i += 1;
    }
    let out = JsonValue::Array(values);
    assert(out.model()->Array_0 =~= text_array_model(items@)->Array_0);
    out
}

fn finite(bits: u64) -> (r: bool)
    ensures
        r == finite_bits(bits),
{
    (bits >> 52) & 0x7ff != 0x7ff
}

/// Converts one cell of a result row into its structured value.
pub fn cell_to_json(cell: &Cell) -> (out: JsonValue)
    ensures
        out.model() == cell_model(cell.wire, cell.value, cell.text),
{
    match &cell.value {
        Decoded::Null => JsonValue::Null,
        Decoded::Failed => match cell.wire {
            WireType::Array => JsonValue::Null,
            WireType::Json => match &cell.text {
                Some(s) => json_fallback(s.clone(), parse_json(s.as_str())),
                None => JsonValue::Null,
            },
            _ => text_json(&cell.text),
        },
        Decoded::Text(s) => JsonValue::Str(s.clone()),
        Decoded::Int(i) => JsonValue::Int(*i),
        Decoded::Float(bits) => if finite(*bits) {
            JsonValue::Float(*bits)
        } else {
            JsonValue::Null
        },
        Decoded::Bool(b) => JsonValue::Bool(*b),
        Decoded::Timestamp(secs, nanos) => timestamp_json(rfc3339_text(*secs, *nanos)),
        Decoded::Json(v) => crate::json::camel_copy(v),
        Decoded::TextArray(items) => text_array_json(items),
        Decoded::Uuid(id) => JsonValue::Str(uuid_text(*id)),
    }
}

/// The structured object of a result row: one member for each cell, in
/// order, keyed by the column's name in camel case.
pub open spec fn row_model(cells: Seq<Cell>) -> JsonModel {
    JsonModel::Object(
        Seq::new(
            cells.len(),
            |i: int|
                (camel_text(cells[i].name@), cell_model(cells[i].wire, cells[i].value, cells[i].text)),
        ),
    )
}

/// Converts a result row into a structured object with camel-case keys.
pub fn row_to_json(cells: &Vec<Cell>) -> (out: JsonValue)
    ensures
        out.model() == row_model(cells@),
{
    let mut members: Vec<Member> = Vec::new();
    let mut i: usize = 0;
    while i < cells.len()
        invariant
            i <= cells.len(),
            members.len() == i,
            forall|j: int|
                0 <= j < i ==> (#[trigger] members@[j]).key@ == camel_text(cells@[j].name@)
                    && members@[j].value.model() == cell_model(
                    cells@[j].wire,
                    cells@[j].value,
                    cells@[j].text,
                ),
        decreases cells.len() - i,
    {
        let key = to_camel_case(cells[i].name.as_str());
        let value = cell_to_json(&cells[i]);
        members.push(Member { key, value });
        i += 1;
    }
    let out = JsonValue::Object(members);
    assert(out.model()->Object_0 =~= row_model(cells@)->Object_0);
    out
}

/// The bind parameter for a text of a raw query, given what reading it as a
/// timestamp and as a UUID gave: the timestamp if it is one, else the UUID
/// if it is one, else the text.
pub open spec fn smart_text(s: String, instant: Option<(i64, u32)>, id: Option<u128>) -> BindValue {
    match instant {
        Some(t) => BindValue::Timestamp(t.0, t.1),
        None => match id {
            Some(u) => BindValue::Uuid(u),
            None => BindValue::Text(s),
        },
    }
}

/// The bind parameter for a text of a raw query, given what reading it as a
/// timestamp and as a UUID gave.
pub fn smart_text_param(s: String, instant: Option<(i64, u32)>, id: Option<u128>) -> (out:
    BindValue)
    ensures
        out == smart_text(s, instant, id),
{
    match instant {
        Some(t) => BindValue::Timestamp(t.0, t.1),
        None => match id {
            Some(u) => BindValue::Uuid(u),
            None => BindValue::Text(s),
        },
    }
}

/// The texts of the elements of an array parameter: a string element gives
/// its text, any other element the empty text.
pub open spec fn element_texts(items: Seq<JsonValue>) -> Seq<Seq<char>> {
    Seq::new(
        items.len(),
        |i: int|
            match items[i] {
                JsonValue::Str(s) => s@,
                _ => Seq::empty(),
            },
    )
}

/// The bind parameter for a parameter of a raw query. A text is read as a
/// timestamp, then as a UUID, then taken as it is; an array binds the texts
/// of its elements; an object binds the empty text.
pub open spec fn smart_model(v: JsonValue, out: BindValue) -> bool {
    match v {
        JsonValue::Str(s) => out == smart_text(s, rfc3339_parse(s@), uuid_parse(s@)),
        JsonValue::Array(items) => out matches BindValue::TextArray(t) && crate::text::texts(t@)
            == element_texts(items@),
        JsonValue::Int(i) => out == BindValue::Int(i),
        JsonValue::Float(bits) => out == BindValue::Float(bits),
        JsonValue::Bool(b) => out == BindValue::Bool(b),
        JsonValue::Null => out == BindValue::Null,
        JsonValue::Object(_) => out matches BindValue::Text(t) && t@ == Seq::<char>::empty(),
    }
}

/// The bind parameter for a parameter of a raw query.
pub fn smart_param(v: &JsonValue) -> (out: BindValue)
    ensures
        smart_model(*v, out),
{
    match v {
        JsonValue::Str(s) => {
            let instant = parse_rfc3339(s.as_str());
            let id = parse_uuid(s.as_str());
            smart_text_param(s.clone(), instant, id)
        },
        JsonValue::Array(items) => {
            let mut out: Vec<String> = Vec::new();
            let mut i: usize = 0;
            while i < items.len()
                invariant
                    i <= items.len(),
                    out.len() == i,
                    forall|j: int| 0 <= j < i ==> (#[trigger] out@[j])@ == element_texts(items@)[j],
                decreases items.len() - i,
            {
                match &items[i] {
                    JsonValue::Str(s) => out.push(s.clone()),
                    _ => out.push(String::new()),
                }
                i += 1;
            }
            assert(crate::text::texts(out@) =~= element_texts(items@));
            BindValue::TextArray(out)
        },
        JsonValue::Int(i) => BindValue::Int(*i),
        JsonValue::Float(bits) => BindValue::Float(*bits),
        JsonValue::Bool(b) => BindValue::Bool(*b),
        JsonValue::Null => BindValue::Null,
        JsonValue::Object(_) => BindValue::Text(String::new()),
    }
}

} // verus!
