//! The structured form in which a catalog is saved and loaded again: an
//! object with the tables keyed by qualified and by bare name, the enums
//! keyed by name, and the version text.

use vstd::prelude::*;
use crate::coercion::{json_parse, parse_json};
use crate::json::{find_member, member_keys, JsonModel, JsonValue, Member};
use crate::schema::{
    qualified, views, CatalogModel, ColumnInfo, ColumnModel, DatabaseSchema, EnumInfo, EnumModel,
    TableInfo, TableModel,
};
use crate::text::{last_index, lemma_last_index, same_text, texts};

verus! {

/// The members of an object as pairs of key and content.
pub open spec fn object_fields(members: Seq<Member>) -> Seq<(Seq<char>, JsonModel)> {
    Seq::new(members.len(), |i: int| (members[i].key@, members[i].value.model()))
}

/// The keys of the members of an object, in order.
pub open spec fn field_keys(fields: Seq<(Seq<char>, JsonModel)>) -> Seq<Seq<char>> {
    Seq::new(fields.len(), |i: int| fields[i].0)
}

/// The content under `key`: that of the last member with this key.
pub open spec fn field(fields: Seq<(Seq<char>, JsonModel)>, key: Seq<char>) -> Option<JsonModel> {
    let i = last_index(field_keys(fields), key);
    if i >= 0 {
        Some(fields[i].1)
    } else {
        None
    }
}

/// A list of texts as an array of strings.
pub open spec fn text_list_json(v: Seq<Seq<char>>) -> JsonModel {
    JsonModel::Array(Seq::new(v.len(), |i: int| JsonModel::Str(v[i])))
}

/// An optional text: the string, or null where it is absent.
pub open spec fn opt_text_json(o: Option<Seq<char>>) -> JsonModel {
    match o {
        Some(s) => JsonModel::Str(s),
        None => JsonModel::Null,
    }
}

/// An optional list of texts: the array, or null where it is absent.
pub open spec fn opt_list_json(o: Option<Seq<Seq<char>>>) -> JsonModel {
    match o {
        Some(v) => text_list_json(v),
        None => JsonModel::Null,
    }
}

/// The saved form of a column.
pub open spec fn column_json(c: ColumnModel) -> JsonModel {
    JsonModel::Object(
        seq![
            ("name"@, JsonModel::Str(c.name)),
            ("sql_type"@, JsonModel::Str(c.sql_type)),
            ("is_nullable"@, JsonModel::Bool(c.is_nullable)),
            ("is_primary"@, JsonModel::Bool(c.is_primary)),
            ("default_value"@, opt_text_json(c.default_value)),
            ("enum_values"@, opt_list_json(c.enum_values)),
        ],
    )
}

/// The saved form of a list of columns.
pub open spec fn column_list_json(cols: Seq<ColumnModel>) -> JsonModel {
    JsonModel::Array(Seq::new(cols.len(), |i: int| column_json(cols[i])))
}

/// The saved form of a table.
pub open spec fn table_json(t: TableModel) -> JsonModel {
    JsonModel::Object(
        seq![
            ("name"@, JsonModel::Str(t.name)),
            ("schema"@, JsonModel::Str(t.schema)),
            ("columns"@, column_list_json(t.columns)),
            ("primary_keys"@, text_list_json(t.primary_keys)),
        ],
    )
}

/// The saved form of an enum type.
pub open spec fn enum_json(e: EnumModel) -> JsonModel {
    JsonModel::Object(
        seq![("name"@, JsonModel::Str(e.name)), ("values"@, text_list_json(e.values))],
    )
}

/// The members under which the tables are saved: each table under its
/// qualified name and then under its bare name.
pub open spec fn table_members(tables: Seq<TableModel>) -> Seq<(Seq<char>, JsonModel)>
    decreases tables.len(),
{
    if tables.len() == 0 {
        Seq::empty()
    } else {
        let t = tables.last();
        table_members(tables.drop_last()).push((qualified(t.schema, t.name), table_json(t))).push(
            (t.name, table_json(t)),
        )
    }
}

/// The members under which the enum types are saved: each under its name.
pub open spec fn enum_members(enums: Seq<EnumModel>) -> Seq<(Seq<char>, JsonModel)> {
    Seq::new(enums.len(), |i: int| (enums[i].name, enum_json(enums[i])))
}

/// The saved form of a catalog.
pub open spec fn catalog_json(c: CatalogModel) -> JsonModel {
    JsonModel::Object(
        seq![
            ("tables"@, JsonModel::Object(table_members(c.tables))),
            ("enums"@, JsonModel::Object(enum_members(c.enums))),
            ("version"@, JsonModel::Str(c.version)),
        ],
    )
}

fn member(key: &str, value: JsonValue) -> (m: Member)
    ensures
        m.key@ == key@,
        m.value == value,
{
    Member { key: key.to_owned(), value }
}

fn object(members: Vec<Member>) -> (out: JsonValue)
    ensures
        out.model() == JsonModel::Object(object_fields(members@)),
{
    let out = JsonValue::Object(members);
    assert(out.model()->Object_0 =~= object_fields(members@));
    out
}

fn text_list_to_json(v: &Vec<String>) -> (out: JsonValue)
    ensures
        out.model() == text_list_json(texts(v@)),
{
    let mut items: Vec<JsonValue> = Vec::new();
    let mut i: usize = 0;
    while i < v.len()
        invariant
            i <= v.len(),
            items.len() == i,
            forall|j: int| 0 <= j < i ==> (#[trigger] items@[j]).model() == JsonModel::Str(v@[j]@),
        decreases v.len() - i,
    {
        items.push(JsonValue::Str(v[i].clone()));
        i += 1;
    }
    let out = JsonValue::Array(items);
    assert(out.model()->Array_0 =~= text_list_json(texts(v@))->Array_0);
    out
}

fn column_to_json(c: &ColumnInfo) -> (out: JsonValue)
    ensures
        out.model() == column_json(c@),
{
    let mut members: Vec<Member> = Vec::new();
    members.push(member("name", JsonValue::Str(c.name.clone())));
    members.push(member("sql_type", JsonValue::Str(c.sql_type.clone())));
    members.push(member("is_nullable", JsonValue::Bool(c.is_nullable)));
    members.push(member("is_primary", JsonValue::Bool(c.is_primary)));
    let default_value = match &c.default_value {
        Some(d) => JsonValue::Str(d.clone()),
        None => JsonValue::Null,
    };
    members.push(member("default_value", default_value));
    let enum_values = match &c.enum_values {
        Some(labels) => text_list_to_json(labels),
        None => JsonValue::Null,
    };
    members.push(member("enum_values", enum_values));
    assert(object_fields(members@) =~= column_json(c@)->Object_0);
    object(members)
}

fn table_to_json(t: &TableInfo) -> (out: JsonValue)
    ensures
        out.model() == table_json(t@),
{
    let mut columns: Vec<JsonValue> = Vec::new();
    let mut i: usize = 0;
    while i < t.columns.len()
        invariant
            i <= t.columns.len(),
            columns.len() == i,
            forall|j: int| 0 <= j < i ==> (#[trigger] columns@[j]).model() == column_json(t.columns@[j]@),
        decreases t.columns.len() - i,
    {
        columns.push(column_to_json(&t.columns[i]));
        i += 1;
    }
    let list = JsonValue::Array(columns);
    assert(list.model()->Array_0 =~= column_list_json(t@.columns)->Array_0);
    let mut members: Vec<Member> = Vec::new();
    members.push(member("name", JsonValue::Str(t.name.clone())));
    members.push(member("schema", JsonValue::Str(t.schema.clone())));
    members.push(member("columns", list));
    members.push(member("primary_keys", text_list_to_json(&t.primary_keys)));
    assert(object_fields(members@) =~= table_json(t@)->Object_0);
    object(members)
}

fn enum_to_json(e: &EnumInfo) -> (out: JsonValue)
    ensures
        out.model() == enum_json(e@),
{
    let mut members: Vec<Member> = Vec::new();
    members.push(member("name", JsonValue::Str(e.name.clone())));
    members.push(member("values", text_list_to_json(&e.values)));
    assert(object_fields(members@) =~= enum_json(e@)->Object_0);
    object(members)
}

impl DatabaseSchema {
    /// The structured form in which the catalog is saved.
    pub fn to_json(&self) -> (out: JsonValue)
        ensures
            out.model() == catalog_json(self@),
    {
        let mut tables: Vec<Member> = Vec::new();
        let mut i: usize = 0;
        assert(self@.tables.take(0) =~= Seq::<TableModel>::empty());
        assert(object_fields(tables@) =~= table_members(self@.tables.take(0)));
        while i < self.tables.len()
            invariant
                i <= self.tables.len(),
                object_fields(tables@) == table_members(self@.tables.take(i as int)),
            decreases self.tables.len() - i,
        {
            let t = &self.tables[i];
            let ghost before = object_fields(tables@);
            let ghost upto = self@.tables.take(i + 1);
            assert(upto.drop_last() =~= self@.tables.take(i as int));
            assert(upto.last() == t@);
            let mut key = t.schema.clone();
            key.append(".");
            key.append(t.name.as_str());
            tables.push(Member { key, value: table_to_json(t) });
            tables.push(Member { key: t.name.clone(), value: table_to_json(t) });
            assert(object_fields(tables@) =~= before.push(
                (qualified(t@.schema, t@.name), table_json(t@)),
            ).push((t@.name, table_json(t@))));
            i += 1;
        }
        assert(self@.tables.take(self.tables.len() as int) =~= self@.tables);
        let mut enums: Vec<Member> = Vec::new();
        let mut k: usize = 0;
        while k < self.enums.len()
            invariant
                k <= self.enums.len(),
                enums.len() == k,
                forall|j: int|
                    0 <= j < k ==> (#[trigger] enums@[j]).key@ == self.enums@[j].name@
                        && enums@[j].value.model() == enum_json(self.enums@[j]@),
            decreases self.enums.len() - k,
        {
            enums.push(Member { key: self.enums[k].name.clone(), value: enum_to_json(&self.enums[k]) });
            k += 1;
        }
        assert(object_fields(enums@) =~= enum_members(self@.enums));
        let mut members: Vec<Member> = Vec::new();
        members.push(member("tables", object(tables)));
        members.push(member("enums", object(enums)));
        members.push(member("version", JsonValue::Str(self.version.clone())));
        assert(object_fields(members@) =~= catalog_json(self@)->Object_0);
        object(members)
    }
}


/// The contents of the items of an array.
pub open spec fn array_items(items: Seq<JsonValue>) -> Seq<JsonModel> {
    Seq::new(items.len(), |i: int| items[i].model())
}

proof fn lemma_object_model(members: Vec<Member>)
    ensures
        JsonValue::Object(members).model() == JsonModel::Object(object_fields(members@)),
{
    assert(JsonValue::Object(members).model()->Object_0 =~= object_fields(members@));
}

proof fn lemma_array_model(items: Vec<JsonValue>)
    ensures
        JsonValue::Array(items).model() == JsonModel::Array(array_items(items@)),
{
    assert(JsonValue::Array(items).model()->Array_0 =~= array_items(items@));
}

/// The text of a string; nothing for any other content.
pub open spec fn text_of(m: JsonModel) -> Option<Seq<char>> {
    match m {
        JsonModel::Str(s) => Some(s),
        _ => None,
    }
}

/// The truth value of a boolean; nothing for any other content.
pub open spec fn bool_of(m: JsonModel) -> Option<bool> {
    match m {
        JsonModel::Bool(b) => Some(b),
        _ => None,
    }
}

/// The texts of an array whose items are all strings.
pub open spec fn text_list_of(m: JsonModel) -> Option<Seq<Seq<char>>> {
    match m {
        JsonModel::Array(items) => if forall|i: int|
            0 <= i < items.len() ==> (#[trigger] items[i]) is Str {
            Some(Seq::new(items.len(), |i: int| items[i]->Str_0))
        } else {
            None
        },
        _ => None,
    }
}

/// The text under `key`, where the key is there and holds a string.
pub open spec fn text_field(fields: Seq<(Seq<char>, JsonModel)>, key: Seq<char>) -> Option<
    Seq<char>,
> {
    match field(fields, key) {
        Some(v) => text_of(v),
        None => None,
    }
}

/// The truth value under `key`, where the key is there and holds a boolean.
pub open spec fn bool_field(fields: Seq<(Seq<char>, JsonModel)>, key: Seq<char>) -> Option<bool> {
    match field(fields, key) {
        Some(v) => bool_of(v),
        None => None,
    }
}

/// The texts under `key`, where the key is there and holds an array of
/// strings.
pub open spec fn text_list_field(fields: Seq<(Seq<char>, JsonModel)>, key: Seq<char>) -> Option<
    Seq<Seq<char>>,
> {
    match field(fields, key) {
        Some(v) => text_list_of(v),
        None => None,
    }
}

/// An optional text: absent where the key is missing or holds null.
pub open spec fn opt_text_field(fields: Seq<(Seq<char>, JsonModel)>, key: Seq<char>) -> Option<
    Option<Seq<char>>,
> {
    match field(fields, key) {
        Some(JsonModel::Null) => Some(None),
        Some(JsonModel::Str(s)) => Some(Some(s)),
        Some(_) => None,
        None => Some(None),
    }
}

/// An optional list of texts: absent where the key is missing or holds
/// null.
pub open spec fn opt_list_field(fields: Seq<(Seq<char>, JsonModel)>, key: Seq<char>) -> Option<
    Option<Seq<Seq<char>>>,
> {
    match field(fields, key) {
        Some(JsonModel::Null) => Some(None),
        Some(v) => match text_list_of(v) {
            Some(l) => Some(Some(l)),
            None => None,
        },
        None => Some(None),
    }
}

/// The column that a saved form holds, if it is one.
pub open spec fn column_from_json(m: JsonModel) -> Option<ColumnModel> {
    match m {
        JsonModel::Object(f) => {
            let name = text_field(f, "name"@);
            let sql_type = text_field(f, "sql_type"@);
            let is_nullable = bool_field(f, "is_nullable"@);
            let is_primary = bool_field(f, "is_primary"@);
            let default_value = opt_text_field(f, "default_value"@);
            let enum_values = opt_list_field(f, "enum_values"@);
            if name is Some && sql_type is Some && is_nullable is Some && is_primary is Some
                && default_value is Some && enum_values is Some {
                Some(
                    ColumnModel {
                        name: name->0,
                        sql_type: sql_type->0,
                        is_nullable: is_nullable->0,
                        is_primary: is_primary->0,
                        default_value: default_value->0,
                        enum_values: enum_values->0,
                    },
                )
            } else {
                None
            }
        },
        _ => None,
    }
}

/// The columns that a saved list holds, if every item is a column.
pub open spec fn column_list_from_json(m: JsonModel) -> Option<Seq<ColumnModel>> {
    match m {
        JsonModel::Array(items) => if forall|i: int|
            0 <= i < items.len() ==> column_from_json(#[trigger] items[i]) is Some {
            Some(Seq::new(items.len(), |i: int| column_from_json(items[i])->0))
        } else {
            None
        },
        _ => None,
    }
}

/// The table that a saved form holds, if it is one.
pub open spec fn table_from_json(m: JsonModel) -> Option<TableModel> {
    match m {
        JsonModel::Object(f) => {
            let name = text_field(f, "name"@);
            let schema = text_field(f, "schema"@);
            let columns = match field(f, "columns"@) {
                Some(v) => column_list_from_json(v),
                None => None,
            };
            let primary_keys = text_list_field(f, "primary_keys"@);
            if name is Some && schema is Some && columns is Some && primary_keys is Some {
                Some(
                    TableModel {
                        name: name->0,
                        schema: schema->0,
                        columns: columns->0,
                        primary_keys: primary_keys->0,
                    },
                )
            } else {
                None
            }
        },
        _ => None,
    }
}

/// The enum type that a saved form holds, if it is one.
pub open spec fn enum_from_json(m: JsonModel) -> Option<EnumModel> {
    match m {
        JsonModel::Object(f) => {
            let name = text_field(f, "name"@);
            let values = text_list_field(f, "values"@);
            if name is Some && values is Some {
                Some(EnumModel { name: name->0, values: values->0 })
            } else {
                None
            }
        },
        _ => None,
    }
}

/// The tables that saved members hold, if every member is a table: those
/// that stand under their qualified name, in order.
pub open spec fn tables_from_members(members: Seq<(Seq<char>, JsonModel)>) -> Option<
    Seq<TableModel>,
>
    decreases members.len(),
{
    if members.len() == 0 {
        Some(Seq::empty())
    } else {
        let head = tables_from_members(members.drop_last());
        let t = table_from_json(members.last().1);
        if head is Some && t is Some {
            if members.last().0 == qualified(t->0.schema, t->0.name) {
                Some(head->0.push(t->0))
            } else {
                head
            }
        } else {
            None
        }
    }
}

/// The enum types that saved members hold, if every member is one.
pub open spec fn enums_from_members(members: Seq<(Seq<char>, JsonModel)>) -> Option<
    Seq<EnumModel>,
> {
    if forall|i: int| 0 <= i < members.len() ==> enum_from_json((#[trigger] members[i]).1) is Some {
        Some(Seq::new(members.len(), |i: int| enum_from_json(members[i].1)->0))
    } else {
        None
    }
}

/// The catalog that a saved form holds, if it is one.
pub open spec fn catalog_from_json(m: JsonModel) -> Option<CatalogModel> {
    match m {
        JsonModel::Object(f) => {
            let tables = match field(f, "tables"@) {
                Some(JsonModel::Object(members)) => tables_from_members(members),
                _ => None,
            };
            let enums = match field(f, "enums"@) {
                Some(JsonModel::Object(members)) => enums_from_members(members),
                _ => None,
            };
            let version = text_field(f, "version"@);
            if tables is Some && enums is Some && version is Some {
                Some(CatalogModel { tables: tables->0, enums: enums->0, version: version->0 })
            } else {
                None
            }
        },
        _ => None,
    }
}

fn get_field<'a>(members: &'a Vec<Member>, key: &str) -> (r: Option<&'a JsonValue>)
    ensures
        match r {
            Some(v) => field(object_fields(members@), key@) == Some(v.model()),
            None => field(object_fields(members@), key@) is None,
        },
{
    assert(field_keys(object_fields(members@)) =~= member_keys(members@));
    match find_member(members, key) {
        Some(m) => Some(&members[m].value),
        None => None,
    }
}

fn get_text(members: &Vec<Member>, key: &str) -> (r: Option<String>)
    ensures
        crate::schema::opt_text(r) == text_field(object_fields(members@), key@),
{
    match get_field(members, key) {
        Some(JsonValue::Str(s)) => Some(s.clone()),
        _ => None,
    }
}

fn get_bool(members: &Vec<Member>, key: &str) -> (r: Option<bool>)
    ensures
        r == bool_field(object_fields(members@), key@),
{
    match get_field(members, key) {
        Some(JsonValue::Bool(b)) => Some(*b),
        _ => None,
    }
}

fn text_list_from_json(v: &JsonValue) -> (r: Option<Vec<String>>)
    ensures
        match r {
            Some(l) => text_list_of(v.model()) == Some(texts(l@)),
            None => text_list_of(v.model()) is None,
        },
{
    match v {
        JsonValue::Array(items) => {
            proof {
                lemma_array_model(*items);
            }
            let mut out: Vec<String> = Vec::new();
            let mut i: usize = 0;
            while i < items.len()
                invariant
                    i <= items.len(),
                    out.len() == i,
                    v.model() == JsonModel::Array(array_items(items@)),
                    forall|j: int|
                        0 <= j < i ==> (#[trigger] array_items(items@)[j]) == JsonModel::Str(
                            out@[j]@,
                        ),
                decreases items.len() - i,
            {
                match &items[i] {
                    JsonValue::Str(s) => {
                        assert(array_items(items@)[i as int] == JsonModel::Str(s@));
                        out.push(s.clone());
                    },
                    _ => {
                        assert(!(array_items(items@)[i as int] is Str));
                        return None;
                    },
                }
                i += 1;
            }
            assert(texts(out@) =~= Seq::new(
                array_items(items@).len(),
                |i: int| array_items(items@)[i]->Str_0,
            ));
            Some(out)
        },
        _ => None,
    }
}

fn get_text_list(members: &Vec<Member>, key: &str) -> (r: Option<Vec<String>>)
    ensures
        match r {
            Some(l) => text_list_field(object_fields(members@), key@) == Some(texts(l@)),
            None => text_list_field(object_fields(members@), key@) is None,
        },
{
    match get_field(members, key) {
        Some(v) => text_list_from_json(v),
        None => None,
    }
}

fn column_from(v: &JsonValue) -> (r: Option<ColumnInfo>)
    ensures
        match r {
            Some(c) => column_from_json(v.model()) == Some(c@),
            None => column_from_json(v.model()) is None,
        },
{
    let members = match v {
        JsonValue::Object(m) => m,
        _ => { return None; },
    };
    proof {
        lemma_object_model(*members);
    }
    let name = match get_text(members, "name") {
        Some(s) => s,
        None => { return None; },
    };
    let sql_type = match get_text(members, "sql_type") {
        Some(s) => s,
        None => { return None; },
    };
    let is_nullable = match get_bool(members, "is_nullable") {
        Some(b) => b,
        None => { return None; },
    };
    let is_primary = match get_bool(members, "is_primary") {
        Some(b) => b,
        None => { return None; },
    };
    let default_value = match get_field(members, "default_value") {
        Some(JsonValue::Null) => None,
        Some(JsonValue::Str(s)) => Some(s.clone()),
        Some(_) => { return None; },
        None => None,
    };
    let enum_values = match get_field(members, "enum_values") {
        Some(JsonValue::Null) => None,
        Some(other) => match text_list_from_json(other) {
            Some(l) => Some(l),
            None => { return None; },
        },
        None => None,
    };
    Some(ColumnInfo { name, sql_type, is_nullable, is_primary, default_value, enum_values })
}

fn column_list_from(v: &JsonValue) -> (r: Option<Vec<ColumnInfo>>)
    ensures
        match r {
            Some(l) => column_list_from_json(v.model()) == Some(views(l@)),
            None => column_list_from_json(v.model()) is None,
        },
{
    match v {
        JsonValue::Array(items) => {
            proof {
                lemma_array_model(*items);
            }
            let mut out: Vec<ColumnInfo> = Vec::new();
            let mut i: usize = 0;
            while i < items.len()
                invariant
                    i <= items.len(),
                    out.len() == i,
                    v.model() == JsonModel::Array(array_items(items@)),
                    forall|j: int|
                        0 <= j < i ==> column_from_json(#[trigger] array_items(items@)[j]) == Some(
                            out@[j]@,
                        ),
                decreases items.len() - i,
            {
                match column_from(&items[i]) {
                    Some(c) => {
                        assert(array_items(items@)[i as int] == items@[i as int].model());
                        out.push(c);
                    },
                    None => {
                        assert(array_items(items@)[i as int] == items@[i as int].model());
                        return None;
                    },
                }
                i += 1;
            }
            assert(views(out@) =~= Seq::new(
                array_items(items@).len(),
                |i: int| column_from_json(array_items(items@)[i])->0,
            ));
            Some(out)
        },
        _ => None,
    }
}

fn table_from(v: &JsonValue) -> (r: Option<TableInfo>)
    ensures
        match r {
            Some(t) => table_from_json(v.model()) == Some(t@),
            None => table_from_json(v.model()) is None,
        },
{
    let members = match v {
        JsonValue::Object(m) => m,
        _ => { return None; },
    };
    proof {
        lemma_object_model(*members);
    }
    let name = match get_text(members, "name") {
        Some(s) => s,
        None => { return None; },
    };
    let schema = match get_text(members, "schema") {
        Some(s) => s,
        None => { return None; },
    };
    let columns = match get_field(members, "columns") {
        Some(list) => match column_list_from(list) {
            Some(c) => c,
            None => { return None; },
        },
        None => { return None; },
    };
    let primary_keys = match get_text_list(members, "primary_keys") {
        Some(l) => l,
        None => { return None; },
    };
    Some(TableInfo { name, schema, columns, primary_keys })
}

fn enum_from(v: &JsonValue) -> (r: Option<EnumInfo>)
    ensures
        match r {
            Some(e) => enum_from_json(v.model()) == Some(e@),
            None => enum_from_json(v.model()) is None,
        },
{
    let members = match v {
        JsonValue::Object(m) => m,
        _ => { return None; },
    };
    proof {
        lemma_object_model(*members);
    }
    let name = match get_text(members, "name") {
        Some(s) => s,
        None => { return None; },
    };
    let values = match get_text_list(members, "values") {
        Some(l) => l,
        None => { return None; },
    };
    Some(EnumInfo { name, values })
}

fn tables_from(members: &Vec<Member>) -> (r: Option<Vec<TableInfo>>)
    ensures
        match r {
            Some(l) => tables_from_members(object_fields(members@)) == Some(views(l@)),
            None => tables_from_members(object_fields(members@)) is None,
        },
{
    let ghost fields = object_fields(members@);
    let mut out: Vec<TableInfo> = Vec::new();
    let mut i: usize = 0;
    assert(views(out@) =~= Seq::<TableModel>::empty());
    while i < members.len()
        invariant
            i <= members.len(),
            fields == object_fields(members@),
            tables_from_members(fields.take(i as int)) == Some(views(out@)),
        decreases members.len() - i,
    {
        assert(fields.take(i + 1).drop_last() =~= fields.take(i as int));
        assert(fields.take(i + 1).last() == fields[i as int]);
        match table_from(&members[i].value) {
            Some(t) => {
                let mut key = t.schema.clone();
                key.append(".");
                key.append(t.name.as_str());
                if same_text(members[i].key.as_str(), key.as_str()) {
                    let ghost before = views(out@);
                    out.push(t);
                    assert(views(out@) =~= before.push(t@));
                }
            },
            None => {
                proof {
                    lemma_tables_from_prefix(fields, i + 1);
                }
                return None;
            },
        }
        i += 1;
    }
    assert(fields.take(members.len() as int) =~= fields);
    Some(out)
}

/// Where a prefix of the members holds something that is no table, so do
/// all the members.
proof fn lemma_tables_from_prefix(fields: Seq<(Seq<char>, JsonModel)>, n: int)
    requires
        0 <= n <= fields.len(),
        tables_from_members(fields.take(n)) is None,
    ensures
        tables_from_members(fields) is None,
    decreases fields.len() - n,
{
    if n < fields.len() {
        assert(fields.take(n + 1).drop_last() =~= fields.take(n));
        lemma_tables_from_prefix(fields, n + 1);
    } else {
        assert(fields.take(n) =~= fields);
    }
}

fn enums_from(members: &Vec<Member>) -> (r: Option<Vec<EnumInfo>>)
    ensures
        match r {
            Some(l) => enums_from_members(object_fields(members@)) == Some(views(l@)),
            None => enums_from_members(object_fields(members@)) is None,
        },
{
    let ghost fields = object_fields(members@);
    let mut out: Vec<EnumInfo> = Vec::new();
    let mut i: usize = 0;
    while i < members.len()
        invariant
            i <= members.len(),
            out.len() == i,
            fields == object_fields(members@),
            forall|j: int| 0 <= j < i ==> enum_from_json((#[trigger] fields[j]).1) == Some(out@[j]@),
        decreases members.len() - i,
    {
        assert(fields[i as int].1 == members@[i as int].value.model());
        match enum_from(&members[i].value) {
            Some(e) => {
                out.push(e);
            },
            None => {
                return None;
            },
        }
        i += 1;
    }
    assert(views(out@) =~= Seq::new(fields.len(), |i: int| enum_from_json(fields[i].1)->0));
    Some(out)
}

impl DatabaseSchema {
    /// Reads a catalog from its saved form. Every table, column and enum
    /// must have its fields with values of the right shape; a table is
    /// taken from the member that stands under its qualified name.
    pub fn from_json(value: &JsonValue) -> (r: Option<DatabaseSchema>)
        ensures
            match r {
                Some(c) => catalog_from_json(value.model()) == Some(c@),
                None => catalog_from_json(value.model()) is None,
            },
    {
        let members = match value {
            JsonValue::Object(m) => m,
            _ => { return None; },
        };
        proof {
            lemma_object_model(*members);
        }
        let tables = match get_field(members, "tables") {
            Some(JsonValue::Object(list)) => {
                proof {
                    lemma_object_model(*list);
                }
                match tables_from(list) {
                    Some(t) => t,
                    None => { return None; },
                }
            },
            _ => { return None; },
        };
        let enums = match get_field(members, "enums") {
            Some(JsonValue::Object(list)) => {
                proof {
                    lemma_object_model(*list);
                }
                match enums_from(list) {
                    Some(e) => e,
                    None => { return None; },
                }
            },
            _ => { return None; },
        };
        let version = match get_text(members, "version") {
            Some(s) => s,
            None => { return None; },
        };
        Some(DatabaseSchema { tables, enums, version })
    }
}


impl DatabaseSchema {
    /// Reads a catalog from the JSON text of its saved form. It fails where
    /// the text is not JSON or does not hold a catalog.
    pub fn load_from_text(text: &str) -> (r: Option<DatabaseSchema>)
        ensures
            match r {
                Some(c) => json_parse(text@) is Some && catalog_from_json(json_parse(text@)->0)
                    == Some(c@),
                None => json_parse(text@) is None || catalog_from_json(json_parse(text@)->0)
                    is None,
            },
    {
        match parse_json(text) {
            Some(value) => DatabaseSchema::from_json(&value),
            None => None,
        }
    }
}

proof fn lemma_field_unique(fields: Seq<(Seq<char>, JsonModel)>, i: int, key: Seq<char>)
    requires
        0 <= i < fields.len(),
        fields[i].0 == key,
        forall|j: int| 0 <= j < fields.len() && j != i ==> (#[trigger] fields[j]).0 != key,
    ensures
        field(fields, key) == Some(fields[i].1),
{
    let keys = field_keys(fields);
    lemma_last_index(keys, key);
    let r = last_index(keys, key);
    assert(keys[i] == key);
    if r != i {
        if r >= 0 {
            assert(keys[r] == fields[r].0);
        }
    }
}

proof fn lemma_column_keys()
    ensures
        "name"@ != "sql_type"@,
        "name"@ != "is_nullable"@,
        "name"@ != "is_primary"@,
        "name"@ != "default_value"@,
        "name"@ != "enum_values"@,
        "sql_type"@ != "is_nullable"@,
        "sql_type"@ != "is_primary"@,
        "sql_type"@ != "default_value"@,
        "sql_type"@ != "enum_values"@,
        "is_nullable"@ != "is_primary"@,
        "is_nullable"@ != "default_value"@,
        "is_nullable"@ != "enum_values"@,
        "is_primary"@ != "default_value"@,
        "is_primary"@ != "enum_values"@,
        "default_value"@ != "enum_values"@,
{
    reveal_strlit("name");
    reveal_strlit("sql_type");
    reveal_strlit("is_nullable");
    reveal_strlit("is_primary");
    reveal_strlit("default_value");
    reveal_strlit("enum_values");
    assert("name"@.len() == 4);
    assert("sql_type"@.len() == 8);
    assert("is_nullable"@.len() == 11);
    assert("is_primary"@.len() == 10);
    assert("default_value"@.len() == 13);
    assert("enum_values"@.len() == 11);
    assert("is_nullable"@[0] != "enum_values"@[0]);
}

proof fn lemma_table_keys()
    ensures
        "name"@ != "schema"@,
        "name"@ != "columns"@,
        "name"@ != "primary_keys"@,
        "schema"@ != "columns"@,
        "schema"@ != "primary_keys"@,
        "columns"@ != "primary_keys"@,
        "name"@ != "values"@,
        "tables"@ != "enums"@,
        "tables"@ != "version"@,
        "enums"@ != "version"@,
{
    reveal_strlit("name");
    reveal_strlit("schema");
    reveal_strlit("columns");
    reveal_strlit("primary_keys");
    reveal_strlit("values");
    reveal_strlit("tables");
    reveal_strlit("enums");
    reveal_strlit("version");
    assert("name"@.len() == 4);
    assert("schema"@.len() == 6);
    assert("columns"@.len() == 7);
    assert("primary_keys"@.len() == 12);
    assert("values"@.len() == 6);
    assert("tables"@.len() == 6);
    assert("enums"@.len() == 5);
    assert("version"@.len() == 7);
}

proof fn lemma_text_list_round(v: Seq<Seq<char>>)
    ensures
        text_list_of(text_list_json(v)) == Some(v),
{
    let items = text_list_json(v)->Array_0;
    assert(Seq::new(items.len(), |i: int| items[i]->Str_0) =~= v);
}

proof fn lemma_column_round(c: ColumnModel)
    ensures
        column_from_json(column_json(c)) == Some(c),
{
    let f = column_json(c)->Object_0;
    lemma_column_keys();
    lemma_field_unique(f, 0, "name"@);
    lemma_field_unique(f, 1, "sql_type"@);
    lemma_field_unique(f, 2, "is_nullable"@);
    lemma_field_unique(f, 3, "is_primary"@);
    lemma_field_unique(f, 4, "default_value"@);
    lemma_field_unique(f, 5, "enum_values"@);
    if c.enum_values is Some {
        lemma_text_list_round(c.enum_values->0);
    }
}

proof fn lemma_column_list_round(cols: Seq<ColumnModel>)
    ensures
        column_list_from_json(column_list_json(cols)) == Some(cols),
{
    let items = column_list_json(cols)->Array_0;
    assert forall|i: int| 0 <= i < items.len() implies column_from_json(#[trigger] items[i])
        == Some(cols[i]) by {
        lemma_column_round(cols[i]);
    }
    assert(Seq::new(items.len(), |i: int| column_from_json(items[i])->0) =~= cols);
}

proof fn lemma_table_round(t: TableModel)
    ensures
        table_from_json(table_json(t)) == Some(t),
{
    let f = table_json(t)->Object_0;
    lemma_table_keys();
    lemma_field_unique(f, 0, "name"@);
    lemma_field_unique(f, 1, "schema"@);
    lemma_field_unique(f, 2, "columns"@);
    lemma_field_unique(f, 3, "primary_keys"@);
    lemma_column_list_round(t.columns);
    lemma_text_list_round(t.primary_keys);
}

proof fn lemma_enum_round(e: EnumModel)
    ensures
        enum_from_json(enum_json(e)) == Some(e),
{
    let f = enum_json(e)->Object_0;
    lemma_table_keys();
    lemma_field_unique(f, 0, "name"@);
    lemma_field_unique(f, 1, "values"@);
    lemma_text_list_round(e.values);
}

proof fn lemma_tables_round(tables: Seq<TableModel>)
    ensures
        tables_from_members(table_members(tables)) == Some(tables),
    decreases tables.len(),
{
    if tables.len() == 0 {
        assert(tables =~= Seq::<TableModel>::empty());
    } else {
        let t = tables.last();
        let head = table_members(tables.drop_last());
        let with_qualified = head.push((qualified(t.schema, t.name), table_json(t)));
        let all = with_qualified.push((t.name, table_json(t)));
        lemma_tables_round(tables.drop_last());
        lemma_table_round(t);
        reveal_strlit(".");
        assert(qualified(t.schema, t.name).len() == t.schema.len() + 1 + t.name.len());
        assert(with_qualified.drop_last() =~= head);
        assert(all.drop_last() =~= with_qualified);
        assert(tables_from_members(with_qualified) == Some(tables.drop_last().push(t)));
        assert(tables.drop_last().push(t) =~= tables);
        assert(tables_from_members(all) == Some(tables));
    }
}

proof fn lemma_enums_round(enums: Seq<EnumModel>)
    ensures
        enums_from_members(enum_members(enums)) == Some(enums),
{
    let members = enum_members(enums);
    assert forall|i: int| 0 <= i < members.len() implies enum_from_json((#[trigger] members[i]).1)
        == Some(enums[i]) by {
        lemma_enum_round(enums[i]);
    }
    assert(Seq::new(members.len(), |i: int| enum_from_json(members[i].1)->0) =~= enums);
}

/// Saving and loading loses nothing: the catalog read from the saved form
/// of a catalog is that catalog, with every table, its columns in order,
/// their types, its primary keys and every enum's labels.
pub proof fn lemma_save_then_load(c: CatalogModel)
    ensures
        catalog_from_json(catalog_json(c)) == Some(c),
{
    let f = catalog_json(c)->Object_0;
    lemma_table_keys();
    lemma_field_unique(f, 0, "tables"@);
    lemma_field_unique(f, 1, "enums"@);
    lemma_field_unique(f, 2, "version"@);
    lemma_tables_round(c.tables);
    lemma_enums_round(c.enums);
}

} // verus!


