//! The type-declaration text that is derived from a catalog: one
//! enumeration for each enum type and one interface for each table.

use vstd::prelude::*;
use crate::casing::{camel_case, field_text, pascal_case, pascal_text, to_upper, upper_of};
use crate::schema::{
    bare_names, enum_names, views, CatalogModel, ColumnInfo, ColumnModel, DatabaseSchema,
    EnumInfo, EnumModel, TableInfo, TableModel,
};
use crate::text::{
    chars_of, concat_strings, contains_chars, contains_text, first_index, join, last_index, position_first,
    replace_char, same_text, slice_text, stands_after, stands_before, strip_char, texts,
    trim_end, trim_end_len, with_char_replaced, without_char,
};

verus! {

/// The declared type that a scalar database type is given. An unknown type
/// whose name holds `enum` is named after what stands before a trailing
/// `enum`; one whose name starts with `_` is an array of what follows;
/// anything else is a string.
pub open spec fn ts_scalar(t: Seq<char>) -> Seq<char>
    decreases t.len(),
{
    if t == "integer"@ || t == "smallint"@ || t == "bigint"@ || t == "serial"@ || t
        == "bigserial"@ {
        "number"@
    } else if t == "numeric"@ || t == "decimal"@ || t == "real"@ || t == "double precision"@ {
        "number"@
    } else if t == "character varying"@ || t == "text"@ || t == "character"@ || t == "varchar"@ {
        "string"@
    } else if t == "boolean"@ {
        "boolean"@
    } else if t == "timestamp with time zone"@ || t == "timestamp without time zone"@ || t
        == "timestamp"@ || t == "timestamptz"@ {
        "Date"@
    } else if t == "json"@ || t == "jsonb"@ {
        "any"@
    } else if t == "uuid"@ {
        "string"@
    } else if t == "bytea"@ {
        "unknown"@
    } else if contains_text(t, "enum"@) {
        pascal_text(trim_end(t, "enum"@))
    } else if t.len() > 0 && t[0] == '_' {
        ts_scalar(t.skip(1)) + "[]"@
    } else {
        "string"@
    }
}

/// Maps a scalar database type to its declared type.
pub fn pg_type_to_typescript(pg_type: &str) -> (out: String)
    ensures
        out@ == ts_scalar(pg_type@),
    decreases pg_type@.len(),
{
    if same_text(pg_type, "integer") || same_text(pg_type, "smallint") || same_text(
        pg_type,
        "bigint",
    ) || same_text(pg_type, "serial") || same_text(pg_type, "bigserial") {
        "number".to_owned()
    } else if same_text(pg_type, "numeric") || same_text(pg_type, "decimal") || same_text(
        pg_type,
        "real",
    ) || same_text(pg_type, "double precision") {
        "number".to_owned()
    } else if same_text(pg_type, "character varying") || same_text(pg_type, "text") || same_text(
        pg_type,
        "character",
    ) || same_text(pg_type, "varchar") {
        "string".to_owned()
    } else if same_text(pg_type, "boolean") {
        "boolean".to_owned()
    } else if same_text(pg_type, "timestamp with time zone") || same_text(
        pg_type,
        "timestamp without time zone",
    ) || same_text(pg_type, "timestamp") || same_text(pg_type, "timestamptz") {
        "Date".to_owned()
    } else if same_text(pg_type, "json") || same_text(pg_type, "jsonb") {
        "any".to_owned()
    } else if same_text(pg_type, "uuid") {
        "string".to_owned()
    } else if same_text(pg_type, "bytea") {
        "unknown".to_owned()
    } else {
        let chars = chars_of(pg_type);
        let pattern = chars_of("enum");
        if contains_chars(&chars, &pattern) {
            let n = trim_end_len(&chars, &pattern);
            let stem = slice_text(&chars, 0, n);
            assert(chars@.subrange(0, n as int) =~= chars@.take(n as int));
            pascal_case(stem.as_str())
        } else if chars.len() > 0 && chars[0] == '_' {
            let rest = slice_text(&chars, 1, chars.len());
            assert(chars@.subrange(1, chars.len() as int) =~= chars@.skip(1));
            let mut out = pg_type_to_typescript(rest.as_str());
            out.append("[]");
            out
        } else {
            "string".to_owned()
        }
    }
}

/// The declared type of a column: the enumeration of an enum column, an
/// array of the element type for an array column, else the scalar mapping.
pub open spec fn column_ts_type(col: ColumnModel) -> Seq<char> {
    if col.enum_values is Some {
        pascal_text(col.sql_type)
    } else if col.sql_type.len() > 0 && col.sql_type[0] == '_' {
        ts_scalar(col.sql_type.skip(1)) + "[]"@
    } else if contains_text(col.sql_type, "ARRAY"@) {
        ts_scalar(trim_end(col.sql_type, "[]"@)) + "[]"@
    } else {
        ts_scalar(col.sql_type)
    }
}

fn column_type_text(col: &ColumnInfo) -> (out: String)
    ensures
        out@ == column_ts_type(col@),
{
    if col.enum_values.is_some() {
        return pascal_case(col.sql_type.as_str());
    }
    let chars = chars_of(col.sql_type.as_str());
    let array = chars_of("ARRAY");
    if chars.len() > 0 && chars[0] == '_' {
        let rest = slice_text(&chars, 1, chars.len());
        assert(chars@.subrange(1, chars.len() as int) =~= chars@.skip(1));
        let mut out = pg_type_to_typescript(rest.as_str());
        out.append("[]");
        out
    } else if contains_chars(&chars, &array) {
        let brackets = chars_of("[]");
        let n = trim_end_len(&chars, &brackets);
        let stem = slice_text(&chars, 0, n);
        assert(chars@.subrange(0, n as int) =~= chars@.take(n as int));
        let mut out = pg_type_to_typescript(stem.as_str());
        out.append("[]");
        out
    } else {
        pg_type_to_typescript(col.sql_type.as_str())
    }
}

/// A column's name without zero-width spaces.
pub open spec fn clean_name(name: Seq<char>) -> Seq<char> {
    without_char(name, '\u{200B}')
}

/// The names of the columns without zero-width spaces, in order.
pub open spec fn clean_names(cols: Seq<ColumnModel>) -> Seq<Seq<char>> {
    Seq::new(cols.len(), |i: int| clean_name(cols[i].name))
}

/// The line that declares one member of an enumeration.
pub open spec fn enum_member_line(value: Seq<char>) -> Seq<char> {
    "  "@ + upper_of(with_char_replaced(value, '-', '_')) + " = '"@ + value + "',\n"@
}

/// The declaration of one enumeration.
pub open spec fn enum_block(e: EnumModel) -> Seq<char> {
    "export enum "@ + pascal_text(e.name) + " {\n"@ + join(
        Seq::new(e.values.len(), |i: int| enum_member_line(e.values[i])),
        Seq::empty(),
    ) + "}\n\n"@
}

/// What the enum at position `i` contributes: its declaration, or nothing
/// where a later enum has the same name.
pub open spec fn enum_entry(enums: Seq<EnumModel>, i: int) -> Seq<char> {
    if last_index(enum_names(enums), enums[i].name) == i {
        enum_block(enums[i])
    } else {
        Seq::empty()
    }
}

/// The line that declares one column of an interface.
pub open spec fn column_line(col: ColumnModel) -> Seq<char> {
    "  "@ + field_text(clean_name(col.name)) + ": "@ + column_ts_type(col) + (if col.is_nullable {
        " | null"@
    } else {
        Seq::empty()
    }) + "\n"@
}

/// What the column at position `j` contributes: its line, or nothing where
/// an earlier column has the same name.
pub open spec fn column_entry(cols: Seq<ColumnModel>, j: int) -> Seq<char> {
    if first_index(clean_names(cols), clean_name(cols[j].name)) == j {
        column_line(cols[j])
    } else {
        Seq::empty()
    }
}

/// The name of the interface of the table at position `i`: its own name,
/// with the namespace appended where an earlier table has the same name.
pub open spec fn interface_name(tables: Seq<TableModel>, i: int) -> Seq<char> {
    if last_index(bare_names(tables).take(i), tables[i].name) >= 0 {
        pascal_text(tables[i].name) + "_"@ + pascal_text(tables[i].schema)
    } else {
        pascal_text(tables[i].name)
    }
}

/// The declaration of the interface of the table at position `i`.
pub open spec fn interface_block(tables: Seq<TableModel>, i: int) -> Seq<char> {
    "export interface "@ + interface_name(tables, i) + " {\n"@ + join(
        Seq::new(tables[i].columns.len(), |j: int| column_entry(tables[i].columns, j)),
        Seq::empty(),
    ) + "}\n\n"@
}

/// The whole type-declaration text of a catalog.
pub open spec fn typescript_text(c: CatalogModel) -> Seq<char> {
    "// This file is auto-generated. Do not edit manually.\n\n"@ + join(
        Seq::new(c.enums.len(), |i: int| enum_entry(c.enums, i)),
        Seq::empty(),
    ) + join(Seq::new(c.tables.len(), |i: int| interface_block(c.tables, i)), Seq::empty())
}

fn enum_block_text(e: &EnumInfo) -> (out: String)
    ensures
        out@ == enum_block(e@),
{
    let mut lines: Vec<String> = Vec::new();
    let mut i: usize = 0;
    while i < e.values.len()
        invariant
            i <= e.values.len(),
            lines.len() == i,
            forall|j: int| 0 <= j < i ==> (#[trigger] lines@[j])@ == enum_member_line(e.values@[j]@),
        decreases e.values.len() - i,
    {
        let value = &e.values[i];
        let mut line = "  ".to_owned();
        let member = to_upper(replace_char(value.as_str(), '-', '_').as_str());
        line.append(member.as_str());
        line.append(" = '");
        line.append(value.as_str());
        line.append("',\n");
        lines.push(line);
        i += 1;
    }
    assert(texts(lines@) =~= Seq::new(e@.values.len(), |i: int| enum_member_line(e@.values[i])));
    let mut out = "export enum ".to_owned();
    let name = pascal_case(e.name.as_str());
    out.append(name.as_str());
    out.append(" {\n");
    let body = concat_strings(&lines);
    out.append(body.as_str());
    out.append("}\n\n");
    out
}

fn column_line_text(col: &ColumnInfo, clean: &str) -> (out: String)
    requires
        clean@ == clean_name(col.name@),
    ensures
        out@ == column_line(col@),
{
    let mut out = "  ".to_owned();
    let field = camel_case(clean);
    out.append(field.as_str());
    out.append(": ");
    let declared = column_type_text(col);
    out.append(declared.as_str());
    if col.is_nullable {
        out.append(" | null");
    } else {
        assert(out@ =~= "  "@ + field_text(clean_name(col@.name)) + ": "@ + column_ts_type(col@)
            + Seq::<char>::empty());
    }
    out.append("\n");
    out
}

fn interface_block_text(tables: &Vec<TableInfo>, names: &Vec<String>, i: usize) -> (out: String)
    requires
        i < tables.len(),
        texts(names@) == bare_names(views(tables@)),
    ensures
        out@ == interface_block(views(tables@), i as int),
{
    let table = &tables[i];
    let mut cleaned: Vec<String> = Vec::new();
    let mut c: usize = 0;
    while c < table.columns.len()
        invariant
            c <= table.columns.len(),
            cleaned.len() == c,
            forall|j: int| 0 <= j < c ==> (#[trigger] cleaned@[j])@ == clean_name(table.columns@[j].name@),
        decreases table.columns.len() - c,
    {
        cleaned.push(strip_char(table.columns[c].name.as_str(), '\u{200B}'));
        c += 1;
    }
    assert(texts(cleaned@) =~= clean_names(table@.columns));
    let mut lines: Vec<String> = Vec::new();
    let mut j: usize = 0;
    while j < table.columns.len()
        invariant
            j <= table.columns.len(),
            lines.len() == j,
            cleaned.len() == table.columns.len(),
            texts(cleaned@) == clean_names(table@.columns),
            forall|k: int| 0 <= k < j ==> (#[trigger] lines@[k])@ == column_entry(table@.columns, k),
        decreases table.columns.len() - j,
    {
        assert(texts(cleaned@)[j as int] == cleaned@[j as int]@);
        assert(clean_names(table@.columns)[j as int] == clean_name(table@.columns[j as int].name));
        if position_first(&cleaned, cleaned[j].as_str()) == j {
            lines.push(column_line_text(&table.columns[j], cleaned[j].as_str()));
        } else {
            lines.push(String::new());
        }
        j += 1;
    }
    assert(texts(lines@) =~= Seq::new(
        table@.columns.len(),
        |j: int| column_entry(table@.columns, j),
    ));
    let mut out = "export interface ".to_owned();
    let mut name = pascal_case(table.name.as_str());
    assert(texts(names@).len() == names@.len());
    assert(bare_names(views(tables@)).len() == tables@.len());
    assert(texts(names@)[i as int] == names@[i as int]@);
    assert(bare_names(views(tables@))[i as int] == table@.name);
    if stands_before(names, i, table.name.as_str()) {
        name.append("_");
        let namespace = pascal_case(table.schema.as_str());
        name.append(namespace.as_str());
    }
    out.append(name.as_str());
    out.append(" {\n");
    let body = concat_strings(&lines);
    out.append(body.as_str());
    out.append("}\n\n");
    out
}

impl DatabaseSchema {
    /// The type-declaration text of the catalog: one enumeration for each
    /// enum type, then one interface for each table, each in catalog order.
    pub fn generate_typescript_types(&self) -> (out: String)
        ensures
            out@ == typescript_text(self@),
    {
        let mut enum_keys: Vec<String> = Vec::new();
        let mut e: usize = 0;
        while e < self.enums.len()
            invariant
                e <= self.enums.len(),
                enum_keys.len() == e,
                forall|j: int| 0 <= j < e ==> (#[trigger] enum_keys@[j])@ == self.enums@[j].name@,
            decreases self.enums.len() - e,
        {
            enum_keys.push(self.enums[e].name.clone());
            e += 1;
        }
        assert(texts(enum_keys@) =~= enum_names(self@.enums));
        let mut enum_parts: Vec<String> = Vec::new();
        let mut i: usize = 0;
        while i < self.enums.len()
            invariant
                i <= self.enums.len(),
                enum_parts.len() == i,
                enum_keys.len() == self.enums.len(),
                texts(enum_keys@) == enum_names(self@.enums),
                forall|j: int| 0 <= j < i ==> (#[trigger] enum_parts@[j])@ == enum_entry(self@.enums, j),
            decreases self.enums.len() - i,
        {
            assert(texts(enum_keys@)[i as int] == enum_keys@[i as int]@);
            assert(enum_names(self@.enums)[i as int] == self@.enums[i as int].name);
            if stands_after(&enum_keys, i, self.enums[i].name.as_str()) {
                enum_parts.push(String::new());
            } else {
                enum_parts.push(enum_block_text(&self.enums[i]));
            }
            i += 1;
        }
        assert(texts(enum_parts@) =~= Seq::new(
            self@.enums.len(),
            |i: int| enum_entry(self@.enums, i),
        ));

        let mut names: Vec<String> = Vec::new();
        let mut t: usize = 0;
        while t < self.tables.len()
            invariant
                t <= self.tables.len(),
                names.len() == t,
                forall|j: int| 0 <= j < t ==> (#[trigger] names@[j])@ == self.tables@[j].name@,
            decreases self.tables.len() - t,
        {
            names.push(self.tables[t].name.clone());
            t += 1;
        }
        assert(texts(names@) =~= bare_names(self@.tables));
        let mut table_parts: Vec<String> = Vec::new();
        let mut k: usize = 0;
        while k < self.tables.len()
            invariant
                k <= self.tables.len(),
                table_parts.len() == k,
                texts(names@) == bare_names(views(self.tables@)),
                forall|j: int|
                    0 <= j < k ==> (#[trigger] table_parts@[j])@ == interface_block(self@.tables, j),
            decreases self.tables.len() - k,
        {
            table_parts.push(interface_block_text(&self.tables, &names, k));
            k += 1;
        }
        assert(texts(table_parts@) =~= Seq::new(
            self@.tables.len(),
            |i: int| interface_block(self@.tables, i),
        ));

        let mut out = "// This file is auto-generated. Do not edit manually.\n\n".to_owned();
        let enum_text = concat_strings(&enum_parts);
        out.append(enum_text.as_str());
        let table_text = concat_strings(&table_parts);
        out.append(table_text.as_str());
        out
    }
}

} // verus!
