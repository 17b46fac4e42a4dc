//! The schema catalog: tables, columns and enum types as found by
//! introspection, and the lookups the query builder makes on them.

use vstd::prelude::*;
use crate::text::{
    first_index, last_index, lemma_first_index, lemma_last_index, same_text, texts,
};

verus! {

/// A database enum type: its name and its labels in declaration order.
#[derive(Debug, Clone, PartialEq, Eq)]
pub struct EnumInfo {
    pub name: String,
    pub values: Vec<String>,
}

/// One column of a table.
#[derive(Debug, Clone, PartialEq, Eq)]
pub struct ColumnInfo {
    pub name: String,
    pub sql_type: String,
    pub is_nullable: bool,
    pub is_primary: bool,
    pub default_value: Option<String>,
    pub enum_values: Option<Vec<String>>,
}

/// One table: its columns in ordinal order and the names of its primary-key
/// columns.
#[derive(Debug, Clone, PartialEq, Eq)]
pub struct TableInfo {
    pub name: String,
    pub schema: String,
    pub columns: Vec<ColumnInfo>,
    pub primary_keys: Vec<String>,
}

/// The catalog: every table once, in order of first appearance, the enum
/// types, and the version text of the engine it was read from.
#[derive(Debug, Clone, PartialEq, Eq)]
pub struct DatabaseSchema {
    pub tables: Vec<TableInfo>,
    pub enums: Vec<EnumInfo>,
    pub version: String,
}

/// One row of the column introspection query.
#[derive(Debug, Clone, PartialEq, Eq)]
pub struct ColumnRow {
    pub table_schema: String,
    pub table_name: String,
    pub column_name: String,
    pub data_type: String,
    pub udt_name: String,
    pub is_nullable: String,
    pub column_default: Option<String>,
    pub constraint_type: Option<String>,
}

/// How a column takes part in its table's keys and nullability.
#[derive(Debug, Clone, Copy, PartialEq, Eq, Structural)]
pub enum ColumnClass {
    PrimaryKey,
    Nullable,
    Plain,
}

/// The content of an [`EnumInfo`].
pub struct EnumModel {
    pub name: Seq<char>,
    pub values: Seq<Seq<char>>,
}

/// The content of a [`ColumnInfo`].
pub struct ColumnModel {
    pub name: Seq<char>,
    pub sql_type: Seq<char>,
    pub is_nullable: bool,
    pub is_primary: bool,
    pub default_value: Option<Seq<char>>,
    pub enum_values: Option<Seq<Seq<char>>>,
}

/// The content of a [`TableInfo`].
pub struct TableModel {
    pub name: Seq<char>,
    pub schema: Seq<char>,
    pub columns: Seq<ColumnModel>,
    pub primary_keys: Seq<Seq<char>>,
}

/// The content of a [`DatabaseSchema`].
pub struct CatalogModel {
    pub tables: Seq<TableModel>,
    pub enums: Seq<EnumModel>,
    pub version: Seq<char>,
}

/// The content of a [`ColumnRow`].
pub struct RowModel {
    pub table_schema: Seq<char>,
    pub table_name: Seq<char>,
    pub column_name: Seq<char>,
    pub data_type: Seq<char>,
    pub udt_name: Seq<char>,
    pub is_nullable: Seq<char>,
    pub column_default: Option<Seq<char>>,
    pub constraint_type: Option<Seq<char>>,
}

/// The views of a sequence of values.
pub open spec fn views<T: View>(s: Seq<T>) -> Seq<T::V> {
    Seq::new(s.len(), |i: int| s[i]@)
}

/// The view of an optional string.
pub open spec fn opt_text(o: Option<String>) -> Option<Seq<char>> {
    match o {
        Some(s) => Some(s@),
        None => None,
    }
}

impl View for EnumInfo {
    type V = EnumModel;

    open spec fn view(&self) -> EnumModel {
        EnumModel { name: self.name@, values: texts(self.values@) }
    }
}

impl View for ColumnInfo {
    type V = ColumnModel;

    open spec fn view(&self) -> ColumnModel {
        ColumnModel {
            name: self.name@,
            sql_type: self.sql_type@,
            is_nullable: self.is_nullable,
            is_primary: self.is_primary,
            default_value: opt_text(self.default_value),
            enum_values: match self.enum_values {
                Some(v) => Some(texts(v@)),
                None => None,
            },
        }
    }
}

impl View for TableInfo {
    type V = TableModel;

    open spec fn view(&self) -> TableModel {
        TableModel {
            name: self.name@,
            schema: self.schema@,
            columns: views(self.columns@),
            primary_keys: texts(self.primary_keys@),
        }
    }
}

impl View for DatabaseSchema {
    type V = CatalogModel;

    open spec fn view(&self) -> CatalogModel {
        CatalogModel {
            tables: views(self.tables@),
            enums: views(self.enums@),
            version: self.version@,
        }
    }
}

impl View for ColumnRow {
    type V = RowModel;

    open spec fn view(&self) -> RowModel {
        RowModel {
            table_schema: self.table_schema@,
            table_name: self.table_name@,
            column_name: self.column_name@,
            data_type: self.data_type@,
            udt_name: self.udt_name@,
            is_nullable: self.is_nullable@,
            column_default: opt_text(self.column_default),
            constraint_type: opt_text(self.constraint_type),
        }
    }
}

/// A table's name qualified by its namespace.
pub open spec fn qualified(schema: Seq<char>, name: Seq<char>) -> Seq<char> {
    schema + "."@ + name
}

/// The qualified names of the tables, in order.
pub open spec fn qualified_names(tables: Seq<TableModel>) -> Seq<Seq<char>> {
    Seq::new(tables.len(), |i: int| qualified(tables[i].schema, tables[i].name))
}

/// The bare names of the tables, in order.
pub open spec fn bare_names(tables: Seq<TableModel>) -> Seq<Seq<char>> {
    Seq::new(tables.len(), |i: int| tables[i].name)
}

/// The names of the enum types, in order.
pub open spec fn enum_names(enums: Seq<EnumModel>) -> Seq<Seq<char>> {
    Seq::new(enums.len(), |i: int| enums[i].name)
}

/// The names of the columns, in order.
pub open spec fn column_names(columns: Seq<ColumnModel>) -> Seq<Seq<char>> {
    Seq::new(columns.len(), |i: int| columns[i].name)
}

/// The table that `key` resolves to: the first table whose qualified name
/// it is, else the last table whose bare name it is, else -1.
pub open spec fn table_index(tables: Seq<TableModel>, key: Seq<char>) -> int {
    let q = first_index(qualified_names(tables), key);
    if q < tables.len() {
        q
    } else {
        last_index(bare_names(tables), key)
    }
}

/// The primary key at position `k` of `t` is the name of a primary column.
pub open spec fn key_has_column(t: TableModel, k: int) -> bool {
    exists|c: int|
        0 <= c < t.columns.len() && (#[trigger] t.columns[c]).is_primary && t.columns[c].name
            == t.primary_keys[k]
}

/// The column at position `c` of `t` is not primary, or its name is among
/// the primary keys.
pub open spec fn column_has_key(t: TableModel, c: int) -> bool {
    t.columns[c].is_primary ==> exists|k: int|
        0 <= k < t.primary_keys.len() && #[trigger] t.primary_keys[k] == t.columns[c].name
}

/// Every primary-key name of `t` is the name of one of its primary columns,
/// and every primary column's name is among its primary keys.
pub open spec fn keys_match_columns(t: TableModel) -> bool {
    &&& forall|k: int| 0 <= k < t.primary_keys.len() ==> key_has_column(t, k)
    &&& forall|c: int| 0 <= c < t.columns.len() ==> column_has_key(t, c)
}

/// `enums` without the first enum type named `name`.
pub open spec fn without_enum(enums: Seq<EnumModel>, name: Seq<char>) -> Seq<EnumModel> {
    let k = first_index(enum_names(enums), name);
    if 0 <= k < enums.len() {
        enums.remove(k)
    } else {
        enums
    }
}

/// The enum types that a list of introspected enum types leaves: each as it
/// was given last, a later one of a name taking the place of an earlier.
pub open spec fn enums_of(given: Seq<EnumModel>) -> Seq<EnumModel>
    decreases given.len(),
{
    if given.len() == 0 {
        Seq::empty()
    } else {
        without_enum(enums_of(given.drop_last()), given.last().name).push(given.last())
    }
}

/// The column that an introspection row describes. A user-defined type is
/// resolved against the enum types: the column carries the labels of the
/// last enum of that name, if there is one.
pub open spec fn column_of(enums: Seq<EnumModel>, r: RowModel) -> ColumnModel {
    let user = r.data_type == "USER-DEFINED"@;
    let e = last_index(enum_names(enums), r.udt_name);
    ColumnModel {
        name: r.column_name,
        sql_type: if user {
            r.udt_name
        } else {
            r.data_type
        },
        is_nullable: r.is_nullable == "YES"@,
        is_primary: r.constraint_type == Some("PRIMARY KEY"@),
        default_value: r.column_default,
        enum_values: if user && e >= 0 {
            Some(enums[e].values)
        } else {
            None
        },
    }
}

/// `t` with one more column, which joins the primary keys if it is primary.
pub open spec fn with_column(t: TableModel, col: ColumnModel) -> TableModel {
    TableModel {
        name: t.name,
        schema: t.schema,
        columns: t.columns.push(col),
        primary_keys: if col.is_primary {
            t.primary_keys.push(col.name)
        } else {
            t.primary_keys
        },
    }
}

/// `tables` after one more introspection row: its column is appended to the
/// table with the row's qualified name, which is created at the end if it
/// is new.
pub open spec fn with_row(tables: Seq<TableModel>, enums: Seq<EnumModel>, r: RowModel) -> Seq<
    TableModel,
> {
    let col = column_of(enums, r);
    let k = first_index(qualified_names(tables), qualified(r.table_schema, r.table_name));
    if 0 <= k < tables.len() {
        tables.update(k, with_column(tables[k], col))
    } else {
        tables.push(
            with_column(
                TableModel {
                    name: r.table_name,
                    schema: r.table_schema,
                    columns: Seq::empty(),
                    primary_keys: Seq::empty(),
                },
                col,
            ),
        )
    }
}

/// The tables that a list of introspection rows describes.
pub open spec fn tables_of(enums: Seq<EnumModel>, rows: Seq<RowModel>) -> Seq<TableModel>
    decreases rows.len(),
{
    if rows.len() == 0 {
        Seq::empty()
    } else {
        with_row(tables_of(enums, rows.drop_last()), enums, rows.last())
    }
}



/// Adding a column keeps a table's primary keys in step with its columns.
pub proof fn lemma_with_column_keeps_keys(t: TableModel, col: ColumnModel)
    requires
        keys_match_columns(t),
    ensures
        keys_match_columns(with_column(t, col)),
{
    let u = with_column(t, col);
    assert forall|k: int| 0 <= k < u.primary_keys.len() implies key_has_column(u, k) by {
        if k < t.primary_keys.len() {
            assert(key_has_column(t, k));
            let c = choose|c: int|
                0 <= c < t.columns.len() && (#[trigger] t.columns[c]).is_primary
                    && t.columns[c].name == t.primary_keys[k];
            assert(u.columns[c] == t.columns[c]);
        } else {
            assert(u.columns[t.columns.len() as int] == col);
        }
    }
    assert forall|c: int| 0 <= c < u.columns.len() implies column_has_key(u, c) by {
        if c < t.columns.len() {
            assert(u.columns[c] == t.columns[c]);
            assert(column_has_key(t, c));
            if t.columns[c].is_primary {
                let k = choose|k: int|
                    0 <= k < t.primary_keys.len() && #[trigger] t.primary_keys[k]
                        == t.columns[c].name;
                assert(u.primary_keys[k] == t.primary_keys[k]);
            }
        } else if col.is_primary {
            assert(u.primary_keys[t.primary_keys.len() as int] == col.name);
        }
    }
}

/// In the tables assembled from any rows, the primary keys of every table
/// are exactly the names of its primary columns.
pub proof fn lemma_assembled_keys_match_columns(enums: Seq<EnumModel>, rows: Seq<RowModel>)
    ensures
        forall|t: int|
            0 <= t < tables_of(enums, rows).len() ==> keys_match_columns(
                #[trigger] tables_of(enums, rows)[t],
            ),
    decreases rows.len(),
{
    if rows.len() > 0 {
        let before = tables_of(enums, rows.drop_last());
        let r = rows.last();
        lemma_assembled_keys_match_columns(enums, rows.drop_last());
        let col = column_of(enums, r);
        let k = first_index(qualified_names(before), qualified(r.table_schema, r.table_name));
        let fresh = TableModel {
            name: r.table_name,
            schema: r.table_schema,
            columns: Seq::empty(),
            primary_keys: Seq::empty(),
        };
        if 0 <= k < before.len() {
            lemma_with_column_keeps_keys(before[k], col);
        } else {
            lemma_with_column_keeps_keys(fresh, col);
        }
    }
}

/// In the tables assembled from any rows, every primary key of a table is
/// the name of one of its columns.
pub proof fn lemma_primary_keys_are_columns(
    enums: Seq<EnumModel>,
    rows: Seq<RowModel>,
    t: int,
    k: int,
)
    requires
        0 <= t < tables_of(enums, rows).len(),
        0 <= k < tables_of(enums, rows)[t].primary_keys.len(),
    ensures
        column_names(tables_of(enums, rows)[t].columns).contains(
            tables_of(enums, rows)[t].primary_keys[k],
        ),
{
    lemma_assembled_keys_match_columns(enums, rows);
    let table = tables_of(enums, rows)[t];
    assert(key_has_column(table, k));
    let c = choose|c: int|
        0 <= c < table.columns.len() && (#[trigger] table.columns[c]).is_primary
            && table.columns[c].name == table.primary_keys[k];
    assert(column_names(table.columns)[c] == table.primary_keys[k]);
}

/// Where a column carries enum labels, its type is the name of an enum
/// type, and the labels are those of the last enum type of that name.
pub open spec fn enum_column_resolves(enums: Seq<EnumModel>, col: ColumnModel) -> bool {
    col.enum_values is Some ==> {
        let e = last_index(enum_names(enums), col.sql_type);
        e >= 0 && col.enum_values == Some(enums[e].values)
    }
}

/// Every column of `t` that carries enum labels resolves among `enums`.
pub open spec fn enum_columns_resolve(enums: Seq<EnumModel>, t: TableModel) -> bool {
    forall|c: int| 0 <= c < t.columns.len() ==> enum_column_resolves(enums, #[trigger] t.columns[c])
}

/// In the tables assembled from any rows, every column that carries enum
/// labels has the name of an enum type of the catalog as its type, and
/// carries that type's labels.
pub proof fn lemma_assembled_enum_columns_resolve(enums: Seq<EnumModel>, rows: Seq<RowModel>)
    ensures
        forall|t: int|
            0 <= t < tables_of(enums, rows).len() ==> enum_columns_resolve(
                enums,
                #[trigger] tables_of(enums, rows)[t],
            ),
    decreases rows.len(),
{
    if rows.len() > 0 {
        let before = tables_of(enums, rows.drop_last());
        let r = rows.last();
        lemma_assembled_enum_columns_resolve(enums, rows.drop_last());
        let col = column_of(enums, r);
        assert(enum_column_resolves(enums, col));
        let k = first_index(qualified_names(before), qualified(r.table_schema, r.table_name));
        let after = tables_of(enums, rows);
        assert forall|t: int| 0 <= t < after.len() implies enum_columns_resolve(
            enums,
            #[trigger] after[t],
        ) by {
            if 0 <= k < before.len() {
                if t == k {
                    assert(enum_columns_resolve(enums, before[k]));
                    assert forall|c: int| 0 <= c < after[t].columns.len() implies enum_column_resolves(
                        enums,
                        #[trigger] after[t].columns[c],
                    ) by {
                        if c < before[k].columns.len() {
                            assert(after[t].columns[c] == before[k].columns[c]);
                        }
                    }
                } else {
                    assert(after[t] == before[t]);
                }
            } else if t < before.len() {
                assert(after[t] == before[t]);
            } else {
                assert(after[t].columns =~= seq![col]);
            }
        }
    }
}

/// No two of `keys` are equal.
pub open spec fn all_distinct(keys: Seq<Seq<char>>) -> bool {
    forall|i: int, j: int| 0 <= i < j < keys.len() ==> keys[i] != keys[j]
}

/// The tables assembled from any rows have distinct qualified names.
pub proof fn lemma_assembled_names_distinct(enums: Seq<EnumModel>, rows: Seq<RowModel>)
    ensures
        all_distinct(qualified_names(tables_of(enums, rows))),
    decreases rows.len(),
{
    if rows.len() > 0 {
        let before = tables_of(enums, rows.drop_last());
        let r = rows.last();
        lemma_assembled_names_distinct(enums, rows.drop_last());
        let key = qualified(r.table_schema, r.table_name);
        let k = first_index(qualified_names(before), key);
        lemma_first_index(qualified_names(before), key);
        let after = tables_of(enums, rows);
        if 0 <= k < before.len() {
            assert(qualified_names(after) =~= qualified_names(before));
        } else {
            assert(qualified_names(after) =~= qualified_names(before).push(key));
        }
    }
}

/// In the tables assembled from any rows, the qualified name of every
/// table resolves to that table.
pub proof fn lemma_assembled_tables_resolve(enums: Seq<EnumModel>, rows: Seq<RowModel>, t: int)
    requires
        0 <= t < tables_of(enums, rows).len(),
    ensures
        table_index(
            tables_of(enums, rows),
            qualified(tables_of(enums, rows)[t].schema, tables_of(enums, rows)[t].name),
        ) == t,
{
    let tables = tables_of(enums, rows);
    let names = qualified_names(tables);
    let key = qualified(tables[t].schema, tables[t].name);
    lemma_assembled_names_distinct(enums, rows);
    lemma_first_index(names, key);
    assert(names[t] == key);
    let f = first_index(names, key);
    if f < t {
        assert(names[f] == key);
    }
}

/// The qualified table name of an introspection row.
pub open spec fn row_table(r: RowModel) -> Seq<char> {
    qualified(r.table_schema, r.table_name)
}

/// No two rows describe a column of the same name in the same table.
pub open spec fn rows_distinct(rows: Seq<RowModel>) -> bool {
    forall|i: int, j: int|
        0 <= i < j < rows.len() ==> !(row_table(#[trigger] rows[i]) == row_table(#[trigger] rows[j])
            && rows[i].column_name == rows[j].column_name)
}

/// Some row describes a column named `name` in the table `table`.
pub open spec fn described(rows: Seq<RowModel>, table: Seq<char>, name: Seq<char>) -> bool {
    exists|i: int|
        0 <= i < rows.len() && row_table(#[trigger] rows[i]) == table && rows[i].column_name == name
}

/// Every column of `t` is described by one of `rows`.
pub open spec fn columns_described(rows: Seq<RowModel>, t: TableModel) -> bool {
    forall|c: int|
        0 <= c < t.columns.len() ==> described(
            rows,
            qualified(t.schema, t.name),
            (#[trigger] t.columns[c]).name,
        )
}

/// Every column of an assembled table is described by one of the rows.
pub proof fn lemma_assembled_columns_described(enums: Seq<EnumModel>, rows: Seq<RowModel>)
    ensures
        forall|t: int|
            0 <= t < tables_of(enums, rows).len() ==> columns_described(
                rows,
                #[trigger] tables_of(enums, rows)[t],
            ),
    decreases rows.len(),
{
    if rows.len() > 0 {
        let earlier = rows.drop_last();
        let before = tables_of(enums, earlier);
        let r = rows.last();
        lemma_assembled_columns_described(enums, earlier);
        let key = row_table(r);
        let k = first_index(qualified_names(before), key);
        lemma_first_index(qualified_names(before), key);
        let after = tables_of(enums, rows);
        assert forall|t: int| 0 <= t < after.len() implies columns_described(
            rows,
            #[trigger] after[t],
        ) by {
            let table = after[t];
            assert forall|c: int| 0 <= c < table.columns.len() implies described(
                rows,
                qualified(table.schema, table.name),
                (#[trigger] table.columns[c]).name,
            ) by {
                let fresh = if 0 <= k < before.len() {
                    t == k && c == before[k].columns.len()
                } else {
                    t == before.len()
                };
                if fresh {
                    if 0 <= k < before.len() {
                        assert(qualified_names(before)[k] == key);
                    }
                    assert(rows[rows.len() - 1] == r);
                    assert(row_table(rows[rows.len() - 1]) == qualified(table.schema, table.name));
                } else {
                    assert(columns_described(earlier, before[t]));
                    assert(table.columns[c] == before[t].columns[c]);
                    assert(described(
                        earlier,
                        qualified(before[t].schema, before[t].name),
                        before[t].columns[c].name,
                    ));
                    let i = choose|i: int|
                        0 <= i < earlier.len() && row_table(#[trigger] earlier[i]) == qualified(
                            before[t].schema,
                            before[t].name,
                        ) && earlier[i].column_name == before[t].columns[c].name;
                    assert(rows[i] == earlier[i]);
                }
            }
        }
    }
}

/// Where no two rows describe the same column of the same table, the
/// columns of every assembled table have distinct names.
pub proof fn lemma_assembled_columns_distinct(enums: Seq<EnumModel>, rows: Seq<RowModel>)
    requires
        rows_distinct(rows),
    ensures
        forall|t: int|
            0 <= t < tables_of(enums, rows).len() ==> all_distinct(
                column_names(#[trigger] tables_of(enums, rows)[t].columns),
            ),
    decreases rows.len(),
{
    if rows.len() > 0 {
        let earlier = rows.drop_last();
        let before = tables_of(enums, earlier);
        let r = rows.last();
        assert(rows_distinct(earlier)) by {
            assert forall|i: int, j: int| 0 <= i < j < earlier.len() implies !(row_table(
                #[trigger] earlier[i],
            ) == row_table(#[trigger] earlier[j]) && earlier[i].column_name
                == earlier[j].column_name) by {
                assert(earlier[i] == rows[i] && earlier[j] == rows[j]);
            }
        }
        lemma_assembled_columns_distinct(enums, earlier);
        lemma_assembled_columns_described(enums, earlier);
        let key = row_table(r);
        let k = first_index(qualified_names(before), key);
        lemma_first_index(qualified_names(before), key);
        let after = tables_of(enums, rows);
        let col = column_of(enums, r);
        assert forall|t: int| 0 <= t < after.len() implies all_distinct(
            column_names(#[trigger] after[t].columns),
        ) by {
            if 0 <= k < before.len() && t == k {
                let old_names = column_names(before[k].columns);
                let names = column_names(after[t].columns);
                assert(names =~= old_names.push(col.name));
                assert(qualified_names(before)[k] == key);
                assert forall|i: int, j: int| 0 <= i < j < names.len() implies names[i]
                    != names[j] by {
                    if j == old_names.len() {
                        if names[i] == names[j] {
                            assert(columns_described(earlier, before[k]));
                            assert(described(earlier, key, before[k].columns[i].name));
                            let w = choose|w: int|
                                0 <= w < earlier.len() && row_table(#[trigger] earlier[w]) == key
                                    && earlier[w].column_name == before[k].columns[i].name;
                            assert(rows[w] == earlier[w]);
                            assert(rows[rows.len() - 1] == r);
                            assert(false);
                        }
                    } else {
                        assert(all_distinct(old_names));
                    }
                }
            } else if t < before.len() {
                assert(after[t] == before[t]);
            } else {
                assert(column_names(after[t].columns) =~= seq![col.name]);
            }
        }
    }
}

/// Where no two rows describe the same column of the same table, every
/// column name of an assembled table has exactly one class: two columns of
/// one table with the same name are the same column.
pub proof fn lemma_one_class_per_column_name(
    enums: Seq<EnumModel>,
    rows: Seq<RowModel>,
    t: int,
    i: int,
    j: int,
)
    requires
        rows_distinct(rows),
        0 <= t < tables_of(enums, rows).len(),
        0 <= i < tables_of(enums, rows)[t].columns.len(),
        0 <= j < tables_of(enums, rows)[t].columns.len(),
        tables_of(enums, rows)[t].columns[i].name == tables_of(enums, rows)[t].columns[j].name,
    ensures
        i == j,
        class_of(tables_of(enums, rows)[t].columns[i]) == class_of(
            tables_of(enums, rows)[t].columns[j],
        ),
{
    lemma_assembled_columns_distinct(enums, rows);
    let names = column_names(tables_of(enums, rows)[t].columns);
    assert(all_distinct(names));
    assert(names[i] == names[j]);
}

/// Taking one of distinct keys away leaves distinct keys, none of which is
/// the key that was taken.
proof fn lemma_remove_keeps_distinct(keys: Seq<Seq<char>>, k: int)
    requires
        all_distinct(keys),
        0 <= k < keys.len(),
    ensures
        all_distinct(keys.remove(k)),
        forall|i: int| 0 <= i < keys.remove(k).len() ==> (#[trigger] keys.remove(k)[i]) != keys[k],
{
    let rest = keys.remove(k);
    assert forall|i: int| 0 <= i < rest.len() implies (#[trigger] rest[i]) != keys[k] by {
        if i < k {
            assert(rest[i] == keys[i]);
        } else {
            assert(rest[i] == keys[i + 1]);
        }
    }
    assert forall|i: int, j: int| 0 <= i < j < rest.len() implies rest[i] != rest[j] by {
        let a = if i < k {
            i
        } else {
            i + 1
        };
        let b = if j < k {
            j
        } else {
            j + 1
        };
        assert(rest[i] == keys[a] && rest[j] == keys[b]);
    }
}

/// The enum types left by any list of introspected enum types have
/// distinct names.
pub proof fn lemma_enums_of_distinct(given: Seq<EnumModel>)
    ensures
        all_distinct(enum_names(enums_of(given))),
    decreases given.len(),
{
    if given.len() > 0 {
        let before = enums_of(given.drop_last());
        let e = given.last();
        lemma_enums_of_distinct(given.drop_last());
        let names = enum_names(before);
        let k = first_index(names, e.name);
        lemma_first_index(names, e.name);
        let rest_names = enum_names(without_enum(before, e.name));
        if 0 <= k < before.len() {
            lemma_remove_keeps_distinct(names, k);
            assert(rest_names =~= names.remove(k));
        } else {
            assert(rest_names =~= names);
        }
        let after_names = enum_names(enums_of(given));
        assert(after_names =~= rest_names.push(e.name));
        assert forall|i: int, j: int| 0 <= i < j < after_names.len() implies after_names[i]
            != after_names[j] by {
            if j == rest_names.len() {
                assert(rest_names[i] != e.name);
            } else {
                assert(after_names[i] == rest_names[i] && after_names[j] == rest_names[j]);
            }
        }
    }
}

/// What holds of a catalog that was assembled from introspection: no two
/// enum types have the same name and no two tables the same qualified name,
/// in every table the primary keys are the names of the primary columns,
/// and every column with enum labels has an enum type of the catalog as its
/// type.
pub open spec fn well_formed(c: CatalogModel) -> bool {
    &&& all_distinct(enum_names(c.enums))
    &&& all_distinct(qualified_names(c.tables))
    &&& forall|t: int| 0 <= t < c.tables.len() ==> keys_match_columns(#[trigger] c.tables[t])
    &&& forall|t: int|
        0 <= t < c.tables.len() ==> enum_columns_resolve(c.enums, #[trigger] c.tables[t])
}

/// A copy of a list of strings.
pub fn copy_texts(v: &Vec<String>) -> (r: Vec<String>)
    ensures
        r@ == v@,
{
    let mut r: Vec<String> = Vec::new();
    let mut i: usize = 0;
    while i < v.len()
        invariant
            i <= v.len(),
            r@ == v@.take(i as int),
        decreases v.len() - i,
    {
        r.push(v[i].clone());
        assert(r@ =~= v@.take(i + 1));
        i += 1;
    }
    assert(v@.take(v.len() as int) =~= v@);
    r
}

fn copy_opt_text(o: &Option<String>) -> (r: Option<String>)
    ensures
        r == *o,
{
    match o {
        Some(s) => Some(s.clone()),
        None => None,
    }
}

fn find_enum(enums: &Vec<EnumInfo>, name: &str) -> (found: Option<usize>)
    ensures
        match found {
            Some(e) => e as int == last_index(enum_names(views(enums@)), name@),
            None => last_index(enum_names(views(enums@)), name@) == -1,
        },
{
    let ghost names = enum_names(views(enums@));
    let mut found: Option<usize> = None;
    let mut i: usize = 0;
    while i < enums.len()
        invariant
            i <= enums.len(),
            names == enum_names(views(enums@)),
            match found {
                Some(e) => e as int == last_index(names.take(i as int), name@),
                None => last_index(names.take(i as int), name@) == -1,
            },
        decreases enums.len() - i,
    {
        assert(names.take(i + 1).drop_last() =~= names.take(i as int));
        assert(names.take(i + 1).last() == enums@[i as int].name@);
        if same_text(enums[i].name.as_str(), name) {
            found = Some(i);
        }
        i += 1;
    }
    assert(names.take(enums.len() as int) =~= names);
    found
}

fn find_enum_first(enums: &Vec<EnumInfo>, name: &str) -> (found: usize)
    ensures
        found as int == first_index(enum_names(views(enums@)), name@),
        found <= enums.len(),
{
    let ghost names = enum_names(views(enums@));
    let mut found: usize = 0;
    let mut i: usize = 0;
    while i < enums.len()
        invariant
            i <= enums.len(),
            found <= i,
            names == enum_names(views(enums@)),
            found as int == first_index(names.take(i as int), name@),
        decreases enums.len() - i,
    {
        assert(names.take(i + 1).drop_last() =~= names.take(i as int));
        assert(names.take(i + 1).last() == enums@[i as int].name@);
        if found == i && !same_text(enums[i].name.as_str(), name) {
            found = i + 1;
        }
        i += 1;
    }
    assert(names.take(enums.len() as int) =~= names);
    found
}

fn distinct_enums(given: &Vec<EnumInfo>) -> (kept: Vec<EnumInfo>)
    ensures
        views(kept@) == enums_of(views(given@)),
{
    let mut kept: Vec<EnumInfo> = Vec::new();
    let mut i: usize = 0;
    assert(views(given@).take(0) =~= Seq::<EnumModel>::empty());
    assert(views(kept@) =~= Seq::<EnumModel>::empty());
    while i < given.len()
        invariant
            i <= given.len(),
            views(kept@) == enums_of(views(given@).take(i as int)),
        decreases given.len() - i,
    {
        let ghost before = views(kept@);
        let ghost upto = views(given@).take(i + 1);
        assert(upto.drop_last() =~= views(given@).take(i as int));
        assert(upto.last() == given@[i as int]@);
        let k = find_enum_first(&kept, given[i].name.as_str());
        if k < kept.len() {
            kept.remove(k);
            assert(views(kept@) =~= before.remove(k as int));
        }
        let ghost rest = views(kept@);
        let copy = EnumInfo { name: given[i].name.clone(), values: copy_texts(&given[i].values) };
        kept.push(copy);
        assert(views(kept@) =~= rest.push(given@[i as int]@));
        i += 1;
    }
    assert(views(given@).take(given.len() as int) =~= views(given@));
    kept
}

fn qualified_name(schema: &str, name: &str) -> (r: String)
    ensures
        r@ == qualified(schema@, name@),
{
    let mut r = schema.to_owned();
    r.append(".");
    r.append(name);
    r
}

fn find_qualified(tables: &Vec<TableInfo>, key: &str) -> (found: usize)
    ensures
        found as int == first_index(qualified_names(views(tables@)), key@),
        found <= tables.len(),
{
    let ghost names = qualified_names(views(tables@));
    let mut found: usize = 0;
    let mut i: usize = 0;
    while i < tables.len()
        invariant
            i <= tables.len(),
            found <= i,
            names == qualified_names(views(tables@)),
            found as int == first_index(names.take(i as int), key@),
        decreases tables.len() - i,
    {
        assert(names.take(i + 1).drop_last() =~= names.take(i as int));
        assert(names.take(i + 1).last() == qualified(
            tables@[i as int].schema@,
            tables@[i as int].name@,
        ));
        if found == i {
            let q = qualified_name(tables[i].schema.as_str(), tables[i].name.as_str());
            if !same_text(q.as_str(), key) {
                found = i + 1;
            }
        }
        i += 1;
    }
    assert(names.take(tables.len() as int) =~= names);
    found
}

fn find_bare(tables: &Vec<TableInfo>, key: &str) -> (found: Option<usize>)
    ensures
        match found {
            Some(e) => e as int == last_index(bare_names(views(tables@)), key@),
            None => last_index(bare_names(views(tables@)), key@) == -1,
        },
{
    let ghost names = bare_names(views(tables@));
    let mut found: Option<usize> = None;
    let mut i: usize = 0;
    while i < tables.len()
        invariant
            i <= tables.len(),
            names == bare_names(views(tables@)),
            match found {
                Some(e) => e as int == last_index(names.take(i as int), key@),
                None => last_index(names.take(i as int), key@) == -1,
            },
        decreases tables.len() - i,
    {
        assert(names.take(i + 1).drop_last() =~= names.take(i as int));
        assert(names.take(i + 1).last() == tables@[i as int].name@);
        if same_text(tables[i].name.as_str(), key) {
            found = Some(i);
        }
        i += 1;
    }
    assert(names.take(tables.len() as int) =~= names);
    found
}

fn column_from_row(enums: &Vec<EnumInfo>, row: &ColumnRow) -> (col: ColumnInfo)
    ensures
        col@ == column_of(views(enums@), row@),
{
    let user = same_text(row.data_type.as_str(), "USER-DEFINED");
    let is_primary = match &row.constraint_type {
        Some(c) => same_text(c.as_str(), "PRIMARY KEY"),
        None => false,
    };
    let enum_values = if user {
        match find_enum(enums, row.udt_name.as_str()) {
            Some(e) => {
                proof {
                    lemma_last_index(enum_names(views(enums@)), row.udt_name@);
                }
                Some(copy_texts(&enums[e].values))
            },
            None => None,
        }
    } else {
        None
    };
    let sql_type = if user {
        row.udt_name.clone()
    } else {
        row.data_type.clone()
    };
    ColumnInfo {
        name: row.column_name.clone(),
        sql_type,
        is_nullable: same_text(row.is_nullable.as_str(), "YES"),
        is_primary,
        default_value: copy_opt_text(&row.column_default),
        enum_values,
    }
}

/// The one class a column falls in: a primary-key column, else a nullable
/// one, else a plain one.
pub open spec fn class_of(col: ColumnModel) -> ColumnClass {
    if col.is_primary {
        ColumnClass::PrimaryKey
    } else if col.is_nullable {
        ColumnClass::Nullable
    } else {
        ColumnClass::Plain
    }
}

impl ColumnInfo {
    /// The one class this column falls in.
    pub fn class(&self) -> (c: ColumnClass)
        ensures
            c == class_of(self@),
    {
        if self.is_primary {
            ColumnClass::PrimaryKey
        } else if self.is_nullable {
            ColumnClass::Nullable
        } else {
            ColumnClass::Plain
        }
    }
}

impl DatabaseSchema {
    /// Builds the catalog from the results of introspection: the enum types,
    /// the column rows in the order they were returned, and the engine's
    /// version text. Of two enum types with one name the later is kept.
    pub fn assemble(enums: Vec<EnumInfo>, rows: &Vec<ColumnRow>, version: String) -> (catalog:
        DatabaseSchema)
        ensures
            catalog@.enums == enums_of(views(enums@)),
            catalog@.version == version@,
            catalog@.tables == tables_of(catalog@.enums, views(rows@)),
            well_formed(catalog@),
    {
        let given = enums;
        let enums = distinct_enums(&given);
        let mut tables: Vec<TableInfo> = Vec::new();
        let mut i: usize = 0;
        assert(views(rows@).take(0) =~= Seq::<RowModel>::empty());
        assert(views(tables@) =~= Seq::<TableModel>::empty());
        while i < rows.len()
            invariant
                i <= rows.len(),
                views(tables@) == tables_of(views(enums@), views(rows@).take(i as int)),
            decreases rows.len() - i,
        {
            let row = &rows[i];
            let ghost before = views(tables@);
            let ghost upto = views(rows@).take(i + 1);
            assert(upto.drop_last() =~= views(rows@).take(i as int));
            assert(upto.last() == row@);
            let col = column_from_row(&enums, row);
            let key = qualified_name(row.table_schema.as_str(), row.table_name.as_str());
            let k = find_qualified(&tables, key.as_str());
            let mut table = if k < tables.len() {
                tables.remove(k)
            } else {
                TableInfo {
                    name: row.table_name.clone(),
                    schema: row.table_schema.clone(),
                    columns: Vec::new(),
                    primary_keys: Vec::new(),
                }
            };
            let ghost start = table@;
            assert(k < before.len() ==> start == before[k as int]);
            assert(k >= before.len() ==> start.columns =~= Seq::<ColumnModel>::empty()
                && start.primary_keys =~= Seq::<Seq<char>>::empty());
            if col.is_primary {
                table.primary_keys.push(col.name.clone());
            }
            table.columns.push(col);
            assert(table@.columns =~= start.columns.push(col@));
            assert(table@.primary_keys =~= with_column(start, col@).primary_keys);
            assert(table@ == with_column(start, col@));
            tables.insert(k, table);
            assert(views(tables@) =~= with_row(before, views(enums@), row@));
            i += 1;
        }
        assert(views(rows@).take(rows.len() as int) =~= views(rows@));
        proof {
            lemma_enums_of_distinct(views(given@));
            lemma_assembled_keys_match_columns(views(enums@), views(rows@));
            lemma_assembled_enum_columns_resolve(views(enums@), views(rows@));
            lemma_assembled_names_distinct(views(enums@), views(rows@));
        }
        DatabaseSchema { tables, enums, version }
    }
}


/// The declared type of the first column of `t` that is named `column`.
pub open spec fn column_type_in(t: TableModel, column: Seq<char>) -> Option<Seq<char>> {
    let c = first_index(column_names(t.columns), column);
    if c < t.columns.len() {
        Some(t.columns[c].sql_type)
    } else {
        None
    }
}

impl TableInfo {
    /// The position of the first column named `column`, or the number of
    /// columns when there is none.
    pub fn column_position(&self, column: &str) -> (found: usize)
        ensures
            found as int == first_index(column_names(self@.columns), column@),
            found <= self.columns.len(),
    {
        let ghost names = column_names(self@.columns);
        let mut found: usize = 0;
        let mut i: usize = 0;
        while i < self.columns.len()
            invariant
                i <= self.columns.len(),
                found <= i,
                names == column_names(self@.columns),
                found as int == first_index(names.take(i as int), column@),
            decreases self.columns.len() - i,
        {
            assert(names.take(i + 1).drop_last() =~= names.take(i as int));
            assert(names.take(i + 1).last() == self.columns@[i as int].name@);
            if found == i && !same_text(self.columns[i].name.as_str(), column) {
                found = i + 1;
            }
            i += 1;
        }
        assert(names.take(self.columns.len() as int) =~= names);
        found
    }
}

impl DatabaseSchema {
    /// The position of the table that `key` resolves to: a qualified name
    /// is tried first, then a bare name, where the last table of that name
    /// wins.
    pub fn table_position(&self, key: &str) -> (found: Option<usize>)
        ensures
            match found {
                Some(t) => t < self.tables.len() && t as int == table_index(self@.tables, key@),
                None => table_index(self@.tables, key@) == -1,
            },
    {
        proof {
            lemma_last_index(bare_names(self@.tables), key@);
        }
        let q = find_qualified(&self.tables, key);
        if q < self.tables.len() {
            Some(q)
        } else {
            find_bare(&self.tables, key)
        }
    }

    /// The table that `key` resolves to, if there is one.
    pub fn table(&self, key: &str) -> (found: Option<&TableInfo>)
        ensures
            match found {
                Some(t) => 0 <= table_index(self@.tables, key@) < self.tables.len() && *t
                    == self.tables@[table_index(self@.tables, key@)],
                None => table_index(self@.tables, key@) == -1,
            },
    {
        match self.table_position(key) {
            Some(t) => Some(&self.tables[t]),
            None => None,
        }
    }

    /// The enum type named `name`, if there is one: the last of that name.
    pub fn enum_type(&self, name: &str) -> (found: Option<&EnumInfo>)
        ensures
            match found {
                Some(e) => 0 <= last_index(enum_names(self@.enums), name@) < self.enums.len() && *e
                    == self.enums@[last_index(enum_names(self@.enums), name@)],
                None => last_index(enum_names(self@.enums), name@) == -1,
            },
    {
        proof {
            lemma_last_index(enum_names(self@.enums), name@);
        }
        match find_enum(&self.enums, name) {
            Some(e) => Some(&self.enums[e]),
            None => None,
        }
    }

    /// Whether `key` resolves to a table of the catalog.
    pub fn contains_table(&self, key: &str) -> (found: bool)
        ensures
            found == (table_index(self@.tables, key@) >= 0),
    {
        self.table_position(key).is_some()
    }
}

} // verus!

