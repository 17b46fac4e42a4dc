//! The requests that the engine serves: their parameters, and the plans
//! that turn them into compiled statements.

use vstd::prelude::*;
use crate::builder::{
    column_type, fresh_query, select_text, slice_texts, with_equals, with_is_null, BindValue,
    JoinModel, JoinType, OrderEntry, QueryBuilder, QueryModel,
};
use crate::coercion::{parse_uuid, smart_model, smart_param, uuid_parse};
use crate::json::JsonValue;
use crate::schema::{opt_text, table_index, views, DatabaseSchema, TableModel};
use crate::text::{same_text, texts};

verus! {

/// An error as it is shown at the request boundary.
#[derive(Debug, Clone, PartialEq, Eq)]
pub struct CommandError {
    pub message: String,
}

/// The label of a database enum value.
#[derive(Debug, Clone, PartialEq, Eq)]
pub struct PostgresEnum(pub String);

/// What `str::parse` reads from a text as a 64-bit unsigned number.
pub uninterp spec fn u64_parse(s: Seq<char>) -> Option<u64>;

/// `str::parse` at the type `u64`: the number that the text holds, or
/// nothing where it holds none.
#[verifier::external_body]
fn parse_u64(s: &str) -> (r: Option<u64>)
    ensures
        r == u64_parse(s@),
{
    s.parse::<u64>().ok()
}

/// `String::from_utf8` on a copy of the bytes: the text that they encode,
/// or nothing where they are not valid UTF-8.
#[verifier::external_body]
fn utf8_text(raw: &[u8]) -> (r: Option<String>)
    ensures
        r is Some <==> vstd::utf8::valid_utf8(raw@),
        r is Some ==> r->0@ == vstd::utf8::decode_utf8(raw@),
{
    String::from_utf8(raw.to_vec()).ok()
}

impl PostgresEnum {
    /// The characters of the label.
    pub open spec fn text(self) -> Seq<char> {
        self.0@
    }

    /// Reads a label from the bytes of an enum value. It fails exactly
    /// where the bytes are not valid UTF-8.
    pub fn from_raw(raw: &[u8]) -> (r: Option<PostgresEnum>)
        ensures
            r is Some <==> vstd::utf8::valid_utf8(raw@),
            r is Some ==> r.unwrap().text() == vstd::utf8::decode_utf8(raw@),
    {
        match utf8_text(raw) {
            Some(label) => Some(PostgresEnum(label)),
            None => None,
        }
    }

    /// Whether a type with this object identifier is read as an enum label:
    /// every type that is not built in.
    pub fn accepts(oid: u32) -> (r: bool)
        ensures
            r == (oid >= crate::coercion::FIRST_USER_OID),
    {
        oid >= crate::coercion::FIRST_USER_OID
    }
}

/// The settings of a database connection.
#[derive(Debug, Clone, PartialEq, Eq)]
pub struct DatabaseConfig {
    pub host: String,
    pub port: u16,
    pub user: String,
    pub password: String,
    pub database: String,
    pub max_connections: usize,
}

/// The port that a setting's text gives: its number, or 5432 where the
/// setting is absent or holds no number that a port can take.
pub open spec fn port_of(text: Option<String>) -> u16 {
    match text {
        Some(p) => match u64_parse(p@) {
            Some(v) => if v <= u16::MAX {
                v as u16
            } else {
                5432u16
            },
            None => 5432u16,
        },
        None => 5432u16,
    }
}

/// The pool size that a setting's text gives: its number, or five where
/// the setting is absent or holds no number that a size can take.
pub open spec fn pool_size_of(text: Option<String>) -> usize {
    match text {
        Some(m) => match u64_parse(m@) {
            Some(v) => if v <= usize::MAX {
                v as usize
            } else {
                5usize
            },
            None => 5usize,
        },
        None => 5usize,
    }
}

impl DatabaseConfig {
    /// The settings as read from the texts of the environment, with the
    /// default for each setting that is absent or unreadable.
    pub fn from_values(
        host: Option<String>,
        port: Option<String>,
        user: Option<String>,
        password: String,
        database: String,
        max_connections: Option<String>,
    ) -> (config: DatabaseConfig)
        ensures
            config.host@ == (match host {
                Some(h) => h@,
                None => "localhost"@,
            }),
            config.port == port_of(port),
            config.user@ == (match user {
                Some(u) => u@,
                None => "postgres"@,
            }),
            config.password == password,
            config.database == database,
            config.max_connections == pool_size_of(max_connections),
    {
        let port_number = match &port {
            Some(p) => match parse_u64(p.as_str()) {
                Some(v) => if v <= u16::MAX as u64 {
                    Some(v as u16)
                } else {
                    None
                },
                None => None,
            },
            None => None,
        };
        let pool_size = match &max_connections {
            Some(m) => match parse_u64(m.as_str()) {
                Some(v) => if v <= usize::MAX as u64 {
                    Some(v as usize)
                } else {
                    None
                },
                None => None,
            },
            None => None,
        };
        DatabaseConfig::with_defaults(host, port_number, user, password, database, pool_size)
    }

    /// The settings for the given password and database, with the default
    /// for each setting that is absent: host `localhost`, port 5432, user
    /// `postgres`, five connections.
    pub fn with_defaults(
        host: Option<String>,
        port: Option<u16>,
        user: Option<String>,
        password: String,
        database: String,
        max_connections: Option<usize>,
    ) -> (config: DatabaseConfig)
        ensures
            config.host@ == (match host {
                Some(h) => h@,
                None => "localhost"@,
            }),
            config.port == (match port {
                Some(p) => p,
                None => 5432u16,
            }),
            config.user@ == (match user {
                Some(u) => u@,
                None => "postgres"@,
            }),
            config.password == password,
            config.database == database,
            config.max_connections == (match max_connections {
                Some(m) => m,
                None => 5usize,
            }),
    {
        DatabaseConfig {
            host: match host {
                Some(h) => h,
                None => "localhost".to_owned(),
            },
            port: match port {
                Some(p) => p,
                None => 5432,
            },
            user: match user {
                Some(u) => u,
                None => "postgres".to_owned(),
            },
            password,
            database,
            max_connections: match max_connections {
                Some(m) => m,
                None => 5,
            },
        }
    }
}

/// One join of a query request. `kind` is `inner` or `left`; a join of any
/// other kind is left out.
#[derive(Debug, Clone, PartialEq, Eq)]
pub struct JoinParams {
    pub table: String,
    pub left_column: String,
    pub right_column: String,
    pub kind: String,
    pub alias: Option<String>,
}

/// One equality filter of a query request.
#[derive(Debug, PartialEq, Eq)]
pub struct Filter {
    pub column: String,
    pub value: JsonValue,
}

/// A request to query one table.
#[derive(Debug, PartialEq, Eq)]
pub struct QueryParams {
    pub table: String,
    pub columns: Option<Vec<String>>,
    pub conditions: Option<Vec<Filter>>,
    pub order_by: Option<Vec<OrderEntry>>,
    pub limit: Option<i64>,
    pub offset: Option<i64>,
    pub joins: Option<Vec<JoinParams>>,
}

/// A request to insert one row.
#[derive(Debug, PartialEq, Eq)]
pub struct InsertParams {
    pub table: String,
    pub value: JsonValue,
}

/// A request to run a statement as it is written.
#[derive(Debug, PartialEq, Eq)]
pub struct RawQueryParams {
    pub sql: String,
    pub params: Option<Vec<JsonValue>>,
}

/// `q` after one join of a request.
pub open spec fn after_join(q: QueryModel, j: JoinParams) -> QueryModel {
    if j.kind@ == "inner"@ || j.kind@ == "left"@ {
        QueryModel {
            joins: q.joins.push(
                JoinModel {
                    table: j.table@,
                    alias: opt_text(j.alias),
                    kind: if j.kind@ == "inner"@ {
                        JoinType::Inner
                    } else {
                        JoinType::Left
                    },
                    left_column: j.left_column@,
                    right_column: j.right_column@,
                },
            ),
            ..q
        }
    } else {
        q
    }
}

/// `q` after the joins of a request, in order.
pub open spec fn after_joins(q: QueryModel, joins: Seq<JoinParams>) -> QueryModel
    decreases joins.len(),
{
    if joins.len() == 0 {
        q
    } else {
        after_join(after_joins(q, joins.drop_last()), joins.last())
    }
}

/// The value that a text filter binds, given the declared type of its
/// column and what reading the text as a UUID gave: the UUID for a `uuid`
/// column whose text is one, else the text.
pub open spec fn text_filter_value(declared: Option<Seq<char>>, s: String, id: Option<u128>) -> BindValue {
    if declared == Some("uuid"@) && id is Some {
        BindValue::Uuid(id->0)
    } else {
        BindValue::Text(s)
    }
}

/// The value that a text filter binds, given the declared type of its
/// column and what reading the text as a UUID gave.
pub fn text_filter_param(declared: Option<String>, s: String, id: Option<u128>) -> (out: BindValue)
    ensures
        out == text_filter_value(opt_text(declared), s, id),
{
    let is_uuid = match &declared {
        Some(t) => same_text(t.as_str(), "uuid"),
        None => false,
    };
    match id {
        Some(u) => if is_uuid {
            BindValue::Uuid(u)
        } else {
            BindValue::Text(s)
        },
        None => BindValue::Text(s),
    }
}

/// `q` after one filter of a request. A text is bound as a UUID where the
/// column is declared `uuid` and the text is one; null becomes a NULL test;
/// an array or an object adds nothing.
pub open spec fn after_filter(q: QueryModel, tables: Seq<TableModel>, f: Filter) -> QueryModel {
    match f.value {
        JsonValue::Str(s) => with_equals(
            q,
            f.column@,
            text_filter_value(column_type(tables, q.table, f.column@), s, uuid_parse(s@)),
        ),
        JsonValue::Int(i) => with_equals(q, f.column@, BindValue::Int(i)),
        JsonValue::Float(bits) => with_equals(q, f.column@, BindValue::Float(bits)),
        JsonValue::Bool(b) => with_equals(q, f.column@, BindValue::Bool(b)),
        JsonValue::Null => with_is_null(q, f.column@),
        _ => q,
    }
}

/// `q` after the filters of a request, in order.
pub open spec fn after_filters(q: QueryModel, tables: Seq<TableModel>, filters: Seq<Filter>) -> QueryModel
    decreases filters.len(),
{
    if filters.len() == 0 {
        q
    } else {
        after_filter(after_filters(q, tables, filters.drop_last()), tables, filters.last())
    }
}

/// `q` after the ordering entries of a request, in order.
pub open spec fn after_orders(q: QueryModel, orders: Seq<OrderEntry>) -> QueryModel {
    QueryModel { order_by: q.order_by + views(orders), ..q }
}

/// The builder state that a query request leads to.
pub open spec fn planned_query(tables: Seq<TableModel>, p: QueryParams) -> QueryModel {
    let q0 = fresh_query(p.table@);
    let q1 = match p.columns {
        Some(c) => QueryModel { selected_columns: Some(texts(c@)), ..q0 },
        None => q0,
    };
    let q2 = match p.joins {
        Some(j) => after_joins(q1, j@),
        None => q1,
    };
    let q3 = match p.conditions {
        Some(f) => after_filters(q2, tables, f@),
        None => q2,
    };
    let q4 = match p.order_by {
        Some(o) => after_orders(q3, o@),
        None => q3,
    };
    let q5 = match p.limit {
        Some(n) => QueryModel { limit: Some(n), ..q4 },
        None => q4,
    };
    match p.offset {
        Some(n) => QueryModel { offset: Some(n), ..q5 },
        None => q5,
    }
}

/// The message for a table that the catalog does not hold.
pub open spec fn unknown_table_message(table: Seq<char>) -> Seq<char> {
    "Table '"@ + table + "' not found in the database schema"@
}

/// The message for an insert that could not be compiled.
pub open spec fn insert_failed_message(table: Seq<char>) -> Seq<char> {
    "Failed to build insert query for table "@ + table
}

fn apply_joins<'a>(builder: QueryBuilder<'a>, joins: &Vec<JoinParams>) -> (next: QueryBuilder<'a>)
    ensures
        next.schema == builder.schema,
        next@ == after_joins(builder@, joins@),
{
    let mut next = builder;
    let mut i: usize = 0;
    assert(joins@.take(0) =~= Seq::<JoinParams>::empty());
    while i < joins.len()
        invariant
            i <= joins.len(),
            next.schema == builder.schema,
            next@ == after_joins(builder@, joins@.take(i as int)),
        decreases joins.len() - i,
    {
        let join = &joins[i];
        assert(joins@.take(i + 1).drop_last() =~= joins@.take(i as int));
        let alias = match &join.alias {
            Some(a) => Some(a.clone()),
            None => None,
        };
        if same_text(join.kind.as_str(), "inner") {
            next = next.inner_join(
                join.table.as_str(),
                join.left_column.as_str(),
                join.right_column.as_str(),
                alias,
            );
        } else if same_text(join.kind.as_str(), "left") {
            next = next.left_join(
                join.table.as_str(),
                join.left_column.as_str(),
                join.right_column.as_str(),
                alias,
            );
        }
        i += 1;
    }
    assert(joins@.take(joins.len() as int) =~= joins@);
    next
}

fn apply_filters<'a>(builder: QueryBuilder<'a>, filters: &Vec<Filter>) -> (next: QueryBuilder<'a>)
    ensures
        next.schema == builder.schema,
        next@ == after_filters(builder@, builder.schema@.tables, filters@),
{
    let mut next = builder;
    let mut i: usize = 0;
    assert(filters@.take(0) =~= Seq::<Filter>::empty());
    while i < filters.len()
        invariant
            i <= filters.len(),
            next.schema == builder.schema,
            next@ == after_filters(builder@, builder.schema@.tables, filters@.take(i as int)),
        decreases filters.len() - i,
    {
        let filter = &filters[i];
        assert(filters@.take(i + 1).drop_last() =~= filters@.take(i as int));
        let column = filter.column.as_str();
        match &filter.value {
            JsonValue::Str(s) => {
                let declared = next.get_column_type(column);
                let id = parse_uuid(s.as_str());
                let value = text_filter_param(declared, s.clone(), id);
                next = next.where_eq(column, Some(value));
            },
            JsonValue::Int(n) => {
                next = next.where_eq(column, Some(BindValue::Int(*n)));
            },
            JsonValue::Float(bits) => {
                next = next.where_eq(column, Some(BindValue::Float(*bits)));
            },
            JsonValue::Bool(b) => {
                next = next.where_eq(column, Some(BindValue::Bool(*b)));
            },
            JsonValue::Null => {
                next = next.where_eq(column, None);
            },
            _ => {},
        }
        i += 1;
    }
    assert(filters@.take(filters.len() as int) =~= filters@);
    next
}

fn apply_orders<'a>(builder: QueryBuilder<'a>, orders: &Vec<OrderEntry>) -> (next: QueryBuilder<'a>)
    ensures
        next.schema == builder.schema,
        next@ == after_orders(builder@, orders@),
{
    let mut next = builder;
    let mut i: usize = 0;
    assert(builder@.order_by + views(orders@).take(0) =~= builder@.order_by);
    while i < orders.len()
        invariant
            i <= orders.len(),
            next.schema == builder.schema,
            next@ == (QueryModel {
                order_by: builder@.order_by + views(orders@).take(i as int),
                ..builder@
            }),
        decreases orders.len() - i,
    {
        let ghost before = next@.order_by;
        next = next.order_by(orders[i].column.as_str(), orders[i].ascending);
        assert(next@.order_by =~= builder@.order_by + views(orders@).take(i + 1));
        i += 1;
    }
    assert(views(orders@).take(orders.len() as int) =~= views(orders@));
    next
}

/// Compiles a query request against the catalog. It fails, with the message
/// that names the table, exactly when the table does not resolve.
pub fn plan_query(schema: &DatabaseSchema, params: &QueryParams) -> (out: Result<
    (String, Vec<BindValue>),
    CommandError,
>)
    ensures
        out is Ok <==> table_index(schema@.tables, params.table@) >= 0,
        match out {
            Ok(compiled) => {
                &&& compiled.0@ == select_text(planned_query(schema@.tables, *params))
                &&& compiled.1@ == planned_query(schema@.tables, *params).params
            },
            Err(e) => e.message@ == unknown_table_message(params.table@),
        },
{
    let mut builder = match QueryBuilder::new(schema, params.table.as_str()) {
        Some(b) => b,
        None => {
            let mut message = "Table '".to_owned();
            message.append(params.table.as_str());
            message.append("' not found in the database schema");
            return Err(CommandError { message });
        },
    };
    match &params.columns {
        Some(columns) => {
            let mut names: Vec<&str> = Vec::new();
            let mut i: usize = 0;
            while i < columns.len()
                invariant
                    i <= columns.len(),
                    names.len() == i,
                    forall|j: int| 0 <= j < i ==> (#[trigger] names@[j])@ == columns@[j]@,
                decreases columns.len() - i,
            {
                names.push(columns[i].as_str());
                i += 1;
            }
            assert(slice_texts(names@) =~= texts(columns@));
            builder = builder.select(names.as_slice());
        },
        None => {},
    }
    match &params.joins {
        Some(joins) => {
            builder = apply_joins(builder, joins);
        },
        None => {},
    }
    match &params.conditions {
        Some(filters) => {
            builder = apply_filters(builder, filters);
        },
        None => {},
    }
    match &params.order_by {
        Some(orders) => {
            builder = apply_orders(builder, orders);
        },
        None => {},
    }
    match params.limit {
        Some(n) => {
            builder = builder.limit(n);
        },
        None => {},
    }
    match params.offset {
        Some(n) => {
            builder = builder.offset(n);
        },
        None => {},
    }
    Ok(builder.build_select())
}

/// Compiles an insert request against the catalog. It fails, with the
/// message that names the table, exactly when the table does not resolve or
/// the value is not an object.
pub fn plan_insert(schema: &DatabaseSchema, params: &InsertParams) -> (out: Result<
    (String, Vec<BindValue>),
    CommandError,
>)
    ensures
        out is Ok <==> table_index(schema@.tables, params.table@) >= 0 && params.value is Object,
        match out {
            Ok(compiled) => {
                let t = schema.tables@[table_index(schema@.tables, params.table@)];
                let members = params.value->Object_0@;
                &&& compiled.0@ == crate::builder::insert_text(
                    t.schema@,
                    t.name@,
                    crate::builder::insert_names(t.columns@, members),
                )
                &&& compiled.1@ == crate::builder::insert_values(t.columns@, members)
            },
            Err(e) => e.message@ == insert_failed_message(params.table@),
        },
{
    match QueryBuilder::build_insert(&params.value, schema, params.table.as_str()) {
        Some(compiled) => Ok(compiled),
        None => {
            let mut message = "Failed to build insert query for table ".to_owned();
            message.append(params.table.as_str());
            Err(CommandError { message })
        },
    }
}

/// The bind parameters of a raw query: one for each parameter of the
/// request, in order, and none where the request has no list.
pub fn raw_params(params: &RawQueryParams) -> (out: Vec<BindValue>)
    ensures
        match params.params {
            Some(list) => out@.len() == list@.len() && forall|i: int|
                0 <= i < list@.len() ==> smart_model(list@[i], #[trigger] out@[i]),
            None => out@.len() == 0,
        },
{
    let mut out: Vec<BindValue> = Vec::new();
    match &params.params {
        Some(list) => {
            let mut i: usize = 0;
            while i < list.len()
                invariant
                    i <= list.len(),
                    out.len() == i,
                    forall|j: int| 0 <= j < i ==> smart_model(list@[j], #[trigger] out@[j]),
                decreases list.len() - i,
            {
                out.push(smart_param(&list[i]));
                i += 1;
            }
        },
        None => {},
    }
    out
}

} // verus!
