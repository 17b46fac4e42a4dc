//! The query builder: accumulates projection, filters, joins, ordering and
//! pagination for one table of the catalog and compiles them into
//! parameterized SQL with its positional values.

use vstd::prelude::*;
use crate::json::{find_member, member_keys, JsonValue, Member};
use crate::schema::{opt_text, table_index, views, ColumnInfo, DatabaseSchema};
use crate::text::{
    ascii_lowered, ascii_lowered_chars, chars_of, contains_chars, contains_text, decimal, join,
    join_strings, last_index, push_decimal, push_signed_decimal, signed_decimal, texts,
};

verus! {

/// A value bound to a positional parameter. A double is held as its bit
/// pattern, a UUID as its 128-bit number, a timestamp as seconds and
/// nanoseconds since the Unix epoch.
#[derive(Debug, Clone, PartialEq, Eq)]
pub enum BindValue {
    Null,
    Text(String),
    Int(i64),
    Float(u64),
    Bool(bool),
    Uuid(u128),
    Timestamp(i64, u32),
    TextArray(Vec<String>),
}

/// The kind of a join.
#[derive(Debug, Clone, Copy, PartialEq, Eq, Structural)]
pub enum JoinType {
    Inner,
    Left,
}

/// One join: the joined table, its alias, and the single equality that
/// links a column of the base table to a column of the joined one.
#[derive(Debug, Clone, PartialEq, Eq)]
pub struct JoinClause {
    pub table: String,
    pub alias: Option<String>,
    pub kind: JoinType,
    pub left_column: String,
    pub right_column: String,
}

/// One `ORDER BY` entry.
#[derive(Debug, Clone, PartialEq, Eq)]
pub struct OrderEntry {
    pub column: String,
    pub ascending: bool,
}

/// A query under construction against one table of a catalog. Compiling it
/// consumes it.
pub struct QueryBuilder<'a> {
    pub schema: &'a DatabaseSchema,
    pub table: String,
    pub conditions: Vec<String>,
    pub params: Vec<BindValue>,
    pub selected_columns: Option<Vec<String>>,
    pub order_by: Vec<OrderEntry>,
    pub limit: Option<i64>,
    pub offset: Option<i64>,
    pub joins: Vec<JoinClause>,
}

/// The content of a [`JoinClause`].
pub struct JoinModel {
    pub table: Seq<char>,
    pub alias: Option<Seq<char>>,
    pub kind: JoinType,
    pub left_column: Seq<char>,
    pub right_column: Seq<char>,
}

/// The content of an [`OrderEntry`].
pub struct OrderModel {
    pub column: Seq<char>,
    pub ascending: bool,
}

/// The state of a builder: what will be compiled.
pub struct QueryModel {
    pub table: Seq<char>,
    pub conditions: Seq<Seq<char>>,
    pub params: Seq<BindValue>,
    pub selected_columns: Option<Seq<Seq<char>>>,
    pub order_by: Seq<OrderModel>,
    pub limit: Option<i64>,
    pub offset: Option<i64>,
    pub joins: Seq<JoinModel>,
}

impl View for JoinClause {
    type V = JoinModel;

    open spec fn view(&self) -> JoinModel {
        JoinModel {
            table: self.table@,
            alias: opt_text(self.alias),
            kind: self.kind,
            left_column: self.left_column@,
            right_column: self.right_column@,
        }
    }
}

impl View for OrderEntry {
    type V = OrderModel;

    open spec fn view(&self) -> OrderModel {
        OrderModel { column: self.column@, ascending: self.ascending }
    }
}

impl<'a> View for QueryBuilder<'a> {
    type V = QueryModel;

    open spec fn view(&self) -> QueryModel {
        QueryModel {
            table: self.table@,
            conditions: texts(self.conditions@),
            params: self.params@,
            selected_columns: match self.selected_columns {
                Some(c) => Some(texts(c@)),
                None => None,
            },
            order_by: views(self.order_by@),
            limit: self.limit,
            offset: self.offset,
            joins: views(self.joins@),
        }
    }
}

/// The placeholder of the positional parameter number `n`.
pub open spec fn placeholder(n: nat) -> Seq<char> {
    "$"@ + decimal(n)
}

/// The predicate that compares a column of `table` with parameter `n`.
pub open spec fn equals_condition(table: Seq<char>, column: Seq<char>, n: nat) -> Seq<char> {
    table + "."@ + column + " = "@ + placeholder(n)
}

/// The predicate that tests a column of `table` for NULL.
pub open spec fn is_null_condition(table: Seq<char>, column: Seq<char>) -> Seq<char> {
    table + "."@ + column + " IS NULL"@
}

/// `q` with an equality filter that binds `v`.
pub open spec fn with_equals(q: QueryModel, column: Seq<char>, v: BindValue) -> QueryModel {
    QueryModel {
        conditions: q.conditions.push(equals_condition(q.table, column, q.params.len() + 1)),
        params: q.params.push(v),
        ..q
    }
}

/// `q` with a NULL test.
pub open spec fn with_is_null(q: QueryModel, column: Seq<char>) -> QueryModel {
    QueryModel { conditions: q.conditions.push(is_null_condition(q.table, column)), ..q }
}

/// The placeholders of `count` parameters that follow `bound` earlier ones.
pub open spec fn placeholders(bound: nat, count: nat) -> Seq<Seq<char>> {
    Seq::new(count, |i: int| placeholder((bound + i + 1) as nat))
}

/// The predicate that tests `column` for membership among `count` new
/// parameters.
pub open spec fn in_condition(column: Seq<char>, bound: nat, count: nat) -> Seq<char> {
    column + " IN ("@ + join(placeholders(bound, count), ", "@) + ")"@
}

/// Whether a projection entry carries an alias: ` as ` in any ASCII case.
pub open spec fn has_alias(entry: Seq<char>) -> bool {
    contains_text(ascii_lowered(entry), " as "@)
}

/// A projection entry as it is written: verbatim when it holds a dot or an
/// alias, else qualified with the base table.
pub open spec fn projected(table: Seq<char>, entry: Seq<char>) -> Seq<char> {
    if entry.contains('.') || has_alias(entry) {
        entry
    } else {
        table + "."@ + entry
    }
}

/// The name by which a joined table is referred to.
pub open spec fn join_target(j: JoinModel) -> Seq<char> {
    match j.alias {
        Some(a) => a,
        None => j.table,
    }
}

/// The projection list of a query.
pub open spec fn projection_text(q: QueryModel) -> Seq<char> {
    match q.selected_columns {
        Some(cols) => join(Seq::new(cols.len(), |i: int| projected(q.table, cols[i])), ", "@),
        None => join(
            seq![q.table + ".*"@] + Seq::new(
                q.joins.len(),
                |i: int| join_target(q.joins[i]) + ".*"@,
            ),
            ", "@,
        ),
    }
}

/// The keyword of a join kind.
pub open spec fn join_keyword(kind: JoinType) -> Seq<char> {
    match kind {
        JoinType::Inner => "INNER JOIN"@,
        JoinType::Left => "LEFT JOIN"@,
    }
}

/// One join clause, with its leading space.
pub open spec fn join_text(table: Seq<char>, j: JoinModel) -> Seq<char> {
    " "@ + join_keyword(j.kind) + " "@ + j.table + (match j.alias {
        Some(a) => " AS "@ + a,
        None => Seq::empty(),
    }) + " ON "@ + table + "."@ + j.left_column + " = "@ + join_target(j) + "."@ + j.right_column
}

/// One `ORDER BY` entry.
pub open spec fn order_text(table: Seq<char>, o: OrderModel) -> Seq<char> {
    table + "."@ + o.column + (if o.ascending {
        " ASC"@
    } else {
        " DESC"@
    })
}

/// The join clauses of a query, in the order in which they were added.
pub open spec fn joins_text(q: QueryModel) -> Seq<char> {
    join(Seq::new(q.joins.len(), |i: int| join_text(q.table, q.joins[i])), Seq::empty())
}

/// The `WHERE` clause of a query: its predicates joined by `AND`, or
/// nothing where it has none.
pub open spec fn where_text(q: QueryModel) -> Seq<char> {
    if q.conditions.len() == 0 {
        Seq::empty()
    } else {
        " WHERE "@ + join(q.conditions, " AND "@)
    }
}

/// The `ORDER BY` clause of a query, or nothing where it has no entry.
pub open spec fn order_by_text(q: QueryModel) -> Seq<char> {
    if q.order_by.len() == 0 {
        Seq::empty()
    } else {
        " ORDER BY "@ + join(
            Seq::new(q.order_by.len(), |i: int| order_text(q.table, q.order_by[i])),
            ", "@,
        )
    }
}

/// The `LIMIT` clause, or nothing where no limit was set.
pub open spec fn limit_text(limit: Option<i64>) -> Seq<char> {
    match limit {
        Some(n) => " LIMIT "@ + signed_decimal(n as int),
        None => Seq::empty(),
    }
}

/// The `OFFSET` clause, or nothing where no offset was set.
pub open spec fn offset_text(offset: Option<i64>) -> Seq<char> {
    match offset {
        Some(n) => " OFFSET "@ + signed_decimal(n as int),
        None => Seq::empty(),
    }
}

/// The `SELECT` statement that a builder state compiles to.
pub open spec fn select_text(q: QueryModel) -> Seq<char> {
    "SELECT "@ + projection_text(q) + " FROM "@ + q.table + joins_text(q) + where_text(q)
        + order_by_text(q) + limit_text(q.limit) + offset_text(q.offset)
}

fn placeholder_text(n: u128) -> (out: String)
    ensures
        out@ == placeholder(n as nat),
{
    let mut out = "$".to_owned();
    push_decimal(&mut out, n);
    out
}

fn placeholder_list(bound: usize, count: usize) -> (out: Vec<String>)
    ensures
        texts(out@) == placeholders(bound as nat, count as nat),
{
    let mut out: Vec<String> = Vec::new();
    let mut i: usize = 0;
    while i < count
        invariant
            i <= count,
            out.len() == i,
            forall|j: int| 0 <= j < i ==> (#[trigger] out@[j])@ == placeholder((bound + j + 1) as nat),
        decreases count - i,
    {
        out.push(placeholder_text(bound as u128 + i as u128 + 1));
        i += 1;
    }
    assert(texts(out@) =~= placeholders(bound as nat, count as nat));
    out
}

fn projected_text(table: &str, entry: &str) -> (out: String)
    ensures
        out@ == projected(table@, entry@),
{
    let chars = chars_of(entry);
    let mut dotted = false;
    let mut i: usize = 0;
    while i < chars.len()
        invariant
            i <= chars.len(),
            dotted == chars@.take(i as int).contains('.'),
        decreases chars.len() - i,
    {
        assert(chars@.take(i + 1) =~= chars@.take(i as int).push(chars@[i as int]));
        proof {
            let before = chars@.take(i as int);
            let after = chars@.take(i + 1);
            if before.contains('.') {
                let w = choose|w: int| 0 <= w < before.len() && before[w] == '.';
                assert(after[w] == '.');
            }
            if chars@[i as int] == '.' {
                assert(after[i as int] == '.');
            }
            if after.contains('.') {
                let w = choose|w: int| 0 <= w < after.len() && after[w] == '.';
                if w < i {
                    assert(before[w] == '.');
                }
            }
        }
        if chars[i] == '.' {
            dotted = true;
        }
        i += 1;
    }
    assert(chars@.take(chars.len() as int) =~= chars@);
    let lowered = ascii_lowered_chars(&chars);
    let pattern = chars_of(" as ");
    if dotted || contains_chars(&lowered, &pattern) {
        entry.to_owned()
    } else {
        let mut out = table.to_owned();
        out.append(".");
        out.append(entry);
        out
    }
}

fn join_target_text(j: &JoinClause) -> (out: String)
    ensures
        out@ == join_target(j@),
{
    match &j.alias {
        Some(a) => a.clone(),
        None => j.table.clone(),
    }
}

fn join_clause_text(table: &str, j: &JoinClause) -> (out: String)
    ensures
        out@ == join_text(table@, j@),
{
    let mut out = " ".to_owned();
    match j.kind {
        JoinType::Inner => out.append("INNER JOIN"),
        JoinType::Left => out.append("LEFT JOIN"),
    }
    out.append(" ");
    out.append(j.table.as_str());
    match &j.alias {
        Some(a) => {
            out.append(" AS ");
            out.append(a.as_str());
            assert(out@ =~= " "@ + join_keyword(j@.kind) + " "@ + j@.table + (" AS "@ + a@));
        },
        None => {
            assert(out@ =~= " "@ + join_keyword(j@.kind) + " "@ + j@.table + Seq::<char>::empty());
        },
    }
    out.append(" ON ");
    out.append(table);
    out.append(".");
    out.append(j.left_column.as_str());
    out.append(" = ");
    let target = join_target_text(j);
    out.append(target.as_str());
    out.append(".");
    out.append(j.right_column.as_str());
    out
}

fn order_entry_text(table: &str, o: &OrderEntry) -> (out: String)
    ensures
        out@ == order_text(table@, o@),
{
    let mut out = table.to_owned();
    out.append(".");
    out.append(o.column.as_str());
    if o.ascending {
        out.append(" ASC");
    } else {
        out.append(" DESC");
    }
    out
}


/// The declared type of `column` in the table that `table` resolves to.
pub open spec fn column_type(
    tables: Seq<crate::schema::TableModel>,
    table: Seq<char>,
    column: Seq<char>,
) -> Option<Seq<char>> {
    let t = table_index(tables, table);
    if 0 <= t < tables.len() {
        crate::schema::column_type_in(tables[t], column)
    } else {
        None
    }
}

/// The state of a builder that was just made for `table`.
pub open spec fn fresh_query(table: Seq<char>) -> QueryModel {
    QueryModel {
        table,
        conditions: Seq::empty(),
        params: Seq::empty(),
        selected_columns: None,
        order_by: Seq::empty(),
        limit: None,
        offset: None,
        joins: Seq::empty(),
    }
}

/// The texts of a slice of string slices.
pub open spec fn slice_texts(columns: Seq<&str>) -> Seq<Seq<char>> {
    Seq::new(columns.len(), |i: int| columns[i]@)
}

impl<'a> QueryBuilder<'a> {
    /// A builder for `table`, which must resolve in `schema` by its
    /// qualified or its bare name.
    pub fn new(schema: &'a DatabaseSchema, table: &str) -> (made: Option<Self>)
        ensures
            made is Some <==> table_index(schema@.tables, table@) >= 0,
            match made {
                Some(b) => b@ == fresh_query(table@) && b.schema == schema,
                None => true,
            },
    {
        if !schema.contains_table(table) {
            return None;
        }
        let made = QueryBuilder {
            schema,
            table: table.to_owned(),
            conditions: Vec::new(),
            params: Vec::new(),
            selected_columns: None,
            order_by: Vec::new(),
            limit: None,
            offset: None,
            joins: Vec::new(),
        };
        assert(made@.conditions =~= Seq::<Seq<char>>::empty());
        assert(made@.order_by =~= Seq::<OrderModel>::empty());
        assert(made@.joins =~= Seq::<JoinModel>::empty());
        Some(made)
    }

    /// The declared type of a column of the base table: of the first column
    /// of that name.
    pub fn get_column_type(&self, column_name: &str) -> (found: Option<String>)
        ensures
            match found {
                Some(t) => Some(t@) == column_type(self.schema@.tables, self.table@, column_name@),
                None => column_type(self.schema@.tables, self.table@, column_name@) is None,
            },
    {
        match self.schema.table(self.table.as_str()) {
            Some(table) => {
                let c = table.column_position(column_name);
                if c < table.columns.len() {
                    Some(table.columns[c].sql_type.clone())
                } else {
                    None
                }
            },
            None => None,
        }
    }

    /// Restricts the projection to `columns`.
    pub fn select(self, columns: &[&str]) -> (next: Self)
        ensures
            next@ == (QueryModel { selected_columns: Some(slice_texts(columns@)), ..self@ }),
            next.schema == self.schema,
    {
        let mut next = self;
        let mut chosen: Vec<String> = Vec::new();
        let mut i: usize = 0;
        while i < columns.len()
            invariant
                i <= columns.len(),
                chosen.len() == i,
                forall|j: int| 0 <= j < i ==> (#[trigger] chosen@[j])@ == columns@[j]@,
            decreases columns.len() - i,
        {
            chosen.push(columns[i].to_owned());
            i += 1;
        }
        assert(texts(chosen@) =~= slice_texts(columns@));
        next.selected_columns = Some(chosen);
        next
    }

    /// Adds an equality filter on a column of the base table. With a value,
    /// the value is bound as the next positional parameter; without one, the
    /// column is tested for NULL and nothing is bound.
    pub fn where_eq(self, column: &str, value: Option<BindValue>) -> (next: Self)
        ensures
            next.schema == self.schema,
            match value {
                Some(v) => next@ == with_equals(self@, column@, v),
                None => next@ == with_is_null(self@, column@),
            },
    {
        let mut next = self;
        let mut condition = next.table.clone();
        condition.append(".");
        condition.append(column);
        match value {
            Some(v) => {
                condition.append(" = ");
                let mark = placeholder_text(next.params.len() as u128 + 1);
                condition.append(mark.as_str());
                next.params.push(v);
                next.conditions.push(condition);
                assert(next@.conditions =~= self@.conditions.push(
                    equals_condition(self@.table, column@, self@.params.len() + 1),
                ));
                assert(next@ == with_equals(self@, column@, v));
            },
            None => {
                condition.append(" IS NULL");
                next.conditions.push(condition);
                assert(next@.conditions =~= self@.conditions.push(
                    is_null_condition(self@.table, column@),
                ));
            },
        }
        next
    }

    /// Adds a membership filter: one `IN (...)` predicate with one
    /// positional parameter for each of `values`, of which there is at
    /// least one.
    pub fn where_in(self, column: &str, values: Vec<BindValue>) -> (next: Self)
        requires
            values@.len() > 0,
        ensures
            next.schema == self.schema,
            next@ == (QueryModel {
                conditions: self@.conditions.push(
                    in_condition(column@, self@.params.len(), values@.len()),
                ),
                params: self@.params + values@,
                ..self@
            }),
    {
        let mut next = self;
        let ghost count = values@.len();
        let mut values = values;
        let marks = placeholder_list(next.params.len(), values.len());
        let mut condition = column.to_owned();
        condition.append(" IN (");
        let list = join_strings(&marks, ", ");
        condition.append(list.as_str());
        condition.append(")");
        next.params.append(&mut values);
        next.conditions.push(condition);
        assert(next@.conditions =~= self@.conditions.push(
            in_condition(column@, self@.params.len(), count),
        ));
        next
    }

    /// Adds an `ORDER BY` entry on a column of the base table.
    pub fn order_by(self, column: &str, ascending: bool) -> (next: Self)
        ensures
            next.schema == self.schema,
            next@ == (QueryModel {
                order_by: self@.order_by.push(OrderModel { column: column@, ascending }),
                ..self@
            }),
    {
        let mut next = self;
        next.order_by.push(OrderEntry { column: column.to_owned(), ascending });
        assert(next@.order_by =~= self@.order_by.push(OrderModel { column: column@, ascending }));
        next
    }

    /// Sets the `LIMIT`.
    pub fn limit(self, limit: i64) -> (next: Self)
        ensures
            next.schema == self.schema,
            next@ == (QueryModel { limit: Some(limit), ..self@ }),
    {
        let mut next = self;
        next.limit = Some(limit);
        next
    }

    /// Sets the `OFFSET`.
    pub fn offset(self, offset: i64) -> (next: Self)
        ensures
            next.schema == self.schema,
            next@ == (QueryModel { offset: Some(offset), ..self@ }),
    {
        let mut next = self;
        next.offset = Some(offset);
        next
    }

    fn with_join(
        self,
        kind: JoinType,
        table: &str,
        left_column: &str,
        right_column: &str,
        alias: Option<String>,
    ) -> (next: Self)
        ensures
            next.schema == self.schema,
            next@ == (QueryModel {
                joins: self@.joins.push(
                    JoinModel {
                        table: table@,
                        alias: opt_text(alias),
                        kind,
                        left_column: left_column@,
                        right_column: right_column@,
                    },
                ),
                ..self@
            }),
    {
        let mut next = self;
        let clause = JoinClause {
            table: table.to_owned(),
            alias,
            kind,
            left_column: left_column.to_owned(),
            right_column: right_column.to_owned(),
        };
        next.joins.push(clause);
        assert(next@.joins =~= self@.joins.push(clause@));
        next
    }

    /// Adds an inner join on `base.left_column = joined.right_column`.
    pub fn inner_join(
        self,
        table: &str,
        left_column: &str,
        right_column: &str,
        alias: Option<String>,
    ) -> (next: Self)
        ensures
            next.schema == self.schema,
            next@ == (QueryModel {
                joins: self@.joins.push(
                    JoinModel {
                        table: table@,
                        alias: opt_text(alias),
                        kind: JoinType::Inner,
                        left_column: left_column@,
                        right_column: right_column@,
                    },
                ),
                ..self@
            }),
    {
        self.with_join(JoinType::Inner, table, left_column, right_column, alias)
    }

    /// Adds a left join on `base.left_column = joined.right_column`.
    pub fn left_join(
        self,
        table: &str,
        left_column: &str,
        right_column: &str,
        alias: Option<String>,
    ) -> (next: Self)
        ensures
            next.schema == self.schema,
            next@ == (QueryModel {
                joins: self@.joins.push(
                    JoinModel {
                        table: table@,
                        alias: opt_text(alias),
                        kind: JoinType::Left,
                        left_column: left_column@,
                        right_column: right_column@,
                    },
                ),
                ..self@
            }),
    {
        self.with_join(JoinType::Left, table, left_column, right_column, alias)
    }

    fn projection(&self) -> (out: String)
        ensures
            out@ == projection_text(self@),
    {
        let mut parts: Vec<String> = Vec::new();
        match &self.selected_columns {
            Some(columns) => {
                let mut i: usize = 0;
                while i < columns.len()
                    invariant
                        i <= columns.len(),
                        parts.len() == i,
                        forall|j: int|
                            0 <= j < i ==> (#[trigger] parts@[j])@ == projected(
                                self.table@,
                                columns@[j]@,
                            ),
                    decreases columns.len() - i,
                {
                    parts.push(projected_text(self.table.as_str(), columns[i].as_str()));
                    i += 1;
                }
                assert(texts(parts@) =~= Seq::new(
                    texts(columns@).len(),
                    |i: int| projected(self@.table, texts(columns@)[i]),
                ));
            },
            None => {
                let mut first = self.table.clone();
                first.append(".*");
                parts.push(first);
                let mut i: usize = 0;
                while i < self.joins.len()
                    invariant
                        i <= self.joins.len(),
                        parts.len() == i + 1,
                        parts@[0]@ == self.table@ + ".*"@,
                        forall|j: int|
                            1 <= j <= i ==> (#[trigger] parts@[j])@ == join_target(
                                self.joins@[j - 1]@,
                            ) + ".*"@,
                    decreases self.joins.len() - i,
                {
                    let mut part = join_target_text(&self.joins[i]);
                    part.append(".*");
                    parts.push(part);
                    i += 1;
                }
                assert(texts(parts@) =~= seq![self@.table + ".*"@] + Seq::new(
                    self@.joins.len(),
                    |i: int| join_target(self@.joins[i]) + ".*"@,
                ));
            },
        }
        join_strings(&parts, ", ")
    }

    /// Compiles the builder into a `SELECT` statement and the values of its
    /// positional parameters, in order. A NULL test contributes no value.
    pub fn build_select(self) -> (out: (String, Vec<BindValue>))
        ensures
            out.0@ == select_text(self@),
            out.1@ == self@.params,
    {
        let mut query = "SELECT ".to_owned();
        let projection = self.projection();
        query.append(projection.as_str());
        query.append(" FROM ");
        query.append(self.table.as_str());

        let mut clauses: Vec<String> = Vec::new();
        let mut i: usize = 0;
        while i < self.joins.len()
            invariant
                i <= self.joins.len(),
                clauses.len() == i,
                forall|j: int|
                    0 <= j < i ==> (#[trigger] clauses@[j])@ == join_text(
                        self.table@,
                        self.joins@[j]@,
                    ),
            decreases self.joins.len() - i,
        {
            clauses.push(join_clause_text(self.table.as_str(), &self.joins[i]));
            i += 1;
        }
        assert(texts(clauses@) =~= Seq::new(
            self@.joins.len(),
            |i: int| join_text(self@.table, self@.joins[i]),
        ));
        let joined = crate::text::concat_strings(&clauses);
        query.append(joined.as_str());

        if self.conditions.len() > 0 {
            query.append(" WHERE ");
            let filters = join_strings(&self.conditions, " AND ");
            query.append(filters.as_str());
        }
        assert(query@ =~= "SELECT "@ + projection_text(self@) + " FROM "@ + self@.table
            + joins_text(self@) + where_text(self@));

        if self.order_by.len() > 0 {
            let mut entries: Vec<String> = Vec::new();
            let mut k: usize = 0;
            while k < self.order_by.len()
                invariant
                    k <= self.order_by.len(),
                    entries.len() == k,
                    forall|j: int|
                        0 <= j < k ==> (#[trigger] entries@[j])@ == order_text(
                            self.table@,
                            self.order_by@[j]@,
                        ),
                decreases self.order_by.len() - k,
            {
                entries.push(order_entry_text(self.table.as_str(), &self.order_by[k]));
                k += 1;
            }
            assert(texts(entries@) =~= Seq::new(
                self@.order_by.len(),
                |i: int| order_text(self@.table, self@.order_by[i]),
            ));
            query.append(" ORDER BY ");
            let ordering = join_strings(&entries, ", ");
            query.append(ordering.as_str());
        }
        assert(query@ =~= "SELECT "@ + projection_text(self@) + " FROM "@ + self@.table
            + joins_text(self@) + where_text(self@) + order_by_text(self@));

        match self.limit {
            Some(n) => {
                query.append(" LIMIT ");
                push_signed_decimal(&mut query, n);
            },
            None => {},
        }
        assert(query@ =~= "SELECT "@ + projection_text(self@) + " FROM "@ + self@.table
            + joins_text(self@) + where_text(self@) + order_by_text(self@) + limit_text(
            self@.limit,
        ));
        match self.offset {
            Some(n) => {
                query.append(" OFFSET ");
                push_signed_decimal(&mut query, n);
            },
            None => {},
        }
        assert(query@ =~= select_text(self@));
        (query, self.params)
    }
}

/// The bind parameter for a structured value that is written to a column:
/// a string, a number or a boolean. Null, arrays and objects have none.
pub open spec fn bind_of(v: JsonValue) -> Option<BindValue> {
    match v {
        JsonValue::Str(s) => Some(BindValue::Text(s)),
        JsonValue::Int(i) => Some(BindValue::Int(i)),
        JsonValue::Float(bits) => Some(BindValue::Float(bits)),
        JsonValue::Bool(b) => Some(BindValue::Bool(b)),
        _ => None,
    }
}

/// The bind parameter for a structured value that is written to a column,
/// if its shape has one.
pub fn to_bind_value(v: &JsonValue) -> (out: Option<BindValue>)
    ensures
        out == bind_of(*v),
{
    match v {
        JsonValue::Str(s) => Some(BindValue::Text(s.clone())),
        JsonValue::Int(i) => Some(BindValue::Int(*i)),
        JsonValue::Float(bits) => Some(BindValue::Float(*bits)),
        JsonValue::Bool(b) => Some(BindValue::Bool(*b)),
        _ => None,
    }
}


/// Whether a column takes part in an insert of the object with these
/// members: the object holds its name as a key, and the value under that
/// key has a bind parameter.
pub open spec fn insert_included(col: ColumnInfo, members: Seq<Member>) -> bool {
    let m = last_index(member_keys(members), col.name@);
    m >= 0 && bind_of(members[m].value) is Some
}

/// The names of the columns that take part in an insert, in catalog order.
pub open spec fn insert_names(cols: Seq<ColumnInfo>, members: Seq<Member>) -> Seq<Seq<char>>
    decreases cols.len(),
{
    if cols.len() == 0 {
        Seq::empty()
    } else {
        let head = insert_names(cols.drop_last(), members);
        if insert_included(cols.last(), members) {
            head.push(cols.last().name@)
        } else {
            head
        }
    }
}

/// The values bound by an insert, one for each column that takes part.
pub open spec fn insert_values(cols: Seq<ColumnInfo>, members: Seq<Member>) -> Seq<BindValue>
    decreases cols.len(),
{
    if cols.len() == 0 {
        Seq::empty()
    } else {
        let head = insert_values(cols.drop_last(), members);
        if insert_included(cols.last(), members) {
            head.push(
                bind_of(members[last_index(member_keys(members), cols.last().name@)].value)->0,
            )
        } else {
            head
        }
    }
}

/// A column whose key holds null in the object takes no part in the
/// insert, and neither does a column whose key the object lacks.
pub proof fn lemma_null_key_is_omitted(col: ColumnInfo, members: Seq<Member>)
    requires
        last_index(member_keys(members), col.name@) < 0 || members[last_index(
            member_keys(members),
            col.name@,
        )].value is Null,
    ensures
        !insert_included(col, members),
{
}

/// The `INSERT` statement for a table and the columns that take part.
pub open spec fn insert_text(schema: Seq<char>, table: Seq<char>, names: Seq<Seq<char>>) -> Seq<
    char,
> {
    "INSERT INTO "@ + schema + "."@ + table + " ("@ + join(names, ", "@) + ") VALUES ("@ + join(
        placeholders(0, names.len()),
        ", "@,
    ) + ")"@
}

/// A query without filters, joins and ordering compiles to its projection,
/// `FROM` and its table, followed by nothing but the limit and the offset
/// that were set.
pub proof fn lemma_plain_select(q: QueryModel)
    requires
        q.conditions.len() == 0,
        q.joins.len() == 0,
        q.order_by.len() == 0,
    ensures
        select_text(q) == "SELECT "@ + projection_text(q) + " FROM "@ + q.table + limit_text(
            q.limit,
        ) + offset_text(q.offset),
        q.limit is None && q.offset is None ==> select_text(q) == "SELECT "@ + projection_text(q)
            + " FROM "@ + q.table,
{
    assert(Seq::new(q.joins.len(), |i: int| join_text(q.table, q.joins[i])) =~= Seq::<
        Seq<char>,
    >::empty());
    assert(joins_text(q) =~= Seq::<char>::empty());
    assert(select_text(q) =~= "SELECT "@ + projection_text(q) + " FROM "@ + q.table + limit_text(
        q.limit,
    ) + offset_text(q.offset));
    if q.limit is None && q.offset is None {
        assert(select_text(q) =~= "SELECT "@ + projection_text(q) + " FROM "@ + q.table);
    }
}

/// A NULL test on a fresh builder compiles to one `IS NULL` predicate and
/// binds nothing; an equality filter compiles to one `= $1` predicate and
/// binds exactly its value.
pub proof fn lemma_single_filter(table: Seq<char>, column: Seq<char>, v: BindValue)
    ensures
        select_text(with_is_null(fresh_query(table), column)) == "SELECT "@ + table + ".*"@
            + " FROM "@ + table + " WHERE "@ + table + "."@ + column + " IS NULL"@,
        with_is_null(fresh_query(table), column).params.len() == 0,
        select_text(with_equals(fresh_query(table), column, v)) == "SELECT "@ + table + ".*"@
            + " FROM "@ + table + " WHERE "@ + table + "."@ + column + " = "@ + "$"@ + decimal(1),
        with_equals(fresh_query(table), column, v).params == seq![v],
{
    let fresh = fresh_query(table);
    let parts = seq![table + ".*"@] + Seq::new(
        fresh.joins.len(),
        |i: int| join_target(fresh.joins[i]) + ".*"@,
    );
    assert(parts.len() == 1);
    assert(parts[0] == table + ".*"@);
    assert(Seq::new(fresh.joins.len(), |i: int| join_text(table, fresh.joins[i])) =~= Seq::<
        Seq<char>,
    >::empty());
    let tested = with_is_null(fresh, column);
    assert(tested.conditions.len() == 1);
    assert(tested.conditions[0] == is_null_condition(table, column));
    assert(projection_text(tested) == parts[0]);
    assert(joins_text(tested) =~= Seq::<char>::empty());
    assert(select_text(tested) =~= "SELECT "@ + table + ".*"@ + " FROM "@ + table + " WHERE "@
        + table + "."@ + column + " IS NULL"@);
    let bound = with_equals(fresh, column, v);
    assert(bound.conditions.len() == 1);
    assert(bound.conditions[0] == equals_condition(table, column, 1));
    assert(projection_text(bound) == parts[0]);
    assert(joins_text(bound) =~= Seq::<char>::empty());
    assert(select_text(bound) =~= "SELECT "@ + table + ".*"@ + " FROM "@ + table + " WHERE "@
        + table + "."@ + column + " = "@ + "$"@ + decimal(1));
    assert(bound.params =~= seq![v]);
}

/// A builder that was just made, given no filter, compiles to
/// `SELECT <table>.* FROM <table>` followed by the limit and the offset.
pub proof fn lemma_fresh_select(table: Seq<char>, limit: Option<i64>, offset: Option<i64>)
    ensures
        select_text(QueryModel { limit, offset, ..fresh_query(table) }) == "SELECT "@ + table
            + ".*"@ + " FROM "@ + table + limit_text(limit) + offset_text(offset),
{
    let q = QueryModel { limit, offset, ..fresh_query(table) };
    lemma_plain_select(q);
    let parts = seq![q.table + ".*"@] + Seq::new(
        q.joins.len(),
        |i: int| join_target(q.joins[i]) + ".*"@,
    );
    assert(parts.len() == 1);
    assert(projection_text(q) == parts[0]);
    assert(select_text(q) =~= "SELECT "@ + table + ".*"@ + " FROM "@ + table + limit_text(limit)
        + offset_text(offset));
}

impl<'a> QueryBuilder<'a> {
    /// Compiles the insert of one row into `table_name` from the object
    /// `value`. Only columns of the table whose name is a key of the object
    /// with a string, a number or a boolean under it take part, in catalog
    /// order; a key that is missing, or holds null, an array or an object,
    /// is left to the database's defaults.
    pub fn build_insert(value: &JsonValue, schema: &DatabaseSchema, table_name: &str) -> (out:
        Option<(String, Vec<BindValue>)>)
        ensures
            out is Some <==> table_index(schema@.tables, table_name@) >= 0 && value is Object,
            match out {
                Some(compiled) => {
                    let t = schema.tables@[table_index(schema@.tables, table_name@)];
                    let members = value->Object_0@;
                    &&& compiled.0@ == insert_text(
                        t.schema@,
                        t.name@,
                        insert_names(t.columns@, members),
                    )
                    &&& compiled.1@ == insert_values(t.columns@, members)
                },
                None => true,
            },
    {
        let table = match schema.table(table_name) {
            Some(t) => t,
            None => { return None; },
        };
        let members = match value {
            JsonValue::Object(m) => m,
            _ => { return None; },
        };
        let mut names: Vec<String> = Vec::new();
        let mut params: Vec<BindValue> = Vec::new();
        let mut i: usize = 0;
        assert(table.columns@.take(0) =~= Seq::<ColumnInfo>::empty());
        assert(texts(names@) =~= Seq::<Seq<char>>::empty());
        while i < table.columns.len()
            invariant
                i <= table.columns.len(),
                names.len() == params.len(),
                texts(names@) == insert_names(table.columns@.take(i as int), members@),
                params@ == insert_values(table.columns@.take(i as int), members@),
            decreases table.columns.len() - i,
        {
            let column = &table.columns[i];
            let ghost upto = table.columns@.take(i + 1);
            assert(upto.drop_last() =~= table.columns@.take(i as int));
            assert(upto.last() == *column);
            match find_member(members, column.name.as_str()) {
                Some(m) => {
                    match to_bind_value(&members[m].value) {
                        Some(bound) => {
                            let ghost before = texts(names@);
                            names.push(column.name.clone());
                            params.push(bound);
                            assert(texts(names@) =~= before.push(column.name@));
                        },
                        None => {},
                    }
                },
                None => {},
            }
            i += 1;
        }
        assert(table.columns@.take(table.columns.len() as int) =~= table.columns@);
        let marks = placeholder_list(0, names.len());
        let mut query = "INSERT INTO ".to_owned();
        query.append(table.schema.as_str());
        query.append(".");
        query.append(table.name.as_str());
        query.append(" (");
        let listed = join_strings(&names, ", ");
        query.append(listed.as_str());
        query.append(") VALUES (");
        let marked = join_strings(&marks, ", ");
        query.append(marked.as_str());
        query.append(")");
        Some((query, params))
    }
}

} // verus!


