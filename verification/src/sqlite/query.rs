//! The statements that search, delete and save the rows of a model: their
//! SQL text with numbered placeholders, and the values bound to them.

use vstd::prelude::*;
use vstd::string::{StrSliceExecFns, StringExecFns};
use crate::database::{DatabaseErrorView, DatabaseStrategyError};
use crate::models::column::{ColumnValue, ColumnValueView, values_view};
use crate::models::migration::{latest_column_name, MigrationView};
use crate::models::model::{Model, SaveData, SaveModel, SaveModelView, ValidateSaveData, save_view};
use crate::models::search::{
    ConstraintView, PostOptionView, QueryView, SearchConstraint, SearchOptions,
    SearchOrderByOptions, SearchQuery, SearchSelectOptions, SelectOptionView, op_text, order_view,
};
use crate::sqlite::order::{key_order, key_order_of, keys_of, sorted_by_key};
use crate::text::{append_decimal_i64, append_decimal_u64, int_decimal, join, join_strings, nat_decimal, strings_view};

verus! {

/// An SQL statement and the values bound to its placeholders `?1`, `?2`, ...
#[derive(Debug)]
pub struct SqlStatement {
    pub sql: String,
    pub params: Vec<ColumnValue>,
}

/// The model of an [`SqlStatement`].
pub struct StatementView {
    pub sql: Seq<char>,
    pub params: Seq<ColumnValueView>,
}

impl View for SqlStatement {
    type V = StatementView;

    open spec fn view(&self) -> StatementView {
        StatementView { sql: self.sql@, params: values_view(self.params@) }
    }
}

/// The current name of a column that was not dropped.
pub open spec fn resolved(ms: Seq<MigrationView>, column: Seq<char>) -> Seq<char> {
    latest_column_name(ms, column).unwrap()
}

/// The placeholder of the value at position `i` (counting from 0).
pub open spec fn placeholder(i: int) -> Seq<char> {
    "?"@ + nat_decimal((i + 1) as nat)
}

// ---------------------------------------------------------------------------
// SELECT
// ---------------------------------------------------------------------------

/// What is selected, built from the select options in order: columns are
/// appended, `MIN`/`MAX` wrap what is there so far.
pub open spec fn select_fold(opts: Seq<SelectOptionView>) -> Seq<char>
    decreases opts.len(),
{
    if opts.len() == 0 {
        Seq::empty()
    } else {
        let r = select_fold(opts.drop_last());
        match opts.last() {
            SelectOptionView::Min => "MIN("@ + r + ")"@,
            SelectOptionView::Max => "MAX("@ + r + ")"@,
            SelectOptionView::Columns(items) => r + join(items, ", "@),
        }
    }
}

/// What a search selects: the select options sorted by key, or `*`.
pub open spec fn select_text(q: QueryView) -> Seq<char> {
    let s = select_fold(sorted_by_key(q.select_options));
    if s.len() == 0 {
        "*"@
    } else {
        s
    }
}

/// The condition of the constraint at position `i`.
pub open spec fn constraint_clause(ms: Seq<MigrationView>, c: ConstraintView, i: int) -> Seq<char> {
    resolved(ms, c.column) + " "@ + op_text(c.operator) + " ("@ + placeholder(i) + ")"@
}

/// The conditions of the constraints, in order.
pub open spec fn constraint_clauses(ms: Seq<MigrationView>, cs: Seq<ConstraintView>) -> Seq<
    Seq<char>,
> {
    Seq::new(cs.len(), |i: int| constraint_clause(ms, cs[i], i))
}

/// The `WHERE` part for the given conditions (all must hold); nothing when
/// there are none.
pub open spec fn where_sql(clauses: Seq<Seq<char>>) -> Seq<char> {
    let j = join(clauses, " AND "@);
    if j.len() == 0 {
        Seq::empty()
    } else {
        " WHERE "@ + j
    }
}

/// One column of an ordering, with its direction.
pub open spec fn order_term(
    ms: Seq<MigrationView>,
    o: (Seq<char>, Option<SearchOrderByOptions>),
) -> Seq<char> {
    resolved(ms, o.0) + match o.1 {
        Some(SearchOrderByOptions::Asc) => " ASC"@,
        Some(SearchOrderByOptions::Desc) => " DESC"@,
        None => Seq::empty(),
    }
}

/// The SQL of one option applied after the constraints.
pub open spec fn post_sql(ms: Seq<MigrationView>, o: PostOptionView) -> Seq<char> {
    match o {
        PostOptionView::Limit(l) => " LIMIT "@ + int_decimal(l as int),
        PostOptionView::OrderBy(v) => " Order by "@ + join(
            v.map_values(|t: (Seq<char>, Option<SearchOrderByOptions>)| order_term(ms, t)),
            ","@,
        ),
    }
}

/// The SQL of the options applied after the constraints, in order.
pub open spec fn post_options_sql(ms: Seq<MigrationView>, opts: Seq<PostOptionView>) -> Seq<char>
    decreases opts.len(),
{
    if opts.len() == 0 {
        Seq::empty()
    } else {
        post_options_sql(ms, opts.drop_last()) + post_sql(ms, opts.last())
    }
}

/// Whether every column that an option names still exists along the
/// migration path.
pub open spec fn post_option_resolves(ms: Seq<MigrationView>, o: PostOptionView) -> bool {
    match o {
        PostOptionView::Limit(_) => true,
        PostOptionView::OrderBy(v) => forall|j: int|
            0 <= j < v.len() ==> #[trigger] latest_column_name(ms, v[j].0) is Some,
    }
}

/// Whether every column that a query names (in its constraints and
/// orderings) still exists along the migration path.
pub open spec fn query_resolves(ms: Seq<MigrationView>, q: QueryView) -> bool {
    &&& forall|i: int|
        0 <= i < q.constraints.len() ==> #[trigger] latest_column_name(ms, q.constraints[i].column) is Some
    &&& forall|i: int|
        0 <= i < q.post_options.len() ==> #[trigger] post_option_resolves(ms, q.post_options[i].1)
}

/// The `SELECT` statement of a search on `table`.
pub open spec fn select_sql(table: Seq<char>, ms: Seq<MigrationView>, q: QueryView) -> Seq<char> {
    "SELECT "@ + select_text(q) + " FROM "@ + table + where_sql(constraint_clauses(ms, q.constraints))
        + post_options_sql(ms, sorted_by_key(q.post_options))
}

/// The values of the constraints, bound to their placeholders in order.
pub open spec fn constraint_values(cs: Seq<ConstraintView>) -> Seq<ColumnValueView> {
    cs.map_values(|c: ConstraintView| c.value)
}

fn select_string(query: &SearchQuery) -> (r: String)
    ensures
        r@ == select_text(query@),
{
    let order = key_order_of(&query.select_options);
    let ghost sv = query@.select_options;
    let ghost sorted = sorted_by_key(sv);
    assert(keys_of(sv) =~= keys_of(query.select_options@));
    let mut sql = String::new();
    let mut k: usize = 0;
    while k < order.len()
        invariant
            k <= order.len(),
            sv == query@.select_options,
            sorted == sorted_by_key(sv),
            order@.map_values(|i: usize| i as int) == key_order(keys_of(sv)),
            forall|j: int| 0 <= j < order@.len() ==> #[trigger] order@[j] < query.select_options@.len(),
            sql@ == select_fold(sorted.take(k as int)),
        decreases order.len() - k,
    {
        let idx = order[k];
        assert(order@.map_values(|i: usize| i as int)[k as int] == idx as int);
        assert(sorted[k as int] == sv[idx as int].1);
        assert(sorted.take(k as int + 1).drop_last() =~= sorted.take(k as int));
        assert(sorted.take(k as int + 1).last() == query.select_options@[idx as int].1@);
        match &query.select_options[idx].1 {
            SearchSelectOptions::Min => {
                let mut s = "MIN(".to_string();
                s.append(sql.as_str());
                s.append(")");
                sql = s;
            },
            SearchSelectOptions::Max => {
                let mut s = "MAX(".to_string();
                s.append(sql.as_str());
                s.append(")");
                sql = s;
            },
            SearchSelectOptions::Columns(items) => {
                let j = join_strings(items, ", ");
                sql.append(j.as_str());
            },
        }
        k = k + 1;
    }
    assert(sorted.len() == order@.len());
    assert(sorted.take(order.len() as int) =~= sorted);
    if sql.as_str().unicode_len() == 0 {
        "*".to_string()
    } else {
        sql
    }
}

fn append_placeholder(s: &mut String, i: usize)
    requires
        i < usize::MAX,
    ensures
        final(s)@ == old(s)@ + placeholder(i as int),
{
    s.append("?");
    append_decimal_u64(s, (i as u64) + 1);
    assert(final(s)@ =~= old(s)@ + placeholder(i as int));
}

fn latest_name_of<T: Model>(column: &String) -> (r: String)
    requires
        latest_column_name(T::migration_spec(), column@) is Some,
    ensures
        r@ == resolved(T::migration_spec(), column@),
{
    match T::get_latest_column_name(column.as_str()) {
        Some(n) => n,
        None => {
            assert(false);
            String::new()
        },
    }
}

fn constraints_where<T: Model>(constraints: &Vec<SearchConstraint>, with_operator: bool) -> (r:
    String)
    requires
        forall|i: int|
            0 <= i < constraints@.len() ==> #[trigger] latest_column_name(
                T::migration_spec(),
                constraints@[i].column@,
            ) is Some,
    ensures
        with_operator ==> r@ == where_sql(
            constraint_clauses(
                T::migration_spec(),
                constraints@.map_values(|c: SearchConstraint| c@),
            ),
        ),
        !with_operator ==> r@ == where_sql(
            equality_clauses(
                T::migration_spec(),
                constraints@.map_values(|c: SearchConstraint| c@),
            ),
        ),
{
    let ghost ms = T::migration_spec();
    let ghost cs = constraints@.map_values(|c: SearchConstraint| c@);
    let ghost target = if with_operator {
        constraint_clauses(ms, cs)
    } else {
        equality_clauses(ms, cs)
    };
    let mut parts: Vec<String> = Vec::new();
    let mut i: usize = 0;
    while i < constraints.len()
        invariant
            i <= constraints.len(),
            ms == T::migration_spec(),
            cs == constraints@.map_values(|c: SearchConstraint| c@),
            target == if with_operator {
                constraint_clauses(ms, cs)
            } else {
                equality_clauses(ms, cs)
            },
            forall|j: int|
                0 <= j < constraints@.len() ==> #[trigger] latest_column_name(
                    ms,
                    constraints@[j].column@,
                ) is Some,
            strings_view(parts@) == target.take(i as int),
        decreases constraints.len() - i,
    {
        let c = &constraints[i];
        assert(cs[i as int] == c@);
        assert(latest_column_name(ms, constraints@[i as int].column@) is Some);
        let mut part = latest_name_of::<T>(&c.column);
        if with_operator {
            part.append(" ");
            let op = c.operator.to_string();
            part.append(op.as_str());
            part.append(" (");
        } else {
            part.append(" = (");
        }
        append_placeholder(&mut part, i);
        part.append(")");
        assert(part@ =~= target[i as int]);
        let ghost before = parts@;
        parts.push(part);
        assert(strings_view(parts@) =~= strings_view(before).push(target[i as int]));
        assert(target.take(i as int + 1) =~= target.take(i as int).push(target[i as int]));
        i = i + 1;
    }
    assert(target.take(constraints.len() as int) =~= target);
    let joined = join_strings(&parts, " AND ");
    if joined.as_str().unicode_len() == 0 {
        String::new()
    } else {
        let mut w = " WHERE ".to_string();
        w.append(joined.as_str());
        w
    }
}

fn order_by_text<T: Model>(items: &Vec<(String, Option<SearchOrderByOptions>)>) -> (r: String)
    requires
        forall|j: int|
            0 <= j < items@.len() ==> latest_column_name(
                T::migration_spec(),
                #[trigger] order_view(items@)[j].0,
            ) is Some,
    ensures
        r@ == post_sql(T::migration_spec(), PostOptionView::OrderBy(order_view(items@))),
{
    let ghost ms = T::migration_spec();
    let ghost ov = order_view(items@);
    let ghost target = ov.map_values(
        |t: (Seq<char>, Option<SearchOrderByOptions>)| order_term(ms, t),
    );
    let mut parts: Vec<String> = Vec::new();
    let mut i: usize = 0;
    while i < items.len()
        invariant
            i <= items.len(),
            ms == T::migration_spec(),
            ov == order_view(items@),
            target == ov.map_values(|t: (Seq<char>, Option<SearchOrderByOptions>)| order_term(ms, t)),
            forall|j: int| 0 <= j < items@.len() ==> latest_column_name(ms, #[trigger] ov[j].0) is Some,
            strings_view(parts@) == target.take(i as int),
        decreases items.len() - i,
    {
        assert(ov[i as int].0 == items@[i as int].0@);
        assert(latest_column_name(ms, ov[i as int].0) is Some);
        let mut part = latest_name_of::<T>(&items[i].0);
        match items[i].1 {
            Some(SearchOrderByOptions::Asc) => part.append(" ASC"),
            Some(SearchOrderByOptions::Desc) => part.append(" DESC"),
            None => {},
        }
        assert(part@ =~= target[i as int]);
        let ghost before = parts@;
        parts.push(part);
        assert(strings_view(parts@) =~= strings_view(before).push(target[i as int]));
        assert(target.take(i as int + 1) =~= target.take(i as int).push(target[i as int]));
        i = i + 1;
    }
    assert(target.take(items.len() as int) =~= target);
    let mut r = " Order by ".to_string();
    let joined = join_strings(&parts, ",");
    r.append(joined.as_str());
    r
}

fn post_option_text<T: Model>(option: &SearchOptions) -> (r: String)
    requires
        post_option_resolves(T::migration_spec(), option@),
    ensures
        r@ == post_sql(T::migration_spec(), option@),
{
    match option {
        SearchOptions::Limit(limit) => {
            let mut sql = " LIMIT ".to_string();
            append_decimal_i64(&mut sql, *limit);
            sql
        },
        SearchOptions::OrderBy(items) => order_by_text::<T>(items),
    }
}

fn post_options_text<T: Model>(query: &SearchQuery) -> (r: String)
    requires
        query_resolves(T::migration_spec(), query@),
    ensures
        r@ == post_options_sql(T::migration_spec(), sorted_by_key(query@.post_options)),
{
    let ghost ms = T::migration_spec();
    let order = key_order_of(&query.post_options);
    let ghost pv = query@.post_options;
    let ghost sorted = sorted_by_key(pv);
    assert(keys_of(pv) =~= keys_of(query.post_options@));
    let mut sql = String::new();
    let mut k: usize = 0;
    while k < order.len()
        invariant
            k <= order.len(),
            ms == T::migration_spec(),
            forall|i: int| 0 <= i < pv.len() ==> #[trigger] post_option_resolves(ms, pv[i].1),
            pv == query@.post_options,
            sorted == sorted_by_key(pv),
            order@.map_values(|i: usize| i as int) == key_order(keys_of(pv)),
            forall|j: int| 0 <= j < order@.len() ==> #[trigger] order@[j] < query.post_options@.len(),
            sql@ == post_options_sql(ms, sorted.take(k as int)),
        decreases order.len() - k,
    {
        let idx = order[k];
        assert(order@.map_values(|i: usize| i as int)[k as int] == idx as int);
        assert(sorted[k as int] == pv[idx as int].1);
        assert(sorted.take(k as int + 1).drop_last() =~= sorted.take(k as int));
        assert(sorted.take(k as int + 1).last() == query.post_options@[idx as int].1@);
        assert(post_option_resolves(ms, pv[idx as int].1));
        let t = post_option_text::<T>(&query.post_options[idx].1);
        sql.append(t.as_str());
        k = k + 1;
    }
    assert(sorted.len() == order@.len());
    assert(sorted.take(order.len() as int) =~= sorted);
    sql
}

fn constraint_params(constraints: &Vec<SearchConstraint>) -> (r: Vec<ColumnValue>)
    ensures
        values_view(r@) == constraint_values(constraints@.map_values(|c: SearchConstraint| c@)),
{
    let ghost target = constraint_values(constraints@.map_values(|c: SearchConstraint| c@));
    let mut params: Vec<ColumnValue> = Vec::new();
    let mut i: usize = 0;
    while i < constraints.len()
        invariant
            i <= constraints.len(),
            target == constraint_values(constraints@.map_values(|c: SearchConstraint| c@)),
            values_view(params@) == target.take(i as int),
        decreases constraints.len() - i,
    {
        let v = constraints[i].value.clone();
        let ghost before = params@;
        params.push(v);
        assert(values_view(params@) =~= values_view(before).push(target[i as int]));
        assert(target.take(i as int + 1) =~= target.take(i as int).push(target[i as int]));
        i = i + 1;
    }
    assert(target.take(constraints.len() as int) =~= target);
    params
}

/// The `SELECT` statement that searches the table of `T` (see
/// [`select_sql`]); the constraint values are bound in order.
pub fn search_statement<T: Model>(query: &SearchQuery) -> (r: SqlStatement)
    requires
        query_resolves(T::migration_spec(), query@),
    ensures
        r@.sql == select_sql(T::TABLE_NAME@, T::migration_spec(), query@),
        r@.params == constraint_values(query@.constraints),
{
    let ghost ms = T::migration_spec();
    let mut sql = "SELECT ".to_string();
    let s = select_string(query);
    sql.append(s.as_str());
    sql.append(" FROM ");
    sql.append(T::TABLE_NAME);
    proof {
        assert forall|i: int| 0 <= i < query.constraints@.len() implies #[trigger] latest_column_name(
            ms,
            query.constraints@[i].column@,
        ) is Some by {
            assert(query@.constraints[i].column == query.constraints@[i].column@);
        }
    }
    let w = constraints_where::<T>(&query.constraints, true);
    sql.append(w.as_str());
    let p = post_options_text::<T>(query);
    sql.append(p.as_str());
    assert(sql@ =~= select_sql(T::TABLE_NAME@, ms, query@));
    SqlStatement { sql, params: constraint_params(&query.constraints) }
}

// ---------------------------------------------------------------------------
// DELETE
// ---------------------------------------------------------------------------

/// The condition of a deletion at position `i`: the column equals the value
/// (the constraint's operator is not used).
pub open spec fn equality_clause(ms: Seq<MigrationView>, c: ConstraintView, i: int) -> Seq<char> {
    resolved(ms, c.column) + " = ("@ + placeholder(i) + ")"@
}

/// The conditions of a deletion, in order.
pub open spec fn equality_clauses(ms: Seq<MigrationView>, cs: Seq<ConstraintView>) -> Seq<
    Seq<char>,
> {
    Seq::new(cs.len(), |i: int| equality_clause(ms, cs[i], i))
}

/// The `DELETE` statement that removes the rows of `table` matching the
/// query's constraints.
pub open spec fn delete_sql(table: Seq<char>, ms: Seq<MigrationView>, q: QueryView) -> Seq<char> {
    "DELETE FROM "@ + table + where_sql(equality_clauses(ms, q.constraints))
}

/// The `DELETE` statement for the rows of `T` matching the query (see
/// [`delete_sql`]); the constraint values are bound in order.
pub fn remove_statement<T: Model>(query: &SearchQuery) -> (r: SqlStatement)
    requires
        query_resolves(T::migration_spec(), query@),
    ensures
        r@.sql == delete_sql(T::TABLE_NAME@, T::migration_spec(), query@),
        r@.params == constraint_values(query@.constraints),
{
    let ghost ms = T::migration_spec();
    let mut sql = "DELETE FROM ".to_string();
    sql.append(T::TABLE_NAME);
    proof {
        assert forall|i: int| 0 <= i < query.constraints@.len() implies #[trigger] latest_column_name(
            ms,
            query.constraints@[i].column@,
        ) is Some by {
            assert(query@.constraints[i].column == query.constraints@[i].column@);
        }
    }
    let w = constraints_where::<T>(&query.constraints, false);
    sql.append(w.as_str());
    assert(sql@ =~= delete_sql(T::TABLE_NAME@, ms, query@));
    SqlStatement { sql, params: constraint_params(&query.constraints) }
}

} // verus!
