//! Saving a model: an `INSERT` for a model without id, an `UPDATE` of its
//! row for a model with one, after checking that the table exists and that
//! the save data covers every column.

use vstd::prelude::*;
use vstd::string::StringExecFns;
use crate::database::{DatabaseErrorView, DatabaseStrategyError};
use crate::models::column::{ColumnValue, ColumnValueView, values_view};
use crate::models::migration::columns_spec;
use crate::models::model::{Model, SaveData, SaveModel, SaveModelView, ValidateSaveData, save_view};
use crate::sqlite::query::{SqlStatement, StatementView, placeholder};
use crate::text::{append_decimal_i64, append_decimal_u64, int_decimal, join, join_strings, nat_decimal, strings_view};

verus! {

/// The save entries whose value is not null, in order.
pub open spec fn stored_entries(s: Seq<SaveModelView>) -> Seq<SaveModelView>
    decreases s.len(),
{
    if s.len() == 0 {
        Seq::empty()
    } else {
        let r = stored_entries(s.drop_last());
        if s.last().value is Null {
            r
        } else {
            r.push(s.last())
        }
    }
}

/// The save entries for any column but `key`, in order.
pub open spec fn entries_except(s: Seq<SaveModelView>, key: Seq<char>) -> Seq<SaveModelView>
    decreases s.len(),
{
    if s.len() == 0 {
        Seq::empty()
    } else {
        let r = entries_except(s.drop_last(), key);
        if s.last().key == key {
            r
        } else {
            r.push(s.last())
        }
    }
}

/// The values of save entries, in order.
pub open spec fn entry_values(s: Seq<SaveModelView>) -> Seq<ColumnValueView> {
    s.map_values(|e: SaveModelView| e.value)
}

/// `UPDATE table SET c1 = ?1, c2 = ?2 WHERE id = <id>` for the entries.
pub open spec fn update_sql(table: Seq<char>, entries: Seq<SaveModelView>, id_column: Seq<char>, id: i64) -> Seq<char> {
    "UPDATE "@ + table + " SET "@ + join(
        Seq::new(entries.len(), |i: int| entries[i].key + " = "@ + placeholder(i)),
        ", "@,
    ) + " WHERE "@ + id_column + " = "@ + int_decimal(id as int)
}

/// `INSERT INTO table (c1, c2) VALUES (?1, ?2) RETURNING id` for the entries.
pub open spec fn insert_sql(table: Seq<char>, entries: Seq<SaveModelView>, id_column: Seq<char>) -> Seq<char> {
    "INSERT INTO "@ + table + " ("@ + join(entries.map_values(|e: SaveModelView| e.key), ", "@)
        + ") VALUES ("@ + join(Seq::new(entries.len(), |i: int| placeholder(i)), ", "@) + ")"@
        + " RETURNING "@ + id_column
}

/// How a model is saved.
#[derive(Debug)]
pub enum SaveStatement {
    /// Insert a new row; the statement returns the new id from `id_column`.
    Insert { statement: SqlStatement, id_column: String },
    /// Update the model's row.
    Update(SqlStatement),
}

/// The model of a [`SaveStatement`].
pub enum SaveStatementView {
    Insert { statement: StatementView, id_column: Seq<char> },
    Update(StatementView),
}

impl View for SaveStatement {
    type V = SaveStatementView;

    open spec fn view(&self) -> SaveStatementView {
        match self {
            SaveStatement::Insert { statement, id_column } => SaveStatementView::Insert {
                statement: statement@,
                id_column: id_column@,
            },
            SaveStatement::Update(statement) => SaveStatementView::Update(statement@),
        }
    }
}

/// How the save data `data` of a model with id `id` is saved into `table`:
/// null values are left out; with an id, every other column is updated in
/// the row of that id; without one, a row is inserted and its id returned.
pub open spec fn save_plan(table: Seq<char>, data: Seq<SaveModelView>, id: Option<i64>) -> SaveStatementView {
    let stored = stored_entries(data);
    match id {
        Some(mid) => {
            let e = entries_except(stored, "id"@);
            SaveStatementView::Update(
                StatementView { sql: update_sql(table, e, "id"@, mid), params: entry_values(e) },
            )
        },
        None => SaveStatementView::Insert {
            statement: StatementView {
                sql: insert_sql(table, stored, "id"@),
                params: entry_values(stored),
            },
            id_column: "id"@,
        },
    }
}

/// The message when the model's table does not exist.
pub open spec fn missing_table_message(table: Seq<char>) -> Seq<char> {
    "Table '"@ + table + "' does not exist. Did you forget to call 'migrate_model'?"@
}

/// The message when the save data leaves out columns.
pub open spec fn missing_columns_message(missing: Seq<Seq<char>>) -> Seq<char> {
    "Missing the following columns in the save_data: "@ + join(missing, ","@)
}

fn select_entries(data: &Vec<SaveModel>, drop_nulls: bool, except: &String) -> (r: Vec<SaveModel>)
    ensures
        drop_nulls ==> save_view(r@) == stored_entries(save_view(data@)),
        !drop_nulls ==> save_view(r@) == entries_except(save_view(data@), except@),
{
    let ghost dv = save_view(data@);
    let mut out: Vec<SaveModel> = Vec::new();
    let mut i: usize = 0;
    while i < data.len()
        invariant
            i <= data.len(),
            dv == save_view(data@),
            drop_nulls ==> save_view(out@) == stored_entries(dv.take(i as int)),
            !drop_nulls ==> save_view(out@) == entries_except(dv.take(i as int), except@),
        decreases data.len() - i,
    {
        let e = &data[i];
        assert(dv.take(i as int + 1).drop_last() =~= dv.take(i as int));
        assert(dv.take(i as int + 1).last() == e@);
        let keep = if drop_nulls {
            !e.value.is_null()
        } else {
            !(e.key == *except)
        };
        if keep {
            let ghost before = out@;
            out.push(SaveModel { key: e.key.clone(), value: e.value.clone() });
            assert(save_view(out@) =~= save_view(before).push(e@));
        }
        i = i + 1;
    }
    assert(dv.take(data.len() as int) =~= dv);
    out
}

fn entries_params(entries: &Vec<SaveModel>) -> (r: Vec<ColumnValue>)
    ensures
        values_view(r@) == entry_values(save_view(entries@)),
{
    let ghost target = entry_values(save_view(entries@));
    let mut out: Vec<ColumnValue> = Vec::new();
    let mut i: usize = 0;
    while i < entries.len()
        invariant
            i <= entries.len(),
            target == entry_values(save_view(entries@)),
            values_view(out@) == target.take(i as int),
        decreases entries.len() - i,
    {
        let ghost before = out@;
        out.push(entries[i].value.clone());
        assert(values_view(out@) =~= values_view(before).push(target[i as int]));
        assert(target.take(i as int + 1) =~= target.take(i as int).push(target[i as int]));
        i = i + 1;
    }
    assert(target.take(entries.len() as int) =~= target);
    out
}

fn placeholder_text(i: usize) -> (r: String)
    requires
        i < usize::MAX,
    ensures
        r@ == placeholder(i as int),
{
    let mut s = "?".to_string();
    append_decimal_u64(&mut s, (i as u64) + 1);
    assert(s@ =~= placeholder(i as int));
    s
}

fn update_statement(table: &str, entries: &Vec<SaveModel>, id_column: &String, id: i64) -> (r:
    String)
    ensures
        r@ == update_sql(table@, save_view(entries@), id_column@, id),
{
    let ghost ev = save_view(entries@);
    let ghost target = Seq::new(ev.len(), |i: int| ev[i].key + " = "@ + placeholder(i));
    let mut parts: Vec<String> = Vec::new();
    let mut i: usize = 0;
    while i < entries.len()
        invariant
            i <= entries.len(),
            ev == save_view(entries@),
            target == Seq::new(ev.len(), |i: int| ev[i].key + " = "@ + placeholder(i)),
            strings_view(parts@) == target.take(i as int),
        decreases entries.len() - i,
    {
        let mut part = entries[i].key.clone();
        part.append(" = ");
        let p = placeholder_text(i);
        part.append(p.as_str());
        assert(part@ =~= target[i as int]);
        let ghost before = parts@;
        parts.push(part);
        assert(strings_view(parts@) =~= strings_view(before).push(target[i as int]));
        assert(target.take(i as int + 1) =~= target.take(i as int).push(target[i as int]));
        i = i + 1;
    }
    assert(target.take(entries.len() as int) =~= target);
    let mut sql = "UPDATE ".to_string();
    sql.append(table);
    sql.append(" SET ");
    let j = join_strings(&parts, ", ");
    sql.append(j.as_str());
    sql.append(" WHERE ");
    sql.append(id_column.as_str());
    sql.append(" = ");
    append_decimal_i64(&mut sql, id);
    assert(sql@ =~= update_sql(table@, ev, id_column@, id));
    sql
}

fn insert_statement(table: &str, entries: &Vec<SaveModel>, id_column: &String) -> (r: String)
    ensures
        r@ == insert_sql(table@, save_view(entries@), id_column@),
{
    let ghost ev = save_view(entries@);
    let ghost keys = ev.map_values(|e: SaveModelView| e.key);
    let ghost holes = Seq::new(ev.len(), |i: int| placeholder(i));
    let mut names: Vec<String> = Vec::new();
    let mut marks: Vec<String> = Vec::new();
    let mut i: usize = 0;
    while i < entries.len()
        invariant
            i <= entries.len(),
            ev == save_view(entries@),
            keys == ev.map_values(|e: SaveModelView| e.key),
            holes == Seq::new(ev.len(), |i: int| placeholder(i)),
            strings_view(names@) == keys.take(i as int),
            strings_view(marks@) == holes.take(i as int),
        decreases entries.len() - i,
    {
        let ghost before_n = names@;
        let ghost before_m = marks@;
        names.push(entries[i].key.clone());
        marks.push(placeholder_text(i));
        assert(strings_view(names@) =~= strings_view(before_n).push(keys[i as int]));
        assert(strings_view(marks@) =~= strings_view(before_m).push(holes[i as int]));
        assert(keys.take(i as int + 1) =~= keys.take(i as int).push(keys[i as int]));
        assert(holes.take(i as int + 1) =~= holes.take(i as int).push(holes[i as int]));
        i = i + 1;
    }
    assert(keys.take(entries.len() as int) =~= keys);
    assert(holes.take(entries.len() as int) =~= holes);
    let mut sql = "INSERT INTO ".to_string();
    sql.append(table);
    sql.append(" (");
    let n = join_strings(&names, ", ");
    sql.append(n.as_str());
    sql.append(") VALUES (");
    let m = join_strings(&marks, ", ");
    sql.append(m.as_str());
    sql.append(")");
    sql.append(" RETURNING ");
    sql.append(id_column.as_str());
    assert(sql@ =~= insert_sql(table@, ev, id_column@));
    sql
}

/// Decides how `model` is saved (see [`save_plan`]): refused when its
/// table does not exist or its save data leaves out columns.
/// `model_name` names the model's type in the error. Only when the table
/// exists are the save data checked against the model's columns, which must
/// then be defined.
pub fn save_statement<T: Model + SaveData>(model: &T, table_exists: bool, model_name: &'static str) -> (r: Result<
    SaveStatement,
    DatabaseStrategyError,
>)
    requires
        table_exists ==> columns_spec(T::migration_spec()) is Some,
    ensures
        !table_exists ==> (r matches Err(e) && e@ == (DatabaseErrorView::SaveModel {
            err: missing_table_message(T::TABLE_NAME@),
            model: model_name@,
        })),
        table_exists && model.validation_spec() is Some ==> (r matches Err(e) && e@ == (
        DatabaseErrorView::SaveModel {
            err: missing_columns_message(model.validation_spec().unwrap()),
            model: model_name@,
        })),
        table_exists && model.validation_spec() is None ==> (r matches Ok(p) && p@ == save_plan(
            T::TABLE_NAME@,
            model.save_data_spec(),
            model.id_spec(),
        )),
{
    let table_name = model.self_get_table_name();
    if !table_exists {
        let mut err = "Table '".to_string();
        err.append(table_name);
        err.append("' does not exist. Did you forget to call 'migrate_model'?");
        assert(err@ =~= missing_table_message(T::TABLE_NAME@));
        return Err(DatabaseStrategyError::SaveModel { err, model: model_name });
    }
    match model.validate_save_data() {
        Some(missing) => {
            let mut err = "Missing the following columns in the save_data: ".to_string();
            let j = join_strings(&missing, ",");
            err.append(j.as_str());
            assert(err@ =~= missing_columns_message(model.validation_spec().unwrap()));
            return Err(DatabaseStrategyError::SaveModel { err, model: model_name });
        },
        None => {},
    }
    let data = model.get_save_data();
    let id_column = model.get_id_column_name();
    let stored = select_entries(&data, true, &id_column);
    match model.get_id() {
        Some(model_id) => {
            let entries = select_entries(&stored, false, &id_column);
            let sql = update_statement(table_name, &entries, &id_column, model_id);
            let params = entries_params(&entries);
            Ok(SaveStatement::Update(SqlStatement { sql, params }))
        },
        None => {
            let sql = insert_statement(table_name, &stored, &id_column);
            let params = entries_params(&stored);
            Ok(SaveStatement::Insert { statement: SqlStatement { sql, params }, id_column })
        },
    }
}

} // verus!
