//! What a database strategy reports, and the decisions it takes while it
//! migrates a model: which migrations still have to run, and what each one
//! runs.

use vstd::prelude::*;
use vstd::string::StringExecFns;
use crate::models::migration::{MigrationKind, MigrationKindView, MigrationView, ModelMigration};
use crate::models::column::{CreateColumnView, ModifyColumnView};
use crate::sqlite::ddl::{
    alter_table_sql, alter_table_statement, create_table_sql, create_table_statement,
};
use crate::text::{nat_decimal, strings_view, u64_to_decimal};

verus! {

/// What to do with an open transaction.
#[derive(Debug, Clone, Copy, PartialEq, Eq, Structural)]
pub enum TransactionOptions {
    Commit,
    Rollback,
}

/// The errors of a database strategy.
#[derive(Debug)]
pub enum DatabaseStrategyError {
    MigrateModel(String),
    MigrationTable(String),
    Transaction(String),
    Error(String),
    SaveModel { err: String, model: &'static str },
    SearchModel(String),
    DeleteModel(String),
}

/// The model of a [`DatabaseStrategyError`].
pub enum DatabaseErrorView {
    MigrateModel(Seq<char>),
    MigrationTable(Seq<char>),
    Transaction(Seq<char>),
    Error(Seq<char>),
    SaveModel { err: Seq<char>, model: Seq<char> },
    SearchModel(Seq<char>),
    DeleteModel(Seq<char>),
}

impl View for DatabaseStrategyError {
    type V = DatabaseErrorView;

    open spec fn view(&self) -> DatabaseErrorView {
        match self {
            DatabaseStrategyError::MigrateModel(s) => DatabaseErrorView::MigrateModel(s@),
            DatabaseStrategyError::MigrationTable(s) => DatabaseErrorView::MigrationTable(s@),
            DatabaseStrategyError::Transaction(s) => DatabaseErrorView::Transaction(s@),
            DatabaseStrategyError::Error(s) => DatabaseErrorView::Error(s@),
            DatabaseStrategyError::SaveModel { err, model } => DatabaseErrorView::SaveModel {
                err: err@,
                model: model@,
            },
            DatabaseStrategyError::SearchModel(s) => DatabaseErrorView::SearchModel(s@),
            DatabaseStrategyError::DeleteModel(s) => DatabaseErrorView::DeleteModel(s@),
        }
    }
}

/// The statement that creates the table recording which migrations ran.
pub const MIGRATIONS_TABLE_SQL: &'static str =
    "CREATE TABLE _migrations (\n            table_name TEXT NOT NULL,\n            last_migration INTEGER NOT NULL\n        )";

/// The table that records which migrations ran.
pub const MIGRATIONS_TABLE: &'static str = "_migrations";

/// The statement that records that a migration ran (`?1` the table, `?2` its
/// index in the migration path).
pub const RECORD_MIGRATION_SQL: &'static str =
    "INSERT INTO _migrations (table_name, last_migration) values (?1, ?2)";

/// The statement that reads the recorded migrations of a table (`?1`).
pub const LAST_MIGRATION_SQL: &'static str = "select * from _migrations where table_name = ?1";

/// The largest recorded migration index, if any was recorded.
pub open spec fn max_recorded(s: Seq<i64>) -> Option<i64>
    decreases s.len(),
{
    if s.len() == 0 {
        None
    } else {
        match max_recorded(s.drop_last()) {
            None => Some(s.last()),
            Some(m) => if m >= s.last() { Some(m) } else { Some(s.last()) },
        }
    }
}

/// The last migration that ran, from the recorded indices: their maximum.
pub fn last_migration(recorded: &Vec<i64>) -> (r: Option<i64>)
    ensures
        r == max_recorded(recorded@),
        r matches Some(m) ==> recorded@.contains(m) && forall|i: int|
            0 <= i < recorded@.len() ==> recorded@[i] <= m,
        r is None <==> recorded@.len() == 0,
{
    let mut best: Option<i64> = None;
    let mut i: usize = 0;
    while i < recorded.len()
        invariant
            i <= recorded.len(),
            best == max_recorded(recorded@.take(i as int)),
            best matches Some(m) ==> recorded@.take(i as int).contains(m) && forall|j: int|
                0 <= j < i ==> recorded@[j] <= m,
            best is None <==> i == 0,
        decreases recorded.len() - i,
    {
        let v = recorded[i];
        let ghost t = recorded@.take(i as int + 1);
        assert(t.drop_last() =~= recorded@.take(i as int));
        assert(t.last() == v);
        best = match best {
            None => Some(v),
            Some(m) => if m >= v { Some(m) } else { Some(v) },
        };
        proof {
            let m = best->Some_0;
            if m == v {
                assert(t[i as int] == v);
            } else {
                let w = choose|j: int| 0 <= j < i && recorded@.take(i as int)[j] == m;
                assert(t[w] == m);
            }
        }
        i = i + 1;
    }
    assert(recorded@.take(recorded.len() as int) =~= recorded@);
    best
}

/// Whether the migration at `index` of the path still has to run: it has
/// not when a migration at that index or later was recorded.
pub open spec fn migration_needed(last: Option<i64>, index: int) -> bool {
    !(last matches Some(m) && m >= index)
}

/// What running one migration of the path takes.
#[derive(Debug)]
pub enum MigrationStep {
    /// The migration ran before; nothing to do.
    AlreadyApplied,
    /// Create the table with this statement, unless it exists already.
    CreateTable(String),
    /// Run these `ALTER TABLE` statements in order.
    Alter(Vec<String>),
}

/// The model of a [`MigrationStep`].
pub enum MigrationStepView {
    AlreadyApplied,
    CreateTable(Seq<char>),
    Alter(Seq<Seq<char>>),
}

impl View for MigrationStep {
    type V = MigrationStepView;

    open spec fn view(&self) -> MigrationStepView {
        match self {
            MigrationStep::AlreadyApplied => MigrationStepView::AlreadyApplied,
            MigrationStep::CreateTable(s) => MigrationStepView::CreateTable(s@),
            MigrationStep::Alter(v) => MigrationStepView::Alter(strings_view(v@)),
        }
    }
}

/// The message when a create migration is not the first of the path.
pub open spec fn late_create_message(index: nat) -> Seq<char> {
    "Can only create a table at the first iteration, not at iteration "@ + nat_decimal(index)
}

/// The message when a model has no migration at all.
pub open spec fn no_migration_message(table: Seq<char>) -> Seq<char> {
    "Migration for model "@ + table + " needs to have at least one migration!"@
}

/// What the migration at `index` of the (sorted) path takes, given the last
/// recorded migration of the table: nothing when it ran before; else the
/// table creation (only allowed at index 0) or the alterations in order.
pub open spec fn migration_step_spec(
    table: Seq<char>,
    index: nat,
    migration: MigrationView,
    last: Option<i64>,
) -> Result<MigrationStepView, DatabaseErrorView> {
    if !migration_needed(last, index as int) {
        Ok(MigrationStepView::AlreadyApplied)
    } else {
        match migration.kind {
            MigrationKindView::Create(cols) => if index != 0 {
                Err(DatabaseErrorView::MigrateModel(late_create_message(index)))
            } else {
                Ok(MigrationStepView::CreateTable(create_table_sql(table, cols)))
            },
            MigrationKindView::Modify(mods) => Ok(
                MigrationStepView::Alter(
                    mods.map_values(|m: ModifyColumnView| alter_table_sql(table, m)),
                ),
            ),
        }
    }
}

/// Decides what the migration at `index` of the sorted path takes (see
/// [`migration_step_spec`]).
pub fn plan_migration_step(
    table_name: &str,
    index: usize,
    migration: &ModelMigration,
    last: Option<i64>,
) -> (r: Result<MigrationStep, DatabaseStrategyError>)
    requires
        index <= i64::MAX,
    ensures
        match r {
            Ok(step) => migration_step_spec(table_name@, index as nat, migration@, last) == Ok::<
                MigrationStepView,
                DatabaseErrorView,
            >(step@),
            Err(e) => migration_step_spec(table_name@, index as nat, migration@, last) == Err::<
                MigrationStepView,
                DatabaseErrorView,
            >(e@),
        },
{
    match last {
        Some(m) => {
            if m >= index as i64 {
                return Ok(MigrationStep::AlreadyApplied);
            }
        },
        None => {},
    }
    match &migration.kind {
        MigrationKind::Create(columns) => {
            if index != 0 {
                let mut msg =
                    "Can only create a table at the first iteration, not at iteration ".to_string();
                let n = u64_to_decimal(index as u64);
                msg.append(n.as_str());
                return Err(DatabaseStrategyError::MigrateModel(msg));
            }
            Ok(MigrationStep::CreateTable(create_table_statement(table_name, columns)))
        },
        MigrationKind::Modify(columns) => {
            let ghost mods = columns@.map_values(|m: crate::models::column::ModifyColumn| m@);
            let ghost target = mods.map_values(|m: ModifyColumnView| alter_table_sql(table_name@, m));
            let mut out: Vec<String> = Vec::new();
            let mut i: usize = 0;
            while i < columns.len()
                invariant
                    i <= columns.len(),
                    mods == columns@.map_values(|m: crate::models::column::ModifyColumn| m@),
                    target == mods.map_values(|m: ModifyColumnView| alter_table_sql(table_name@, m)),
                    strings_view(out@) == target.take(i as int),
                decreases columns.len() - i,
            {
                let s = alter_table_statement(table_name, &columns[i]);
                let ghost before = out@;
                out.push(s);
                assert(strings_view(out@) =~= strings_view(before).push(target[i as int]));
                assert(target.take(i as int + 1) =~= target.take(i as int).push(target[i as int]));
                i = i + 1;
            }
            assert(target.take(columns.len() as int) =~= target);
            Ok(MigrationStep::Alter(out))
        },
    }
}

/// Refuses a model without migrations, as migrating it must.
pub fn check_migration_path(table_name: &str, migrations: &Vec<ModelMigration>) -> (r: Result<
    (),
    DatabaseStrategyError,
>)
    ensures
        r is Ok <==> migrations@.len() > 0,
        r matches Err(e) ==> e@ == DatabaseErrorView::MigrateModel(no_migration_message(table_name@)),
{
    if migrations.len() == 0 {
        let mut msg = "Migration for model ".to_string();
        msg.append(table_name);
        msg.append(" needs to have at least one migration!");
        assert(msg@ =~= no_migration_message(table_name@));
        return Err(DatabaseStrategyError::MigrateModel(msg));
    }
    Ok(())
}

/// The values that were found, in order: the rows that could not be read
/// or turned into a model are left out.
pub open spec fn found<T>(results: Seq<Option<T>>) -> Seq<T>
    decreases results.len(),
{
    if results.len() == 0 {
        Seq::empty()
    } else {
        let before = found(results.drop_last());
        match results.last() {
            Some(x) => before.push(x),
            None => before,
        }
    }
}

/// The models of a search, from what each row gave (`None` for a row that
/// could not be read or turned into a model): the rows that did, in order.
pub fn found_models<T>(results: Vec<Option<T>>) -> (r: Vec<T>)
    ensures
        r@ == found(results@),
{
    let ghost all = results@;
    let mut rest = results;
    let mut out: Vec<T> = Vec::new();
    let ghost mut i: int = 0;
    while rest.len() > 0
        invariant
            0 <= i <= all.len(),
            rest@ == all.skip(i),
            out@ == found(all.take(i)),
        decreases rest.len(),
    {
        let x = rest.remove(0);
        proof {
            assert(x == all[i]);
            assert(all.skip(i).remove(0) =~= all.skip(i + 1));
            assert(all.take(i + 1).drop_last() =~= all.take(i));
            assert(all.take(i + 1).last() == x);
        }
        match x {
            Some(m) => out.push(m),
            None => {},
        }
        proof {
            i = i + 1;
        }
    }
    assert(all.take(i) =~= all);
    out
}

/// The model a single search gives: the first one found, if any.
pub fn first_model<T>(models: Vec<T>) -> (r: Option<T>)
    ensures
        models@.len() == 0 ==> r is None,
        models@.len() > 0 ==> r == Some(models@[0]),
{
    let mut models = models;
    if models.len() == 0 {
        None
    } else {
        Some(models.remove(0))
    }
}

} // verus!
