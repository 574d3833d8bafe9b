//! The SQL that creates and alters tables along a migration path.

use vstd::prelude::*;
use vstd::string::{StrSliceExecFns, StringExecFns};
use crate::models::column::{
    ColumnOptionView, ColumnType, CreateColumn, CreateColumnOptionsValues, CreateColumnView,
    CreateOptions, CreateOptionsView, CreateTableOptionValues, ModifyColumn, ModifyColumnOptionsValues,
    ModifyColumnView, ModifyOptionView, TableOptionView,
};
use crate::text::{join, join_strings, strings_view};

verus! {

/// The SQLite type of a column type.
pub open spec fn sql_type(t: ColumnType) -> Seq<char> {
    match t {
        ColumnType::String => "TEXT"@,
        ColumnType::Integer => "INTEGER"@,
        ColumnType::Float => "REAL"@,
        ColumnType::Date => "TEXT"@,
        ColumnType::Json => "TEXT"@,
        ColumnType::Bool => "INTEGER"@,
    }
}

/// The SQLite type of a column type.
pub fn match_column_type(value: &ColumnType) -> (r: String)
    ensures
        r@ == sql_type(*value),
{
    match value {
        ColumnType::String => "TEXT",
        ColumnType::Integer => "INTEGER",
        ColumnType::Float => "REAL",
        ColumnType::Date => "TEXT",
        ColumnType::Json => "TEXT",
        ColumnType::Bool => "INTEGER",
    }.to_string()
}

/// The SQL of one column option.
pub open spec fn column_option_sql(o: ColumnOptionView) -> Seq<char> {
    match o {
        ColumnOptionView::NonNullable => "NOT NULL"@,
        ColumnOptionView::PrimaryKey => "PRIMARY KEY"@,
        ColumnOptionView::Default(d) => "DEFAULT "@ + d,
        ColumnOptionView::Unique => "UNIQUE"@,
        ColumnOptionView::Check(c) => "CHECK("@ + c + ")"@,
    }
}

/// The SQL of each column option, in order.
pub open spec fn column_option_parts(o: CreateOptionsView) -> Seq<Seq<char>> {
    o.column_options.map_values(|p: (u64, ColumnOptionView)| column_option_sql(p.1))
}

/// The column options as they follow the column's type, separated by two
/// spaces. All options carry the ordering key 0, so sorting them by key
/// keeps the order in which they were set.
pub open spec fn column_options_sql(o: CreateOptionsView) -> Seq<char> {
    join(column_option_parts(o), "  "@)
}

fn column_option_text(o: &CreateColumnOptionsValues) -> (r: String)
    ensures
        r@ == column_option_sql(o@),
{
    match o {
        CreateColumnOptionsValues::NonNullable => "NOT NULL".to_string(),
        CreateColumnOptionsValues::PrimaryKey => "PRIMARY KEY".to_string(),
        CreateColumnOptionsValues::Default(d) => {
            let mut s = "DEFAULT ".to_string();
            s.append(d.as_str());
            s
        },
        CreateColumnOptionsValues::Unique => "UNIQUE".to_string(),
        CreateColumnOptionsValues::Check(c) => {
            let mut s = "CHECK(".to_string();
            s.append(c.as_str());
            s.append(")");
            s
        },
    }
}

/// The SQL of the column options of a column (see [`column_options_sql`]).
pub fn match_create_column_options(value: &CreateOptions, _column_name: &str) -> (r: String)
    ensures
        r@ == column_options_sql(value@),
{
    let ghost target = column_option_parts(value@);
    let mut parts: Vec<String> = Vec::new();
    let mut i: usize = 0;
    while i < value.column_options.len()
        invariant
            i <= value.column_options.len(),
            target == column_option_parts(value@),
            strings_view(parts@) == target.take(i as int),
        decreases value.column_options.len() - i,
    {
        let part = column_option_text(&value.column_options[i].1);
        let ghost before = parts@;
        parts.push(part);
        assert(strings_view(parts@) =~= strings_view(before).push(part@));
        assert(target.take(i as int + 1) =~= target.take(i as int).push(target[i as int]));
        i = i + 1;
    }
    assert(target.take(value.column_options.len() as int) =~= target);
    join_strings(&parts, "  ")
}

/// The SQL of one table option contributed by the column `column_name`.
pub open spec fn table_option_sql(t: TableOptionView, column_name: Seq<char>) -> Seq<char> {
    match t {
        TableOptionView::ForeignKey { table, column } => "FOREIGN KEY ("@ + column_name
            + ") REFERENCES "@ + table + "("@ + column + ")"@,
    }
}

/// The SQL of each table option of a column, in order.
pub open spec fn table_option_parts(ts: Seq<TableOptionView>, column_name: Seq<char>) -> Seq<
    Seq<char>,
> {
    ts.map_values(|t: TableOptionView| table_option_sql(t, column_name))
}

/// The table options of a column, one per line.
pub open spec fn table_options_sql(ts: Seq<TableOptionView>, column_name: Seq<char>) -> Seq<char> {
    join(table_option_parts(ts, column_name), ",\n"@)
}

/// The SQL of the table options of the column `column_name` (see
/// [`table_options_sql`]).
pub fn match_create_table_options(value: &Vec<CreateTableOptionValues>, column_name: &str) -> (r:
    String)
    ensures
        r@ == table_options_sql(value@.map_values(|t: CreateTableOptionValues| t@), column_name@),
{
    let ghost ts = value@.map_values(|t: CreateTableOptionValues| t@);
    let ghost target = table_option_parts(ts, column_name@);
    let mut parts: Vec<String> = Vec::new();
    let mut i: usize = 0;
    while i < value.len()
        invariant
            i <= value.len(),
            ts == value@.map_values(|t: CreateTableOptionValues| t@),
            target == table_option_parts(ts, column_name@),
            strings_view(parts@) == target.take(i as int),
        decreases value.len() - i,
    {
        let part = match &value[i] {
            CreateTableOptionValues::ForeignKey { table, column } => {
                let mut s = "FOREIGN KEY (".to_string();
                s.append(column_name);
                s.append(") REFERENCES ");
                s.append(table.as_str());
                s.append("(");
                s.append(column.as_str());
                s.append(")");
                s
            },
        };
        assert(part@ == target[i as int]);
        let ghost before = parts@;
        parts.push(part);
        assert(strings_view(parts@) =~= strings_view(before).push(part@));
        assert(target.take(i as int + 1) =~= target.take(i as int).push(target[i as int]));
        i = i + 1;
    }
    assert(target.take(value.len() as int) =~= target);
    join_strings(&parts, ",\n")
}

/// The clause of an `ALTER TABLE` that applies a modification to the column
/// `column_name`.
pub open spec fn modify_sql(m: ModifyOptionView, column_name: Seq<char>) -> Seq<char> {
    match m {
        ModifyOptionView::Rename { to } => "RENAME COLUMN "@ + column_name + " TO "@ + to,
        ModifyOptionView::Drop => "DROP COLUMN "@ + column_name,
        ModifyOptionView::Add { new_type, new_options } => "ADD COLUMN "@ + column_name + " "@
            + sql_type(new_type) + " "@ + column_options_sql(new_options),
    }
}

/// The clause of an `ALTER TABLE` for a modification (see [`modify_sql`]).
pub fn match_modify_column_options(value: &ModifyColumnOptionsValues, column_name: &str) -> (r:
    String)
    ensures
        r@ == modify_sql(value@, column_name@),
{
    let mut out = String::new();
    match value {
        ModifyColumnOptionsValues::Rename { to } => {
            out.append("RENAME COLUMN ");
            out.append(column_name);
            out.append(" TO ");
            out.append(to.as_str());
            assert(out@ =~= modify_sql(value@, column_name@));
        },
        ModifyColumnOptionsValues::Drop => {
            out.append("DROP COLUMN ");
            out.append(column_name);
            assert(out@ =~= modify_sql(value@, column_name@));
        },
        ModifyColumnOptionsValues::Add { new_type, new_options } => {
            out.append("ADD COLUMN ");
            out.append(column_name);
            out.append(" ");
            let t = match_column_type(new_type);
            out.append(t.as_str());
            out.append(" ");
            let o = match_create_column_options(new_options, column_name);
            out.append(o.as_str());
            assert(out@ =~= modify_sql(value@, column_name@));
        },
    }
    out
}

/// The definition of one column in a `CREATE TABLE`.
pub open spec fn column_def_sql(c: CreateColumnView) -> Seq<char> {
    "\t"@ + c.key + " "@ + sql_type(c.value) + " "@ + column_options_sql(c.options)
}

/// The table constraints that the columns contribute: for each column that
/// has table options (in order), its options on an indented line.
pub open spec fn table_constraints(cols: Seq<CreateColumnView>) -> Seq<Seq<char>>
    decreases cols.len(),
{
    if cols.len() == 0 {
        Seq::empty()
    } else {
        let r = table_constraints(cols.drop_last());
        let c = cols.last();
        if c.options.table_options.len() == 0 {
            r
        } else {
            r.push("\t"@ + table_options_sql(c.options.table_options, c.key))
        }
    }
}

/// The `CREATE TABLE` statement for the columns `cols`.
pub open spec fn create_table_sql(table: Seq<char>, cols: Seq<CreateColumnView>) -> Seq<char> {
    let defs = join(cols.map_values(|c: CreateColumnView| column_def_sql(c)), ",\n"@);
    let cons = join(table_constraints(cols), ",\n"@);
    "CREATE TABLE "@ + table + " (\n"@ + defs + (if cons.len() == 0 {
        Seq::empty()
    } else {
        ",\n"@ + cons
    }) + "\n)"@
}

/// The `CREATE TABLE` statement for the columns of a create migration (see
/// [`create_table_sql`]).
pub fn create_table_statement(table_name: &str, columns: &Vec<CreateColumn>) -> (r: String)
    ensures
        r@ == create_table_sql(table_name@, columns@.map_values(|c: CreateColumn| c@)),
{
    let ghost cols = columns@.map_values(|c: CreateColumn| c@);
    let ghost defs_target = cols.map_values(|c: CreateColumnView| column_def_sql(c));
    let mut defs: Vec<String> = Vec::new();
    let mut cons: Vec<String> = Vec::new();
    let mut i: usize = 0;
    while i < columns.len()
        invariant
            i <= columns.len(),
            cols == columns@.map_values(|c: CreateColumn| c@),
            defs_target == cols.map_values(|c: CreateColumnView| column_def_sql(c)),
            strings_view(defs@) == defs_target.take(i as int),
            strings_view(cons@) == table_constraints(cols.take(i as int)),
        decreases columns.len() - i,
    {
        let col = &columns[i];
        assert(cols[i as int] == col@);
        let mut def = "\t".to_string();
        def.append(col.key.as_str());
        def.append(" ");
        let t = match_column_type(&col.value);
        def.append(t.as_str());
        def.append(" ");
        let o = match_create_column_options(&col.options, col.key.as_str());
        def.append(o.as_str());
        assert(def@ =~= column_def_sql(col@));
        let ghost before_defs = defs@;
        defs.push(def);
        assert(strings_view(defs@) =~= strings_view(before_defs).push(defs_target[i as int]));
        assert(defs_target.take(i as int + 1) =~= defs_target.take(i as int).push(
            defs_target[i as int],
        ));
        assert(cols.take(i as int + 1).drop_last() =~= cols.take(i as int));
        assert(cols.take(i as int + 1).last() == col@);
        if col.options.table_options.len() > 0 {
            let mut line = "\t".to_string();
            let to = match_create_table_options(&col.options.table_options, col.key.as_str());
            line.append(to.as_str());
            let ghost before_cons = cons@;
            cons.push(line);
            assert(strings_view(cons@) =~= strings_view(before_cons).push(line@));
        }
        i = i + 1;
    }
    assert(defs_target.take(columns.len() as int) =~= defs_target);
    assert(cols.take(columns.len() as int) =~= cols);
    let mut sql = "CREATE TABLE ".to_string();
    sql.append(table_name);
    sql.append(" (\n");
    let d = join_strings(&defs, ",\n");
    sql.append(d.as_str());
    let c = join_strings(&cons, ",\n");
    if c.as_str().unicode_len() != 0 {
        sql.append(",\n");
        sql.append(c.as_str());
    }
    sql.append("\n)");
    assert(sql@ =~= create_table_sql(table_name@, cols));
    sql
}

/// The `ALTER TABLE` statement applying one modification.
pub open spec fn alter_table_sql(table: Seq<char>, m: ModifyColumnView) -> Seq<char> {
    "ALTER TABLE "@ + table + "\n"@ + modify_sql(m.options, m.key) + ";"@
}

/// The `ALTER TABLE` statement applying one modification (see
/// [`alter_table_sql`]).
pub fn alter_table_statement(table_name: &str, column: &ModifyColumn) -> (r: String)
    ensures
        r@ == alter_table_sql(table_name@, column@),
{
    let mut sql = "ALTER TABLE ".to_string();
    sql.append(table_name);
    sql.append("\n");
    let m = match_modify_column_options(&column.options, column.key.as_str());
    sql.append(m.as_str());
    sql.append(";");
    assert(sql@ =~= alter_table_sql(table_name@, column@));
    sql
}

} // verus!
