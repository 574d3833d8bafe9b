//! The traits a model implements: where it is stored and how it migrates
//! ([`Model`]), how it is rebuilt from a row ([`FromIter`]), what it saves
//! ([`SaveData`]), and the check that the saved data covers every column
//! ([`ValidateSaveData`]).

use vstd::prelude::*;
use crate::models::column::{ColumnType, ColumnValue, ColumnValueView};
use crate::models::migration::{
    columns_of, columns_spec, latest_column_name, latest_column_name_in, migrations_view,
    named_types_view, ModelMigration, MigrationView,
};
use crate::models::json::{json_i64, json_string, json_to_i64, json_to_string};
use crate::text::{parse_i64, parse_i64_spec, strings_view};
use vstd::string::StringExecFns;

verus! {

/// A type stored in a table, with the migration path that defines the table.
pub trait Model {
    /// The name of the table.
    const TABLE_NAME: &'static str;

    /// The model of the migration path that [`Model::get_migration`] returns.
    /// A verified implementation states it; the default says nothing of it.
    closed spec fn migration_spec() -> Seq<MigrationView> {
        arbitrary()
    }

    /// The id of this value in the table, if it has one. A verified
    /// implementation states it; the default says nothing of it.
    closed spec fn id_spec(&self) -> Option<i64> {
        arbitrary()
    }

    /// The migration path of this model. The first migration creates the
    /// table; the path is applied in the order of `ordering`.
    fn get_migration() -> (r: Vec<ModelMigration>)
        ensures
            migrations_view(r@) == Self::migration_spec(),
    ;

    /// The id of this value; `None` means that saving it inserts a new row,
    /// `Some` that saving updates the row with that id.
    fn get_id(&self) -> (r: Option<i64>)
        ensures
            r == self.id_spec(),
    ;

    /// Records the id that the database gave this value.
    fn set_id(&mut self, id: i64)
        ensures
            final(self).id_spec() == Some(id),
    ;

    /// The current name of a column, following the migration path; `None`
    /// when the column was dropped along the path.
    fn get_latest_column_name(initial_name: &str) -> (r: Option<String>)
        ensures
            r matches Some(n) ==> latest_column_name(Self::migration_spec(), initial_name@) == Some(
                n@,
            ),
            r is None ==> latest_column_name(Self::migration_spec(), initial_name@) is None,
    {
        let ms = Self::get_migration();
        latest_column_name_in(&ms, initial_name)
    }

    /// The columns and types that the first migration creates, under their
    /// current names. The first migration must create the table and none of
    /// its columns may have been dropped.
    fn get_columns() -> (r: Vec<(String, ColumnType)>)
        requires
            columns_spec(Self::migration_spec()) is Some,
        ensures
            columns_spec(Self::migration_spec()) == Some(named_types_view(r@)),
    {
        let ms = Self::get_migration();
        match columns_of(&ms) {
            Some(cols) => cols,
            None => {
                assert(false);
                Vec::new()
            },
        }
    }

    /// The name of the column that holds the id. Validation of the save
    /// data requires a column `id` of type `Integer`.
    fn get_id_column_name(&self) -> (r: String)
        ensures
            r@ == "id"@,
    {
        "id".to_string()
    }

    /// [`Model::get_migration`] for a value whose type is not at hand.
    fn self_get_migration(&self) -> (r: Vec<ModelMigration>)
        ensures
            migrations_view(r@) == Self::migration_spec(),
    {
        Self::get_migration()
    }

    /// [`Model::TABLE_NAME`] for a value whose type is not at hand.
    fn self_get_table_name(&self) -> (r: &'static str)
        ensures
            r@ == Self::TABLE_NAME@,
    {
        Self::TABLE_NAME
    }

    /// [`Model::get_columns`] for a value whose type is not at hand.
    fn self_get_columns(&self) -> (r: Vec<(String, ColumnType)>)
        requires
            columns_spec(Self::migration_spec()) is Some,
        ensures
            columns_spec(Self::migration_spec()) == Some(named_types_view(r@)),
    {
        Self::get_columns()
    }
}

/// One cell of a row read back from the table: the column's name, its text,
/// and the column's type.
pub struct FromIterValue {
    pub column_name: String,
    pub column_value: String,
    pub column_type: ColumnType,
}

/// The model of a [`FromIterValue`].
pub struct FromIterValueView {
    pub column_name: Seq<char>,
    pub column_value: Seq<char>,
    pub column_type: ColumnType,
}

impl View for FromIterValue {
    type V = FromIterValueView;

    open spec fn view(&self) -> FromIterValueView {
        FromIterValueView {
            column_name: self.column_name@,
            column_value: self.column_value@,
            column_type: self.column_type,
        }
    }
}

/// The integer that a cell holds when it is read into an `i64` field: an
/// integer column's text in the `i64` grammar, or a JSON column's integer;
/// cells of other types hold none.
pub open spec fn cell_as_i64(c: FromIterValueView) -> Option<i64> {
    match c.column_type {
        ColumnType::Integer => parse_i64_spec(c.column_value),
        ColumnType::Json => json_i64(c.column_value),
        _ => None,
    }
}

/// The text that a cell holds when it is read into a `String` field: the
/// text of a string or date column, or a JSON column's string; cells of
/// other types hold none.
pub open spec fn cell_as_text(c: FromIterValueView) -> Option<Seq<char>> {
    match c.column_type {
        ColumnType::String => Some(c.column_value),
        ColumnType::Date => Some(c.column_value),
        ColumnType::Json => json_string(c.column_value),
        _ => None,
    }
}

/// Reads a cell into an `i64` field (see [`cell_as_i64`]).
pub fn cell_to_i64(cell: &FromIterValue) -> (r: Option<i64>)
    ensures
        r == cell_as_i64(cell@),
{
    match cell.column_type {
        ColumnType::Integer => parse_i64(cell.column_value.as_str()),
        ColumnType::Json => json_to_i64(cell.column_value.as_str()),
        _ => None,
    }
}

/// Reads a cell into a `String` field (see [`cell_as_text`]).
pub fn cell_to_text(cell: &FromIterValue) -> (r: Option<String>)
    ensures
        r matches Some(t) ==> cell_as_text(cell@) == Some(t@),
        r is None ==> cell_as_text(cell@) is None,
{
    match cell.column_type {
        ColumnType::String => Some(cell.column_value.clone()),
        ColumnType::Date => Some(cell.column_value.clone()),
        ColumnType::Json => json_to_string(cell.column_value.as_str()),
        _ => None,
    }
}

/// The cells of a row read for the columns `columns`: every column's text
/// when all of them could be read (`cells[i]` is the text of column `i`, if
/// it could be read), else nothing.
pub open spec fn row_spec(
    columns: Seq<(Seq<char>, ColumnType)>,
    cells: Seq<Option<Seq<char>>>,
) -> Option<Seq<FromIterValueView>> {
    if forall|i: int| 0 <= i < cells.len() ==> #[trigger] cells[i] is Some {
        Some(
            Seq::new(
                columns.len(),
                |i: int|
                    FromIterValueView {
                        column_name: columns[i].0,
                        column_value: cells[i].unwrap(),
                        column_type: columns[i].1,
                    },
            ),
        )
    } else {
        None
    }
}

/// The cells of one row (see [`row_spec`]); a row with a cell that could
/// not be read gives no value.
pub fn row_values(columns: &Vec<(String, ColumnType)>, cells: &Vec<Option<String>>) -> (r: Option<
    Vec<FromIterValue>,
>)
    requires
        cells@.len() == columns@.len(),
    ensures
        r matches Some(v) ==> row_spec(
            named_types_view(columns@),
            cells@.map_values(|c: Option<String>| match c {
                Some(t) => Some(t@),
                None => None::<Seq<char>>,
            }),
        ) == Some(v@.map_values(|x: FromIterValue| x@)),
        r is None ==> row_spec(
            named_types_view(columns@),
            cells@.map_values(|c: Option<String>| match c {
                Some(t) => Some(t@),
                None => None::<Seq<char>>,
            }),
        ) is None,
{
    let ghost cv = cells@.map_values(|c: Option<String>| match c {
        Some(t) => Some(t@),
        None => None::<Seq<char>>,
    });
    let ghost nv = named_types_view(columns@);
    let mut out: Vec<FromIterValue> = Vec::new();
    let mut i: usize = 0;
    while i < cells.len()
        invariant
            i <= cells.len(),
            cells@.len() == columns@.len(),
            cv == cells@.map_values(|c: Option<String>| match c {
                Some(t) => Some(t@),
                None => None::<Seq<char>>,
            }),
            nv == named_types_view(columns@),
            out@.len() == i,
            forall|j: int| 0 <= j < i ==> #[trigger] cv[j] is Some,
            forall|j: int|
                0 <= j < i ==> #[trigger] out@[j]@ == (FromIterValueView {
                    column_name: nv[j].0,
                    column_value: cv[j].unwrap(),
                    column_type: nv[j].1,
                }),
        decreases cells.len() - i,
    {
        match &cells[i] {
            Some(text) => {
                out.push(
                    FromIterValue {
                        column_name: columns[i].0.clone(),
                        column_value: text.clone(),
                        column_type: columns[i].1,
                    },
                );
            },
            None => {
                assert(!(cv[i as int] is Some));
                return None;
            },
        }
        i = i + 1;
    }
    assert(out@.map_values(|x: FromIterValue| x@) =~= row_spec(nv, cv).unwrap());
    Some(out)
}

/// Rebuilds a value from the cells of one row; `None` when a field is
/// missing or does not decode.
pub trait FromIter {
    fn from_iter(iter: Vec<FromIterValue>) -> Option<Self> where Self: Sized;
}

/// A column and the value to save into it.
#[derive(Debug)]
pub struct SaveModel {
    pub key: String,
    pub value: ColumnValue,
}

/// The model of a [`SaveModel`].
pub struct SaveModelView {
    pub key: Seq<char>,
    pub value: ColumnValueView,
}

impl View for SaveModel {
    type V = SaveModelView;

    open spec fn view(&self) -> SaveModelView {
        SaveModelView { key: self.key@, value: self.value@ }
    }
}

impl SaveModel {
    /// Save `value` into the column `key`.
    pub fn new(key: &str, value: ColumnValue) -> (r: Self)
        ensures
            r@.key == key@,
            r@.value == value@,
    {
        SaveModel { key: key.to_string(), value }
    }
}

/// The models of a list of save entries.
pub open spec fn save_view(s: Seq<SaveModel>) -> Seq<SaveModelView> {
    s.map_values(|m: SaveModel| m@)
}

/// The data a model saves.
pub trait SaveData {
    /// The model of what [`SaveData::get_save_data`] returns. A verified
    /// implementation states it; the default says nothing of it.
    closed spec fn save_data_spec(&self) -> Seq<SaveModelView> {
        arbitrary()
    }

    /// All columns and values that the model saves.
    fn get_save_data(&self) -> (r: Vec<SaveModel>)
        ensures
            save_view(r@) == self.save_data_spec(),
    ;
}

/// The `Debug` name of a column type.
pub open spec fn column_type_name(t: ColumnType) -> Seq<char> {
    match t {
        ColumnType::String => "String"@,
        ColumnType::Integer => "Integer"@,
        ColumnType::Float => "Float"@,
        ColumnType::Date => "Date"@,
        ColumnType::Json => "Json"@,
        ColumnType::Bool => "Bool"@,
    }
}

/// The `Debug` name of a column type.
pub fn column_type_name_of(t: ColumnType) -> (r: &'static str)
    ensures
        r@ == column_type_name(t),
{
    match t {
        ColumnType::String => "String",
        ColumnType::Integer => "Integer",
        ColumnType::Float => "Float",
        ColumnType::Date => "Date",
        ColumnType::Json => "Json",
        ColumnType::Bool => "Bool",
    }
}

/// The columns (in order) whose name is not among `keys`, each described as
/// its name, a space, and its type's name.
pub open spec fn missing_columns(cols: Seq<(Seq<char>, ColumnType)>, keys: Seq<Seq<char>>) -> Seq<
    Seq<char>,
>
    decreases cols.len(),
{
    if cols.len() == 0 {
        Seq::empty()
    } else {
        let r = missing_columns(cols.drop_last(), keys);
        let c = cols.last();
        if keys.contains(c.0) {
            r
        } else {
            r.push(c.0 + seq![' '] + column_type_name(c.1))
        }
    }
}

/// What save-data validation reports for the columns `cols` and the saved
/// keys `keys`: the id column when there is no column `id` of type
/// `Integer`, else every column that is not saved, or nothing when all are.
pub open spec fn missing_save_data(cols: Seq<(Seq<char>, ColumnType)>, keys: Seq<Seq<char>>) -> Option<
    Seq<Seq<char>>,
> {
    if !cols.contains(("id"@, ColumnType::Integer)) {
        Some(seq!["id (Integer)"@])
    } else {
        let m = missing_columns(cols, keys);
        if m.len() == 0 {
            None
        } else {
            Some(m)
        }
    }
}

/// The keys of the save entries.
pub open spec fn save_keys(s: Seq<SaveModelView>) -> Seq<Seq<char>> {
    s.map_values(|m: SaveModelView| m.key)
}

/// Checks that the save data covers every column.
pub trait ValidateSaveData {
    /// Whether the check can run (the columns of the table are defined).
    spec fn can_validate(&self) -> bool;

    /// What the check reports.
    spec fn validation_spec(&self) -> Option<Seq<Seq<char>>>;

    /// `None` when every column is saved; else the missing columns.
    fn validate_save_data(&self) -> (r: Option<Vec<String>>)
        requires
            self.can_validate(),
        ensures
            r matches Some(v) ==> self.validation_spec() == Some(strings_view(v@)),
            r is None ==> self.validation_spec() is None,
    ;
}

fn same_pair(a: &(String, ColumnType), name: &String, t: ColumnType) -> (r: bool)
    ensures
        r == ((a.0@, a.1) == (name@, t)),
{
    a.0 == *name && a.1 == t
}

fn saves_key(data: &Vec<SaveModel>, key: &String) -> (r: bool)
    ensures
        r == save_keys(save_view(data@)).contains(key@),
{
    let ghost keys = save_keys(save_view(data@));
    let mut i: usize = 0;
    while i < data.len()
        invariant
            i <= data.len(),
            keys == save_keys(save_view(data@)),
            forall|j: int| 0 <= j < i ==> keys[j] != key@,
        decreases data.len() - i,
    {
        if data[i].key == *key {
            assert(keys[i as int] == key@);
            return true;
        }
        i = i + 1;
    }
    false
}

impl<T: SaveData + Model> ValidateSaveData for T {
    open spec fn can_validate(&self) -> bool {
        columns_spec(T::migration_spec()) is Some
    }

    open spec fn validation_spec(&self) -> Option<Seq<Seq<char>>> {
        missing_save_data(
            columns_spec(T::migration_spec()).unwrap(),
            save_keys(self.save_data_spec()),
        )
    }

    fn validate_save_data(&self) -> (r: Option<Vec<String>>) {
        let cols = T::get_columns();
        let ghost cv = named_types_view(cols@);
        let id_name = "id".to_string();
        let mut has_id = false;
        let mut i: usize = 0;
        while i < cols.len()
            invariant
                i <= cols.len(),
                cv == named_types_view(cols@),
                id_name@ == "id"@,
                has_id == cv.take(i as int).contains(("id"@, ColumnType::Integer)),
            decreases cols.len() - i,
        {
            let found = same_pair(&cols[i], &id_name, ColumnType::Integer);
            proof {
                let x = ("id"@, ColumnType::Integer);
                let t0 = cv.take(i as int);
                let t1 = cv.take(i as int + 1);
                assert(t1 =~= t0.push(cv[i as int]));
                assert(cv[i as int] == (cols@[i as int].0@, cols@[i as int].1));
                if t0.contains(x) {
                    let w = choose|j: int| 0 <= j < t0.len() && t0[j] == x;
                    assert(t1[w] == x);
                }
                if found {
                    assert(t1[i as int] == x);
                } else if t1.contains(x) {
                    let w = choose|j: int| 0 <= j < t1.len() && t1[j] == x;
                    assert(t0[w] == x);
                }
            }
            if found {
                has_id = true;
            }
            i = i + 1;
        }
        assert(cv.take(cols.len() as int) =~= cv);
        if !has_id {
            let mut r: Vec<String> = Vec::new();
            r.push("id (Integer)".to_string());
            assert(strings_view(r@) =~= seq!["id (Integer)"@]);
            return Some(r);
        }
        let save_data = self.get_save_data();
        let ghost keys = save_keys(save_view(save_data@));
        let mut missing: Vec<String> = Vec::new();
        let mut k: usize = 0;
        while k < cols.len()
            invariant
                k <= cols.len(),
                cv == named_types_view(cols@),
                keys == save_keys(save_view(save_data@)),
                strings_view(missing@) == missing_columns(cv.take(k as int), keys),
            decreases cols.len() - k,
        {
            let (name, c_type) = (&cols[k].0, cols[k].1);
            assert(cv.take(k as int + 1).drop_last() =~= cv.take(k as int));
            assert(cv.take(k as int + 1).last() == (name@, c_type));
            if !saves_key(&save_data, name) {
                let mut entry = name.clone();
                entry.append(" ");
                entry.append(column_type_name_of(c_type));
                let ghost before = missing@;
                missing.push(entry);
                proof {
                    reveal_strlit(" ");
                    assert(entry@ =~= name@ + seq![' '] + column_type_name(c_type));
                    assert(strings_view(missing@) =~= strings_view(before).push(entry@));
                }
            }
            k = k + 1;
        }
        assert(cv.take(cols.len() as int) =~= cv);
        if missing.len() == 0 {
            None
        } else {
            Some(missing)
        }
    }
}

} // verus!
