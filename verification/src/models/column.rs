//! Columns: their types and values, the options a column is created with,
//! and the modifications a later migration applies to it.

use vstd::prelude::*;
use crate::text::{is_float_literal, is_valid_float, parse_i64, parse_i64_spec};

verus! {

/// The kind of value a column stores.
#[derive(Debug, Clone, Copy, PartialEq, Eq, Structural, Hash)]
pub enum ColumnType {
    String,
    Integer,
    Float,
    Date,
    Json,
    Bool,
}

/// A point in time in UTC, as seconds and nanoseconds since the Unix epoch.
#[derive(Debug, Clone, Copy, PartialEq, Eq, Structural)]
pub struct Timestamp {
    pub seconds: i64,
    pub nanos: u32,
}

/// A value stored in (or compared against) a column.
///
/// A float is held by the bits of its IEEE-754 representation
/// (`f64::to_bits`), a date by its [`Timestamp`].
#[derive(Debug)]
pub enum ColumnValue {
    String(String),
    Integer(i64),
    Float(u64),
    Date(Timestamp),
    Json(String),
    Null,
}

/// The mathematical model of a [`ColumnValue`].
pub enum ColumnValueView {
    String(Seq<char>),
    Integer(i64),
    Float(u64),
    Date(Timestamp),
    Json(Seq<char>),
    Null,
}

impl View for ColumnValue {
    type V = ColumnValueView;

    open spec fn view(&self) -> ColumnValueView {
        match self {
            ColumnValue::String(s) => ColumnValueView::String(s@),
            ColumnValue::Integer(i) => ColumnValueView::Integer(*i),
            ColumnValue::Float(b) => ColumnValueView::Float(*b),
            ColumnValue::Date(t) => ColumnValueView::Date(*t),
            ColumnValue::Json(s) => ColumnValueView::Json(s@),
            ColumnValue::Null => ColumnValueView::Null,
        }
    }
}

impl Clone for ColumnValue {
    fn clone(&self) -> (r: Self)
        ensures
            r@ == self@,
    {
        match self {
            ColumnValue::String(s) => ColumnValue::String(s.clone()),
            ColumnValue::Integer(i) => ColumnValue::Integer(*i),
            ColumnValue::Float(b) => ColumnValue::Float(*b),
            ColumnValue::Date(t) => ColumnValue::Date(*t),
            ColumnValue::Json(s) => ColumnValue::Json(s.clone()),
            ColumnValue::Null => ColumnValue::Null,
        }
    }
}

impl ColumnValue {
    /// Whether this is the null value.
    pub fn is_null(&self) -> (r: bool)
        ensures
            r == (self@ is Null),
    {
        match self {
            ColumnValue::Null => true,
            _ => false,
        }
    }
}

impl From<i64> for ColumnValue {
    fn from(value: i64) -> (r: Self) {
        ColumnValue::Integer(value)
    }
}

impl vstd::std_specs::convert::FromSpecImpl<i64> for ColumnValue {
    open spec fn obeys_from_spec() -> bool {
        true
    }

    open spec fn from_spec(v: i64) -> ColumnValue {
        ColumnValue::Integer(v)
    }
}

impl From<i32> for ColumnValue {
    fn from(value: i32) -> (r: Self) {
        ColumnValue::Integer(value as i64)
    }
}

impl vstd::std_specs::convert::FromSpecImpl<i32> for ColumnValue {
    open spec fn obeys_from_spec() -> bool {
        true
    }

    open spec fn from_spec(v: i32) -> ColumnValue {
        ColumnValue::Integer(v as i64)
    }
}

impl From<String> for ColumnValue {
    fn from(value: String) -> (r: Self) {
        ColumnValue::String(value)
    }
}

impl vstd::std_specs::convert::FromSpecImpl<String> for ColumnValue {
    open spec fn obeys_from_spec() -> bool {
        true
    }

    open spec fn from_spec(v: String) -> ColumnValue {
        ColumnValue::String(v)
    }
}

/// The views of a sequence of values.
pub open spec fn values_view(s: Seq<ColumnValue>) -> Seq<ColumnValueView> {
    s.map_values(|v: ColumnValue| v@)
}

// ---------------------------------------------------------------------------
// Create options
// ---------------------------------------------------------------------------

/// An option on a single column of a `CREATE TABLE`.
#[derive(Debug)]
pub enum CreateColumnOptionsValues {
    NonNullable,
    PrimaryKey,
    Default(String),
    Unique,
    Check(String),
}

/// The model of a [`CreateColumnOptionsValues`].
pub enum ColumnOptionView {
    NonNullable,
    PrimaryKey,
    Default(Seq<char>),
    Unique,
    Check(Seq<char>),
}

impl View for CreateColumnOptionsValues {
    type V = ColumnOptionView;

    open spec fn view(&self) -> ColumnOptionView {
        match self {
            CreateColumnOptionsValues::NonNullable => ColumnOptionView::NonNullable,
            CreateColumnOptionsValues::PrimaryKey => ColumnOptionView::PrimaryKey,
            CreateColumnOptionsValues::Default(s) => ColumnOptionView::Default(s@),
            CreateColumnOptionsValues::Unique => ColumnOptionView::Unique,
            CreateColumnOptionsValues::Check(s) => ColumnOptionView::Check(s@),
        }
    }
}

/// An option that a column adds to the table as a whole.
#[derive(Debug)]
pub enum CreateTableOptionValues {
    ForeignKey { table: String, column: String },
}

/// The model of a [`CreateTableOptionValues`].
pub enum TableOptionView {
    ForeignKey { table: Seq<char>, column: Seq<char> },
}

impl View for CreateTableOptionValues {
    type V = TableOptionView;

    open spec fn view(&self) -> TableOptionView {
        match self {
            CreateTableOptionValues::ForeignKey { table, column } => TableOptionView::ForeignKey {
                table: table@,
                column: column@,
            },
        }
    }
}

/// `s` with `x` added at the end unless it already holds it: inserting into
/// a set whose members are listed in the order they were first inserted.
pub open spec fn insert_once<A>(s: Seq<A>, x: A) -> Seq<A> {
    if s.contains(x) {
        s
    } else {
        s.push(x)
    }
}

/// The options of a column in a `CREATE TABLE`.
///
/// Both option lists are sets: an option occurs at most once. Every column
/// option is recorded with the ordering key 0, so the order in which they
/// are rendered is the order in which they were first set.
#[derive(Debug)]
pub struct CreateOptions {
    pub column_options: Vec<(u64, CreateColumnOptionsValues)>,
    pub table_options: Vec<CreateTableOptionValues>,
}

/// The model of [`CreateOptions`].
pub struct CreateOptionsView {
    pub column_options: Seq<(u64, ColumnOptionView)>,
    pub table_options: Seq<TableOptionView>,
}

impl View for CreateOptions {
    type V = CreateOptionsView;

    open spec fn view(&self) -> CreateOptionsView {
        CreateOptionsView {
            column_options: self.column_options@.map_values(
                |p: (u64, CreateColumnOptionsValues)| (p.0, p.1@),
            ),
            table_options: self.table_options@.map_values(|t: CreateTableOptionValues| t@),
        }
    }
}

impl CreateOptionsView {
    /// No option twice, and every column option carries the ordering key 0.
    pub open spec fn wf(self) -> bool {
        &&& self.column_options.no_duplicates()
        &&& self.table_options.no_duplicates()
        &&& forall|i: int| 0 <= i < self.column_options.len() ==> #[trigger] self.column_options[i].0 == 0
    }

    /// Whether the options may be used on a column of type `t`: a primary
    /// key must be an integer, and a default must parse as the column's
    /// number type when the column is an integer or a float.
    pub open spec fn valid_for(self, t: ColumnType) -> bool {
        forall|i: int|
            0 <= i < self.column_options.len() ==> option_valid_for(
                #[trigger] self.column_options[i].1,
                t,
            )
    }
}

/// Whether one column option may be used on a column of type `t`.
pub open spec fn option_valid_for(o: ColumnOptionView, t: ColumnType) -> bool {
    match o {
        ColumnOptionView::PrimaryKey => t == ColumnType::Integer,
        ColumnOptionView::Default(d) => match t {
            ColumnType::Integer => parse_i64_spec(d) is Some,
            ColumnType::Float => is_float_literal(d),
            _ => true,
        },
        _ => true,
    }
}

fn same_text(a: &String, b: &String) -> (r: bool)
    ensures
        r == (a@ == b@),
{
    *a == *b
}

fn same_column_option(a: &CreateColumnOptionsValues, b: &CreateColumnOptionsValues) -> (r: bool)
    ensures
        r == (a@ == b@),
{
    match (a, b) {
        (CreateColumnOptionsValues::NonNullable, CreateColumnOptionsValues::NonNullable) => true,
        (CreateColumnOptionsValues::PrimaryKey, CreateColumnOptionsValues::PrimaryKey) => true,
        (CreateColumnOptionsValues::Unique, CreateColumnOptionsValues::Unique) => true,
        (CreateColumnOptionsValues::Default(x), CreateColumnOptionsValues::Default(y)) => same_text(
            x,
            y,
        ),
        (CreateColumnOptionsValues::Check(x), CreateColumnOptionsValues::Check(y)) => same_text(
            x,
            y,
        ),
        _ => false,
    }
}

fn same_table_option(a: &CreateTableOptionValues, b: &CreateTableOptionValues) -> (r: bool)
    ensures
        r == (a@ == b@),
{
    match (a, b) {
        (
            CreateTableOptionValues::ForeignKey { table: t1, column: c1 },
            CreateTableOptionValues::ForeignKey { table: t2, column: c2 },
        ) => same_text(t1, t2) && same_text(c1, c2),
    }
}

/// Adds a column option (with ordering key 0) unless it is already there.
fn insert_column_option(
    options: &mut Vec<(u64, CreateColumnOptionsValues)>,
    option: CreateColumnOptionsValues,
)
    ensures
        final(options)@.map_values(|p: (u64, CreateColumnOptionsValues)| (p.0, p.1@)) == insert_once(
            old(options)@.map_values(|p: (u64, CreateColumnOptionsValues)| (p.0, p.1@)),
            (0u64, option@),
        ),
{
    let ghost before = options@.map_values(|p: (u64, CreateColumnOptionsValues)| (p.0, p.1@));
    let mut i: usize = 0;
    while i < options.len()
        invariant
            before == options@.map_values(|p: (u64, CreateColumnOptionsValues)| (p.0, p.1@)),
            i <= options.len(),
            forall|j: int| 0 <= j < i ==> before[j] != (0u64, option@),
        decreases options.len() - i,
    {
        if options[i].0 == 0 && same_column_option(&options[i].1, &option) {
            assert(before[i as int] == (0u64, option@));
            return;
        }
        i = i + 1;
    }
    assert(!before.contains((0u64, option@)));
    options.push((0, option));
    assert(options@.map_values(|p: (u64, CreateColumnOptionsValues)| (p.0, p.1@)) =~= before.push(
        (0u64, option@),
    ));
}

/// Adds a table option unless it is already there.
fn insert_table_option(options: &mut Vec<CreateTableOptionValues>, option: CreateTableOptionValues)
    ensures
        final(options)@.map_values(|t: CreateTableOptionValues| t@) == insert_once(
            old(options)@.map_values(|t: CreateTableOptionValues| t@),
            option@,
        ),
{
    let ghost before = options@.map_values(|t: CreateTableOptionValues| t@);
    let mut i: usize = 0;
    while i < options.len()
        invariant
            before == options@.map_values(|t: CreateTableOptionValues| t@),
            i <= options.len(),
            forall|j: int| 0 <= j < i ==> before[j] != option@,
        decreases options.len() - i,
    {
        if same_table_option(&options[i], &option) {
            assert(before[i as int] == option@);
            return;
        }
        i = i + 1;
    }
    assert(!before.contains(option@));
    options.push(option);
    assert(options@.map_values(|t: CreateTableOptionValues| t@) =~= before.push(option@));
}

proof fn lemma_insert_once_wf(o: CreateOptionsView, x: ColumnOptionView)
    requires
        o.wf(),
    ensures
        (CreateOptionsView {
            column_options: insert_once(o.column_options, (0u64, x)),
            ..o
        }).wf(),
{
    let s = insert_once(o.column_options, (0u64, x));
    if !o.column_options.contains((0u64, x)) {
        assert forall|i: int, j: int| 0 <= i < s.len() && 0 <= j < s.len() && i != j implies s[i]
            != s[j] by {
            if i == s.len() - 1 {
                assert(o.column_options[j] == s[j]);
            } else if j == s.len() - 1 {
                assert(o.column_options[i] == s[i]);
            }
        }
    }
}

proof fn lemma_insert_once_table_wf(o: CreateOptionsView, x: TableOptionView)
    requires
        o.wf(),
    ensures
        (CreateOptionsView { table_options: insert_once(o.table_options, x), ..o }).wf(),
{
    let s = insert_once(o.table_options, x);
    if !o.table_options.contains(x) {
        assert forall|i: int, j: int| 0 <= i < s.len() && 0 <= j < s.len() && i != j implies s[i]
            != s[j] by {
            if i == s.len() - 1 {
                assert(o.table_options[j] == s[j]);
            } else if j == s.len() - 1 {
                assert(o.table_options[i] == s[i]);
            }
        }
    }
}

impl Default for CreateOptions {
    /// No options at all.
    fn default() -> (r: Self)
        ensures
            r@.column_options.len() == 0,
            r@.table_options.len() == 0,
            r@.wf(),
    {
        let r = CreateOptions { column_options: Vec::new(), table_options: Vec::new() };
        assert(r@.column_options =~= Seq::<(u64, ColumnOptionView)>::empty());
        assert(r@.table_options =~= Seq::<TableOptionView>::empty());
        r
    }
}

impl CreateOptions {
    /// The column must not be null.
    pub fn set_non_nullable(self) -> (r: Self)
        requires
            self@.wf(),
        ensures
            r@.wf(),
            r@.column_options == insert_once(
                self@.column_options,
                (0u64, ColumnOptionView::NonNullable),
            ),
            r@.table_options == self@.table_options,
    {
        self.with_column_option(CreateColumnOptionsValues::NonNullable)
    }

    /// The column is the primary key. This implies that it is not null; the
    /// column should have the type `Integer`.
    pub fn set_primary_key(self) -> (r: Self)
        requires
            self@.wf(),
        ensures
            r@.wf(),
            r@.column_options == insert_once(
                insert_once(self@.column_options, (0u64, ColumnOptionView::NonNullable)),
                (0u64, ColumnOptionView::PrimaryKey),
            ),
            r@.table_options == self@.table_options,
    {
        let s = self.set_non_nullable();
        s.with_column_option(CreateColumnOptionsValues::PrimaryKey)
    }

    /// The column has a default value.
    pub fn set_default(self, value: String) -> (r: Self)
        requires
            self@.wf(),
        ensures
            r@.wf(),
            r@.column_options == insert_once(
                self@.column_options,
                (0u64, ColumnOptionView::Default(value@)),
            ),
            r@.table_options == self@.table_options,
    {
        self.with_column_option(CreateColumnOptionsValues::Default(value))
    }

    /// The column holds only distinct values.
    pub fn set_unique(self) -> (r: Self)
        requires
            self@.wf(),
        ensures
            r@.wf(),
            r@.column_options == insert_once(
                self@.column_options,
                (0u64, ColumnOptionView::Unique),
            ),
            r@.table_options == self@.table_options,
    {
        self.with_column_option(CreateColumnOptionsValues::Unique)
    }

    /// The column's values must pass a check: `set_check("value > 0")`
    /// renders as `CHECK(value > 0)`.
    pub fn set_check(self, value: String) -> (r: Self)
        requires
            self@.wf(),
        ensures
            r@.wf(),
            r@.column_options == insert_once(
                self@.column_options,
                (0u64, ColumnOptionView::Check(value@)),
            ),
            r@.table_options == self@.table_options,
    {
        self.with_column_option(CreateColumnOptionsValues::Check(value))
    }

    /// The column references `column` of `table`.
    pub fn set_foreign_key(self, table: &str, column: &str) -> (r: Self)
        requires
            self@.wf(),
        ensures
            r@.wf(),
            r@.column_options == self@.column_options,
            r@.table_options == insert_once(
                self@.table_options,
                TableOptionView::ForeignKey { table: table@, column: column@ },
            ),
    {
        let CreateOptions { column_options, mut table_options } = self;
        let option = CreateTableOptionValues::ForeignKey {
            table: table.to_string(),
            column: column.to_string(),
        };
        insert_table_option(&mut table_options, option);
        let r = CreateOptions { column_options, table_options };
        proof {
            lemma_insert_once_table_wf(self@, option@);
            assert(r@ == (CreateOptionsView {
                table_options: insert_once(self@.table_options, option@),
                ..self@
            }));
        }
        r
    }

    fn with_column_option(self, option: CreateColumnOptionsValues) -> (r: Self)
        requires
            self@.wf(),
        ensures
            r@.wf(),
            r@.column_options == insert_once(self@.column_options, (0u64, option@)),
            r@.table_options == self@.table_options,
    {
        let CreateOptions { mut column_options, table_options } = self;
        let ghost o = option@;
        insert_column_option(&mut column_options, option);
        let r = CreateOptions { column_options, table_options };
        proof {
            lemma_insert_once_wf(self@, o);
            assert(r@ == (CreateOptionsView {
                column_options: insert_once(self@.column_options, (0u64, o)),
                ..self@
            }));
        }
        r
    }

    /// Whether the options may be used on a column named `column_name` of
    /// type `column_type` (see [`CreateOptionsView::valid_for`]).
    pub fn validate(&self, column_name: &str, column_type: ColumnType) -> (r: bool)
        ensures
            r == self@.valid_for(column_type),
    {
        let mut i: usize = 0;
        while i < self.column_options.len()
            invariant
                i <= self.column_options.len(),
                forall|j: int|
                    0 <= j < i ==> option_valid_for(#[trigger] self@.column_options[j].1, column_type),
            decreases self.column_options.len() - i,
        {
            let ok = match &self.column_options[i].1 {
                CreateColumnOptionsValues::PrimaryKey => column_type == ColumnType::Integer,
                CreateColumnOptionsValues::Default(default) => match column_type {
                    ColumnType::Integer => parse_i64(default.as_str()).is_some(),
                    ColumnType::Float => is_valid_float(default.as_str()),
                    _ => true,
                },
                _ => true,
            };
            assert(self@.column_options[i as int].1 == self.column_options@[i as int].1@);
            if !ok {
                return false;
            }
            i = i + 1;
        }
        true
    }
}

// ---------------------------------------------------------------------------
// Columns
// ---------------------------------------------------------------------------

/// A column of a `CREATE TABLE` migration.
#[derive(Debug)]
pub struct CreateColumn {
    pub key: String,
    pub value: ColumnType,
    pub options: CreateOptions,
}

/// The model of a [`CreateColumn`].
pub struct CreateColumnView {
    pub key: Seq<char>,
    pub value: ColumnType,
    pub options: CreateOptionsView,
}

impl View for CreateColumn {
    type V = CreateColumnView;

    open spec fn view(&self) -> CreateColumnView {
        CreateColumnView { key: self.key@, value: self.value, options: self.options@ }
    }
}

impl CreateColumn {
    /// A column named `key` of type `value`. The options must be valid for
    /// the type (see [`CreateOptions::validate`]).
    pub fn new(key: &str, value: ColumnType, options: CreateOptions) -> (r: Self)
        requires
            options@.valid_for(value),
        ensures
            r@.key == key@,
            r@.value == value,
            r@.options == options@,
    {
        CreateColumn { key: key.to_string(), value, options }
    }
}

/// What a later migration does to an existing column.
#[derive(Debug)]
pub enum ModifyColumnOptionsValues {
    Rename { to: String },
    Drop,
    Add { new_type: ColumnType, new_options: CreateOptions },
}

/// The model of a [`ModifyColumnOptionsValues`].
pub enum ModifyOptionView {
    Rename { to: Seq<char> },
    Drop,
    Add { new_type: ColumnType, new_options: CreateOptionsView },
}

impl View for ModifyColumnOptionsValues {
    type V = ModifyOptionView;

    open spec fn view(&self) -> ModifyOptionView {
        match self {
            ModifyColumnOptionsValues::Rename { to } => ModifyOptionView::Rename { to: to@ },
            ModifyColumnOptionsValues::Drop => ModifyOptionView::Drop,
            ModifyColumnOptionsValues::Add { new_type, new_options } => ModifyOptionView::Add {
                new_type: *new_type,
                new_options: new_options@,
            },
        }
    }
}

/// A modification of the column `key`.
#[derive(Debug)]
pub struct ModifyColumn {
    pub key: String,
    pub options: ModifyColumnOptionsValues,
}

/// The model of a [`ModifyColumn`].
pub struct ModifyColumnView {
    pub key: Seq<char>,
    pub options: ModifyOptionView,
}

impl View for ModifyColumn {
    type V = ModifyColumnView;

    open spec fn view(&self) -> ModifyColumnView {
        ModifyColumnView { key: self.key@, options: self.options@ }
    }
}

impl ModifyColumn {
    /// The modification `options` of the column `key`.
    pub fn new(key: &str, options: ModifyColumnOptionsValues) -> (r: Self)
        ensures
            r@.key == key@,
            r@.options == options@,
    {
        ModifyColumn { key: key.to_string(), options }
    }
}

} // verus!
