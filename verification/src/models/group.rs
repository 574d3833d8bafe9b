//! `Group`: a model with an id and a unique, non-null name, stored in the
//! table `groups`.

use vstd::prelude::*;
use crate::models::column::{
    ColumnOptionView, ColumnType, ColumnValue, ColumnValueView, CreateColumn, CreateColumnView,
    CreateOptions, CreateOptionsView, TableOptionView,
};
use crate::models::migration::{
    latest_column_name, migrations_view, sort_by_ordering, modifications, rename_state, MigrationKind,
    MigrationKindView, MigrationView, ModelMigration, insertion_point,
};
use crate::models::model::{cell_as_i64, cell_as_text, cell_to_i64, cell_to_text, FromIter, FromIterValue, FromIterValueView, Model, SaveData, SaveModel, SaveModelView, save_view};

verus! {

/// A group of users.
#[derive(Debug)]
pub struct Group {
    pub id: Option<i64>,
    pub name: String,
}

/// The options of the `id` column: not null, primary key.
pub open spec fn group_id_options() -> CreateOptionsView {
    CreateOptionsView {
        column_options: seq![(0u64, ColumnOptionView::NonNullable), (0u64, ColumnOptionView::PrimaryKey)],
        table_options: Seq::empty(),
    }
}

/// The options of the `name` column: not null, unique.
pub open spec fn group_name_options() -> CreateOptionsView {
    CreateOptionsView {
        column_options: seq![(0u64, ColumnOptionView::NonNullable), (0u64, ColumnOptionView::Unique)],
        table_options: Seq::empty(),
    }
}

/// The migration path of `Group`: one migration creating `id` and `name`.
pub open spec fn group_migrations() -> Seq<MigrationView> {
    seq![MigrationView {
        ordering: 0,
        kind: MigrationKindView::Create(seq![
            CreateColumnView { key: "id"@, value: ColumnType::Integer, options: group_id_options() },
            CreateColumnView { key: "name"@, value: ColumnType::String, options: group_name_options() },
        ]),
    }]
}

/// A path of one create migration renames nothing.
pub proof fn lemma_single_create_names(m: MigrationView, c: Seq<char>)
    requires
        m.kind is Create,
    ensures
        latest_column_name(seq![m], c) == Some(c),
{
    let s = seq![m];
    assert(s.drop_last() =~= Seq::<MigrationView>::empty());
    assert(sort_by_ordering(s.drop_last()) =~= Seq::<MigrationView>::empty());
    assert(insertion_point(Seq::<MigrationView>::empty(), m.ordering) == 0);
    assert(sort_by_ordering(s) =~= s);
    assert(modifications(s.drop_last()) =~= Seq::<crate::models::column::ModifyColumnView>::empty());
    assert(modifications(s) =~= Seq::<crate::models::column::ModifyColumnView>::empty());
}

impl Model for Group {
    const TABLE_NAME: &'static str = "groups";

    open spec fn migration_spec() -> Seq<MigrationView> {
        group_migrations()
    }

    open spec fn id_spec(&self) -> Option<i64> {
        self.id
    }

    fn get_migration() -> (r: Vec<ModelMigration>) {
        let id = CreateColumn::new("id", ColumnType::Integer, CreateOptions::default().set_primary_key());
        let name = CreateColumn::new(
            "name",
            ColumnType::String,
            CreateOptions::default().set_non_nullable().set_unique(),
        );
        let cols = vec![id, name];
        let r = vec![ModelMigration::new(0, MigrationKind::Create(cols))];
        proof {
            assert(id@.options.column_options =~= group_id_options().column_options);
            assert(id@.options.table_options =~= group_id_options().table_options);
            assert(name@.options.column_options =~= group_name_options().column_options);
            assert(name@.options.table_options =~= group_name_options().table_options);
            assert(cols@.map_values(|c: CreateColumn| c@) =~= seq![
                CreateColumnView { key: "id"@, value: ColumnType::Integer, options: group_id_options() },
                CreateColumnView { key: "name"@, value: ColumnType::String, options: group_name_options() },
            ]);
            assert(migrations_view(r@) =~= group_migrations());
        }
        r
    }

    fn get_id(&self) -> (r: Option<i64>) {
        self.id
    }

    fn set_id(&mut self, id: i64) {
        self.id = Some(id);
    }
}

/// What `Group` saves: its id (null when it has none) and its name.
pub open spec fn group_save_data(g: &Group) -> Seq<SaveModelView> {
    seq![
        SaveModelView {
            key: "id"@,
            value: match g.id {
                Some(i) => ColumnValueView::Integer(i),
                None => ColumnValueView::Null,
            },
        },
        SaveModelView { key: "name"@, value: ColumnValueView::String(g.name@) },
    ]
}

impl SaveData for Group {
    open spec fn save_data_spec(&self) -> Seq<SaveModelView> {
        group_save_data(self)
    }

    fn get_save_data(&self) -> (r: Vec<SaveModel>) {
        proof {
            lemma_single_create_names(group_migrations()[0], "id"@);
            lemma_single_create_names(group_migrations()[0], "name"@);
            assert(seq![group_migrations()[0]] =~= group_migrations());
        }
        let id_column = match Group::get_latest_column_name("id") {
            Some(n) => n,
            None => {
                assert(false);
                String::new()
            },
        };
        let name_column = match Group::get_latest_column_name("name") {
            Some(n) => n,
            None => {
                assert(false);
                String::new()
            },
        };
        let id_value = match self.id {
            Some(i) => ColumnValue::Integer(i),
            None => ColumnValue::Null,
        };
        let r = vec![
            SaveModel::new(id_column.as_str(), id_value),
            SaveModel::new(name_column.as_str(), ColumnValue::String(self.name.clone())),
        ];
        assert(save_view(r@) =~= group_save_data(self));
        r
    }
}

/// The fields that the cells of a row give a group, reading the cells in
/// order: the last `id` cell read as an integer (see [`cell_as_i64`]), and
/// the last `name` cell read as text (see [`cell_as_text`]).
pub open spec fn group_fields(cells: Seq<FromIterValueView>) -> (Option<i64>, Option<Seq<char>>)
    decreases cells.len(),
{
    if cells.len() == 0 {
        (None, None)
    } else {
        let (id, name) = group_fields(cells.drop_last());
        let c = cells.last();
        (
            if c.column_name == "id"@ {
                cell_as_i64(c)
            } else {
                id
            },
            if c.column_name == "name"@ {
                cell_as_text(c)
            } else {
                name
            },
        )
    }
}

impl Group {
    /// A group from the cells `id` and `name` of a row (see
    /// [`group_fields`]); `None` when one is missing or cannot be read into
    /// its field.
    pub fn from_cells(iter: Vec<FromIterValue>) -> (r: Option<Self>)
        ensures
            r matches Some(g) ==> group_fields(iter@.map_values(|x: FromIterValue| x@)) == (
                g.id,
                Some(g.name@),
            ) && g.id is Some,
            r is None ==> group_fields(iter@.map_values(|x: FromIterValue| x@)).0 is None
                || group_fields(iter@.map_values(|x: FromIterValue| x@)).1 is None,
    {
        proof {
            lemma_single_create_names(group_migrations()[0], "id"@);
            lemma_single_create_names(group_migrations()[0], "name"@);
            assert(seq![group_migrations()[0]] =~= group_migrations());
        }
        let ghost cells = iter@.map_values(|x: FromIterValue| x@);
        let mut id: Option<i64> = None;
        let mut name: Option<String> = None;
        let id_column = match Group::get_latest_column_name("id") {
            Some(n) => n,
            None => {
                assert(false);
                String::new()
            },
        };
        let name_column = match Group::get_latest_column_name("name") {
            Some(n) => n,
            None => {
                assert(false);
                String::new()
            },
        };
        let mut i: usize = 0;
        while i < iter.len()
            invariant
                i <= iter.len(),
                cells == iter@.map_values(|x: FromIterValue| x@),
                id_column@ == "id"@,
                name_column@ == "name"@,
                group_fields(cells.take(i as int)) == (
                    id,
                    match name {
                        Some(n) => Some(n@),
                        None => None::<Seq<char>>,
                    },
                ),
            decreases iter.len() - i,
        {
            let cell = &iter[i];
            assert(cells.take(i as int + 1).drop_last() =~= cells.take(i as int));
            assert(cells.take(i as int + 1).last() == cell@);
            if cell.column_name == id_column {
                id = cell_to_i64(cell);
            }
            if cell.column_name == name_column {
                name = cell_to_text(cell);
            }
            i = i + 1;
        }
        assert(cells.take(iter.len() as int) =~= cells);
        match (id, name) {
            (Some(id), Some(name)) => Some(Group { id: Some(id), name }),
            _ => None,
        }
    }
}

impl FromIter for Group {
    /// See [`Group::from_cells`].
    fn from_iter(iter: Vec<FromIterValue>) -> (r: Option<Self>)
        ensures
            r matches Some(g) ==> group_fields(iter@.map_values(|x: FromIterValue| x@)) == (
                g.id,
                Some(g.name@),
            ) && g.id is Some,
            r is None ==> group_fields(iter@.map_values(|x: FromIterValue| x@)).0 is None
                || group_fields(iter@.map_values(|x: FromIterValue| x@)).1 is None,
    {
        Group::from_cells(iter)
    }
}

} // verus!
