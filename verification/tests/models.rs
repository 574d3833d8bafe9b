use django_rs::models::column::{
    ColumnType, ColumnValue, CreateColumn, CreateColumnOptionsValues, CreateOptions,
    CreateTableOptionValues, ModifyColumn, ModifyColumnOptionsValues,
};
use django_rs::models::group::Group;
use django_rs::models::migration::{
    columns_of, latest_column_name_in, sorted_order, MigrationKind, ModelMigration,
};
use django_rs::models::model::{
    column_type_name_of, row_values, FromIter, FromIterValue, Model, SaveData, SaveModel,
    ValidateSaveData,
};
use django_rs::models::model::{cell_to_i64, cell_to_text};
use django_rs::models::search::{MaybeSearchOp, SearchOp};

fn option_names(o: &CreateOptions) -> Vec<String> {
    o.column_options
        .iter()
        .map(|(_, v)| match v {
            CreateColumnOptionsValues::NonNullable => "nn".to_string(),
            CreateColumnOptionsValues::PrimaryKey => "pk".to_string(),
            CreateColumnOptionsValues::Default(d) => format!("default {d}"),
            CreateColumnOptionsValues::Unique => "unique".to_string(),
            CreateColumnOptionsValues::Check(c) => format!("check {c}"),
        })
        .collect()
}

#[test]
fn create_options_are_sets() {
    let o = CreateOptions::default()
        .set_unique()
        .set_non_nullable()
        .set_unique()
        .set_primary_key()
        .set_default("3".to_string())
        .set_default("3".to_string())
        .set_check("value > 0".to_string());
    assert_eq!(option_names(&o), vec!["unique", "nn", "pk", "default 3", "check value > 0"]);
    assert!(o.column_options.iter().all(|(k, _)| *k == 0));
}

#[test]
fn primary_key_implies_not_null() {
    let o = CreateOptions::default().set_primary_key();
    assert_eq!(option_names(&o), vec!["nn", "pk"]);
}

#[test]
fn foreign_keys_are_sets() {
    let o = CreateOptions::default()
        .set_foreign_key("groups", "id")
        .set_foreign_key("groups", "id")
        .set_foreign_key("users", "id");
    assert_eq!(o.table_options.len(), 2);
    match &o.table_options[1] {
        CreateTableOptionValues::ForeignKey { table, column } => {
            assert_eq!(table, "users");
            assert_eq!(column, "id");
        }
    }
}

#[test]
fn options_validate_against_type() {
    let pk = CreateOptions::default().set_primary_key();
    assert!(pk.validate("id", ColumnType::Integer));
    assert!(!pk.validate("id", ColumnType::String));

    let int_default = CreateOptions::default().set_default("12".to_string());
    assert!(int_default.validate("v", ColumnType::Integer));
    assert!(int_default.validate("v", ColumnType::Float));
    let bad_default = CreateOptions::default().set_default("abc".to_string());
    assert!(!bad_default.validate("v", ColumnType::Integer));
    assert!(!bad_default.validate("v", ColumnType::Float));
    assert!(bad_default.validate("v", ColumnType::String));
    assert!(bad_default.validate("v", ColumnType::Date));
    let float_default = CreateOptions::default().set_default("1.5e3".to_string());
    assert!(!float_default.validate("v", ColumnType::Integer));
    assert!(float_default.validate("v", ColumnType::Float));
}

fn renaming_path() -> Vec<ModelMigration> {
    vec![
        ModelMigration::new(
            2,
            MigrationKind::Modify(vec![ModifyColumn::new(
                "username",
                ModifyColumnOptionsValues::Rename { to: "login".to_string() },
            )]),
        ),
        ModelMigration::new(
            0,
            MigrationKind::Create(vec![
                CreateColumn::new("id", ColumnType::Integer, CreateOptions::default().set_primary_key()),
                CreateColumn::new("name", ColumnType::String, CreateOptions::default()),
                CreateColumn::new("email", ColumnType::String, CreateOptions::default()),
            ]),
        ),
        ModelMigration::new(
            1,
            MigrationKind::Modify(vec![
                ModifyColumn::new("name", ModifyColumnOptionsValues::Rename { to: "username".to_string() }),
                ModifyColumn::new("email", ModifyColumnOptionsValues::Drop),
                ModifyColumn::new(
                    "age",
                    ModifyColumnOptionsValues::Add {
                        new_type: ColumnType::Integer,
                        new_options: CreateOptions::default(),
                    },
                ),
            ]),
        ),
    ]
}

#[test]
fn migrations_apply_in_ordering() {
    let ms = renaming_path();
    assert_eq!(sorted_order(&ms), vec![1, 2, 0]);
    let equal = vec![
        ModelMigration::new(1, MigrationKind::Modify(vec![])),
        ModelMigration::new(0, MigrationKind::Modify(vec![])),
        ModelMigration::new(1, MigrationKind::Create(vec![])),
        ModelMigration::new(0, MigrationKind::Create(vec![])),
    ];
    assert_eq!(sorted_order(&equal), vec![1, 3, 0, 2]);
}

#[test]
fn latest_column_names_follow_renames() {
    let ms = renaming_path();
    assert_eq!(latest_column_name_in(&ms, "name"), Some("login".to_string()));
    assert_eq!(latest_column_name_in(&ms, "email"), None);
    assert_eq!(latest_column_name_in(&ms, "id"), Some("id".to_string()));
    assert_eq!(latest_column_name_in(&ms, "age"), Some("age".to_string()));
    assert_eq!(latest_column_name_in(&ms, "username"), Some("login".to_string()));
}

#[test]
fn columns_under_current_names() {
    let ms = vec![
        ModelMigration::new(
            0,
            MigrationKind::Create(vec![
                CreateColumn::new("id", ColumnType::Integer, CreateOptions::default()),
                CreateColumn::new("name", ColumnType::String, CreateOptions::default()),
            ]),
        ),
        ModelMigration::new(
            1,
            MigrationKind::Modify(vec![ModifyColumn::new(
                "name",
                ModifyColumnOptionsValues::Rename { to: "title".to_string() },
            )]),
        ),
    ];
    assert_eq!(
        columns_of(&ms),
        Some(vec![("id".to_string(), ColumnType::Integer), ("title".to_string(), ColumnType::String)])
    );
    assert_eq!(columns_of(&renaming_path()), None);
    assert_eq!(columns_of(&vec![]), None);
}

#[test]
fn group_model() {
    assert_eq!(Group::TABLE_NAME, "groups");
    assert_eq!(
        Group::get_columns(),
        vec![("id".to_string(), ColumnType::Integer), ("name".to_string(), ColumnType::String)]
    );
    let mut g = Group { id: None, name: "admins".to_string() };
    assert_eq!(g.get_id(), None);
    assert_eq!(g.validate_save_data(), None);
    g.set_id(7);
    assert_eq!(g.get_id(), Some(7));
    let data = g.get_save_data();
    assert_eq!(data.len(), 2);
    assert_eq!(data[0].key, "id");
    assert!(matches!(data[0].value, ColumnValue::Integer(7)));
    assert!(matches!(&data[1].value, ColumnValue::String(s) if s == "admins"));
    assert_eq!(g.get_id_column_name(), "id");
    assert_eq!(g.self_get_table_name(), "groups");
}

#[test]
fn group_from_row() {
    let cells = vec![
        FromIterValue { column_name: "id".to_string(), column_value: "3".to_string(), column_type: ColumnType::Integer },
        FromIterValue { column_name: "name".to_string(), column_value: "ops".to_string(), column_type: ColumnType::String },
    ];
    let g = Group::from_iter(cells).unwrap();
    assert_eq!(g.id, Some(3));
    assert_eq!(g.name, "ops");
    let bad = vec![FromIterValue {
        column_name: "id".to_string(),
        column_value: "x".to_string(),
        column_type: ColumnType::Integer,
    }];
    assert!(Group::from_iter(bad).is_none());
}

#[test]
fn rows_need_every_cell() {
    let columns = vec![("id".to_string(), ColumnType::Integer), ("name".to_string(), ColumnType::String)];
    let row = row_values(&columns, &vec![Some("1".to_string()), Some("a".to_string())]).unwrap();
    assert_eq!(row.len(), 2);
    assert_eq!(row[1].column_name, "name");
    assert_eq!(row[1].column_value, "a");
    assert_eq!(row[1].column_type, ColumnType::String);
    assert!(row_values(&columns, &vec![Some("1".to_string()), None]).is_none());
}

struct Partial {
    id: Option<i64>,
}

impl Model for Partial {
    const TABLE_NAME: &'static str = "partial";
    fn get_migration() -> Vec<ModelMigration> {
        vec![ModelMigration::new(
            0,
            MigrationKind::Create(vec![
                CreateColumn::new("id", ColumnType::Integer, CreateOptions::default()),
                CreateColumn::new("a", ColumnType::Float, CreateOptions::default()),
                CreateColumn::new("b", ColumnType::Json, CreateOptions::default()),
            ]),
        )]
    }
    fn get_id(&self) -> Option<i64> {
        self.id
    }
    fn set_id(&mut self, id: i64) {
        self.id = Some(id);
    }
}

impl SaveData for Partial {
    fn get_save_data(&self) -> Vec<SaveModel> {
        vec![SaveModel::new("id", ColumnValue::Null)]
    }
}

#[test]
fn save_data_validation_reports_missing_columns() {
    let p = Partial { id: None };
    assert_eq!(p.validate_save_data(), Some(vec!["a Float".to_string(), "b Json".to_string()]));
}

struct NoId;

impl Model for NoId {
    const TABLE_NAME: &'static str = "noid";
    fn get_migration() -> Vec<ModelMigration> {
        vec![ModelMigration::new(
            0,
            MigrationKind::Create(vec![CreateColumn::new("key", ColumnType::String, CreateOptions::default())]),
        )]
    }
    fn get_id(&self) -> Option<i64> {
        None
    }
    fn set_id(&mut self, _id: i64) {}
}

impl SaveData for NoId {
    fn get_save_data(&self) -> Vec<SaveModel> {
        vec![SaveModel::new("key", ColumnValue::String("k".to_string()))]
    }
}

#[test]
fn save_data_validation_requires_an_id_column() {
    assert_eq!(NoId.validate_save_data(), Some(vec!["id (Integer)".to_string()]));
}

#[test]
fn type_names() {
    assert_eq!(column_type_name_of(ColumnType::Bool), "Bool");
    assert_eq!(column_type_name_of(ColumnType::Date), "Date");
}

#[test]
fn search_operators() {
    for (text, op) in [
        ("=", SearchOp::EQ),
        ("!=", SearchOp::NEQ),
        ("<", SearchOp::LT),
        ("<=", SearchOp::LTEQ),
        (">", SearchOp::GT),
        (">=", SearchOp::GTEQ),
    ] {
        assert_eq!(SearchOp::parse(text), Some(op));
        assert_eq!(op.to_string(), text);
        assert_eq!(MaybeSearchOp::from_text(text).get(), Some(op));
    }
    assert_eq!(SearchOp::parse("=="), None);
    assert_eq!(MaybeSearchOp::from_text("<>").get(), None);
}

#[test]
fn group_reads_back_saved_row() {
    let g = Group { id: Some(-42), name: "night shift".to_string() };
    let data = g.get_save_data();
    let cells: Vec<FromIterValue> = data
        .iter()
        .map(|d| FromIterValue {
            column_name: d.key.clone(),
            column_value: match &d.value {
                ColumnValue::Integer(i) => django_rs::text::i64_to_decimal(*i),
                ColumnValue::String(s) => s.clone(),
                _ => String::new(),
            },
            column_type: match &d.value {
                ColumnValue::Integer(_) => ColumnType::Integer,
                _ => ColumnType::String,
            },
        })
        .collect();
    let back = Group::from_iter(cells).unwrap();
    assert_eq!(back.id, Some(-42));
    assert_eq!(back.name, "night shift");
}

#[test]
fn column_values_from_plain_values() {
    assert!(matches!(ColumnValue::from(5i64), ColumnValue::Integer(5)));
    assert!(matches!(ColumnValue::from(-3i32), ColumnValue::Integer(-3)));
    assert!(matches!(ColumnValue::from("x".to_string()), ColumnValue::String(s) if s == "x"));
    assert!(ColumnValue::Null.is_null());
    assert!(!ColumnValue::from(0i64).is_null());
}

#[test]
fn dropped_column_stays_dropped() {
    let ms = vec![
        ModelMigration::new(
            0,
            MigrationKind::Create(vec![CreateColumn::new("a", ColumnType::String, CreateOptions::default())]),
        ),
        ModelMigration::new(
            1,
            MigrationKind::Modify(vec![
                ModifyColumn::new("a", ModifyColumnOptionsValues::Rename { to: "b".to_string() }),
                ModifyColumn::new("a", ModifyColumnOptionsValues::Drop),
                ModifyColumn::new("b", ModifyColumnOptionsValues::Rename { to: "c".to_string() }),
            ]),
        ),
    ];
    assert_eq!(latest_column_name_in(&ms, "a"), None);
}

#[test]
fn migration_list_order_does_not_matter() {
    let mut reversed = renaming_path();
    reversed.reverse();
    for name in ["name", "email", "id", "age", "username"] {
        assert_eq!(latest_column_name_in(&renaming_path(), name), latest_column_name_in(&reversed, name));
    }
    assert_eq!(sorted_order(&renaming_path()), vec![1, 2, 0]);
    assert_eq!(sorted_order(&reversed), vec![1, 0, 2]);
}

fn cell(name: &str, value: &str, column_type: ColumnType) -> FromIterValue {
    FromIterValue { column_name: name.to_string(), column_value: value.to_string(), column_type }
}

#[test]
fn group_cells_are_read_by_their_type() {
    // an id stored as text is not an integer
    assert!(Group::from_iter(vec![
        cell("id", "5", ColumnType::String),
        cell("name", "ops", ColumnType::String),
    ])
    .is_none());
    // JSON cells go through the JSON decoder
    let g = Group::from_iter(vec![
        cell("id", " 5 ", ColumnType::Json),
        cell("name", "\"ops\"", ColumnType::Json),
    ])
    .unwrap();
    assert_eq!(g.id, Some(5));
    assert_eq!(g.name, "ops");
    // a date column reads as text; an integer column does not
    assert_eq!(
        Group::from_iter(vec![cell("id", "1", ColumnType::Integer), cell("name", "2024", ColumnType::Date)])
            .unwrap()
            .name,
        "2024"
    );
    assert!(Group::from_iter(vec![cell("id", "1", ColumnType::Integer), cell("name", "2", ColumnType::Integer)])
        .is_none());
    assert!(Group::from_iter(vec![cell("id", "1", ColumnType::Bool), cell("name", "a", ColumnType::String)])
        .is_none());
    assert!(Group::from_iter(vec![cell("id", "1.0", ColumnType::Json), cell("name", "a", ColumnType::String)])
        .is_none());
}

#[test]
fn cells_read_into_fields() {
    assert_eq!(cell_to_i64(&cell("x", "-12", ColumnType::Integer)), Some(-12));
    assert_eq!(cell_to_i64(&cell("x", "12", ColumnType::Float)), None);
    assert_eq!(cell_to_i64(&cell("x", "[1]", ColumnType::Json)), None);
    assert_eq!(cell_to_text(&cell("x", "abc", ColumnType::String)), Some("abc".to_string()));
    assert_eq!(cell_to_text(&cell("x", "abc", ColumnType::Json)), None);
    assert_eq!(cell_to_text(&cell("x", "1", ColumnType::Bool)), None);
}
