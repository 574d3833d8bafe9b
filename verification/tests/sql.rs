use django_rs::database::{
    check_migration_path, first_model, found_models, last_migration, plan_migration_step,
    DatabaseStrategyError, MigrationStep, MIGRATIONS_TABLE_SQL,
};
use django_rs::models::column::{
    ColumnType, ColumnValue, CreateColumn, CreateOptions, ModifyColumn, ModifyColumnOptionsValues,
};
use django_rs::models::group::Group;
use django_rs::models::model::{Model, SaveData, SaveModel};
use django_rs::models::migration::{MigrationKind, ModelMigration};
use django_rs::models::search::{SearchConstraint, SearchOp, SearchOrderByOptions, SearchQuery};
use django_rs::sqlite::ddl::{
    alter_table_statement, create_table_statement, match_column_type, match_create_column_options,
    match_modify_column_options,
};
use django_rs::sqlite::query::{remove_statement, search_statement};
use django_rs::sqlite::save::{save_statement, SaveStatement};

#[test]
fn column_types_in_sqlite() {
    assert_eq!(match_column_type(&ColumnType::String), "TEXT");
    assert_eq!(match_column_type(&ColumnType::Integer), "INTEGER");
    assert_eq!(match_column_type(&ColumnType::Float), "REAL");
    assert_eq!(match_column_type(&ColumnType::Date), "TEXT");
    assert_eq!(match_column_type(&ColumnType::Json), "TEXT");
    assert_eq!(match_column_type(&ColumnType::Bool), "INTEGER");
}

#[test]
fn column_options_in_sqlite() {
    let o = CreateOptions::default()
        .set_primary_key()
        .set_default("0".to_string())
        .set_check("id > 0".to_string());
    assert_eq!(
        match_create_column_options(&o, "id"),
        "NOT NULL  PRIMARY KEY  DEFAULT 0  CHECK(id > 0)"
    );
    assert_eq!(match_create_column_options(&CreateOptions::default(), "id"), "");
}

#[test]
fn create_table_for_group() {
    let ms = <Group as django_rs::models::model::Model>::get_migration();
    let cols = match &ms[0].kind {
        MigrationKind::Create(cols) => cols,
        MigrationKind::Modify(_) => panic!("first migration creates"),
    };
    assert_eq!(
        create_table_statement("groups", cols),
        "CREATE TABLE groups (\n\tid INTEGER NOT NULL  PRIMARY KEY,\n\tname TEXT NOT NULL  UNIQUE\n)"
    );
}

#[test]
fn create_table_with_foreign_key() {
    let cols = vec![
        CreateColumn::new("id", ColumnType::Integer, CreateOptions::default().set_primary_key()),
        CreateColumn::new(
            "group_id",
            ColumnType::Integer,
            CreateOptions::default().set_foreign_key("groups", "id"),
        ),
    ];
    assert_eq!(
        create_table_statement("Users", &cols),
        "CREATE TABLE Users (\n\tid INTEGER NOT NULL  PRIMARY KEY,\n\tgroup_id INTEGER \
         ,\n\tFOREIGN KEY (group_id) REFERENCES groups(id)\n)"
    );
}

#[test]
fn alter_statements() {
    let rename = ModifyColumn::new("name", ModifyColumnOptionsValues::Rename { to: "title".to_string() });
    assert_eq!(alter_table_statement("t", &rename), "ALTER TABLE t\nRENAME COLUMN name TO title;");
    let drop = ModifyColumn::new("x", ModifyColumnOptionsValues::Drop);
    assert_eq!(alter_table_statement("t", &drop), "ALTER TABLE t\nDROP COLUMN x;");
    let add = ModifyColumnOptionsValues::Add {
        new_type: ColumnType::Float,
        new_options: CreateOptions::default().set_non_nullable(),
    };
    assert_eq!(match_modify_column_options(&add, "price"), "ADD COLUMN price REAL NOT NULL");
}

#[test]
fn migration_steps() {
    let create = ModelMigration::new(
        0,
        MigrationKind::Create(vec![CreateColumn::new("id", ColumnType::Integer, CreateOptions::default())]),
    );
    match plan_migration_step("t", 0, &create, None).unwrap() {
        MigrationStep::CreateTable(sql) => assert_eq!(sql, "CREATE TABLE t (\n\tid INTEGER \n)"),
        other => panic!("unexpected {other:?}"),
    }
    assert!(matches!(plan_migration_step("t", 0, &create, Some(0)).unwrap(), MigrationStep::AlreadyApplied));
    match plan_migration_step("t", 2, &create, Some(1)) {
        Err(DatabaseStrategyError::MigrateModel(msg)) => assert_eq!(
            msg,
            "Can only create a table at the first iteration, not at iteration 2"
        ),
        other => panic!("unexpected {other:?}"),
    }
    let modify = ModelMigration::new(
        1,
        MigrationKind::Modify(vec![
            ModifyColumn::new("a", ModifyColumnOptionsValues::Drop),
            ModifyColumn::new("b", ModifyColumnOptionsValues::Rename { to: "c".to_string() }),
        ]),
    );
    match plan_migration_step("t", 1, &modify, Some(0)).unwrap() {
        MigrationStep::Alter(v) => assert_eq!(
            v,
            vec!["ALTER TABLE t\nDROP COLUMN a;".to_string(), "ALTER TABLE t\nRENAME COLUMN b TO c;".to_string()]
        ),
        other => panic!("unexpected {other:?}"),
    }
    assert!(matches!(plan_migration_step("t", 1, &modify, Some(5)).unwrap(), MigrationStep::AlreadyApplied));
}

#[test]
fn migration_path_must_not_be_empty() {
    match check_migration_path("groups", &vec![]) {
        Err(DatabaseStrategyError::MigrateModel(msg)) => assert_eq!(
            msg,
            "Migration for model groups needs to have at least one migration!"
        ),
        other => panic!("unexpected {other:?}"),
    }
    assert!(check_migration_path("groups", &Group_migrations()).is_ok());
}

#[allow(non_snake_case)]
fn Group_migrations() -> Vec<ModelMigration> {
    <Group as django_rs::models::model::Model>::get_migration()
}

#[test]
fn last_recorded_migration() {
    assert_eq!(last_migration(&vec![]), None);
    assert_eq!(last_migration(&vec![0, 2, 1]), Some(2));
    assert!(MIGRATIONS_TABLE_SQL.starts_with("CREATE TABLE _migrations"));
}

#[test]
fn search_sql() {
    let q = SearchQuery::empty()
        .add_constraint(SearchConstraint::equals("name", ColumnValue::String("ops".to_string())))
        .set_limit(1);
    let st = search_statement::<Group>(&q);
    assert_eq!(st.sql, "SELECT * FROM groups WHERE name = (?1) LIMIT 1");
    assert_eq!(st.params.len(), 1);
    assert!(matches!(&st.params[0], ColumnValue::String(s) if s == "ops"));

    let q = SearchQuery::empty()
        .set_limit(5)
        .add_constraint(SearchConstraint::new("id", SearchOp::GT, ColumnValue::Integer(3)))
        .add_constraint(SearchConstraint::new("name", SearchOp::NEQ, ColumnValue::Null))
        .add_order_by(vec![("name".to_string(), Some(SearchOrderByOptions::Desc)), ("id".to_string(), None)])
        .select_max()
        .select_columns(vec!["id".to_string(), "name".to_string()]);
    let st = search_statement::<Group>(&q);
    assert_eq!(
        st.sql,
        "SELECT MAX(id, name) FROM groups WHERE id > (?1) AND name != (?2) Order by name DESC,id LIMIT 5"
    );
    assert!(matches!(st.params[0], ColumnValue::Integer(3)));
    assert!(matches!(st.params[1], ColumnValue::Null));

    let st = search_statement::<Group>(&SearchQuery::empty());
    assert_eq!(st.sql, "SELECT * FROM groups");
    assert!(st.params.is_empty());
}

#[test]
fn limit_set_twice_is_kept_once() {
    let q = SearchQuery::empty().set_limit(1).set_limit(1);
    assert_eq!(q.post_options.len(), 1);
    let q = q.set_limit(2);
    assert_eq!(q.post_options.len(), 2);
    assert_eq!(search_statement::<Group>(&q).sql, "SELECT * FROM groups LIMIT 1 LIMIT 2");
}

#[test]
fn delete_sql() {
    let q = SearchQuery::empty()
        .add_constraint(SearchConstraint::new("name", SearchOp::LT, ColumnValue::String("x".to_string())))
        .add_constraint(SearchConstraint::equals("id", ColumnValue::Integer(2)));
    let st = remove_statement::<Group>(&q);
    assert_eq!(st.sql, "DELETE FROM groups WHERE name = (?1) AND id = (?2)");
    assert_eq!(st.params.len(), 2);
    assert_eq!(remove_statement::<Group>(&SearchQuery::empty()).sql, "DELETE FROM groups");
}

#[test]
fn save_inserts_without_id() {
    let g = Group { id: None, name: "admins".to_string() };
    match save_statement(&g, true, "Group").unwrap() {
        SaveStatement::Insert { statement, id_column } => {
            assert_eq!(statement.sql, "INSERT INTO groups (name) VALUES (?1) RETURNING id");
            assert_eq!(id_column, "id");
            assert_eq!(statement.params.len(), 1);
            assert!(matches!(&statement.params[0], ColumnValue::String(s) if s == "admins"));
        }
        other => panic!("unexpected {other:?}"),
    }
}

#[test]
fn save_updates_with_id() {
    let g = Group { id: Some(3), name: "ops".to_string() };
    match save_statement(&g, true, "Group").unwrap() {
        SaveStatement::Update(statement) => {
            assert_eq!(statement.sql, "UPDATE groups SET name = ?1 WHERE id = 3");
            assert_eq!(statement.params.len(), 1);
        }
        other => panic!("unexpected {other:?}"),
    }
}

#[test]
fn save_needs_the_table() {
    let g = Group { id: None, name: "x".to_string() };
    match save_statement(&g, false, "Group") {
        Err(DatabaseStrategyError::SaveModel { err, model }) => {
            assert_eq!(err, "Table 'groups' does not exist. Did you forget to call 'migrate_model'?");
            assert_eq!(model, "Group");
        }
        other => panic!("unexpected {other:?}"),
    }
}

struct Unmigrated;

impl Model for Unmigrated {
    const TABLE_NAME: &'static str = "unmigrated";
    fn get_migration() -> Vec<ModelMigration> {
        vec![]
    }
    fn get_id(&self) -> Option<i64> {
        None
    }
    fn set_id(&mut self, _id: i64) {}
}

impl SaveData for Unmigrated {
    fn get_save_data(&self) -> Vec<SaveModel> {
        vec![]
    }
}

#[test]
fn save_reports_missing_table_for_any_model() {
    match save_statement(&Unmigrated, false, "Unmigrated") {
        Err(DatabaseStrategyError::SaveModel { err, model }) => {
            assert_eq!(err, "Table 'unmigrated' does not exist. Did you forget to call 'migrate_model'?");
            assert_eq!(model, "Unmigrated");
        }
        other => panic!("unexpected {other:?}"),
    }
}

#[test]
fn second_migration_run_applies_nothing() {
    let path = Group_migrations();
    let recorded: Vec<i64> = (0..path.len() as i64).collect();
    let last = last_migration(&recorded);
    for (i, m) in path.iter().enumerate() {
        assert!(matches!(plan_migration_step("groups", i, m, last).unwrap(), MigrationStep::AlreadyApplied));
    }
}

#[test]
fn search_results_keep_found_rows_in_order() {
    assert_eq!(found_models(vec![Some(1), None, Some(3), None]), vec![1, 3]);
    assert_eq!(found_models::<u8>(vec![None, None]), Vec::<u8>::new());
    assert_eq!(first_model(vec![7, 8]), Some(7));
    assert_eq!(first_model::<u8>(vec![]), None);
}

#[test]
fn second_run_over_an_existing_table_only_meets_the_creation() {
    // the table existed before the first run, so its creation was skipped
    // and nothing was recorded; the second run meets the creation again and
    // skips it again
    let path = Group_migrations();
    assert!(matches!(plan_migration_step("groups", 0, &path[0], None).unwrap(), MigrationStep::CreateTable(_)));
}
