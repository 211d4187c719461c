use cargobase::{
    Column, Columns, Database, DatabaseError, Json, Operation, Row, Stored, Table,
};

fn text(value: &str) -> Json {
    Json::String(value.to_string())
}

fn object(members: Vec<(&str, Json)>) -> Json {
    Json::Object(members.into_iter().map(|(key, value)| (key.to_string(), value)).collect())
}

fn test_data_columns() -> Columns {
    let fields = vec!["id".to_string(), "name".to_string()];
    Columns::from_struct_ordered(&fields, true)
}

/// A database with one empty table, `TestTable`, whose columns are the
/// required `id` and `name`.
fn setup_temp_db() -> Database {
    let (mut db, _) = Database::new("temp_db", Stored::Missing);
    let mut table = Table::new("TestTable".to_string(), test_data_columns());
    db.add_table(&mut table).unwrap();
    db
}

fn blank(name: &str) -> Database {
    Database { name: name.to_string(), file_name: format!("{name}.json"), tables: Vec::new() }
}

#[test]
fn test_setup_temp_db() {
    let db = setup_temp_db();
    assert_eq!(db.tables.len(), 1);
    assert_eq!(db.tables[0].name, "TestTable");
}

#[test]
fn test_database_new() {
    let db = setup_temp_db();

    let db_name = &db.name.to_string();
    let fnn = format!("{db_name}.json");

    assert_eq!(db.name, db_name.to_string());
    assert_eq!(db.file_name, fnn);
    assert_eq!(db.tables.len(), 1); // the setup_temp_db function adds a table
}

#[test]
fn new_without_a_file_starts_empty_and_asks_for_the_file() {
    let (db, create_file) = Database::new("shop", Stored::Missing);
    assert_eq!(db, blank("shop"));
    assert_eq!(db.file_name, "shop.json");
    assert!(create_file);
    assert_eq!(Database::file_name_for("shop"), "shop.json");
    assert_eq!(Database::file_name_for(""), ".json");
    assert_eq!(Database::empty("shop"), blank("shop"));
}

#[test]
fn new_with_a_stored_database_is_that_database() {
    let stored = setup_temp_db();
    let (db, create_file) = Database::new("another_name", Stored::Document(stored.to_document()));
    assert_eq!(db, stored);
    assert_eq!(db.name, "temp_db");
    assert!(!create_file);
}

#[test]
fn new_with_a_file_that_holds_no_database_starts_empty_and_leaves_the_file() {
    // the placeholder that a new backing file holds
    let (db, create_file) = Database::new("shop", Stored::Document(object(vec![])));
    assert_eq!(db, blank("shop"));
    assert!(!create_file);

    let (db, create_file) = Database::new("shop", Stored::Document(Json::Array(vec![])));
    assert_eq!(db, blank("shop"));
    assert!(!create_file);

    let (db, create_file) = Database::new("shop", Stored::Unreadable);
    assert_eq!(db, blank("shop"));
    assert!(!create_file);
}

#[test]
fn test_drop_database() {
    let db = setup_temp_db();
    let result = db.drop_database(Ok(()));
    assert!(result.is_ok());
}

#[test]
fn drop_database_reports_a_failed_removal() {
    let db = setup_temp_db();
    let result = db.drop_database(Err("permission denied".to_string()));
    assert_eq!(result, Err(DatabaseError::DeleteError("permission denied".to_string())));
    assert_eq!(result.unwrap_err().message(), "Failed to drop database: `permission denied`");
}

#[test]
fn test_add_table_success() {
    let (mut db, _) = Database::new("test_db", Stored::Missing);
    let mut test_table = Table::new("TestTable".to_string(), test_data_columns());

    let result = db.add_table(&mut test_table);

    assert!(result.is_ok());
    assert_eq!(db.tables.len(), 1);
    assert_eq!(db.tables[0].name, "TestTable");
    assert_eq!(db.tables[0], test_table);
}

#[test]
fn test_add_table_already_exists() {
    let mut db = setup_temp_db();

    // Create a duplicate table
    let mut duplicate_table = Table::new("TestTable".to_string(), test_data_columns());
    let result = db.add_table(&mut duplicate_table);

    assert_eq!(result, Err(DatabaseError::TableAlreadyExists("TestTable".to_string())));
    assert_eq!(result.unwrap_err().message(), "Table `TestTable` already exists");

    // Ensure no duplicate tables exist
    assert_eq!(db.tables.len(), 1);
}

#[test]
fn add_table_keeps_the_first_table_of_a_name() {
    let mut db = setup_temp_db();
    db.tables[0].put_row(Row::with_id("a".to_string(), object(vec![])));
    let mut other = Table::new("TestTable".to_string(), Columns::new(vec![]));
    assert!(db.add_table(&mut other).is_err());
    assert_eq!(db.tables[0].columns, test_data_columns());
    assert_eq!(db.tables[0].rows.len(), 1);
}

#[test]
fn test_drop_table_success() {
    let mut db = setup_temp_db();
    let result = db.drop_table("TestTable");

    assert!(result.is_ok());
    assert_eq!(db.tables.len(), 0);
}

#[test]
fn test_drop_table_not_found() {
    let mut db = setup_temp_db();
    let result = db.drop_table("NonExistentTable");

    assert_eq!(result, Err(DatabaseError::TableNotFound("NonExistentTable".to_string())));
    assert_eq!(result.unwrap_err().message(), "Table `NonExistentTable` not found");

    // Ensure no tables were removed
    assert_eq!(db.tables.len(), 1);
}

#[test]
fn drop_table_keeps_the_order_of_the_others() {
    let mut db = blank("shop");
    for name in ["a", "b", "c"] {
        db.add_table(&mut Table::new(name.to_string(), Columns::new(vec![]))).unwrap();
    }
    db.drop_table("b").unwrap();
    assert_eq!(db.list_tables(), vec!["a".to_string(), "c".to_string()]);
    assert_eq!(db.drop_table("b"), Err(DatabaseError::TableNotFound("b".to_string())));
}

#[test]
fn test_rename_table_success() {
    let mut db = setup_temp_db();

    db.rename_table("TestTable", "RenamedTable").expect("Failed to rename table");

    assert!(db.list_tables().contains(&"RenamedTable".to_string()));
    assert!(!db.list_tables().contains(&"TestTable".to_string()));
    assert!(db.table_index("RenamedTable").is_some());
    assert!(db.table_index("TestTable").is_none());
}

#[test]
fn test_rename_table_already_exists() {
    let mut db = setup_temp_db();

    let mut another_table =
        Table::new("AnotherTable".to_string(), Columns::new(vec![Column::new("id", true)]));
    db.add_table(&mut another_table).unwrap();
    let before = db.clone();

    let result = db.rename_table("TestTable", "AnotherTable");

    assert!(matches!(result, Err(DatabaseError::TableAlreadyExists(_))));
    assert_eq!(result, Err(DatabaseError::TableAlreadyExists("AnotherTable".to_string())));
    // both tables are unchanged
    assert_eq!(db, before);
    assert_eq!(db.list_tables(), vec!["TestTable".to_string(), "AnotherTable".to_string()]);
}

#[test]
fn test_rename_table_not_found() {
    let mut db = setup_temp_db();

    let result = db.rename_table("NonExistentTable", "NewTable");

    assert!(matches!(result, Err(DatabaseError::TableNotFound(_))));
    assert_eq!(result, Err(DatabaseError::TableNotFound("NonExistentTable".to_string())));
    assert_eq!(db, setup_temp_db());
}

#[test]
fn rename_table_to_its_own_name_is_invalid() {
    let mut db = setup_temp_db();
    let result = db.rename_table("TestTable", "TestTable");
    assert_eq!(
        result,
        Err(DatabaseError::InvalidData("old name and new name are the same".to_string()))
    );
    // also when there is no such table
    let result = db.rename_table("Nothing", "Nothing");
    assert!(matches!(result, Err(DatabaseError::InvalidData(_))));
    assert_eq!(db, setup_temp_db());
}

#[test]
fn rename_table_of_a_missing_table_to_a_taken_name_is_not_found() {
    let mut db = setup_temp_db();
    let result = db.rename_table("Nothing", "TestTable");
    assert_eq!(result, Err(DatabaseError::TableNotFound("Nothing".to_string())));
}

#[test]
fn rename_table_keeps_place_schema_and_records() {
    let mut db = blank("shop");
    for name in ["a", "b", "c"] {
        db.add_table(&mut Table::new(name.to_string(), test_data_columns())).unwrap();
    }
    db.tables[1].put_row(Row::with_id("r".to_string(), object(vec![("id", text("1"))])));
    db.rename_table("b", "z").unwrap();
    assert_eq!(db.list_tables(), vec!["a".to_string(), "z".to_string(), "c".to_string()]);
    assert_eq!(db.tables[1].name, "z");
    assert_eq!(db.tables[1].columns, test_data_columns());
    assert_eq!(db.tables[1].rows.len(), 1);
    assert_eq!(db.tables[1].rows[0]._id, "r");
}

#[test]
fn test_count_rows() {
    let mut db = setup_temp_db();

    let fields = vec!["id".to_string(), "name".to_string(), "email".to_string()];
    let user_columns = Columns::from_struct_ordered(&fields, true);
    let mut users_table = Table::new("users".to_string(), user_columns.clone());
    db.add_table(&mut users_table).expect("failed to add users table");

    let user1 = object(vec![
        ("id", text("1")),
        ("name", text("John Doe")),
        ("email", text("johndoe@example.com")),
    ]);
    let user2 = object(vec![
        ("id", text("2")),
        ("name", text("Jane Smith")),
        ("email", text("janesmith@example.com")),
    ]);
    let user3 = object(vec![
        ("id", text("3")),
        ("name", text("Alice Johnson")),
        ("email", text("alice@example.com")),
    ]);

    let users = vec![user1, user2, user3];
    users_table.add_row(&mut db, Json::Array(users)).unwrap();

    // Count rows in the table
    let row_count = db.count_rows("users").unwrap();
    assert_eq!(row_count, 3);
    assert_eq!(db.count_rows("TestTable"), Ok(0));

    // Attempt to count rows for a non-existent table
    let result = db.count_rows("NonExistentTable");
    assert!(matches!(result, Err(DatabaseError::TableNotFound(_))));
    assert_eq!(result, Err(DatabaseError::TableNotFound("NonExistentTable".to_string())));
}

#[test]
fn record_exists_goes_by_table_and_identifier() {
    let mut db = setup_temp_db();
    db.tables[0].put_row(Row::with_id("r-1".to_string(), object(vec![("id", text("1"))])));
    assert!(db.record_exists("TestTable", "r-1"));
    // the identifier is not the payload's `id`
    assert!(!db.record_exists("TestTable", "1"));
    assert!(!db.record_exists("TestTable", "r-2"));
    assert!(!db.record_exists("Nothing", "r-1"));
}

#[test]
fn list_tables_gives_the_names_in_order() {
    let mut db = blank("shop");
    assert_eq!(db.list_tables(), Vec::<String>::new());
    for name in ["b", "a"] {
        db.add_table(&mut Table::new(name.to_string(), Columns::new(vec![]))).unwrap();
    }
    assert_eq!(db.list_tables(), vec!["b".to_string(), "a".to_string()]);
}

#[test]
fn test_get_table_mut() {
    let mut db = setup_temp_db();
    let mut table = Table::new("test_table_mut".to_string(), test_data_columns());
    db.add_table(&mut table).expect("failed to add test_table_mut");

    let table = db.table_index("test_table_mut");
    assert!(table.is_some());
    assert_eq!(table, Some(1));
    assert_eq!(db.table_index("nothing"), None);
}

#[test]
fn test_add_row() {
    let mut db = blank("test_db");
    let query = db.add_row();
    assert_eq!(query.operation, Operation::Create);
    assert_eq!(query.db_file_name, "test_db.json");
    assert_eq!(query.table_name, None);
    assert_eq!(query.update_data, None);
    assert_eq!(query.row_data, None);
}

#[test]
fn test_get_rows() {
    let db = blank("test_db");
    let query = db.get_rows();
    assert_eq!(query.operation, Operation::Read);
    assert_eq!(query.db_file_name, "test_db.json");
}

#[test]
fn test_get_single() {
    let db = blank("test_db");
    let query = db.get_single();
    assert_eq!(query.operation, Operation::Read);
}

#[test]
fn test_delete_single() {
    let db = blank("test_db");
    let query = db.delete_single();
    assert_eq!(query.operation, Operation::Delete);
}

#[test]
fn test_update_row() {
    let db = blank("test_db");
    let query = db.update_row();
    assert_eq!(query.operation, Operation::Update);
    assert_eq!(query, db.query(Operation::Update));
}

#[test]
fn test_save_to_file() {
    let db = blank("test_db");
    let saved = db.to_document();
    let loaded_db = Database::from_document(&saved).expect("Failed to load database");
    assert_eq!(db, loaded_db);
}

#[test]
fn test_load_from_file() {
    let db = setup_temp_db();
    let loaded_db = Database::from_document(&db.to_document()).expect("Failed to load database");
    assert_eq!(db, loaded_db);
}

#[test]
fn util_test_setup_temp_db() {
    let db = setup_temp_db();
    assert_eq!(db.tables.len(), 1);
    assert!(db.list_tables().contains(&"TestTable".to_string()));
    let table = &db.tables[db.table_index("TestTable").unwrap()];
    assert_eq!(table.name, "TestTable");
}

#[test]
fn database_test_database_new() {
    let (db, create_file) = Database::new("test_db", Stored::Missing);
    assert_eq!(db.name, "test_db");
    assert_eq!(db.file_name, "test_db.json");
    assert_eq!(db.tables.len(), 0);
    assert!(create_file);
}

#[test]
fn database_test_drop_database() {
    let db = setup_temp_db();
    let result = db.drop_database(Ok(()));
    assert_eq!(result, Ok(()));
}

#[test]
fn database_test_add_table_success() {
    let (mut db, _) = Database::new("test_db", Stored::Missing);
    let test_columns =
        Columns::from_struct(&object(vec![("id", text("")), ("name", text(""))]), true);
    let mut test_table = Table::new("TestTable".to_string(), test_columns);

    let result = db.add_table(&mut test_table);

    assert!(result.is_ok());
    assert_eq!(db.tables.len(), 1);
    assert_eq!(db.tables[0].name, "TestTable");
}

#[test]
fn database_test_add_table_already_exists() {
    let mut db = setup_temp_db();

    let columns = test_data_columns();
    let mut duplicate_table = Table::new("TestTable".to_string(), columns);
    let result = db.add_table(&mut duplicate_table);

    // Assert that an error is returned
    assert!(matches!(result, Err(DatabaseError::TableAlreadyExists(_))));

    if let Err(DatabaseError::TableAlreadyExists(name)) = result {
        assert_eq!(name, "TestTable");
    }

    // Ensure no duplicate tables exist
    assert_eq!(db.tables.len(), 1);
}

#[test]
fn database_test_drop_table_success() {
    let mut db = setup_temp_db();
    db.tables[0].put_row(Row::with_id("a".to_string(), object(vec![])));
    let result = db.drop_table("TestTable");

    assert!(result.is_ok());
    assert_eq!(db.tables.len(), 0);
    assert!(!db.record_exists("TestTable", "a"));
}

#[test]
fn database_test_drop_table_not_found() {
    let mut db = setup_temp_db();
    let result = db.drop_table("NonExistentTable");

    // Assert that an error is returned
    assert!(matches!(result, Err(DatabaseError::TableNotFound(_))));

    if let Err(DatabaseError::TableNotFound(name)) = result {
        assert_eq!(name, "NonExistentTable");
    }

    // Ensure no tables were removed
    assert_eq!(db.tables.len(), 1);
}

#[test]
fn database_test_save_to_file() {
    let db = setup_temp_db();
    let saved = db.to_document();
    assert_eq!(saved.get("name"), Some(&text("temp_db")));
    assert_eq!(saved.get("file_name"), Some(&text("temp_db.json")));
    assert!(saved.get("tables").and_then(|tables| tables.get("TestTable")).is_some());
}

#[test]
fn database_test_load_from_file() {
    let mut db = setup_temp_db();
    db.tables[0].put_row(Row::with_id("a".to_string(), object(vec![("id", text("1"))])));
    let loaded_db = Database::from_document(&db.to_document()).expect("Failed to load database");

    assert_eq!(db, loaded_db);
}

#[test]
fn database_test_rename_table_success() {
    let mut db = setup_temp_db();
    assert_eq!(db.rename_table("TestTable", "RenamedTable"), Ok(()));
    assert_eq!(db.list_tables(), vec!["RenamedTable".to_string()]);
}

#[test]
fn database_test_rename_table_already_exists() {
    let mut db = setup_temp_db();
    let mut another_table =
        Table::new("AnotherTable".to_string(), Columns::new(vec![Column::new("id", true)]));
    db.add_table(&mut another_table).unwrap();

    let result = db.rename_table("AnotherTable", "TestTable");

    assert!(matches!(result, Err(DatabaseError::TableAlreadyExists(_))));
    assert_eq!(db.list_tables(), vec!["TestTable".to_string(), "AnotherTable".to_string()]);
}

#[test]
fn database_test_rename_table_not_found() {
    let mut db = Database::empty("none");
    let result = db.rename_table("NonExistentTable", "NewTable");
    assert!(matches!(result, Err(DatabaseError::TableNotFound(_))));
    assert_eq!(db.tables.len(), 0);
}
