use cargobase::{
    Column, Columns, Database, DatabaseError, Json, Number, Row, Stored, Table,
};

fn text(value: &str) -> Json {
    Json::String(value.to_string())
}

fn object(members: Vec<(&str, Json)>) -> Json {
    Json::Object(members.into_iter().map(|(key, value)| (key.to_string(), value)).collect())
}

fn shop() -> Database {
    let mut db = Database::empty("shop");
    let columns = Columns::new(vec![Column::new("id", true), Column::new("name", false)]);
    let mut items = Table::new("items".to_string(), columns);
    items.put_row(Row::with_id("r1".to_string(), object(vec![("id", text("1"))])));
    items.put_row(Row::with_id(
        "r2".to_string(),
        object(vec![
            ("id", text("2")),
            ("name", Json::Array(vec![Json::Null, Json::Number(Number::Float(2.5f64.to_bits()))])),
        ]),
    ));
    db.add_table(&mut items).unwrap();
    db.add_table(&mut Table::new("empty".to_string(), Columns::new(vec![]))).unwrap();
    db
}

fn shop_document() -> Json {
    object(vec![
        ("name", text("shop")),
        ("file_name", text("shop.json")),
        (
            "tables",
            object(vec![
                (
                    "items",
                    object(vec![
                        ("name", text("items")),
                        (
                            "columns",
                            Json::Array(vec![
                                object(vec![("name", text("id")), ("required", Json::Bool(true))]),
                                object(vec![("name", text("name")), ("required", Json::Bool(false))]),
                            ]),
                        ),
                        (
                            "rows",
                            object(vec![
                                (
                                    "r1",
                                    object(vec![
                                        ("_id", text("r1")),
                                        ("data", object(vec![("id", text("1"))])),
                                    ]),
                                ),
                                (
                                    "r2",
                                    object(vec![
                                        ("_id", text("r2")),
                                        (
                                            "data",
                                            object(vec![
                                                ("id", text("2")),
                                                (
                                                    "name",
                                                    Json::Array(vec![
                                                        Json::Null,
                                                        Json::Number(Number::Float(
                                                            2.5f64.to_bits(),
                                                        )),
                                                    ]),
                                                ),
                                            ]),
                                        ),
                                    ]),
                                ),
                            ]),
                        ),
                    ]),
                ),
                (
                    "empty",
                    object(vec![
                        ("name", text("empty")),
                        ("columns", Json::Array(vec![])),
                        ("rows", object(vec![])),
                    ]),
                ),
            ]),
        ),
    ])
}

#[test]
fn to_document_has_the_persisted_shape() {
    assert_eq!(shop().to_document(), shop_document());
    assert_eq!(
        Database::empty("x").to_document(),
        object(vec![("name", text("x")), ("file_name", text("x.json")), ("tables", object(vec![]))])
    );
}

#[test]
fn from_document_reads_the_persisted_shape() {
    assert_eq!(Database::from_document(&shop_document()), Ok(shop()));
}

#[test]
fn load_of_save_is_the_database() {
    for db in [Database::empty(""), Database::empty("shop"), shop()] {
        assert_eq!(Database::from_document(&db.to_document()), Ok(db.clone()));
        let (opened, create_file) = Database::new("other", Stored::Document(db.to_document()));
        assert_eq!(opened, db);
        assert!(!create_file);
    }
}

#[test]
fn from_document_reads_members_in_any_order_and_ignores_others() {
    let doc = object(vec![
        ("version", Json::Number(Number::PosInt(3))),
        ("tables", object(vec![])),
        ("file_name", text("elsewhere.json")),
        ("name", text("shop")),
    ]);
    let db = Database::from_document(&doc).unwrap();
    assert_eq!(db.name, "shop");
    assert_eq!(db.file_name, "elsewhere.json");
    assert_eq!(db.tables.len(), 0);
}

fn refused(doc: &Json) -> bool {
    Database::from_document(doc)
        == Err(DatabaseError::DeserializationError(
            "the document does not describe a database".to_string(),
        ))
}

fn with_tables(tables: Json) -> Json {
    object(vec![("name", text("shop")), ("file_name", text("shop.json")), ("tables", tables)])
}

fn table_document(name: &str, columns: Json, rows: Json) -> Json {
    object(vec![("name", text(name)), ("columns", columns), ("rows", rows)])
}

#[test]
fn from_document_refuses_what_is_no_database() {
    assert!(refused(&Json::Null));
    assert!(refused(&object(vec![])));
    assert!(refused(&Json::Array(vec![shop_document()])));
    assert!(refused(&object(vec![("name", text("shop")), ("file_name", text("shop.json"))])));
    assert!(refused(&object(vec![("name", text("shop")), ("tables", object(vec![]))])));
    assert!(refused(&object(vec![("file_name", text("s")), ("tables", object(vec![]))])));
    assert!(refused(&object(vec![
        ("name", Json::Null),
        ("file_name", text("shop.json")),
        ("tables", object(vec![])),
    ])));
    assert!(refused(&with_tables(Json::Array(vec![]))));
    assert!(!refused(&with_tables(object(vec![]))));
}

#[test]
fn from_document_refuses_a_table_that_is_no_table() {
    let good = table_document("t", Json::Array(vec![]), object(vec![]));
    assert!(!refused(&with_tables(object(vec![("t", good.clone())]))));
    // filed under another name than its own
    assert!(refused(&with_tables(object(vec![("u", good.clone())]))));
    // two tables of one name
    assert!(refused(&with_tables(object(vec![("t", good.clone()), ("t", good.clone())]))));
    assert!(refused(&with_tables(object(vec![("t", Json::Null)]))));
    assert!(refused(&with_tables(object(vec![(
        "t",
        object(vec![("name", text("t")), ("rows", object(vec![]))])
    )]))));
    assert!(refused(&with_tables(object(vec![(
        "t",
        table_document("t", object(vec![]), object(vec![]))
    )]))));
    assert!(refused(&with_tables(object(vec![(
        "t",
        table_document("t", Json::Array(vec![]), Json::Array(vec![]))
    )]))));
    assert!(refused(&with_tables(object(vec![(
        "t",
        table_document("t", Json::Array(vec![object(vec![("name", text("id"))])]), object(vec![]))
    )]))));
    assert!(refused(&with_tables(object(vec![(
        "t",
        table_document(
            "t",
            Json::Array(vec![object(vec![("name", text("id")), ("required", text("yes"))])]),
            object(vec![])
        )
    )]))));
}

#[test]
fn from_document_refuses_a_row_that_is_no_row() {
    let with_rows = |rows: Json| {
        with_tables(object(vec![("t", table_document("t", Json::Array(vec![]), rows))]))
    };
    let row = |id: &str| object(vec![("_id", text(id)), ("data", object(vec![]))]);
    assert!(!refused(&with_rows(object(vec![("a", row("a")), ("b", row("b"))]))));
    // filed under another identifier than its own
    assert!(refused(&with_rows(object(vec![("a", row("b"))]))));
    // two rows of one identifier
    assert!(refused(&with_rows(object(vec![("a", row("a")), ("a", row("a"))]))));
    assert!(refused(&with_rows(object(vec![("a", object(vec![("_id", text("a"))]))]))));
    assert!(refused(&with_rows(object(vec![("a", object(vec![("data", object(vec![]))]))]))));
    assert!(refused(&with_rows(object(vec![(
        "a",
        object(vec![("_id", Json::Number(Number::PosInt(1))), ("data", object(vec![]))])
    )]))));
    assert!(refused(&with_rows(object(vec![("a", text("a"))]))));
}

#[test]
fn from_document_keeps_any_payload() {
    let doc = with_tables(object(vec![(
        "t",
        table_document(
            "t",
            Json::Array(vec![]),
            object(vec![("a", object(vec![("_id", text("a")), ("data", Json::Null)]))]),
        ),
    )]));
    let db = Database::from_document(&doc).unwrap();
    assert_eq!(db.tables[0].rows[0], Row::with_id("a".to_string(), Json::Null));
}

#[test]
fn parts_have_their_documents() {
    let column = Column::new("id", true);
    let doc = object(vec![("name", text("id")), ("required", Json::Bool(true))]);
    assert_eq!(column.to_document(), doc);
    assert_eq!(Column::from_document(&doc), Some(column));
    assert_eq!(Column::from_document(&text("id")), None);

    let columns = Columns::new(vec![Column::new("id", true)]);
    assert_eq!(columns.to_document(), Json::Array(vec![doc.clone()]));
    assert_eq!(Columns::from_document(&Json::Array(vec![doc.clone()])), Some(columns));
    assert_eq!(Columns::from_document(&doc), None);

    let row = Row::with_id("a".to_string(), text("payload"));
    let doc = object(vec![("_id", text("a")), ("data", text("payload"))]);
    assert_eq!(row.to_document(), doc);
    assert_eq!(Row::from_document(&doc), Some(row));
    assert_eq!(Row::from_document(&Json::Null), None);

    let table = Table::new("t".to_string(), Columns::new(vec![]));
    let doc = table_document("t", Json::Array(vec![]), object(vec![]));
    assert_eq!(table.to_document(), doc);
    assert_eq!(Table::from_document(&doc), Some(table));
    assert_eq!(Table::from_document(&object(vec![])), None);
}
