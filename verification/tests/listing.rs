use cargobase::{Column, Columns, Database, Json, Listing, Number, Row, Table};

fn text(value: &str) -> Json {
    Json::String(value.to_string())
}

fn object(members: Vec<(&str, Json)>) -> Json {
    Json::Object(members.into_iter().map(|(key, value)| (key.to_string(), value)).collect())
}

fn grid(rows: Vec<Vec<&str>>) -> Vec<Vec<String>> {
    rows.into_iter().map(|row| row.into_iter().map(|cell| cell.to_string()).collect()).collect()
}

fn users() -> Table {
    let columns = Columns::new(vec![Column::new("id", true), Column::new("name", false)]);
    let mut table = Table::new("users".to_string(), columns);
    table.put_row(Row::with_id("a".to_string(), object(vec![("id", text("1")), ("name", text("Ann"))])));
    table.put_row(Row::with_id("b".to_string(), object(vec![("id", Json::Number(Number::PosInt(2)))])));
    table
}

#[test]
fn cells_are_the_members_under_the_column_names() {
    assert_eq!(
        users().cells(),
        vec![vec![text("1"), text("Ann")], vec![Json::Number(Number::PosInt(2)), Json::Null]]
    );
}

#[test]
fn cells_of_a_payload_that_is_no_object_are_null() {
    let mut table = users();
    table.put_row(Row::with_id("c".to_string(), text("loose")));
    assert_eq!(table.cells()[2], vec![Json::Null, Json::Null]);
    let empty = Table::new("t".to_string(), Columns::new(vec![Column::new("id", true)]));
    assert_eq!(empty.cells(), Vec::<Vec<Json>>::new());
}

#[test]
fn display_pads_each_column_to_its_widest_cell() {
    let lines = users().display(&grid(vec![vec!["\"1\"", "\"Ann\""], vec!["2", "null"]]));
    assert_eq!(
        lines,
        vec![
            "".to_string(),
            "Table: users".to_string(),
            "id  | name ".to_string(),
            "----+------".to_string(),
            "\"1\" | \"Ann\"".to_string(),
            "2   | null ".to_string(),
        ]
    );
}

#[test]
fn display_without_rows_is_as_wide_as_the_names() {
    let lines = users().display(&Vec::new());
    assert_eq!(
        lines,
        vec![
            "".to_string(),
            "Table: users".to_string(),
            "id | name".to_string(),
            "---+-----".to_string(),
        ]
    );
}

#[test]
fn display_of_a_table_without_columns_says_so() {
    let table = Table::new("bare".to_string(), Columns::new(vec![]));
    let lines = table.display(&grid(vec![vec!["1"]]));
    assert_eq!(
        lines,
        vec![
            "".to_string(),
            "Table: bare".to_string(),
            "No columns defined for table 'bare'.".to_string(),
        ]
    );
}

#[test]
fn display_of_one_column_has_no_separator() {
    let table = Table::new("one".to_string(), Columns::new(vec![Column::new("id", true)]));
    let lines = table.display(&grid(vec![vec!["12345"], vec![""]]));
    assert_eq!(
        lines,
        vec![
            "".to_string(),
            "Table: one".to_string(),
            "id   ".to_string(),
            "-----".to_string(),
            "12345".to_string(),
            "     ".to_string(),
        ]
    );
}

#[test]
fn display_takes_a_missing_cell_for_empty_and_leaves_out_extra_ones() {
    let lines = users().display(&grid(vec![vec!["1"], vec!["2", "Bob", "extra"]]));
    assert_eq!(lines[4], "1  |     ");
    assert_eq!(lines[5], "2  | Bob ");
    assert_eq!(lines.len(), 6);
}

#[test]
fn display_measures_in_bytes_and_pads_in_characters() {
    let table = Table::new("t".to_string(), Columns::new(vec![Column::new("n", true)]));
    // "é" is one character of two bytes
    let lines = table.display(&grid(vec![vec!["é"], vec!["ab"], vec!["ééé"]]));
    assert_eq!(lines[2], "n     ");
    assert_eq!(lines[3], "------");
    assert_eq!(lines[4], "é     ");
    assert_eq!(lines[5], "ab    ");
    assert_eq!(lines[6], "ééé   ");
}

fn shop() -> Database {
    let mut db = Database::empty("shop");
    db.add_table(&mut users()).unwrap();
    db.add_table(&mut Table::new("bare".to_string(), Columns::new(vec![]))).unwrap();
    db
}

#[test]
fn all_tables_lists_the_name_and_every_table() {
    let db = shop();
    let listing = Listing::new(&db);
    assert_eq!(listing.cells(), vec![users().cells(), Vec::new()]);
    let texts = vec![grid(vec![vec!["\"1\"", "\"Ann\""], vec!["2", "null"]]), Vec::new()];
    assert_eq!(
        listing.all_tables(&texts),
        vec![
            "Database: shop".to_string(),
            "".to_string(),
            "Table: users".to_string(),
            "id  | name ".to_string(),
            "----+------".to_string(),
            "\"1\" | \"Ann\"".to_string(),
            "2   | null ".to_string(),
            "".to_string(),
            "Table: bare".to_string(),
            "No columns defined for table 'bare'.".to_string(),
        ]
    );
}

#[test]
fn all_tables_shows_a_table_without_texts_without_records() {
    let db = shop();
    let lines = Listing::new(&db).all_tables(&Vec::new());
    assert_eq!(
        lines,
        vec![
            "Database: shop".to_string(),
            "".to_string(),
            "Table: users".to_string(),
            "id | name".to_string(),
            "---+-----".to_string(),
            "".to_string(),
            "Table: bare".to_string(),
            "No columns defined for table 'bare'.".to_string(),
        ]
    );
    let empty = Database::empty("none");
    assert_eq!(Listing::new(&empty).all_tables(&Vec::new()), vec!["Database: none".to_string()]);
}

#[test]
fn single_table_shows_one_table_or_says_that_it_is_missing() {
    let db = shop();
    let listing = Listing::new(&db);
    assert_eq!(
        listing.single_table("users", &grid(vec![vec!["7", "x"]])),
        users().display(&grid(vec![vec!["7", "x"]]))
    );
    assert_eq!(
        listing.single_table("nothing", &Vec::new()),
        vec!["Table 'nothing' not found in the database.".to_string()]
    );
}
