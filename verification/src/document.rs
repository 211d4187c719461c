//! The persisted form of a database: one JSON document that holds the
//! database's name, the path of its backing file and its tables, each with
//! its schema and its records.
//!
//! ```text
//! { "name": .., "file_name": .., "tables": {
//!     <table name>: { "name": .., "columns": [ { "name": .., "required": .. } ],
//!                     "rows": { <row id>: { "_id": .., "data": .. } } } } }
//! ```

use vstd::prelude::*;
use crate::columns::{Column, ColumnView, Columns};
use crate::database::{table_names, table_position, tables_view, Database, DatabaseView};
use crate::errors::{DatabaseError, DatabaseErrorView};
use crate::json::{
    items_view, lemma_array_view, lemma_object_view, member_keys, members_view, Json, JsonView,
};
use crate::lookup::{lemma_find, lemma_find_is, lemma_push_distinct, same_text};
use crate::row::{Row, RowView};
use crate::table::{row_ids, row_position, rows_view, Table, TableView};

verus! {

/// The document of a column.
pub open spec fn column_document(column: ColumnView) -> JsonView {
    JsonView::Object(
        seq![
            ("name"@, JsonView::String(column.name)),
            ("required"@, JsonView::Bool(column.required)),
        ],
    )
}

/// The document of a schema: the documents of its columns, in order.
pub open spec fn columns_document(columns: Seq<ColumnView>) -> JsonView {
    JsonView::Array(Seq::new(columns.len(), |i: int| column_document(columns[i])))
}

/// The document of a record.
pub open spec fn row_document(row: RowView) -> JsonView {
    JsonView::Object(seq![("_id"@, JsonView::String(row.id)), ("data"@, row.data)])
}

/// The document of a list of records: each record's document under the
/// record's identifier.
pub open spec fn rows_document(rows: Seq<RowView>) -> JsonView {
    JsonView::Object(Seq::new(rows.len(), |i: int| (rows[i].id, row_document(rows[i]))))
}

/// The document of a table.
pub open spec fn table_document(table: TableView) -> JsonView {
    JsonView::Object(
        seq![
            ("name"@, JsonView::String(table.name)),
            ("columns"@, columns_document(table.columns)),
            ("rows"@, rows_document(table.rows)),
        ],
    )
}

/// The document of a list of tables: each table's document under the
/// table's name.
pub open spec fn tables_document(tables: Seq<TableView>) -> JsonView {
    JsonView::Object(Seq::new(tables.len(), |i: int| (tables[i].name, table_document(tables[i]))))
}

/// The document of a database.
pub open spec fn database_document(database: DatabaseView) -> JsonView {
    JsonView::Object(
        seq![
            ("name"@, JsonView::String(database.name)),
            ("file_name"@, JsonView::String(database.file_name)),
            ("tables"@, tables_document(database.tables)),
        ],
    )
}

/// The column that a document describes: an object with a string `name`
/// and a boolean `required`.
pub open spec fn read_column(doc: JsonView) -> Option<ColumnView> {
    match (doc.get("name"@), doc.get("required"@)) {
        (Some(JsonView::String(name)), Some(JsonView::Bool(required))) => Some(
            ColumnView { name, required },
        ),
        _ => None,
    }
}

/// The schema that a document describes: an array of column documents.
pub open spec fn read_columns(doc: JsonView) -> Option<Seq<ColumnView>> {
    match doc {
        JsonView::Array(items) => if forall|i: int|
            0 <= i < items.len() ==> read_column(#[trigger] items[i]) is Some {
            Some(Seq::new(items.len(), |i: int| read_column(items[i])->Some_0))
        } else {
            None
        },
        _ => None,
    }
}

/// The record that a document describes: an object with a string `_id` and
/// a payload `data`.
pub open spec fn read_row(doc: JsonView) -> Option<RowView> {
    match (doc.get("_id"@), doc.get("data"@)) {
        (Some(JsonView::String(id)), Some(data)) => Some(RowView { id, data }),
        _ => None,
    }
}

/// The record that an object member describes: the record of its value,
/// which must carry the member's key as its identifier.
pub open spec fn read_keyed_row(member: (Seq<char>, JsonView)) -> Option<RowView> {
    match read_row(member.1) {
        Some(row) => if row.id == member.0 {
            Some(row)
        } else {
            None
        },
        None => None,
    }
}

/// The records that a document describes: an object whose members each
/// describe a record under its identifier, no two under the same.
pub open spec fn read_rows(doc: JsonView) -> Option<Seq<RowView>> {
    match doc {
        JsonView::Object(members) => {
            let rows = Seq::new(members.len(), |i: int| read_keyed_row(members[i])->Some_0);
            if (forall|i: int|
                0 <= i < members.len() ==> read_keyed_row(#[trigger] members[i]) is Some)
                && row_ids(rows).no_duplicates() {
                Some(rows)
            } else {
                None
            }
        },
        _ => None,
    }
}

/// The table that a document describes: an object with a string `name`, a
/// schema `columns` and records `rows`.
pub open spec fn read_table(doc: JsonView) -> Option<TableView> {
    match (doc.get("name"@), doc.get("columns"@), doc.get("rows"@)) {
        (Some(JsonView::String(name)), Some(columns), Some(rows)) => match (
            read_columns(columns),
            read_rows(rows),
        ) {
            (Some(columns), Some(rows)) => Some(TableView { name, columns, rows }),
            _ => None,
        },
        _ => None,
    }
}

/// The table that an object member describes: the table of its value, which
/// must carry the member's key as its name.
pub open spec fn read_keyed_table(member: (Seq<char>, JsonView)) -> Option<TableView> {
    match read_table(member.1) {
        Some(table) => if table.name == member.0 {
            Some(table)
        } else {
            None
        },
        None => None,
    }
}

/// The tables that a document describes: an object whose members each
/// describe a table under its name, no two under the same.
pub open spec fn read_tables(doc: JsonView) -> Option<Seq<TableView>> {
    match doc {
        JsonView::Object(members) => {
            let tables = Seq::new(members.len(), |i: int| read_keyed_table(members[i])->Some_0);
            if (forall|i: int|
                0 <= i < members.len() ==> read_keyed_table(#[trigger] members[i]) is Some)
                && table_names(tables).no_duplicates() {
                Some(tables)
            } else {
                None
            }
        },
        _ => None,
    }
}

/// The database that a document describes: an object with a string `name`,
/// a string `file_name` and tables `tables`. Other members are ignored.
pub open spec fn read_database(doc: JsonView) -> Option<DatabaseView> {
    match (doc.get("name"@), doc.get("file_name"@), doc.get("tables"@)) {
        (Some(JsonView::String(name)), Some(JsonView::String(file_name)), Some(tables)) => match read_tables(
            tables,
        ) {
            Some(tables) => Some(DatabaseView { name, file_name, tables }),
            None => None,
        },
        _ => None,
    }
}

/// The reason given when a document does not describe a database.
pub open spec fn not_a_database_reason() -> Seq<char> {
    "the document does not describe a database"@
}

/// A database that a document describes is well formed.
pub proof fn lemma_read_database_wf(doc: JsonView)
    requires
        read_database(doc) is Some,
    ensures
        read_database(doc)->Some_0.wf(),
{
    let database = read_database(doc)->Some_0;
    let members = doc.get("tables"@)->Some_0->Object_0;
    assert forall|i: int| 0 <= i < database.tables.len() implies (
    #[trigger] database.tables[i]).wf() by {
        assert(read_keyed_table(members[i]) is Some);
    }
}

/// A member of an object is what `get` reports for its key when no earlier
/// member has the same key.
pub proof fn lemma_get_member(members: Seq<(Seq<char>, JsonView)>, i: int)
    requires
        0 <= i < members.len(),
        forall|j: int| 0 <= j < i ==> members[j].0 != members[i].0,
    ensures
        JsonView::Object(members).get(members[i].0) == Some(members[i].1),
{
    lemma_find_is(member_keys(members), members[i].0, i);
}

/// Reading the document of a column gives the column back.
pub proof fn lemma_column_round_trip(column: ColumnView)
    ensures
        read_column(column_document(column)) == Some(column),
{
    reveal_strlit("name");
    reveal_strlit("required");
    let members = column_document(column)->Object_0;
    assert("name"@.len() != "required"@.len());
    lemma_get_member(members, 0);
    lemma_get_member(members, 1);
}

/// Reading the document of a schema gives the schema back.
pub proof fn lemma_columns_round_trip(columns: Seq<ColumnView>)
    ensures
        read_columns(columns_document(columns)) == Some(columns),
{
    let items = columns_document(columns)->Array_0;
    assert forall|i: int| 0 <= i < items.len() implies read_column(#[trigger] items[i]) == Some(
        columns[i],
    ) by {
        lemma_column_round_trip(columns[i]);
    }
    assert(Seq::new(items.len(), |i: int| read_column(items[i])->Some_0) =~= columns);
}

/// Reading the document of a record gives the record back.
pub proof fn lemma_row_round_trip(row: RowView)
    ensures
        read_row(row_document(row)) == Some(row),
{
    reveal_strlit("_id");
    reveal_strlit("data");
    let members = row_document(row)->Object_0;
    assert("_id"@.len() != "data"@.len());
    lemma_get_member(members, 0);
    lemma_get_member(members, 1);
}

/// Reading the document of a list of records with distinct identifiers
/// gives the records back.
pub proof fn lemma_rows_round_trip(rows: Seq<RowView>)
    requires
        row_ids(rows).no_duplicates(),
    ensures
        read_rows(rows_document(rows)) == Some(rows),
{
    let members = rows_document(rows)->Object_0;
    assert forall|i: int| 0 <= i < members.len() implies read_keyed_row(#[trigger] members[i])
        == Some(rows[i]) by {
        lemma_row_round_trip(rows[i]);
    }
    assert(Seq::new(members.len(), |i: int| read_keyed_row(members[i])->Some_0) =~= rows);
}

/// Reading the document of a well-formed table gives the table back.
pub proof fn lemma_table_round_trip(table: TableView)
    requires
        table.wf(),
    ensures
        read_table(table_document(table)) == Some(table),
{
    reveal_strlit("name");
    reveal_strlit("columns");
    reveal_strlit("rows");
    let members = table_document(table)->Object_0;
    assert("name"@[0] != "rows"@[0]);
    lemma_get_member(members, 0);
    lemma_get_member(members, 1);
    lemma_get_member(members, 2);
    lemma_columns_round_trip(table.columns);
    lemma_rows_round_trip(table.rows);
}

/// Reading the document of a list of well-formed tables with distinct names
/// gives the tables back.
pub proof fn lemma_tables_round_trip(tables: Seq<TableView>)
    requires
        table_names(tables).no_duplicates(),
        forall|i: int| 0 <= i < tables.len() ==> (#[trigger] tables[i]).wf(),
    ensures
        read_tables(tables_document(tables)) == Some(tables),
{
    let members = tables_document(tables)->Object_0;
    assert forall|i: int| 0 <= i < members.len() implies read_keyed_table(#[trigger] members[i])
        == Some(tables[i]) by {
        lemma_table_round_trip(tables[i]);
    }
    assert(Seq::new(members.len(), |i: int| read_keyed_table(members[i])->Some_0) =~= tables);
}

/// Saving and loading give the database back: reading the document of any
/// well-formed database yields that database, with its name, backing file,
/// tables, schemas and records.
pub proof fn lemma_database_round_trip(database: DatabaseView)
    requires
        database.wf(),
    ensures
        read_database(database_document(database)) == Some(database),
{
    reveal_strlit("name");
    reveal_strlit("file_name");
    reveal_strlit("tables");
    let members = database_document(database)->Object_0;
    assert("name"@.len() != "file_name"@.len());
    assert("name"@.len() != "tables"@.len());
    assert("file_name"@.len() != "tables"@.len());
    lemma_get_member(members, 0);
    lemma_get_member(members, 1);
    lemma_get_member(members, 2);
    lemma_tables_round_trip(database.tables);
}

impl Column {
    /// The document of this column.
    pub fn to_document(&self) -> (doc: Json)
        ensures
            doc@ == column_document(self@),
    {
        let mut members: Vec<(String, Json)> = Vec::new();
        members.push((String::from_str("name"), Json::String(self.name.clone())));
        members.push((String::from_str("required"), Json::Bool(self.required)));
        proof {
            lemma_object_view(members);
            assert(members_view(members@) =~= column_document(self@)->Object_0);
        }
        Json::Object(members)
    }

    /// The column that `doc` describes, if it describes one.
    pub fn from_document(doc: &Json) -> (column: Option<Column>)
        ensures
            match column {
                Some(c) => read_column(doc@) == Some(c@),
                None => read_column(doc@) is None,
            },
    {
        let name = match doc.get("name") {
            Some(Json::String(name)) => name.clone(),
            _ => {
                return None;
            },
        };
        match doc.get("required") {
            Some(Json::Bool(required)) => Some(Column { name, required: *required }),
            _ => None,
        }
    }
}

impl Columns {
    /// The document of this schema.
    pub fn to_document(&self) -> (doc: Json)
        ensures
            doc@ == columns_document(self@),
    {
        let mut items: Vec<Json> = Vec::new();
        let mut i: usize = 0;
        while i < self.0.len()
            invariant
                i <= self.0.len(),
                items.len() == i,
                forall|j: int| 0 <= j < i ==> items@[j]@ == column_document(self.0@[j]@),
            decreases self.0.len() - i,
        {
            items.push(self.0[i].to_document());
            i += 1;
        }
        proof {
            lemma_array_view(items);
            assert(items_view(items@) =~= columns_document(self@)->Array_0);
        }
        Json::Array(items)
    }

    /// The schema that `doc` describes, if it describes one.
    pub fn from_document(doc: &Json) -> (schema: Option<Columns>)
        ensures
            match schema {
                Some(s) => read_columns(doc@) == Some(s@),
                None => read_columns(doc@) is None,
            },
    {
        match doc {
            Json::Array(items) => {
                proof {
                    lemma_array_view(*items);
                }
                let ghost docs = items_view(items@);
                let mut columns: Vec<Column> = Vec::new();
                let mut i: usize = 0;
                while i < items.len()
                    invariant
                        i <= items.len(),
                        columns.len() == i,
                        docs == items_view(items@),
                        doc@ == JsonView::Array(docs),
                        forall|j: int| 0 <= j < i ==> read_column(docs[j]) == Some(columns@[j]@),
                    decreases items.len() - i,
                {
                    match Column::from_document(&items[i]) {
                        Some(column) => {
                            columns.push(column);
                        },
                        None => {
                            assert(read_column(docs[i as int]) is None);
                            return None;
                        },
                    }
                    i += 1;
                }
                let schema = Columns(columns);
                assert(schema@ =~= Seq::new(docs.len(), |i: int| read_column(docs[i])->Some_0));
                Some(schema)
            },
            _ => None,
        }
    }
}

impl Row {
    /// The document of this record.
    pub fn to_document(&self) -> (doc: Json)
        ensures
            doc@ == row_document(self@),
    {
        let mut members: Vec<(String, Json)> = Vec::new();
        members.push((String::from_str("_id"), Json::String(self._id.clone())));
        members.push((String::from_str("data"), self.data.clone()));
        proof {
            lemma_object_view(members);
            assert(members_view(members@) =~= row_document(self@)->Object_0);
        }
        Json::Object(members)
    }

    /// The record that `doc` describes, if it describes one.
    pub fn from_document(doc: &Json) -> (row: Option<Row>)
        ensures
            match row {
                Some(r) => read_row(doc@) == Some(r@),
                None => read_row(doc@) is None,
            },
    {
        let id = match doc.get("_id") {
            Some(Json::String(id)) => id.clone(),
            _ => {
                return None;
            },
        };
        match doc.get("data") {
            Some(data) => Some(Row { _id: id, data: data.clone() }),
            None => None,
        }
    }
}

/// The document of a list of records.
fn rows_to_document(rows: &Vec<Row>) -> (doc: Json)
    ensures
        doc@ == rows_document(rows_view(rows@)),
{
    let mut members: Vec<(String, Json)> = Vec::new();
    let mut i: usize = 0;
    while i < rows.len()
        invariant
            i <= rows.len(),
            members.len() == i,
            forall|j: int|
                0 <= j < i ==> members@[j].0@ == rows@[j]@.id && members@[j].1@ == row_document(
                    rows@[j]@,
                ),
        decreases rows.len() - i,
    {
        members.push((rows[i]._id.clone(), rows[i].to_document()));
        i += 1;
    }
    proof {
        lemma_object_view(members);
        assert(members_view(members@) =~= rows_document(rows_view(rows@))->Object_0);
    }
    Json::Object(members)
}

/// The records that `doc` describes, if it describes records.
fn rows_from_document(doc: &Json) -> (rows: Option<Vec<Row>>)
    ensures
        match rows {
            Some(r) => read_rows(doc@) == Some(rows_view(r@)),
            None => read_rows(doc@) is None,
        },
{
    match doc {
        Json::Object(members) => {
            proof {
                lemma_object_view(*members);
            }
            let ghost docs = members_view(members@);
            let mut rows: Vec<Row> = Vec::new();
            let mut i: usize = 0;
            while i < members.len()
                invariant
                    i <= members.len(),
                    rows.len() == i,
                    docs == members_view(members@),
                    doc@ == JsonView::Object(docs),
                    forall|j: int| 0 <= j < i ==> read_keyed_row(docs[j]) == Some(rows@[j]@),
                    row_ids(rows_view(rows@)).no_duplicates(),
                decreases members.len() - i,
            {
                match Row::from_document(&members[i].1) {
                    Some(row) => {
                        if !same_text(row._id.as_str(), members[i].0.as_str()) {
                            assert(read_keyed_row(docs[i as int]) is None);
                            return None;
                        }
                        if let Some(j) = row_position(&rows, row._id.as_str()) {
                            proof {
                                lemma_find(row_ids(rows_view(rows@)), row._id@);
                                let all = Seq::new(
                                    docs.len(),
                                    |i: int| read_keyed_row(docs[i])->Some_0,
                                );
                                assert(row_ids(all)[j as int] == row_ids(all)[i as int]);
                            }
                            return None;
                        }
                        proof {
                            let ids = row_ids(rows_view(rows@));
                            lemma_push_distinct(ids, row._id@);
                            assert(row_ids(rows_view(rows@.push(row))) =~= ids.push(row._id@));
                        }
                        rows.push(row);
                    },
                    None => {
                        assert(read_keyed_row(docs[i as int]) is None);
                        return None;
                    },
                }
                i += 1;
            }
            assert(rows_view(rows@) =~= Seq::new(
                docs.len(),
                |i: int| read_keyed_row(docs[i])->Some_0,
            ));
            Some(rows)
        },
        _ => None,
    }
}

impl Table {
    /// The document of this table.
    pub fn to_document(&self) -> (doc: Json)
        ensures
            doc@ == table_document(self@),
    {
        let mut members: Vec<(String, Json)> = Vec::new();
        members.push((String::from_str("name"), Json::String(self.name.clone())));
        members.push((String::from_str("columns"), self.columns.to_document()));
        members.push((String::from_str("rows"), rows_to_document(&self.rows)));
        proof {
            lemma_object_view(members);
            assert(members_view(members@) =~= table_document(self@)->Object_0);
        }
        Json::Object(members)
    }

    /// The table that `doc` describes, if it describes one.
    pub fn from_document(doc: &Json) -> (table: Option<Table>)
        ensures
            match table {
                Some(t) => read_table(doc@) == Some(t@) && t@.wf(),
                None => read_table(doc@) is None,
            },
    {
        let name = match doc.get("name") {
            Some(Json::String(name)) => name.clone(),
            _ => {
                return None;
            },
        };
        let columns = match doc.get("columns") {
            Some(columns) => columns,
            None => {
                return None;
            },
        };
        let rows = match doc.get("rows") {
            Some(rows) => rows,
            None => {
                return None;
            },
        };
        let columns = match Columns::from_document(columns) {
            Some(columns) => columns,
            None => {
                return None;
            },
        };
        match rows_from_document(rows) {
            Some(rows) => Some(Table { name, rows, columns }),
            None => None,
        }
    }
}

/// The document of a list of tables.
fn tables_to_document(tables: &Vec<Table>) -> (doc: Json)
    ensures
        doc@ == tables_document(tables_view(tables@)),
{
    let mut members: Vec<(String, Json)> = Vec::new();
    let mut i: usize = 0;
    while i < tables.len()
        invariant
            i <= tables.len(),
            members.len() == i,
            forall|j: int|
                0 <= j < i ==> members@[j].0@ == tables@[j]@.name && members@[j].1@
                    == table_document(tables@[j]@),
        decreases tables.len() - i,
    {
        members.push((tables[i].name.clone(), tables[i].to_document()));
        i += 1;
    }
    proof {
        lemma_object_view(members);
        assert(members_view(members@) =~= tables_document(tables_view(tables@))->Object_0);
    }
    Json::Object(members)
}

/// The tables that `doc` describes, if it describes tables.
fn tables_from_document(doc: &Json) -> (tables: Option<Vec<Table>>)
    ensures
        match tables {
            Some(t) => read_tables(doc@) == Some(tables_view(t@)),
            None => read_tables(doc@) is None,
        },
{
    match doc {
        Json::Object(members) => {
            proof {
                lemma_object_view(*members);
            }
            let ghost docs = members_view(members@);
            let mut tables: Vec<Table> = Vec::new();
            let mut i: usize = 0;
            while i < members.len()
                invariant
                    i <= members.len(),
                    tables.len() == i,
                    docs == members_view(members@),
                    doc@ == JsonView::Object(docs),
                    forall|j: int| 0 <= j < i ==> read_keyed_table(docs[j]) == Some(tables@[j]@),
                    table_names(tables_view(tables@)).no_duplicates(),
                decreases members.len() - i,
            {
                match Table::from_document(&members[i].1) {
                    Some(table) => {
                        if !same_text(table.name.as_str(), members[i].0.as_str()) {
                            assert(read_keyed_table(docs[i as int]) is None);
                            return None;
                        }
                        if let Some(j) = table_position(&tables, table.name.as_str()) {
                            proof {
                                lemma_find(table_names(tables_view(tables@)), table.name@);
                                let all = Seq::new(
                                    docs.len(),
                                    |i: int| read_keyed_table(docs[i])->Some_0,
                                );
                                assert(table_names(all)[j as int] == table_names(all)[i as int]);
                            }
                            return None;
                        }
                        proof {
                            let names = table_names(tables_view(tables@));
                            lemma_push_distinct(names, table.name@);
                            assert(table_names(tables_view(tables@.push(table))) =~= names.push(
                                table.name@,
                            ));
                        }
                        tables.push(table);
                    },
                    None => {
                        assert(read_keyed_table(docs[i as int]) is None);
                        return None;
                    },
                }
                i += 1;
            }
            assert(tables_view(tables@) =~= Seq::new(
                docs.len(),
                |i: int| read_keyed_table(docs[i])->Some_0,
            ));
            Some(tables)
        },
        _ => None,
    }
}

impl Database {
    /// The document that is written to the backing file: the whole
    /// database, with every table and every record.
    pub fn to_document(&self) -> (doc: Json)
        ensures
            doc@ == database_document(self@),
            self@.wf() ==> read_database(doc@) == Some(self@),
    {
        let mut members: Vec<(String, Json)> = Vec::new();
        members.push((String::from_str("name"), Json::String(self.name.clone())));
        members.push((String::from_str("file_name"), Json::String(self.file_name.clone())));
        members.push((String::from_str("tables"), tables_to_document(&self.tables)));
        proof {
            lemma_object_view(members);
            assert(members_view(members@) =~= database_document(self@)->Object_0);
            if self@.wf() {
                lemma_database_round_trip(self@);
            }
        }
        Json::Object(members)
    }

    /// The database that `doc` describes. Fails with `DeserializationError`
    /// when `doc` does not describe a database.
    pub fn from_document(doc: &Json) -> (loaded: Result<Database, DatabaseError>)
        ensures
            match loaded {
                Ok(database) => read_database(doc@) == Some(database@) && database@.wf(),
                Err(error) => {
                    &&& read_database(doc@) is None
                    &&& error@ == DatabaseErrorView::DeserializationError(not_a_database_reason())
                },
            },
    {
        let name = match doc.get("name") {
            Some(Json::String(name)) => Some(name.clone()),
            _ => None,
        };
        let file_name = match doc.get("file_name") {
            Some(Json::String(file_name)) => Some(file_name.clone()),
            _ => None,
        };
        let tables = match doc.get("tables") {
            Some(tables) => tables_from_document(tables),
            None => None,
        };
        proof {
            if read_database(doc@) is Some {
                lemma_read_database_wf(doc@);
            }
        }
        match (name, file_name, tables) {
            (Some(name), Some(file_name), Some(tables)) => Ok(Database { name, file_name, tables }),
            _ => Err(
                DatabaseError::DeserializationError(
                    String::from_str("the document does not describe a database"),
                ),
            ),
        }
    }
}

} // verus!
