//! Databases: a named collection of tables, each under its own name, bound to
//! one backing file. The value held in memory is a snapshot of that file.

use vstd::prelude::*;
use crate::document::read_database;
use crate::errors::{DatabaseError, DatabaseErrorView};
use crate::json::{Json, JsonView};
use crate::lookup::{
    find, first_at, lemma_find, lemma_find_is, lemma_push_distinct, lemma_remove_distinct,
    lemma_update_distinct, same_text,
};
use crate::query::{Operation, Query, QueryView};
use crate::row::RowView;
use crate::table::{row_ids, Table, TableView};

verus! {

/// A snapshot of a database.
#[derive(Debug, PartialEq)]
pub struct Database {
    pub name: String,
    /// The path of the backing file.
    pub file_name: String,
    /// The tables, in the order they were registered. No two share a name.
    pub tables: Vec<Table>,
}

/// The mathematical value of a [`Database`].
pub struct DatabaseView {
    pub name: Seq<char>,
    pub file_name: Seq<char>,
    pub tables: Seq<TableView>,
}

/// The mathematical value of a list of tables.
pub open spec fn tables_view(tables: Seq<Table>) -> Seq<TableView> {
    Seq::new(tables.len(), |i: int| tables[i]@)
}

impl View for Database {
    type V = DatabaseView;

    open spec fn view(&self) -> DatabaseView {
        DatabaseView {
            name: self.name@,
            file_name: self.file_name@,
            tables: tables_view(self.tables@),
        }
    }
}

/// What was found where the backing file of a database should be.
#[derive(Debug, PartialEq)]
pub enum Stored {
    /// There is no such file.
    Missing,
    /// There is a file, but it could not be read as JSON.
    Unreadable,
    /// The JSON document that the file holds.
    Document(Json),
}

/// The mathematical value of a [`Stored`].
pub enum StoredView {
    Missing,
    Unreadable,
    Document(JsonView),
}

impl View for Stored {
    type V = StoredView;

    open spec fn view(&self) -> StoredView {
        match self {
            Stored::Missing => StoredView::Missing,
            Stored::Unreadable => StoredView::Unreadable,
            Stored::Document(doc) => StoredView::Document(doc@),
        }
    }
}

/// What opening a database gives.
pub struct Opened {
    /// The database to work with.
    pub database: DatabaseView,
    /// Whether the backing file has to be created, with a placeholder in it.
    pub create_file: bool,
}

/// What opening the database called `name` gives, given what was found
/// where its backing file should be. A document that describes a database
/// is that database. A file that holds anything else is left alone, and the
/// database starts empty. Where there is no file, the database starts empty
/// and the file is to be created.
pub open spec fn opened(name: Seq<char>, stored: StoredView) -> Opened {
    match stored {
        StoredView::Document(doc) => match read_database(doc) {
            Some(database) => Opened { database, create_file: false },
            None => Opened { database: empty_database(name), create_file: false },
        },
        StoredView::Unreadable => Opened { database: empty_database(name), create_file: false },
        StoredView::Missing => Opened { database: empty_database(name), create_file: true },
    }
}

/// The names of the tables, in order.
pub open spec fn table_names(tables: Seq<TableView>) -> Seq<Seq<char>> {
    Seq::new(tables.len(), |i: int| tables[i].name)
}

/// The path of the backing file of the database called `name`.
pub open spec fn file_name_of(name: Seq<char>) -> Seq<char> {
    name + ".json"@
}

/// The database called `name` with no tables, bound to its backing file.
pub open spec fn empty_database(name: Seq<char>) -> DatabaseView {
    DatabaseView { name, file_name: file_name_of(name), tables: Seq::empty() }
}

/// The reason given when a table is renamed to its own name.
pub open spec fn same_name_reason() -> Seq<char> {
    "old name and new name are the same"@
}

impl DatabaseView {
    /// No two tables share a name, and every table is well formed.
    pub open spec fn wf(self) -> bool {
        &&& table_names(self.tables).no_duplicates()
        &&& forall|i: int| 0 <= i < self.tables.len() ==> (#[trigger] self.tables[i]).wf()
    }

    /// Whether a table called `name` is registered.
    pub open spec fn has_table(self, name: Seq<char>) -> bool {
        table_names(self.tables).contains(name)
    }

    /// The position of the table called `name`, if it is registered.
    pub open spec fn table_at(self, name: Seq<char>) -> Option<int> {
        find(table_names(self.tables), name)
    }

    /// What registering `table` gives: the database with the table added
    /// after the others, unless its name is taken.
    pub open spec fn added(self, table: TableView) -> Result<DatabaseView, DatabaseErrorView> {
        if self.has_table(table.name) {
            Err(DatabaseErrorView::TableAlreadyExists(table.name))
        } else {
            Ok(DatabaseView { tables: self.tables.push(table), ..self })
        }
    }

    /// What dropping the table called `name` gives: the database without it,
    /// the other tables in their order, unless no such table is registered.
    pub open spec fn dropped(self, name: Seq<char>) -> Result<DatabaseView, DatabaseErrorView> {
        match self.table_at(name) {
            Some(i) => Ok(DatabaseView { tables: self.tables.remove(i), ..self }),
            None => Err(DatabaseErrorView::TableNotFound(name)),
        }
    }

    /// What renaming the table called `old_name` to `new_name` gives: the
    /// table keeps its place, schema and records under the new name. The two
    /// names must differ, the old one must be registered and the new one free.
    pub open spec fn renamed(self, old_name: Seq<char>, new_name: Seq<char>) -> Result<
        DatabaseView,
        DatabaseErrorView,
    > {
        if old_name == new_name {
            Err(DatabaseErrorView::InvalidData(same_name_reason()))
        } else {
            match self.table_at(old_name) {
                None => Err(DatabaseErrorView::TableNotFound(old_name)),
                Some(i) => if self.has_table(new_name) {
                    Err(DatabaseErrorView::TableAlreadyExists(new_name))
                } else {
                    Ok(
                        DatabaseView {
                            tables: self.tables.update(
                                i,
                                TableView { name: new_name, ..self.tables[i] },
                            ),
                            ..self
                        },
                    )
                },
            }
        }
    }

    /// The number of records in the table called `name`.
    pub open spec fn row_count(self, name: Seq<char>) -> Result<nat, DatabaseErrorView> {
        match self.table_at(name) {
            Some(i) => Ok(self.tables[i].rows.len()),
            None => Err(DatabaseErrorView::TableNotFound(name)),
        }
    }

    /// The query on this database's backing file that performs `operation`
    /// and has neither a target table nor a payload yet.
    pub open spec fn blank_query(self, operation: Operation) -> QueryView {
        QueryView {
            db_file_name: self.file_name,
            table_name: None,
            operation,
            update_data: None,
            row_data: None,
        }
    }

    /// Whether the table called `name` is registered and stores a record
    /// under `id`.
    pub open spec fn has_record(self, name: Seq<char>, id: Seq<char>) -> bool {
        match self.table_at(name) {
            Some(i) => row_ids(self.tables[i].rows).contains(id),
            None => false,
        }
    }
}

/// The position of the first of `tables` called `name`, if there is one.
pub fn table_position(tables: &Vec<Table>, name: &str) -> (found: Option<usize>)
    ensures
        match found {
            Some(i) => find(table_names(tables_view(tables@)), name@) == Some(i as int),
            None => find(table_names(tables_view(tables@)), name@) is None,
        },
        found is Some <==> table_names(tables_view(tables@)).contains(name@),
{
    let ghost names = table_names(tables_view(tables@));
    proof {
        lemma_find(names, name@);
    }
    let mut i: usize = 0;
    while i < tables.len()
        invariant
            i <= tables.len(),
            names == table_names(tables_view(tables@)),
            forall|j: int| 0 <= j < i ==> names[j] != name@,
        decreases tables.len() - i,
    {
        if same_text(tables[i].name.as_str(), name) {
            proof {
                assert(names[i as int] == name@);
                lemma_find_is(names, name@, i as int);
            }
            return Some(i);
        }
        i += 1;
    }
    proof {
        assert forall|k: int| !first_at(names, name@, k) by {
            if 0 <= k < names.len() {
                assert(names[k] != name@);
            }
        }
    }
    None
}

impl Clone for Database {
    fn clone(&self) -> (copy: Database)
        ensures
            copy@ == self@,
    {
        let mut tables: Vec<Table> = Vec::new();
        let mut i: usize = 0;
        while i < self.tables.len()
            invariant
                i <= self.tables.len(),
                tables.len() == i,
                forall|j: int| 0 <= j < i ==> tables@[j]@ == self.tables@[j]@,
            decreases self.tables.len() - i,
        {
            tables.push(self.tables[i].clone());
            i += 1;
        }
        assert(tables_view(tables@) =~= tables_view(self.tables@));
        Database { name: self.name.clone(), file_name: self.file_name.clone(), tables }
    }
}

impl Database {
    /// The path of the backing file of the database called `name`: the name
    /// followed by `.json`.
    pub fn file_name_for(name: &str) -> (path: String)
        ensures
            path@ == file_name_of(name@),
    {
        String::from_str(name).concat(".json")
    }

    /// Opens the database called `name`, given what was found where its
    /// backing file should be. Returns the database, and whether the backing
    /// file has to be created.
    pub fn new(name: &str, stored: Stored) -> (found: (Database, bool))
        ensures
            found.0@ == opened(name@, stored@).database,
            found.1 == opened(name@, stored@).create_file,
            found.0@.wf(),
    {
        match stored {
            Stored::Document(doc) => match Database::from_document(&doc) {
                Ok(database) => (database, false),
                Err(_) => (Database::empty(name), false),
            },
            Stored::Unreadable => (Database::empty(name), false),
            Stored::Missing => (Database::empty(name), true),
        }
    }

    /// The database called `name` with no tables. Its backing file is the
    /// name followed by `.json`.
    pub fn empty(name: &str) -> (database: Database)
        ensures
            database@ == empty_database(name@),
            database@.wf(),
    {
        let database = Database {
            name: String::from_str(name),
            file_name: Database::file_name_for(name),
            tables: Vec::new(),
        };
        assert(database@.tables =~= Seq::empty());
        database
    }

    /// The position of the table called `name`, if it is registered.
    pub fn table_index(&self, name: &str) -> (found: Option<usize>)
        ensures
            match found {
                Some(i) => self@.table_at(name@) == Some(i as int),
                None => self@.table_at(name@) is None,
            },
            found is Some <==> self@.has_table(name@),
            found matches Some(i) ==> i < self.tables.len(),
    {
        proof {
            lemma_find(table_names(self@.tables), name@);
        }
        table_position(&self.tables, name)
    }

    /// Registers a copy of `table`. Fails with `TableAlreadyExists` when a
    /// table of that name is registered; the database is then unchanged.
    pub fn add_table(&mut self, table: &mut Table) -> (done: Result<(), DatabaseError>)
        ensures
            *final(table) == *old(table),
            match done {
                Ok(_) => old(self)@.added(old(table)@) == Ok::<DatabaseView, DatabaseErrorView>(
                    final(self)@,
                ),
                Err(error) => {
                    &&& old(self)@.added(old(table)@) == Err::<DatabaseView, DatabaseErrorView>(
                        error@,
                    )
                    &&& final(self)@ == old(self)@
                },
            },
            old(self)@.wf() && old(table)@.wf() ==> final(self)@.wf(),
    {
        if self.table_index(table.name.as_str()).is_some() {
            return Err(DatabaseError::TableAlreadyExists(table.name.clone()));
        }
        let copy = table.clone();
        self.tables.push(copy);
        proof {
            assert(tables_view(self.tables@) =~= tables_view(old(self).tables@).push(old(table)@));
            if old(self)@.wf() && old(table)@.wf() {
                lemma_added_wf(old(self)@, old(table)@);
            }
        }
        Ok(())
    }

    /// Drops the table called `table_name`. Fails with `TableNotFound` when
    /// no such table is registered; the database is then unchanged.
    pub fn drop_table(&mut self, table_name: &str) -> (done: Result<(), DatabaseError>)
        ensures
            match done {
                Ok(_) => old(self)@.dropped(table_name@) == Ok::<DatabaseView, DatabaseErrorView>(
                    final(self)@,
                ),
                Err(error) => {
                    &&& old(self)@.dropped(table_name@) == Err::<DatabaseView, DatabaseErrorView>(
                        error@,
                    )
                    &&& final(self)@ == old(self)@
                },
            },
            old(self)@.wf() ==> final(self)@.wf(),
            old(self)@.wf() && done is Ok ==> !final(self)@.has_table(table_name@),
    {
        match self.table_index(table_name) {
            Some(i) => {
                let _ = self.tables.remove(i);
                proof {
                    assert(tables_view(self.tables@) =~= tables_view(old(self).tables@).remove(
                        i as int,
                    ));
                    if old(self)@.wf() {
                        lemma_dropped_wf(old(self)@, table_name@);
                    }
                }
                Ok(())
            },
            None => Err(DatabaseError::TableNotFound(String::from_str(table_name))),
        }
    }

    /// Renames the table called `old_name` to `new_name`. Fails with
    /// `InvalidData` when the names are equal, else with `TableNotFound` when
    /// `old_name` is not registered, else with `TableAlreadyExists` when
    /// `new_name` is taken. A failure leaves the database unchanged.
    pub fn rename_table(&mut self, old_name: &str, new_name: &str) -> (done: Result<
        (),
        DatabaseError,
    >)
        ensures
            match done {
                Ok(_) => old(self)@.renamed(old_name@, new_name@) == Ok::<
                    DatabaseView,
                    DatabaseErrorView,
                >(final(self)@),
                Err(error) => {
                    &&& old(self)@.renamed(old_name@, new_name@) == Err::<
                        DatabaseView,
                        DatabaseErrorView,
                    >(error@)
                    &&& final(self)@ == old(self)@
                },
            },
            old(self)@.wf() ==> final(self)@.wf(),
            old(self)@.wf() && done is Ok ==> final(self)@.has_table(new_name@)
                && !final(self)@.has_table(old_name@),
    {
        if same_text(old_name, new_name) {
            return Err(
                DatabaseError::InvalidData(String::from_str("old name and new name are the same")),
            );
        }
        match self.table_index(old_name) {
            None => Err(DatabaseError::TableNotFound(String::from_str(old_name))),
            Some(i) => {
                if self.table_index(new_name).is_some() {
                    return Err(DatabaseError::TableAlreadyExists(String::from_str(new_name)));
                }
                self.tables[i].name = String::from_str(new_name);
                proof {
                    let before = old(self)@;
                    assert(tables_view(self.tables@) =~= before.tables.update(
                        i as int,
                        TableView { name: new_name@, ..before.tables[i as int] },
                    ));
                    if before.wf() {
                        lemma_renamed_wf(before, old_name@, new_name@);
                    }
                }
                Ok(())
            },
        }
    }

    /// The names of the tables, in the order they were registered.
    pub fn list_tables(&self) -> (names: Vec<String>)
        ensures
            Seq::new(names@.len(), |i: int| names@[i]@) == table_names(self@.tables),
    {
        let mut names: Vec<String> = Vec::new();
        let mut i: usize = 0;
        while i < self.tables.len()
            invariant
                i <= self.tables.len(),
                names.len() == i,
                forall|j: int| 0 <= j < i ==> names@[j]@ == self.tables@[j].name@,
            decreases self.tables.len() - i,
        {
            names.push(self.tables[i].name.clone());
            i += 1;
        }
        assert(Seq::new(names@.len(), |i: int| names@[i]@) =~= table_names(self@.tables));
        names
    }

    /// The number of records in the table called `table_name`. Fails with
    /// `TableNotFound` when no such table is registered.
    pub fn count_rows(&self, table_name: &str) -> (count: Result<usize, DatabaseError>)
        ensures
            match count {
                Ok(n) => self@.row_count(table_name@) == Ok::<nat, DatabaseErrorView>(n as nat),
                Err(error) => self@.row_count(table_name@) == Err::<nat, DatabaseErrorView>(
                    error@,
                ),
            },
    {
        match self.table_index(table_name) {
            Some(i) => Ok(self.tables[i].len()),
            None => Err(DatabaseError::TableNotFound(String::from_str(table_name))),
        }
    }

    /// Whether the table called `table_name` is registered and stores a
    /// record under the identifier `pk_value`.
    pub fn record_exists(&self, table_name: &str, pk_value: &str) -> (exists: bool)
        ensures
            exists == self@.has_record(table_name@, pk_value@),
    {
        match self.table_index(table_name) {
            Some(i) => self.tables[i].contains(pk_value),
            None => false,
        }
    }

    /// What dropping the database reports, given what removing the backing
    /// file reported: success, or `DeleteError` with the cause of the failure.
    pub fn drop_database(&self, removal: Result<(), String>) -> (done: Result<(), DatabaseError>)
        ensures
            match removal {
                Ok(_) => done is Ok,
                Err(cause) => done matches Err(error) && error@ == DatabaseErrorView::DeleteError(
                    cause@,
                ),
            },
    {
        match removal {
            Ok(_) => Ok(()),
            Err(cause) => Err(DatabaseError::DeleteError(cause)),
        }
    }

    /// A query on this database's backing file that will perform `operation`.
    pub fn query(&self, operation: Operation) -> (query: Query)
        ensures
            query@ == self@.blank_query(operation),
    {
        Query {
            db_file_name: self.file_name.clone(),
            table_name: None,
            operation,
            update_data: None,
            row_data: None,
        }
    }

    /// A query that will insert a record.
    pub fn add_row(&mut self) -> (query: Query)
        ensures
            *final(self) == *old(self),
            query@ == old(self)@.blank_query(Operation::Create),
    {
        self.query(Operation::Create)
    }

    /// A query that will read every record of a table.
    pub fn get_rows(&self) -> (query: Query)
        ensures
            query@ == self@.blank_query(Operation::Read),
    {
        self.query(Operation::Read)
    }

    /// A query that will read one record.
    pub fn get_single(&self) -> (query: Query)
        ensures
            query@ == self@.blank_query(Operation::Read),
    {
        self.query(Operation::Read)
    }

    /// A query that will delete one record.
    pub fn delete_single(&self) -> (query: Query)
        ensures
            query@ == self@.blank_query(Operation::Delete),
    {
        self.query(Operation::Delete)
    }

    /// A query that will update one record.
    pub fn update_row(&self) -> (query: Query)
        ensures
            query@ == self@.blank_query(Operation::Update),
    {
        self.query(Operation::Update)
    }
}

/// Replacing the records of one table by records with distinct identifiers
/// keeps a well-formed database well formed.
pub proof fn lemma_with_rows_wf(database: DatabaseView, t: int, rows: Seq<RowView>)
    requires
        database.wf(),
        0 <= t < database.tables.len(),
        row_ids(rows).no_duplicates(),
    ensures
        (DatabaseView {
            tables: database.tables.update(t, TableView { rows, ..database.tables[t] }),
            ..database
        }).wf(),
{
    let tables = database.tables.update(t, TableView { rows, ..database.tables[t] });
    assert(table_names(tables) =~= table_names(database.tables));
    assert forall|i: int| 0 <= i < tables.len() implies (#[trigger] tables[i]).wf() by {
        if i != t {
            assert(database.tables[i].wf());
        }
    }
}

/// Registering a well-formed table keeps a well-formed database well formed.
pub proof fn lemma_added_wf(database: DatabaseView, table: TableView)
    requires
        database.wf(),
        table.wf(),
        database.added(table) is Ok,
    ensures
        database.added(table)->Ok_0.wf(),
{
    let after = database.added(table)->Ok_0;
    let names = table_names(database.tables);
    lemma_push_distinct(names, table.name);
    assert(table_names(after.tables) =~= names.push(table.name));
}

/// Dropping a table keeps a well-formed database well formed, and the
/// dropped name is then free.
pub proof fn lemma_dropped_wf(database: DatabaseView, name: Seq<char>)
    requires
        database.wf(),
        database.dropped(name) is Ok,
    ensures
        database.dropped(name)->Ok_0.wf(),
        !database.dropped(name)->Ok_0.has_table(name),
{
    let after = database.dropped(name)->Ok_0;
    let names = table_names(database.tables);
    lemma_find(names, name);
    let at = find(names, name)->Some_0;
    lemma_remove_distinct(names, at);
    assert(table_names(after.tables) =~= names.remove(at));
    assert forall|i: int| 0 <= i < after.tables.len() implies (#[trigger] after.tables[i]).wf() by {
        let from = if i < at { i } else { i + 1 };
        assert(after.tables[i] == database.tables[from]);
    }
}

/// Renaming a table keeps a well-formed database well formed; the new name
/// is then registered and the old one free.
pub proof fn lemma_renamed_wf(database: DatabaseView, old_name: Seq<char>, new_name: Seq<char>)
    requires
        database.wf(),
        database.renamed(old_name, new_name) is Ok,
    ensures
        database.renamed(old_name, new_name)->Ok_0.wf(),
        database.renamed(old_name, new_name)->Ok_0.has_table(new_name),
        !database.renamed(old_name, new_name)->Ok_0.has_table(old_name),
{
    let after = database.renamed(old_name, new_name)->Ok_0;
    let names = table_names(database.tables);
    lemma_find(names, old_name);
    let at = find(names, old_name)->Some_0;
    lemma_update_distinct(names, at, new_name);
    assert(table_names(after.tables) =~= names.update(at, new_name));
    assert(names.update(at, new_name)[at] == new_name);
    assert forall|i: int| 0 <= i < after.tables.len() implies (#[trigger] after.tables[i]).wf() by {
        assert(database.tables[i].wf());
    }
}

} // verus!
