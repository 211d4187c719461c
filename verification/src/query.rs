//! Queries: one operation on one table, built step by step and then run on a
//! snapshot of the database.

use vstd::prelude::*;
use crate::columns::validation;
use crate::database::{lemma_with_rows_wf, table_names, tables_view, Database, DatabaseView};
use crate::errors::{schema_failure, DatabaseError, DatabaseErrorView};
use crate::json::{
    items_view, last_bound, lemma_merged_get, lemma_object_view, merge_members, merged, Json,
    JsonView,
};
use crate::lookup::{
    find, first_at, lemma_find, lemma_find_is, lemma_find_none, lemma_remove_distinct, same_text,
};
use crate::row::{fresh_row_id, is_row_id, Row, RowView};
use crate::table::{lemma_with_row_wf, row_ids, row_payloads, rows_view, Table, TableView};

verus! {

/// What a query does.
#[derive(Clone, Copy, Debug, PartialEq, Eq)]
pub enum Operation {
    Create,
    Read,
    Update,
    Delete,
}

/// One operation on one table of the database kept in `db_file_name`.
#[derive(Debug, PartialEq)]
pub struct Query {
    pub db_file_name: String,
    /// The target table, once it has been set.
    pub table_name: Option<String>,
    pub operation: Operation,
    /// The members to merge into the record that an update finds.
    pub update_data: Option<Json>,
    /// The payload of the record that an insertion stores.
    pub row_data: Option<Json>,
}

/// The mathematical value of a [`Query`].
pub struct QueryView {
    pub db_file_name: Seq<char>,
    pub table_name: Option<Seq<char>>,
    pub operation: Operation,
    pub update_data: Option<JsonView>,
    pub row_data: Option<JsonView>,
}

/// The mathematical value of an optional payload.
pub open spec fn payload_view(payload: Option<Json>) -> Option<JsonView> {
    match payload {
        Some(json) => Some(json@),
        None => None,
    }
}

impl View for Query {
    type V = QueryView;

    open spec fn view(&self) -> QueryView {
        QueryView {
            db_file_name: self.db_file_name@,
            table_name: match self.table_name {
                Some(name) => Some(name@),
                None => None,
            },
            operation: self.operation,
            update_data: payload_view(self.update_data),
            row_data: payload_view(self.row_data),
        }
    }
}

/// A reference from a column of one table to a column of another.
#[derive(Debug, PartialEq)]
pub struct ForeignKeyConstraint {
    pub table_name: String,
    pub column_name: String,
    pub foreign_table_name: String,
    pub foreign_column_name: String,
}

/// The reason given when a query has no target table.
pub open spec fn no_table_reason() -> Seq<char> {
    "Table name not specified."@
}

/// The reason given when an insertion has no payload.
pub open spec fn no_row_reason() -> Seq<char> {
    "No data provided for the new row."@
}

/// The reason given when an update has no members to merge.
pub open spec fn no_update_reason() -> Seq<char> {
    "No update data provided."@
}

/// The reason given when the members to merge are not a JSON object.
pub open spec fn bad_update_reason() -> Seq<char> {
    "Invalid update data format."@
}

/// The reason given when the payload of the record to update is not a JSON
/// object.
pub open spec fn no_object_reason() -> Seq<char> {
    "Row data is not a JSON object."@
}

/// What merging the members of an update into a record gives: the record
/// with the members merged into its payload, shallowly. It is refused when
/// there are no members to merge, when they are not a JSON object, and when
/// the record's payload is not one.
pub open spec fn updated_row(row: RowView, update: Option<JsonView>) -> Result<
    RowView,
    DatabaseErrorView,
> {
    match update {
        None => Err(DatabaseErrorView::InvalidData(no_update_reason())),
        Some(JsonView::Object(changes)) => match row.data {
            JsonView::Object(members) => Ok(
                RowView { data: JsonView::Object(merged(members, changes)), ..row },
            ),
            _ => Err(DatabaseErrorView::InvalidData(no_object_reason())),
        },
        Some(_) => Err(DatabaseErrorView::InvalidData(bad_update_reason())),
    }
}

/// Whether the payload of `row` binds `key` to the string `value`.
pub open spec fn row_matches(row: RowView, key: Seq<char>, value: Seq<char>) -> bool {
    row.data.get(key) == Some(JsonView::String(value))
}

/// For each record, whether its payload binds `key` to the string `value`.
pub open spec fn matching(rows: Seq<RowView>, key: Seq<char>, value: Seq<char>) -> Seq<bool> {
    Seq::new(rows.len(), |i: int| row_matches(rows[i], key, value))
}

/// What a run of a query leaves: the database after it, and the payload it
/// hands back, if any.
pub struct Outcome {
    pub database: DatabaseView,
    pub record: Option<JsonView>,
}

impl DatabaseView {
    /// The database with the records of the table at `t` replaced by `rows`.
    pub open spec fn with_rows(self, t: int, rows: Seq<RowView>) -> DatabaseView {
        DatabaseView { tables: self.tables.update(t, TableView { rows, ..self.tables[t] }), ..self }
    }
}

impl QueryView {
    /// The position of the target table. It is an error to have set none
    /// (`InvalidData`) or one that is not registered (`TableNotFound`).
    pub open spec fn target(self, database: DatabaseView) -> Result<int, DatabaseErrorView> {
        match self.table_name {
            None => Err(DatabaseErrorView::InvalidData(no_table_reason())),
            Some(name) => match database.table_at(name) {
                Some(t) => Ok(t),
                None => Err(DatabaseErrorView::TableNotFound(name)),
            },
        }
    }

    /// Why an insertion is refused, if it is: no target table, an unknown
    /// target table, no payload, or a payload that does not fit the schema.
    pub open spec fn add_refusal(self, database: DatabaseView) -> Option<DatabaseErrorView> {
        match self.target(database) {
            Err(error) => Some(error),
            Ok(t) => match self.row_data {
                None => Some(DatabaseErrorView::InvalidData(no_row_reason())),
                Some(payload) => match validation(database.tables[t].columns, payload) {
                    Err(error) => Some(schema_failure(error)),
                    Ok(_) => None,
                },
            },
        }
    }

    /// The database after an insertion that is not refused stored its
    /// payload under `id`.
    pub open spec fn added(self, database: DatabaseView, id: Seq<char>) -> DatabaseView {
        let t = self.target(database)->Ok_0;
        DatabaseView {
            tables: database.tables.update(
                t,
                database.tables[t].stored(id, self.row_data->Some_0),
            ),
            ..database
        }
    }

    /// The payloads that reading the whole target table gives: those of its
    /// records, in order, and none when there is no such table.
    pub open spec fn selected(self, database: DatabaseView) -> Seq<JsonView> {
        match self.target(database) {
            Ok(t) => row_payloads(database.tables[t].rows),
            Err(_) => Seq::empty(),
        }
    }

    /// What running the query on the first record of the target table whose
    /// payload binds `key` to the string `value` gives.
    ///
    /// A read hands back the payload. An update merges its members into the
    /// payload, shallowly, and hands back the result; it is refused when it
    /// has no members to merge or they are not an object. A deletion takes
    /// the record out and hands back its payload. When no record matches,
    /// nothing is handed back and the database is unchanged.
    pub open spec fn matched(
        self,
        database: DatabaseView,
        key: Seq<char>,
        value: Seq<char>,
    ) -> Result<Outcome, DatabaseErrorView> {
        match self.target(database) {
            Err(error) => Err(error),
            Ok(t) => {
                let rows = database.tables[t].rows;
                let hit = find(matching(rows, key, value), true);
                match self.operation {
                    Operation::Update => match self.update_data {
                        None => Err(DatabaseErrorView::InvalidData(no_update_reason())),
                        Some(JsonView::Object(changes)) => match hit {
                            None => Ok(Outcome { database, record: None }),
                            Some(r) => {
                                let data = JsonView::Object(
                                    merged(rows[r].data->Object_0, changes),
                                );
                                Ok(
                                    Outcome {
                                        database: database.with_rows(
                                            t,
                                            rows.update(r, RowView { data, ..rows[r] }),
                                        ),
                                        record: Some(data),
                                    },
                                )
                            },
                        },
                        Some(_) => Err(DatabaseErrorView::InvalidData(bad_update_reason())),
                    },
                    Operation::Delete => match hit {
                        None => Ok(Outcome { database, record: None }),
                        Some(r) => Ok(
                            Outcome {
                                database: database.with_rows(t, rows.remove(r)),
                                record: Some(rows[r].data),
                            },
                        ),
                    },
                    _ => match hit {
                        None => Ok(Outcome { database, record: None }),
                        Some(r) => Ok(Outcome { database, record: Some(rows[r].data) }),
                    },
                }
            },
        }
    }
}

impl Query {
    /// Sets the target table.
    pub fn from(self, table_name: &str) -> (query: Query)
        ensures
            query@ == (QueryView { table_name: Some(table_name@), ..self@ }),
    {
        let mut query = self;
        query.table_name = Some(table_name.to_owned());
        query
    }

    /// Attaches the members that an update merges into the record it finds.
    pub fn data(self, data: Json) -> (query: Query)
        ensures
            query@ == (QueryView { update_data: Some(data@), ..self@ }),
    {
        let mut query = self;
        query.update_data = Some(data);
        query
    }

    /// Attaches the payload of the record that an insertion stores.
    pub fn data_from_struct(self, data: Json) -> (query: Query)
        ensures
            query@ == (QueryView { row_data: Some(data@), ..self@ }),
    {
        let mut query = self;
        query.row_data = Some(data);
        query
    }

    /// Whether running the query can change the database, so that the
    /// snapshot has to be written back afterwards.
    pub fn writes(&self) -> (yes: bool)
        ensures
            yes == !(self@.operation is Read),
    {
        match self.operation {
            Operation::Read => false,
            _ => true,
        }
    }

    /// The position of the target table in `database`.
    pub fn target(&self, database: &Database) -> (found: Result<usize, DatabaseError>)
        ensures
            match found {
                Ok(t) => self@.target(database@) == Ok::<int, DatabaseErrorView>(t as int),
                Err(error) => self@.target(database@) == Err::<int, DatabaseErrorView>(error@),
            },
            found matches Ok(t) ==> t < database.tables.len(),
    {
        match &self.table_name {
            None => Err(DatabaseError::InvalidData(String::from_str("Table name not specified."))),
            Some(name) => match database.table_index(name.as_str()) {
                Some(t) => {
                    proof {
                        lemma_find(table_names(database@.tables), name@);
                    }
                    Ok(t)
                },
                None => Err(DatabaseError::TableNotFound(name.clone())),
            },
        }
    }

    /// Stores the attached payload in the target table under `id`, after
    /// checking it against the table's schema. A refused insertion leaves
    /// the database unchanged.
    pub fn execute_add_as(self, db: &mut Database, id: String) -> (done: Result<(), DatabaseError>)
        ensures
            match done {
                Ok(_) => {
                    &&& self@.add_refusal(old(db)@) is None
                    &&& final(db)@ == self@.added(old(db)@, id@)
                },
                Err(error) => {
                    &&& self@.add_refusal(old(db)@) == Some(error@)
                    &&& final(db)@ == old(db)@
                },
            },
            old(db)@.wf() ==> final(db)@.wf(),
    {
        let t = match self.target(db) {
            Ok(t) => t,
            Err(error) => {
                return Err(error);
            },
        };
        match self.row_data {
            None => Err(
                DatabaseError::InvalidData(String::from_str("No data provided for the new row.")),
            ),
            Some(payload) => {
                match db.tables[t].insert_row(id, payload) {
                    Ok(_) => {
                        proof {
                            let target = old(db)@.tables[t as int];
                            assert(tables_view(db.tables@) =~= old(db)@.tables.update(
                                t as int,
                                target.stored(id@, payload@),
                            ));
                            if old(db)@.wf() {
                                assert(target.wf());
                                lemma_with_row_wf(
                                    target.rows,
                                    RowView { id: id@, data: payload@ },
                                );
                                lemma_with_rows_wf(
                                    old(db)@,
                                    t as int,
                                    target.stored(id@, payload@).rows,
                                );
                            }
                        }
                        Ok(())
                    },
                    Err(error) => {
                        assert(tables_view(db.tables@) =~= old(db)@.tables);
                        Err(DatabaseError::from_schema(error))
                    },
                }
            },
        }
    }

    /// Stores the attached payload in the target table under a newly drawn
    /// identifier, after checking it against the table's schema. Fails with
    /// `InvalidData` when no target table is set, with `TableNotFound` when
    /// it is not registered, with `InvalidData` when no payload is attached,
    /// and with the schema's error when the payload does not fit. A refused
    /// insertion leaves the database unchanged.
    pub fn execute_add(self, db: &mut Database) -> (done: Result<(), DatabaseError>)
        ensures
            match done {
                Ok(_) => {
                    &&& self@.add_refusal(old(db)@) is None
                    &&& exists|id: Seq<char>|
                        is_row_id(id) && final(db)@ == #[trigger] self@.added(old(db)@, id)
                },
                Err(error) => {
                    &&& self@.add_refusal(old(db)@) == Some(error@)
                    &&& final(db)@ == old(db)@
                },
            },
            old(db)@.wf() ==> final(db)@.wf(),
    {
        let id = fresh_row_id();
        self.execute_add_as(db, id)
    }

    /// Copies of the payloads of every record of the target table, in
    /// order. When no target table is set or it is not registered, there are
    /// none.
    pub fn all(&self, db: &Database) -> (payloads: Vec<Json>)
        ensures
            items_view(payloads@) == self@.selected(db@),
    {
        let mut payloads: Vec<Json> = Vec::new();
        match self.target(db) {
            Ok(t) => {
                let table = &db.tables[t];
                let mut i: usize = 0;
                while i < table.rows.len()
                    invariant
                        i <= table.rows.len(),
                        payloads.len() == i,
                        forall|j: int| 0 <= j < i ==> payloads@[j]@ == table.rows@[j]@.data,
                    decreases table.rows.len() - i,
                {
                    payloads.push(table.rows[i].data.clone());
                    i += 1;
                }
                assert(items_view(payloads@) =~= row_payloads(table@.rows));
            },
            Err(_) => {
                assert(items_view(payloads@) =~= Seq::empty());
            },
        }
        payloads
    }

    /// The position of the first record of `table` whose payload binds `key`
    /// to the string `value`.
    pub fn find_matching_row(table: &Table, key: &str, value: &str) -> (hit: Option<usize>)
        ensures
            match hit {
                Some(r) => find(matching(table@.rows, key@, value@), true) == Some(r as int),
                None => find(matching(table@.rows, key@, value@), true) is None,
            },
            hit matches Some(r) ==> r < table.rows.len() && table@.rows[r as int].data is Object,
    {
        let ghost flags = matching(table@.rows, key@, value@);
        let mut i: usize = 0;
        while i < table.rows.len()
            invariant
                i <= table.rows.len(),
                flags == matching(table@.rows, key@, value@),
                forall|j: int| 0 <= j < i ==> flags[j] != true,
            decreases table.rows.len() - i,
        {
            let bound = match table.rows[i].data.get(key) {
                Some(field) => match field.as_str() {
                    Some(text) => same_text(text, value),
                    None => false,
                },
                None => false,
            };
            assert(bound == flags[i as int]);
            if bound {
                proof {
                    lemma_find_is(flags, true, i as int);
                }
                return Some(i);
            }
            i += 1;
        }
        proof {
            assert forall|k: int| !first_at(flags, true, k) by {
                if 0 <= k < flags.len() {
                    assert(flags[k] != true);
                }
            }
        }
        None
    }

    /// Merges the members of `update_data` into the payload of `row`,
    /// shallowly: a member that the payload has is overwritten, the others
    /// are added, and members that the update does not name are untouched.
    /// Fails with `InvalidData`, and leaves the record as it was, when
    /// `update_data` is absent or not a JSON object, or the payload is not one.
    pub fn apply_update_to_row(row: &mut Row, update_data: &Option<Json>) -> (done: Result<
        (),
        DatabaseError,
    >)
        ensures
            match done {
                Ok(_) => updated_row(old(row)@, payload_view(*update_data)) == Ok::<
                    RowView,
                    DatabaseErrorView,
                >(final(row)@),
                Err(error) => {
                    &&& updated_row(old(row)@, payload_view(*update_data)) == Err::<
                        RowView,
                        DatabaseErrorView,
                    >(error@)
                    &&& final(row)@ == old(row)@
                },
            },
    {
        let changes = match update_data {
            Some(Json::Object(changes)) => {
                proof {
                    lemma_object_view(*changes);
                }
                changes
            },
            Some(_) => {
                return Err(
                    DatabaseError::InvalidData(String::from_str("Invalid update data format.")),
                );
            },
            None => {
                return Err(DatabaseError::InvalidData(String::from_str("No update data provided.")));
            },
        };
        match &mut row.data {
            Json::Object(members) => {
                proof {
                    lemma_object_view(*members);
                }
                merge_members(members, changes);
                proof {
                    lemma_object_view(*members);
                }
                Ok(())
            },
            _ => Err(DatabaseError::InvalidData(String::from_str("Row data is not a JSON object."))),
        }
    }

    /// Runs the query on the first record of the target table whose payload
    /// binds `key` to the string `value`, and hands back a copy of the
    /// payload concerned: the one read, the merged one, or the deleted one.
    /// When no record matches, nothing is handed back.
    ///
    /// Fails with `InvalidData` when no target table is set and with
    /// `TableNotFound` when it is not registered; an update fails with
    /// `InvalidData` when it has no members to merge or they are not an
    /// object. A failure leaves the database unchanged. A query that inserts
    /// cannot be run this way.
    pub fn where_eq(self, db: &mut Database, key: &str, value: &str) -> (done: Result<
        Option<Json>,
        DatabaseError,
    >)
        requires
            !(self@.operation is Create),
        ensures
            match done {
                Ok(record) => self@.matched(old(db)@, key@, value@) == Ok::<
                    Outcome,
                    DatabaseErrorView,
                >(Outcome { database: final(db)@, record: payload_view(record) }),
                Err(error) => {
                    &&& self@.matched(old(db)@, key@, value@) == Err::<
                        Outcome,
                        DatabaseErrorView,
                    >(error@)
                    &&& final(db)@ == old(db)@
                },
            },
            old(db)@.wf() ==> final(db)@.wf(),
    {
        let t = match self.target(db) {
            Ok(t) => t,
            Err(error) => {
                return Err(error);
            },
        };
        match self.operation {
            Operation::Update => self.execute_update(db, t, key, value),
            Operation::Delete => Ok(Query::execute_delete(db, t, key, value)),
            _ => Ok(Query::execute_select(&db.tables[t], key, value)),
        }
    }

    /// A copy of the payload of the first matching record of `table`.
    fn execute_select(table: &Table, key: &str, value: &str) -> (record: Option<Json>)
        ensures
            payload_view(record) == match find(matching(table@.rows, key@, value@), true) {
                Some(r) => Some(table@.rows[r].data),
                None => None,
            },
    {
        match Query::find_matching_row(table, key, value) {
            Some(r) => Some(table.rows[r].data.clone()),
            None => None,
        }
    }

    /// Merges the attached members into the first matching record of the
    /// table at `t`.
    fn execute_update(&self, db: &mut Database, t: usize, key: &str, value: &str) -> (done: Result<
        Option<Json>,
        DatabaseError,
    >)
        requires
            self@.operation is Update,
            self@.target(old(db)@) == Ok::<int, DatabaseErrorView>(t as int),
            t < old(db).tables.len(),
        ensures
            match done {
                Ok(record) => self@.matched(old(db)@, key@, value@) == Ok::<
                    Outcome,
                    DatabaseErrorView,
                >(Outcome { database: final(db)@, record: payload_view(record) }),
                Err(error) => {
                    &&& self@.matched(old(db)@, key@, value@) == Err::<
                        Outcome,
                        DatabaseErrorView,
                    >(error@)
                    &&& final(db)@ == old(db)@
                },
            },
            old(db)@.wf() ==> final(db)@.wf(),
    {
        match &self.update_data {
            None => {
                return Err(DatabaseError::InvalidData(String::from_str("No update data provided.")));
            },
            Some(Json::Object(_)) => {},
            Some(_) => {
                return Err(
                    DatabaseError::InvalidData(String::from_str("Invalid update data format.")),
                );
            },
        }
        match Query::find_matching_row(&db.tables[t], key, value) {
            None => {
                assert(db@ == old(db)@);
                Ok(None)
            },
            Some(r) => {
                let ghost rows = old(db)@.tables[t as int].rows;
                match Query::apply_update_to_row(&mut db.tables[t].rows[r], &self.update_data) {
                    Ok(_) => {},
                    Err(error) => {
                        return Err(error);
                    },
                }
                let record = db.tables[t].rows[r].data.clone();
                proof {
                    let row = RowView { data: record@, ..rows[r as int] };
                    assert(rows_view(db.tables@[t as int].rows@) =~= rows.update(r as int, row));
                    assert(tables_view(db.tables@) =~= old(db)@.with_rows(
                        t as int,
                        rows.update(r as int, row),
                    ).tables);
                    if old(db)@.wf() {
                        assert(old(db)@.tables[t as int].wf());
                        assert(row_ids(rows.update(r as int, row)) =~= row_ids(rows));
                        lemma_with_rows_wf(old(db)@, t as int, rows.update(r as int, row));
                    }
                }
                Ok(Some(record))
            },
        }
    }

    /// Takes the first matching record out of the table at `t`.
    fn execute_delete(db: &mut Database, t: usize, key: &str, value: &str) -> (record: Option<Json>)
        requires
            t < old(db).tables.len(),
        ensures
            match find(matching(old(db)@.tables[t as int].rows, key@, value@), true) {
                Some(r) => {
                    let rows = old(db)@.tables[t as int].rows;
                    &&& final(db)@ == old(db)@.with_rows(t as int, rows.remove(r))
                    &&& payload_view(record) == Some(rows[r].data)
                },
                None => final(db)@ == old(db)@ && record is None,
            },
            old(db)@.wf() ==> final(db)@.wf(),
    {
        match Query::find_matching_row(&db.tables[t], key, value) {
            None => {
                assert(db@ == old(db)@);
                None
            },
            Some(r) => {
                let ghost rows = old(db)@.tables[t as int].rows;
                let row = db.tables[t].rows.remove(r);
                proof {
                    assert(rows_view(db.tables@[t as int].rows@) =~= rows.remove(r as int));
                    assert(tables_view(db.tables@) =~= old(db)@.with_rows(
                        t as int,
                        rows.remove(r as int),
                    ).tables);
                    if old(db)@.wf() {
                        assert(old(db)@.tables[t as int].wf());
                        lemma_remove_distinct(row_ids(rows), r as int);
                        assert(row_ids(rows.remove(r as int)) =~= row_ids(rows).remove(r as int));
                        lemma_with_rows_wf(old(db)@, t as int, rows.remove(r as int));
                    }
                }
                Some(row.data)
            },
        }
    }

    /// Attaches the members that an update merges into the record it finds.
    pub fn set(self, update_data: Json) -> (query: Query)
        ensures
            query@ == (QueryView { update_data: Some(update_data@), ..self@ }),
    {
        let mut query = self;
        query.update_data = Some(update_data);
        query
    }
}

/// Insert, then read: after an insertion that is not refused stored its
/// payload under an identifier that was free, reading the whole table gives
/// what it gave before, followed by that payload.
pub proof fn lemma_add_then_all(query: QueryView, database: DatabaseView, id: Seq<char>)
    requires
        query.add_refusal(database) is None,
        !row_ids(database.tables[query.target(database)->Ok_0].rows).contains(id),
    ensures
        query.selected(query.added(database, id)) == query.selected(database).push(
            query.row_data->Some_0,
        ),
{
    let name = query.table_name->Some_0;
    let names = table_names(database.tables);
    lemma_find(names, name);
    let t = query.target(database)->Ok_0;
    let after = query.added(database, id);
    assert(table_names(after.tables) =~= names);
    let rows = database.tables[t].rows;
    lemma_find(row_ids(rows), id);
    let payload = query.row_data->Some_0;
    assert(after.tables[t].rows == rows.push(RowView { id, data: payload }));
    assert(row_payloads(rows.push(RowView { id, data: payload })) =~= row_payloads(rows).push(
        payload,
    ));
}

/// Update, then read: after an update changed a record without binding
/// `key` anew, reading by the same `key` and `value` finds that record and
/// gives the merged payload.
pub proof fn lemma_update_then_read(
    query: QueryView,
    database: DatabaseView,
    key: Seq<char>,
    value: Seq<char>,
)
    requires
        query.operation is Update,
        query.matched(database, key, value) matches Ok(outcome) && outcome.record is Some,
        last_bound(query.update_data->Some_0->Object_0, key) is None,
    ensures
        ({
            let outcome = query.matched(database, key, value)->Ok_0;
            let read = QueryView { operation: Operation::Read, ..query };
            read.matched(outcome.database, key, value) == Ok::<Outcome, DatabaseErrorView>(outcome)
        }),
{
    let outcome = query.matched(database, key, value)->Ok_0;
    let read = QueryView { operation: Operation::Read, ..query };
    let name = query.table_name->Some_0;
    let names = table_names(database.tables);
    lemma_find(names, name);
    let t = query.target(database)->Ok_0;
    assert(table_names(outcome.database.tables) =~= names);
    let rows = database.tables[t].rows;
    let flags = matching(rows, key, value);
    lemma_find(flags, true);
    let r = find(flags, true)->Some_0;
    let changes = query.update_data->Some_0->Object_0;
    let data = JsonView::Object(merged(rows[r].data->Object_0, changes));
    let after = rows.update(r, RowView { data, ..rows[r] });
    assert(outcome.database.tables[t].rows == after);
    lemma_merged_get(rows[r].data->Object_0, changes, key);
    assert(row_matches(rows[r], key, value));
    assert(rows[r].data is Object);
    assert(row_matches(after[r], key, value));
    let after_flags = matching(after, key, value);
    assert forall|j: int| 0 <= j < r implies after_flags[j] != true by {
        assert(flags[j] != true);
    }
    assert(first_at(after_flags, true, r));
    lemma_find_is(after_flags, true, r);
}

/// Delete, then read: after a deletion took out the only record that binds
/// `key` to `value`, reading by the same `key` and `value` finds nothing, and
/// reading the whole table gives what it gave before without that payload.
pub proof fn lemma_delete_then_read(
    query: QueryView,
    database: DatabaseView,
    key: Seq<char>,
    value: Seq<char>,
)
    requires
        query.operation is Delete,
        query.matched(database, key, value) matches Ok(outcome) && outcome.record is Some,
        ({
            let rows = database.tables[query.target(database)->Ok_0].rows;
            forall|i: int, j: int|
                0 <= i < rows.len() && 0 <= j < rows.len() && row_matches(rows[i], key, value)
                    && row_matches(rows[j], key, value) ==> i == j
        }),
    ensures
        ({
            let outcome = query.matched(database, key, value)->Ok_0;
            let read = QueryView { operation: Operation::Read, ..query };
            let at = find(
                matching(database.tables[query.target(database)->Ok_0].rows, key, value),
                true,
            )->Some_0;
            &&& read.matched(outcome.database, key, value) == Ok::<Outcome, DatabaseErrorView>(
                Outcome { database: outcome.database, record: None },
            )
            &&& read.selected(outcome.database) == read.selected(database).remove(at)
        }),
{
    let outcome = query.matched(database, key, value)->Ok_0;
    let name = query.table_name->Some_0;
    let names = table_names(database.tables);
    lemma_find(names, name);
    let t = query.target(database)->Ok_0;
    assert(table_names(outcome.database.tables) =~= names);
    let rows = database.tables[t].rows;
    let flags = matching(rows, key, value);
    lemma_find(flags, true);
    let r = find(flags, true)->Some_0;
    let after = rows.remove(r);
    assert(outcome.database.tables[t].rows == after);
    let after_flags = matching(after, key, value);
    assert forall|j: int| 0 <= j < after_flags.len() implies after_flags[j] != true by {
        let from = if j < r { j } else { j + 1 };
        assert(after[j] == rows[from]);
        assert(flags[r] == true);
        if row_matches(rows[from], key, value) {
            assert(from == r);
        }
    }
    lemma_find_none(after_flags, true);
    assert(row_payloads(after) =~= row_payloads(rows).remove(r));
}

} // verus!
