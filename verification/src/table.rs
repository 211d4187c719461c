//! Tables: a schema and the records stored under it, each under its own
//! identifier.

use vstd::prelude::*;
use crate::columns::{fits, validation, ColumnView, Columns};
use crate::database::{lemma_with_rows_wf, table_names, tables_view, Database, DatabaseView};
use crate::errors::{schema_failure, DatabaseError, DatabaseErrorView, SchemaError, SchemaErrorView};
use crate::json::{items_view, lemma_array_view, Json, JsonView};
use crate::lookup::{
    find, first_at, lemma_find, lemma_find_is, lemma_find_none, lemma_push_distinct,
    lemma_remove_distinct, same_text,
};
use crate::row::{is_row_id, Row, RowView};

verus! {

/// A named collection of records that share a schema.
#[derive(Debug, PartialEq)]
pub struct Table {
    pub name: String,
    /// The records, oldest first. No two share an identifier.
    pub rows: Vec<Row>,
    pub columns: Columns,
}

/// The mathematical value of a [`Table`].
pub struct TableView {
    pub name: Seq<char>,
    pub columns: Seq<ColumnView>,
    pub rows: Seq<RowView>,
}

/// The mathematical value of a list of records.
pub open spec fn rows_view(rows: Seq<Row>) -> Seq<RowView> {
    Seq::new(rows.len(), |i: int| rows[i]@)
}

impl View for Table {
    type V = TableView;

    open spec fn view(&self) -> TableView {
        TableView { name: self.name@, columns: self.columns@, rows: rows_view(self.rows@) }
    }
}

/// The identifiers of the records, in order.
pub open spec fn row_ids(rows: Seq<RowView>) -> Seq<Seq<char>> {
    Seq::new(rows.len(), |i: int| rows[i].id)
}

/// The payloads of the records, in order.
pub open spec fn row_payloads(rows: Seq<RowView>) -> Seq<JsonView> {
    Seq::new(rows.len(), |i: int| rows[i].data)
}

/// The records once `row` is stored: a record with the same identifier is
/// replaced where it stands, otherwise `row` is added at the end.
pub open spec fn with_row(rows: Seq<RowView>, row: RowView) -> Seq<RowView> {
    match find(row_ids(rows), row.id) {
        Some(i) => rows.update(i, row),
        None => rows.push(row),
    }
}

/// The records without the one stored under `id`.
pub open spec fn without_row(rows: Seq<RowView>, id: Seq<char>) -> Seq<RowView> {
    match find(row_ids(rows), id) {
        Some(i) => rows.remove(i),
        None => rows,
    }
}

/// The items of an insertion: the elements of an array, or the payload
/// itself when it is not an array.
pub open spec fn payload_items(payload: JsonView) -> Seq<JsonView> {
    match payload {
        JsonView::Array(items) => items,
        _ => seq![payload],
    }
}

/// For each item, whether it fails to fit the schema.
pub open spec fn misfits(columns: Seq<ColumnView>, items: Seq<JsonView>) -> Seq<bool> {
    Seq::new(items.len(), |i: int| !fits(columns, items[i]))
}

/// How many leading items fit the schema: all of them, or those before the
/// first that does not.
pub open spec fn admitted(columns: Seq<ColumnView>, items: Seq<JsonView>) -> int {
    match find(misfits(columns, items), true) {
        Some(i) => i,
        None => items.len() as int,
    }
}

/// The records after `items` are stored one after another, the `i`-th
/// under `ids[i]`.
pub open spec fn rows_after(
    rows: Seq<RowView>,
    items: Seq<JsonView>,
    ids: Seq<Seq<char>>,
) -> Seq<RowView>
    decreases items.len(),
{
    if items.len() == 0 {
        rows
    } else {
        with_row(
            rows_after(rows, items.drop_last(), ids),
            RowView { id: ids[items.len() - 1], data: items.last() },
        )
    }
}

/// Storing a record keeps the identifiers distinct.
pub proof fn lemma_with_row_wf(rows: Seq<RowView>, row: RowView)
    requires
        row_ids(rows).no_duplicates(),
    ensures
        row_ids(with_row(rows, row)).no_duplicates(),
{
    let ids = row_ids(rows);
    lemma_find(ids, row.id);
    match find(ids, row.id) {
        Some(i) => {
            assert(row_ids(with_row(rows, row)) =~= ids);
        },
        None => {
            lemma_push_distinct(ids, row.id);
            assert(row_ids(with_row(rows, row)) =~= ids.push(row.id));
        },
    }
}

/// Taking a record out keeps the identifiers distinct, and its identifier
/// is then free.
pub proof fn lemma_without_row_wf(rows: Seq<RowView>, id: Seq<char>)
    requires
        row_ids(rows).no_duplicates(),
    ensures
        row_ids(without_row(rows, id)).no_duplicates(),
        !row_ids(without_row(rows, id)).contains(id),
{
    let ids = row_ids(rows);
    lemma_find(ids, id);
    match find(ids, id) {
        Some(at) => {
            lemma_remove_distinct(ids, at);
            assert(row_ids(rows.remove(at)) =~= ids.remove(at));
        },
        None => {},
    }
}

/// Storing items one after another keeps the identifiers distinct.
pub proof fn lemma_rows_after_wf(rows: Seq<RowView>, items: Seq<JsonView>, ids: Seq<Seq<char>>)
    requires
        row_ids(rows).no_duplicates(),
    ensures
        row_ids(rows_after(rows, items, ids)).no_duplicates(),
    decreases items.len(),
{
    if items.len() > 0 {
        lemma_rows_after_wf(rows, items.drop_last(), ids);
        lemma_with_row_wf(
            rows_after(rows, items.drop_last(), ids),
            RowView { id: ids[items.len() - 1], data: items.last() },
        );
    }
}

/// `ids` holds `count` identifiers of the assigned shape.
pub open spec fn assigned(ids: Seq<Seq<char>>, count: int) -> bool {
    &&& ids.len() == count
    &&& forall|i: int| 0 <= i < count ==> is_row_id(#[trigger] ids[i])
}

/// Only the identifiers of the items that are stored matter.
pub proof fn lemma_rows_after_ids(
    rows: Seq<RowView>,
    items: Seq<JsonView>,
    ids: Seq<Seq<char>>,
    others: Seq<Seq<char>>,
)
    requires
        forall|i: int| 0 <= i < items.len() ==> ids[i] == others[i],
    ensures
        rows_after(rows, items, ids) == rows_after(rows, items, others),
    decreases items.len(),
{
    if items.len() > 0 {
        lemma_rows_after_ids(rows, items.drop_last(), ids, others);
    }
}

impl TableView {
    /// The table after an insertion of `payload` whose stored items received
    /// the identifiers `ids`: the leading items that fit the schema are
    /// stored, in order; the first item that does not fit ends the insertion.
    pub open spec fn inserted(self, payload: JsonView, ids: Seq<Seq<char>>) -> TableView {
        let items = payload_items(payload);
        TableView {
            rows: rows_after(self.rows, items.take(admitted(self.columns, items)), ids),
            ..self
        }
    }

    /// No two records share an identifier.
    pub open spec fn wf(self) -> bool {
        row_ids(self.rows).no_duplicates()
    }

    /// The table once `payload` is stored under `id`.
    pub open spec fn stored(self, id: Seq<char>, payload: JsonView) -> TableView {
        TableView { rows: with_row(self.rows, RowView { id, data: payload }), ..self }
    }
}

/// The position of the first of `rows` stored under `id`, if there is one.
pub fn row_position(rows: &Vec<Row>, id: &str) -> (found: Option<usize>)
    ensures
        match found {
            Some(i) => find(row_ids(rows_view(rows@)), id@) == Some(i as int),
            None => find(row_ids(rows_view(rows@)), id@) is None,
        },
        found is Some <==> row_ids(rows_view(rows@)).contains(id@),
{
    let ghost ids = row_ids(rows_view(rows@));
    proof {
        lemma_find(ids, id@);
    }
    let mut i: usize = 0;
    while i < rows.len()
        invariant
            i <= rows.len(),
            ids == row_ids(rows_view(rows@)),
            forall|j: int| 0 <= j < i ==> ids[j] != id@,
        decreases rows.len() - i,
    {
        if same_text(rows[i]._id.as_str(), id) {
            proof {
                assert(ids[i as int] == id@);
                lemma_find_is(ids, id@, i as int);
            }
            return Some(i);
        }
        i += 1;
    }
    proof {
        assert forall|k: int| !first_at(ids, id@, k) by {
            if 0 <= k < ids.len() {
                assert(ids[k] != id@);
            }
        }
    }
    None
}

impl Clone for Table {
    fn clone(&self) -> (copy: Table)
        ensures
            copy@ == self@,
    {
        let mut rows: Vec<Row> = Vec::new();
        let mut i: usize = 0;
        while i < self.rows.len()
            invariant
                i <= self.rows.len(),
                rows.len() == i,
                forall|j: int| 0 <= j < i ==> rows@[j]@ == self.rows@[j]@,
            decreases self.rows.len() - i,
        {
            rows.push(self.rows[i].clone());
            i += 1;
        }
        assert(rows_view(rows@) =~= rows_view(self.rows@));
        Table { name: self.name.clone(), rows, columns: self.columns.clone() }
    }
}

impl Table {
    /// An empty table called `name` with the schema `columns`.
    pub fn new(name: String, columns: Columns) -> (table: Table)
        ensures
            table@ == (TableView { name: name@, columns: columns@, rows: Seq::empty() }),
            table@.wf(),
    {
        let table = Table { name, rows: Vec::new(), columns };
        assert(table@.rows =~= Seq::empty());
        table
    }

    /// The number of records.
    pub fn len(&self) -> (count: usize)
        ensures
            count == self@.rows.len(),
    {
        self.rows.len()
    }

    /// The position of the record stored under `id`, if there is one.
    pub fn position(&self, id: &str) -> (found: Option<usize>)
        ensures
            match found {
                Some(i) => find(row_ids(self@.rows), id@) == Some(i as int),
                None => find(row_ids(self@.rows), id@) is None,
            },
            found is Some <==> row_ids(self@.rows).contains(id@),
    {
        row_position(&self.rows, id)
    }

    /// Whether a record is stored under `id`.
    pub fn contains(&self, id: &str) -> (present: bool)
        ensures
            present == row_ids(self@.rows).contains(id@),
    {
        self.position(id).is_some()
    }

    /// The record stored under `id`, if there is one.
    pub fn get(&self, id: &str) -> (found: Option<&Row>)
        ensures
            match found {
                Some(row) => {
                    &&& find(row_ids(self@.rows), id@) is Some
                    &&& row@ == self@.rows[find(row_ids(self@.rows), id@).unwrap()]
                },
                None => !row_ids(self@.rows).contains(id@),
            },
    {
        proof {
            lemma_find(row_ids(self@.rows), id@);
        }
        match self.position(id) {
            Some(i) => Some(&self.rows[i]),
            None => None,
        }
    }

    /// Takes out the record stored under `id` and returns it; the other
    /// records keep their order.
    pub fn remove(&mut self, id: &str) -> (removed: Option<Row>)
        ensures
            final(self)@ == (TableView { rows: without_row(old(self)@.rows, id@), ..old(self)@ }),
            match removed {
                Some(row) => {
                    &&& find(row_ids(old(self)@.rows), id@) is Some
                    &&& row@ == old(self)@.rows[find(row_ids(old(self)@.rows), id@).unwrap()]
                },
                None => !row_ids(old(self)@.rows).contains(id@),
            },
            old(self)@.wf() ==> final(self)@.wf() && !row_ids(final(self)@.rows).contains(id@),
    {
        proof {
            lemma_find(row_ids(self@.rows), id@);
            if self@.wf() {
                lemma_without_row_wf(self@.rows, id@);
            }
        }
        match self.position(id) {
            Some(i) => {
                let row = self.rows.remove(i);
                assert(rows_view(self.rows@) =~= rows_view(old(self).rows@).remove(i as int));
                Some(row)
            },
            None => None,
        }
    }

    /// Stores `row`: it replaces the record with the same identifier, or is
    /// added after the others when there is none.
    pub fn put_row(&mut self, row: Row)
        ensures
            final(self)@ == (TableView { rows: with_row(old(self)@.rows, row@), ..old(self)@ }),
            old(self)@.wf() ==> final(self)@.wf(),
    {
        proof {
            if self@.wf() {
                lemma_with_row_wf(self@.rows, row@);
            }
        }
        match self.position(row._id.as_str()) {
            Some(i) => {
                self.rows[i] = row;
                assert(rows_view(self.rows@) =~= rows_view(old(self).rows@).update(i as int, row@));
            },
            None => {
                self.rows.push(row);
                assert(rows_view(self.rows@) =~= rows_view(old(self).rows@).push(row@));
            },
        }
    }

    /// Checks `payload` against the schema and, if it fits, stores it under
    /// `id`. A payload that does not fit leaves the table as it was.
    pub fn insert_row(&mut self, id: String, payload: Json) -> (done: Result<(), SchemaError>)
        ensures
            done is Ok <==> fits(old(self)@.columns, payload@),
            match done {
                Ok(_) => final(self)@ == old(self)@.stored(id@, payload@),
                Err(error) => {
                    &&& final(self)@ == old(self)@
                    &&& validation(old(self)@.columns, payload@) == Err::<
                        (),
                        SchemaErrorView,
                    >(error@)
                },
            },
            old(self)@.wf() ==> final(self)@.wf(),
    {
        match self.columns.validate(payload.clone()) {
            Ok(_) => {
                self.put_row(Row::with_id(id, payload));
                Ok(())
            },
            Err(error) => Err(error),
        }
    }

    /// Stores one record for `payload`, or one for each element when
    /// `payload` is an array. Each item is checked against the schema and, if
    /// it fits, stored under a newly drawn identifier. The first item that
    /// does not fit ends the insertion with its error: the items before it
    /// stay stored, it and the items after it are not.
    pub fn insert(&mut self, payload: Json) -> (done: Result<(), SchemaError>)
        ensures
            exists|ids: Seq<Seq<char>>|
                #![trigger old(self)@.inserted(payload@, ids)]
                {
                    &&& assigned(ids, admitted(old(self)@.columns, payload_items(payload@)))
                    &&& final(self)@ == old(self)@.inserted(payload@, ids)
                },
            match done {
                Ok(_) => find(misfits(old(self)@.columns, payload_items(payload@)), true) is None,
                Err(error) => {
                    let items = payload_items(payload@);
                    let at = find(misfits(old(self)@.columns, items), true);
                    &&& at is Some
                    &&& validation(old(self)@.columns, items[at.unwrap()]) == Err::<
                        (),
                        SchemaErrorView,
                    >(error@)
                },
            },
            old(self)@.wf() ==> final(self)@.wf(),
    {
        let ghost before = self@;
        let ghost wanted = payload_items(payload@);
        let items: Vec<Json> = match payload {
            Json::Array(items) => {
                proof {
                    lemma_array_view(items);
                }
                items
            },
            other => {
                let mut single: Vec<Json> = Vec::new();
                single.push(other);
                assert(items_view(single@) =~= seq![other@]);
                single
            },
        };
        assert(items_view(items@) == wanted);
        let ghost flags = misfits(before.columns, wanted);
        let ghost mut ids: Seq<Seq<char>> = Seq::empty();
        let mut i: usize = 0;
        while i < items.len()
            invariant
                i <= items.len(),
                items_view(items@) == wanted,
                wanted == payload_items(payload@),
                before == old(self)@,
                flags == misfits(before.columns, wanted),
                assigned(ids, i as int),
                forall|j: int| 0 <= j < i ==> flags[j] != true,
                self@ == (TableView {
                    rows: rows_after(before.rows, wanted.take(i as int), ids),
                    ..before
                }),
            decreases items.len() - i,
        {
            let item = items[i].clone();
            let ghost stored_so_far = wanted.take(i as int);
            match self.columns.validate(item.clone()) {
                Ok(_) => {
                    let row = Row::new(item);
                    let ghost next = ids.push(row@.id);
                    proof {
                        let grown = wanted.take(i as int + 1);
                        assert(grown.drop_last() =~= stored_so_far);
                        assert(grown.last() == wanted[i as int]);
                        lemma_rows_after_ids(before.rows, stored_so_far, ids, next);
                        ids = next;
                    }
                    self.put_row(row);
                },
                Err(error) => {
                    proof {
                        assert(flags[i as int] == true);
                        lemma_find_is(flags, true, i as int);
                    }
                    assert(self@ == before.inserted(payload@, ids));
                    proof {
                        if before.wf() {
                            lemma_rows_after_wf(before.rows, wanted.take(i as int), ids);
                        }
                    }
                    return Err(error);
                },
            }
            i += 1;
        }
        proof {
            lemma_find_none(flags, true);
            assert(wanted.take(i as int) =~= wanted);
            assert(self@ == before.inserted(payload@, ids));
            if before.wf() {
                lemma_rows_after_wf(before.rows, wanted, ids);
            }
        }
        Ok(())
    }

    /// Inserts `data` into the table of `db` that has this table's name, as
    /// [`Table::insert`] does. Fails with `TableNotFound` when `db` has no
    /// such table, and with the error of the first item that does not fit
    /// the schema; the items before that one stay stored.
    pub fn add_row(&mut self, db: &mut Database, data: Json) -> (done: Result<(), DatabaseError>)
        ensures
            *final(self) == *old(self),
            old(db)@.wf() ==> final(db)@.wf(),
            match old(db)@.table_at(old(self)@.name) {
                None => {
                    &&& final(db)@ == old(db)@
                    &&& done matches Err(error) && error@ == DatabaseErrorView::TableNotFound(
                        old(self)@.name,
                    )
                },
                Some(t) => {
                    let target = old(db)@.tables[t];
                    let items = payload_items(data@);
                    let at = find(misfits(target.columns, items), true);
                    &&& exists|ids: Seq<Seq<char>>|
                        #![trigger target.inserted(data@, ids)]
                        {
                            &&& assigned(ids, admitted(target.columns, items))
                            &&& final(db)@ == (DatabaseView {
                                tables: old(db)@.tables.update(t, target.inserted(data@, ids)),
                                ..old(db)@
                            })
                        }
                    &&& match done {
                        Ok(_) => at is None,
                        Err(error) => {
                            &&& at is Some
                            &&& validation(target.columns, items[at->Some_0]) matches Err(refusal)
                            &&& error@ == schema_failure(refusal)
                        },
                    }
                },
            },
    {
        match db.table_index(self.name.as_str()) {
            None => Err(DatabaseError::TableNotFound(self.name.clone())),
            Some(t) => {
                proof {
                    lemma_find(table_names(db@.tables), self.name@);
                }
                let ghost target = db@.tables[t as int];
                let done = db.tables[t].insert(data);
                proof {
                    let ids = choose|ids: Seq<Seq<char>>|
                        #![trigger target.inserted(data@, ids)]
                        {
                            &&& assigned(ids, admitted(target.columns, payload_items(data@)))
                            &&& db.tables@[t as int]@ == target.inserted(data@, ids)
                        };
                    assert(tables_view(db.tables@) =~= old(db)@.tables.update(
                        t as int,
                        target.inserted(data@, ids),
                    ));
                    if old(db)@.wf() {
                        assert(target.wf());
                        lemma_with_rows_wf(
                            old(db)@,
                            t as int,
                            target.inserted(data@, ids).rows,
                        );
                    }
                }
                match done {
                    Ok(_) => Ok(()),
                    Err(error) => Err(DatabaseError::from_schema(error)),
                }
            },
        }
    }
}

} // verus!
