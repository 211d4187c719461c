//! Table schemas: an ordered list of named columns, each required or optional,
//! and the check that a record has the shape a schema asks for.

use vstd::prelude::*;
use crate::errors::{SchemaError, SchemaErrorView};
use crate::json::{lemma_object_view, member_index, member_keys, members_view, Json, JsonView};
use crate::lookup::{find, first_at, lemma_find, lemma_find_is, lemma_find_none, same_text};

verus! {

/// One declared column of a table.
#[derive(Debug, PartialEq)]
pub struct Column {
    pub name: String,
    pub required: bool,
}

/// The mathematical value of a [`Column`].
pub struct ColumnView {
    pub name: Seq<char>,
    pub required: bool,
}

impl View for Column {
    type V = ColumnView;

    open spec fn view(&self) -> ColumnView {
        ColumnView { name: self.name@, required: self.required }
    }
}

impl Column {
    /// A column called `name`; `required` says whether every record must carry it.
    pub fn new(name: &str, required: bool) -> (column: Column)
        ensures
            column@ == (ColumnView { name: name@, required }),
    {
        Column { name: name.to_owned(), required }
    }
}

impl Clone for Column {
    fn clone(&self) -> (copy: Column)
        ensures
            copy@ == self@,
    {
        Column { name: self.name.clone(), required: self.required }
    }
}

/// The schema of a table: its columns in declared order.
#[derive(Debug, PartialEq)]
pub struct Columns(pub Vec<Column>);

impl View for Columns {
    type V = Seq<ColumnView>;

    open spec fn view(&self) -> Seq<ColumnView> {
        Seq::new(self.0@.len(), |i: int| self.0@[i]@)
    }
}

/// The names of the columns, in declared order.
pub open spec fn column_names(columns: Seq<ColumnView>) -> Seq<Seq<char>> {
    Seq::new(columns.len(), |i: int| columns[i].name)
}

/// The schema whose columns are called `names`, in that order, all required
/// or all optional.
pub open spec fn schema_of(names: Seq<Seq<char>>, required: bool) -> Seq<ColumnView> {
    Seq::new(names.len(), |i: int| ColumnView { name: names[i], required })
}

/// For each column, whether it is required and `keys` does not hold its name.
pub open spec fn required_absent(columns: Seq<ColumnView>, keys: Seq<Seq<char>>) -> Seq<bool> {
    Seq::new(columns.len(), |i: int| columns[i].required && !keys.contains(columns[i].name))
}

/// For each key, whether no column is called by it.
pub open spec fn undeclared(columns: Seq<ColumnView>, keys: Seq<Seq<char>>) -> Seq<bool> {
    Seq::new(keys.len(), |k: int| !column_names(columns).contains(keys[k]))
}

/// What validating `payload` against `columns` reports. A payload that is
/// not an object has the wrong shape. Otherwise the first required column
/// without a member is reported, and failing that the first member without a
/// column.
pub open spec fn validation(columns: Seq<ColumnView>, payload: JsonView) -> Result<
    (),
    SchemaErrorView,
> {
    match payload {
        JsonView::Object(members) => {
            let keys = member_keys(members);
            match find(required_absent(columns, keys), true) {
                Some(i) => Err(SchemaErrorView::RequiredColumnMissing(columns[i].name)),
                None => match find(undeclared(columns, keys), true) {
                    Some(k) => Err(SchemaErrorView::UnknownColumn(keys[k])),
                    None => Ok(()),
                },
            }
        },
        _ => Err(SchemaErrorView::InvalidShape),
    }
}

/// `payload` is an object that has a member for every required column and
/// no member that the schema does not declare.
pub open spec fn fits(columns: Seq<ColumnView>, payload: JsonView) -> bool {
    &&& payload is Object
    &&& forall|i: int|
        #![trigger columns[i]]
        0 <= i < columns.len() && columns[i].required ==> member_keys(
            payload->Object_0,
        ).contains(columns[i].name)
    &&& forall|k: int|
        #![trigger payload->Object_0[k]]
        0 <= k < payload->Object_0.len() ==> column_names(columns).contains(payload->Object_0[k].0)
}

/// Validation succeeds exactly on the payloads that fit the schema.
pub proof fn lemma_validation_accepts(columns: Seq<ColumnView>, payload: JsonView)
    ensures
        validation(columns, payload) is Ok <==> fits(columns, payload),
{
    if payload is Object {
        let members = payload->Object_0;
        let keys = member_keys(members);
        let absent = required_absent(columns, keys);
        let unknown = undeclared(columns, keys);
        lemma_find(absent, true);
        lemma_find(unknown, true);
        if fits(columns, payload) {
            assert forall|i: int| 0 <= i < absent.len() implies absent[i] != true by {
                let column = columns[i];
            }
            assert forall|k: int| 0 <= k < unknown.len() implies unknown[k] != true by {
                let member = members[k];
                assert(keys[k] == member.0);
            }
        }
        if validation(columns, payload) is Ok {
            assert forall|i: int|
                #![trigger columns[i]]
                0 <= i < columns.len() && columns[i].required implies keys.contains(
                columns[i].name,
            ) by {
                assert(absent[i] != true);
            }
            assert forall|k: int|
                #![trigger members[k]]
                0 <= k < members.len() implies column_names(columns).contains(members[k].0) by {
                assert(unknown[k] != true);
                assert(keys[k] == members[k].0);
            }
        }
    }
}

impl Clone for Columns {
    fn clone(&self) -> (copy: Columns)
        ensures
            copy@ == self@,
    {
        let mut columns: Vec<Column> = Vec::new();
        let mut i: usize = 0;
        while i < self.0.len()
            invariant
                i <= self.0.len(),
                columns.len() == i,
                forall|j: int| 0 <= j < i ==> columns@[j]@ == self.0@[j]@,
            decreases self.0.len() - i,
        {
            columns.push(self.0[i].clone());
            i += 1;
        }
        let copy = Columns(columns);
        assert(copy@ =~= self@);
        copy
    }
}

impl Columns {
    /// The schema with exactly these columns, in this order.
    pub fn new(columns: Vec<Column>) -> (schema: Columns)
        ensures
            schema.0 == columns,
    {
        Columns(columns)
    }

    /// The schema that a sample record suggests: one column for each member
    /// of `sample`, in member order, all required or all optional. A sample
    /// that is not an object gives the empty schema.
    pub fn from_struct(sample: &Json, required: bool) -> (schema: Columns)
        ensures
            schema@ == match sample@ {
                JsonView::Object(members) => schema_of(member_keys(members), required),
                _ => Seq::empty(),
            },
    {
        let mut columns: Vec<Column> = Vec::new();
        match sample {
            Json::Object(members) => {
                proof {
                    lemma_object_view(*members);
                }
                let ghost names = member_keys(members_view(members@));
                let mut i: usize = 0;
                while i < members.len()
                    invariant
                        i <= members.len(),
                        columns.len() == i,
                        names == member_keys(members_view(members@)),
                        forall|j: int|
                            0 <= j < i ==> columns@[j]@ == (ColumnView {
                                name: names[j],
                                required,
                            }),
                    decreases members.len() - i,
                {
                    columns.push(Column::new(members[i].0.as_str(), required));
                    i += 1;
                }
                let schema = Columns(columns);
                assert(schema@ =~= schema_of(names, required));
                schema
            },
            _ => {
                let schema = Columns(columns);
                assert(schema@ =~= Seq::empty());
                schema
            },
        }
    }

    /// The schema with one column for each of `fields`, in the order given,
    /// all required or all optional.
    pub fn from_struct_ordered(fields: &Vec<String>, required: bool) -> (schema: Columns)
        ensures
            schema@ == schema_of(Seq::new(fields@.len(), |i: int| fields@[i]@), required),
    {
        let mut columns: Vec<Column> = Vec::new();
        let mut i: usize = 0;
        while i < fields.len()
            invariant
                i <= fields.len(),
                columns.len() == i,
                forall|j: int|
                    0 <= j < i ==> columns@[j]@ == (ColumnView { name: fields@[j]@, required }),
            decreases fields.len() - i,
        {
            columns.push(Column::new(fields[i].as_str(), required));
            i += 1;
        }
        let schema = Columns(columns);
        assert(schema@ =~= schema_of(Seq::new(fields@.len(), |i: int| fields@[i]@), required));
        schema
    }

    /// The position of the first column called `name`, if any.
    pub fn position(&self, name: &str) -> (found: Option<usize>)
        ensures
            match found {
                Some(i) => find(column_names(self@), name@) == Some(i as int),
                None => find(column_names(self@), name@) is None,
            },
    {
        let ghost names = column_names(self@);
        let mut i: usize = 0;
        while i < self.0.len()
            invariant
                i <= self.0.len(),
                names == column_names(self@),
                forall|j: int| 0 <= j < i ==> names[j] != name@,
            decreases self.0.len() - i,
        {
            if same_text(self.0[i].name.as_str(), name) {
                proof {
                    assert(names[i as int] == name@);
                    lemma_find_is(names, name@, i as int);
                }
                return Some(i);
            }
            i += 1;
        }
        proof {
            assert forall|k: int| !first_at(names, name@, k) by {
                if 0 <= k < names.len() {
                    assert(names[k] != name@);
                }
            }
        }
        None
    }

    /// Checks that `row_data` has the shape this schema asks for: a JSON
    /// object with a member for every required column and no member that is
    /// not declared. Values are not inspected.
    pub fn validate(&self, row_data: Json) -> (checked: Result<(), SchemaError>)
        ensures
            match checked {
                Ok(_) => validation(self@, row_data@) is Ok,
                Err(error) => validation(self@, row_data@) == Err::<(), SchemaErrorView>(error@),
            },
            checked is Ok <==> fits(self@, row_data@),
    {
        proof {
            lemma_validation_accepts(self@, row_data@);
        }
        match &row_data {
            Json::Object(members) => {
                proof {
                    lemma_object_view(*members);
                }
                let ghost keys = member_keys(members_view(members@));
                let ghost absent = required_absent(self@, keys);
                let ghost unknown = undeclared(self@, keys);
                let mut i: usize = 0;
                while i < self.0.len()
                    invariant
                        i <= self.0.len(),
                        keys == member_keys(members_view(members@)),
                        absent == required_absent(self@, keys),
                        row_data@ == JsonView::Object(members_view(members@)),
                        forall|j: int| 0 <= j < i ==> absent[j] != true,
                    decreases self.0.len() - i,
                {
                    if self.0[i].required {
                        let found = member_index(members, self.0[i].name.as_str());
                        proof {
                            lemma_find(keys, self.0[i as int].name@);
                        }
                        if found.is_none() {
                            proof {
                                assert(absent[i as int] == true);
                                lemma_find_is(absent, true, i as int);
                                lemma_validation_accepts(self@, row_data@);
                            }
                            return Err(SchemaError::RequiredColumnMissing(self.0[i].name.clone()));
                        }
                    }
                    i += 1;
                }
                proof {
                    lemma_find_none(absent, true);
                }
                let mut k: usize = 0;
                while k < members.len()
                    invariant
                        k <= members.len(),
                        keys == member_keys(members_view(members@)),
                        unknown == undeclared(self@, keys),
                        row_data@ == JsonView::Object(members_view(members@)),
                        find(required_absent(self@, keys), true) is None,
                        forall|j: int| 0 <= j < k ==> unknown[j] != true,
                    decreases members.len() - k,
                {
                    let found = self.position(members[k].0.as_str());
                    proof {
                        lemma_find(column_names(self@), members[k as int].0@);
                    }
                    if found.is_none() {
                        proof {
                            assert(unknown[k as int] == true);
                            lemma_find_is(unknown, true, k as int);
                            lemma_validation_accepts(self@, row_data@);
                        }
                        return Err(SchemaError::UnknownColumn(members[k].0.clone()));
                    }
                    k += 1;
                }
                proof {
                    lemma_find_none(unknown, true);
                }
                Ok(())
            },
            _ => Err(SchemaError::InvalidShape),
        }
    }
}

} // verus!
