//! Records: a payload kept under an identifier that the store assigns.

use vstd::prelude::*;
use crate::json::{Json, JsonView};

verus! {

/// One record of a table.
#[derive(Debug, PartialEq)]
pub struct Row {
    /// The identifier the record is stored under. It is assigned when the
    /// record is made and never changes.
    pub _id: String,
    /// The payload, kept as it was given.
    pub data: Json,
}

/// The mathematical value of a [`Row`].
pub struct RowView {
    pub id: Seq<char>,
    pub data: JsonView,
}

impl View for Row {
    type V = RowView;

    open spec fn view(&self) -> RowView {
        RowView { id: self._id@, data: self.data@ }
    }
}

/// The shape of an assigned identifier: 36 characters in five groups that
/// hyphens separate, of 8, 4, 4, 4 and 12 characters.
pub open spec fn is_row_id(id: Seq<char>) -> bool {
    &&& id.len() == 36
    &&& id[8] == '-'
    &&& id[13] == '-'
    &&& id[18] == '-'
    &&& id[23] == '-'
}

/// Draws a new identifier: `uuid::Uuid::new_v4()`, written out by its
/// `Display` impl. Trusted: that the text is the hyphenated form, which is 36
/// characters long with hyphens after the 8th, 12th, 16th and 20th digit.
/// Nothing is claimed about which identifier is drawn, so neither that it
/// differs from those drawn before. The call panics when the operating
/// system has no random bytes to give.
#[verifier::external_body]
pub(crate) fn fresh_row_id() -> (id: String)
    ensures
        is_row_id(id@),
{
    uuid::Uuid::new_v4().to_string()
}

impl Row {
    /// A record that holds `data` under a newly drawn identifier. The
    /// identifier does not depend on the payload.
    pub fn new(data: Json) -> (row: Row)
        ensures
            row@.data == data@,
            is_row_id(row@.id),
    {
        Row::with_id(fresh_row_id(), data)
    }

    /// A record that holds `data` under the identifier `id`.
    pub fn with_id(id: String, data: Json) -> (row: Row)
        ensures
            row@ == (RowView { id: id@, data: data@ }),
    {
        Row { _id: id, data }
    }
}

impl Clone for Row {
    fn clone(&self) -> (copy: Row)
        ensures
            copy@ == self@,
    {
        Row { _id: self._id.clone(), data: self.data.clone() }
    }
}

} // verus!
