//! The errors that the store reports.

use vstd::prelude::*;

verus! {

/// Why a record does not fit a table's schema.
#[derive(Debug, PartialEq)]
pub enum SchemaError {
    /// The record is not a JSON object.
    InvalidShape,
    /// A required column, named here, has no member in the record.
    RequiredColumnMissing(String),
    /// The record has a member, named here, that the schema does not declare.
    UnknownColumn(String),
}

/// The mathematical value of a [`SchemaError`].
pub enum SchemaErrorView {
    InvalidShape,
    RequiredColumnMissing(Seq<char>),
    UnknownColumn(Seq<char>),
}

impl View for SchemaError {
    type V = SchemaErrorView;

    open spec fn view(&self) -> SchemaErrorView {
        match self {
            SchemaError::InvalidShape => SchemaErrorView::InvalidShape,
            SchemaError::RequiredColumnMissing(name) => SchemaErrorView::RequiredColumnMissing(
                name@,
            ),
            SchemaError::UnknownColumn(name) => SchemaErrorView::UnknownColumn(name@),
        }
    }
}

/// Why an operation on a database failed.
#[derive(Debug, PartialEq)]
pub enum DatabaseError {
    /// The backing file could not be read; carries the cause.
    LoadError(String),
    /// The backing file could not be written; carries the cause.
    SaveError(String),
    /// The backing file could not be removed; carries the cause.
    DeleteError(String),
    /// A table of this name is already registered.
    TableAlreadyExists(String),
    /// No table of this name is registered.
    TableNotFound(String),
    /// A required column, named here, has no member in the record.
    RequiredColumnMissing(String),
    /// The record has a member, named here, that the schema does not declare.
    UnknownColumn(String),
    /// The request is malformed; carries the reason.
    InvalidData(String),
    /// No row has the given key bound to the given value.
    RowNotFound(String, String),
    /// A value could not be turned into JSON; carries the cause.
    SerializationError(String),
    /// JSON could not be turned into the requested value; carries the cause.
    DeserializationError(String),
}

/// The mathematical value of a [`DatabaseError`].
pub enum DatabaseErrorView {
    LoadError(Seq<char>),
    SaveError(Seq<char>),
    DeleteError(Seq<char>),
    TableAlreadyExists(Seq<char>),
    TableNotFound(Seq<char>),
    RequiredColumnMissing(Seq<char>),
    UnknownColumn(Seq<char>),
    InvalidData(Seq<char>),
    RowNotFound(Seq<char>, Seq<char>),
    SerializationError(Seq<char>),
    DeserializationError(Seq<char>),
}

impl View for DatabaseError {
    type V = DatabaseErrorView;

    open spec fn view(&self) -> DatabaseErrorView {
        match self {
            DatabaseError::LoadError(cause) => DatabaseErrorView::LoadError(cause@),
            DatabaseError::SaveError(cause) => DatabaseErrorView::SaveError(cause@),
            DatabaseError::DeleteError(cause) => DatabaseErrorView::DeleteError(cause@),
            DatabaseError::TableAlreadyExists(name) => DatabaseErrorView::TableAlreadyExists(name@),
            DatabaseError::TableNotFound(name) => DatabaseErrorView::TableNotFound(name@),
            DatabaseError::RequiredColumnMissing(name) => DatabaseErrorView::RequiredColumnMissing(
                name@,
            ),
            DatabaseError::UnknownColumn(name) => DatabaseErrorView::UnknownColumn(name@),
            DatabaseError::InvalidData(reason) => DatabaseErrorView::InvalidData(reason@),
            DatabaseError::RowNotFound(key, value) => DatabaseErrorView::RowNotFound(key@, value@),
            DatabaseError::SerializationError(cause) => DatabaseErrorView::SerializationError(
                cause@,
            ),
            DatabaseError::DeserializationError(cause) => DatabaseErrorView::DeserializationError(
                cause@,
            ),
        }
    }
}

/// The reason given when a record is not a JSON object.
pub open spec fn invalid_shape_reason() -> Seq<char> {
    "Invalid row data."@
}

/// The database error that stands for a schema error.
pub open spec fn schema_failure(error: SchemaErrorView) -> DatabaseErrorView {
    match error {
        SchemaErrorView::InvalidShape => DatabaseErrorView::InvalidData(invalid_shape_reason()),
        SchemaErrorView::RequiredColumnMissing(name) => DatabaseErrorView::RequiredColumnMissing(
            name,
        ),
        SchemaErrorView::UnknownColumn(name) => DatabaseErrorView::UnknownColumn(name),
    }
}

/// `before`, then `inner`, then `after`.
pub open spec fn framed(before: Seq<char>, inner: Seq<char>, after: Seq<char>) -> Seq<char> {
    before + inner + after
}

impl SchemaErrorView {
    /// The text that describes the error.
    pub open spec fn message(self) -> Seq<char> {
        match self {
            SchemaErrorView::InvalidShape => invalid_shape_reason(),
            SchemaErrorView::RequiredColumnMissing(name) => framed(
                "Column `"@,
                name,
                "` is required"@,
            ),
            SchemaErrorView::UnknownColumn(name) => framed("Column `"@, name, "` is not valid"@),
        }
    }
}

impl DatabaseErrorView {
    /// The text that describes the error.
    pub open spec fn message(self) -> Seq<char> {
        match self {
            DatabaseErrorView::LoadError(cause) => framed(
                "Failed to load the database: `"@,
                cause,
                "`"@,
            ),
            DatabaseErrorView::SaveError(cause) => framed(
                "Failed to save the database: `"@,
                cause,
                "`"@,
            ),
            DatabaseErrorView::DeleteError(cause) => framed(
                "Failed to drop database: `"@,
                cause,
                "`"@,
            ),
            DatabaseErrorView::TableAlreadyExists(name) => framed(
                "Table `"@,
                name,
                "` already exists"@,
            ),
            DatabaseErrorView::TableNotFound(name) => framed("Table `"@, name, "` not found"@),
            DatabaseErrorView::RequiredColumnMissing(name) => framed(
                "Column `"@,
                name,
                "` is required"@,
            ),
            DatabaseErrorView::UnknownColumn(name) => framed(
                "Column `"@,
                name,
                "` is not valid"@,
            ),
            DatabaseErrorView::InvalidData(reason) => framed("Invalid data: `"@, reason, "`"@),
            DatabaseErrorView::RowNotFound(key, value) => framed(
                "Row not found with "@,
                key,
                " = "@,
            ) + value,
            DatabaseErrorView::SerializationError(cause) => framed(
                "Serialization failed: `"@,
                cause,
                "`"@,
            ),
            DatabaseErrorView::DeserializationError(cause) => framed(
                "Deserialization failed: `"@,
                cause,
                "`"@,
            ),
        }
    }
}

/// The text `before`, `inner`, `after` in one string.
fn frame(before: &str, inner: &str, after: &str) -> (text: String)
    ensures
        text@ == framed(before@, inner@, after@),
{
    let mut text = String::from_str(before);
    text.append(inner);
    text.append(after);
    text
}

impl SchemaError {
    /// The text that describes the error.
    pub fn message(&self) -> (text: String)
        ensures
            text@ == self@.message(),
    {
        match self {
            SchemaError::InvalidShape => String::from_str("Invalid row data."),
            SchemaError::RequiredColumnMissing(name) => frame(
                "Column `",
                name.as_str(),
                "` is required",
            ),
            SchemaError::UnknownColumn(name) => frame("Column `", name.as_str(), "` is not valid"),
        }
    }
}

impl DatabaseError {
    /// The database error that stands for a schema error: a record of the
    /// wrong shape is invalid data, the other two keep their kind and name.
    pub fn from_schema(error: SchemaError) -> (failure: DatabaseError)
        ensures
            failure@ == schema_failure(error@),
    {
        match error {
            SchemaError::InvalidShape => DatabaseError::InvalidData(
                String::from_str("Invalid row data."),
            ),
            SchemaError::RequiredColumnMissing(name) => DatabaseError::RequiredColumnMissing(name),
            SchemaError::UnknownColumn(name) => DatabaseError::UnknownColumn(name),
        }
    }

    /// The text that describes the error.
    pub fn message(&self) -> (text: String)
        ensures
            text@ == self@.message(),
    {
        match self {
            DatabaseError::LoadError(cause) => frame(
                "Failed to load the database: `",
                cause.as_str(),
                "`",
            ),
            DatabaseError::SaveError(cause) => frame(
                "Failed to save the database: `",
                cause.as_str(),
                "`",
            ),
            DatabaseError::DeleteError(cause) => frame(
                "Failed to drop database: `",
                cause.as_str(),
                "`",
            ),
            DatabaseError::TableAlreadyExists(name) => frame(
                "Table `",
                name.as_str(),
                "` already exists",
            ),
            DatabaseError::TableNotFound(name) => frame("Table `", name.as_str(), "` not found"),
            DatabaseError::RequiredColumnMissing(name) => frame(
                "Column `",
                name.as_str(),
                "` is required",
            ),
            DatabaseError::UnknownColumn(name) => frame(
                "Column `",
                name.as_str(),
                "` is not valid",
            ),
            DatabaseError::InvalidData(reason) => frame("Invalid data: `", reason.as_str(), "`"),
            DatabaseError::RowNotFound(key, value) => {
                let mut text = frame("Row not found with ", key.as_str(), " = ");
                text.append(value.as_str());
                text
            },
            DatabaseError::SerializationError(cause) => frame(
                "Serialization failed: `",
                cause.as_str(),
                "`",
            ),
            DatabaseError::DeserializationError(cause) => frame(
                "Deserialization failed: `",
                cause.as_str(),
                "`",
            ),
        }
    }
}

} // verus!
