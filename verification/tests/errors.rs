use cargobase::{DatabaseError, SchemaError};

#[test]
fn every_database_error_has_its_message() {
    let s = |text: &str| text.to_string();
    assert_eq!(
        DatabaseError::LoadError(s("no such file")).message(),
        "Failed to load the database: `no such file`"
    );
    assert_eq!(
        DatabaseError::SaveError(s("disk full")).message(),
        "Failed to save the database: `disk full`"
    );
    assert_eq!(
        DatabaseError::DeleteError(s("busy")).message(),
        "Failed to drop database: `busy`"
    );
    assert_eq!(
        DatabaseError::TableAlreadyExists(s("users")).message(),
        "Table `users` already exists"
    );
    assert_eq!(DatabaseError::TableNotFound(s("users")).message(), "Table `users` not found");
    assert_eq!(
        DatabaseError::RequiredColumnMissing(s("id")).message(),
        "Column `id` is required"
    );
    assert_eq!(DatabaseError::UnknownColumn(s("age")).message(), "Column `age` is not valid");
    assert_eq!(DatabaseError::InvalidData(s("why")).message(), "Invalid data: `why`");
    assert_eq!(
        DatabaseError::RowNotFound(s("id"), s("7")).message(),
        "Row not found with id = 7"
    );
    assert_eq!(
        DatabaseError::SerializationError(s("key")).message(),
        "Serialization failed: `key`"
    );
    assert_eq!(
        DatabaseError::DeserializationError(s("eof")).message(),
        "Deserialization failed: `eof`"
    );
    assert_eq!(DatabaseError::TableNotFound(s("")).message(), "Table `` not found");
}

#[test]
fn every_schema_error_has_its_message() {
    assert_eq!(SchemaError::InvalidShape.message(), "Invalid row data.");
    assert_eq!(
        SchemaError::RequiredColumnMissing("id".to_string()).message(),
        "Column `id` is required"
    );
    assert_eq!(
        SchemaError::UnknownColumn("age".to_string()).message(),
        "Column `age` is not valid"
    );
}

#[test]
fn schema_errors_become_database_errors() {
    assert_eq!(
        DatabaseError::from_schema(SchemaError::InvalidShape),
        DatabaseError::InvalidData("Invalid row data.".to_string())
    );
    assert_eq!(
        DatabaseError::from_schema(SchemaError::RequiredColumnMissing("id".to_string())),
        DatabaseError::RequiredColumnMissing("id".to_string())
    );
    assert_eq!(
        DatabaseError::from_schema(SchemaError::UnknownColumn("age".to_string())),
        DatabaseError::UnknownColumn("age".to_string())
    );
}
