use article_migrator::error::{Field, MigrationError};

#[test]
fn fields_have_their_source_names() {
    assert_eq!(Field::Created.name(), "created");
    assert_eq!(Field::Catid.name(), "catid");
    assert_eq!(Field::Title.name(), "title");
    assert_eq!(Field::Introtext.name(), "introtext");
}

#[test]
fn messages_name_the_field() {
    assert_eq!(
        MigrationError::MissingField(Field::Title).message(),
        "schema violation: missing field title"
    );
    assert_eq!(
        MigrationError::MalformedField(Field::Created).message(),
        "schema violation: malformed field created"
    );
    assert_eq!(MigrationError::PatternFailure.message(), "a text pattern could not be applied");
}

#[test]
fn schema_violations_are_told_apart() {
    assert!(MigrationError::MissingField(Field::Introtext).is_schema_violation());
    assert!(MigrationError::MalformedField(Field::Catid).is_schema_violation());
    assert!(!MigrationError::PatternFailure.is_schema_violation());
}
