//! The conditions that end a migration run.

use vstd::prelude::*;
use vstd::string::StringExecFns;

verus! {

/// The fields that a source record may hold.
#[derive(Debug, Clone, Copy, PartialEq, Eq)]
pub enum Field {
    Created,
    Catid,
    Title,
    Introtext,
}

/// Why a run stops. The first two are violations of the source schema.
#[derive(Debug, Clone, Copy, PartialEq, Eq)]
pub enum MigrationError {
    /// A record that was selected lacks a field that an article needs.
    MissingField(Field),
    /// A field is present and cannot be parsed.
    MalformedField(Field),
    /// The regular-expression engine rejected one of the text patterns, or
    /// reported a match without the group that was asked for.
    PatternFailure,
}

/// A failure together with the position of the record that caused it.
#[derive(Debug, Clone, Copy, PartialEq, Eq)]
pub struct RecordError {
    pub record: usize,
    pub error: MigrationError,
}

impl Field {
    /// The field's name in the source document.
    pub open spec fn spec_name(self) -> Seq<char> {
        match self {
            Field::Created => "created"@,
            Field::Catid => "catid"@,
            Field::Title => "title"@,
            Field::Introtext => "introtext"@,
        }
    }

    /// The field's name in the source document.
    pub fn name(self) -> (name: &'static str)
        ensures
            name@ == self.spec_name(),
    {
        match self {
            Field::Created => "created",
            Field::Catid => "catid",
            Field::Title => "title",
            Field::Introtext => "introtext",
        }
    }
}

impl MigrationError {
    /// Whether the source document broke its schema.
    pub open spec fn spec_is_schema_violation(self) -> bool {
        self is MissingField || self is MalformedField
    }

    /// Whether the source document broke its schema.
    pub fn is_schema_violation(self) -> (violation: bool)
        ensures
            violation == self.spec_is_schema_violation(),
    {
        match self {
            MigrationError::MissingField(_) => true,
            MigrationError::MalformedField(_) => true,
            MigrationError::PatternFailure => false,
        }
    }

    /// The text of [`MigrationError::message`].
    pub open spec fn spec_message(self) -> Seq<char> {
        match self {
            MigrationError::MissingField(field) => "schema violation: missing field "@
                + field.spec_name(),
            MigrationError::MalformedField(field) => "schema violation: malformed field "@
                + field.spec_name(),
            MigrationError::PatternFailure => "a text pattern could not be applied"@,
        }
    }

    /// A line that describes the failure.
    pub fn message(self) -> (message: String)
        ensures
            message@ == self.spec_message(),
    {
        match self {
            MigrationError::MissingField(field) => {
                let mut message = String::from_str("schema violation: missing field ");
                message.append(field.name());
                message
            },
            MigrationError::MalformedField(field) => {
                let mut message = String::from_str("schema violation: malformed field ");
                message.append(field.name());
                message
            },
            MigrationError::PatternFailure => String::from_str(
                "a text pattern could not be applied",
            ),
        }
    }
}

} // verus!
