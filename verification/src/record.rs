//! One entry of the source document, as far as the migration reads it.

use vstd::prelude::*;

verus! {

/// The four fields that the migration reads from a source entry. A field
/// that is absent from the entry, or that is not a string, is `None`.
#[derive(Debug, Clone, PartialEq, Eq)]
pub struct RawRecord {
    pub created: Option<String>,
    pub catid: Option<String>,
    pub title: Option<String>,
    pub introtext: Option<String>,
}

/// What a [`RawRecord`] holds, as mathematical sequences.
pub struct RawRecordView {
    pub created: Option<Seq<char>>,
    pub catid: Option<Seq<char>>,
    pub title: Option<Seq<char>>,
    pub introtext: Option<Seq<char>>,
}

/// The contents of a string that may be absent.
pub open spec fn field_view(field: Option<String>) -> Option<Seq<char>> {
    match field {
        Some(text) => Some(text@),
        None => None,
    }
}

/// The contents of a list of records.
pub open spec fn records_view(records: Seq<RawRecord>) -> Seq<RawRecordView> {
    records.map_values(|r: RawRecord| r@)
}

impl View for RawRecord {
    type V = RawRecordView;

    open spec fn view(&self) -> RawRecordView {
        RawRecordView {
            created: field_view(self.created),
            catid: field_view(self.catid),
            title: field_view(self.title),
            introtext: field_view(self.introtext),
        }
    }
}

} // verus!
