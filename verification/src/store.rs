//! Errors reported by the clip store.
use vstd::prelude::*;
use crate::text::copy_str;

verus! {

#[derive(Debug, Clone, PartialEq, Eq)]
pub enum StoreError {
    /// A non-deleted clip with the same content hash and MIME type exists.
    DedupConflict,
    NotFound,
    /// The database reported an error; its text is kept.
    Sqlite(String),
}

impl StoreError {
    pub open spec fn text(&self) -> Seq<char> {
        match self {
            StoreError::DedupConflict => "a non-deleted clip with this content hash and MIME type already exists"@,
            StoreError::NotFound => "not found"@,
            StoreError::Sqlite(s) => s@,
        }
    }

    /// Renders the error as text.
    pub fn message(&self) -> (m: String)
        ensures
            m@ == self.text(),
    {
        match self {
            StoreError::DedupConflict => copy_str(
                "a non-deleted clip with this content hash and MIME type already exists",
            ),
            StoreError::NotFound => copy_str("not found"),
            StoreError::Sqlite(s) => s.clone(),
        }
    }
}

} // verus!
