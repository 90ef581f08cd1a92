//! Errors raised by the core model.
use vstd::prelude::*;

verus! {

#[derive(Debug, Clone, PartialEq, Eq)]
pub enum CoreError {
    InvalidMime(String),
    InvalidRule(String),
    InvalidGroupParent(String),
}

impl CoreError {
    /// The human-readable text of the error.
    pub open spec fn text(&self) -> Seq<char> {
        match self {
            CoreError::InvalidMime(s) => "invalid MIME type: "@ + s@,
            CoreError::InvalidRule(s) => "invalid rule: "@ + s@,
            CoreError::InvalidGroupParent(s) => "a group cannot be its own parent: "@ + s@,
        }
    }

    /// Renders the error as text.
    pub fn message(&self) -> (m: String)
        ensures
            m@ == self.text(),
    {
        match self {
            CoreError::InvalidMime(s) => {
                let mut m = "invalid MIME type: ".to_string();
                m.append(s.as_str());
                m
            },
            CoreError::InvalidRule(s) => {
                let mut m = "invalid rule: ".to_string();
                m.append(s.as_str());
                m
            },
            CoreError::InvalidGroupParent(s) => {
                let mut m = "a group cannot be its own parent: ".to_string();
                m.append(s.as_str());
                m
            },
        }
    }
}

} // verus!
