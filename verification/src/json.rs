//! The JSON values the library reads and writes: setting values and
//! response payloads.
use vstd::prelude::*;

verus! {

/// A JSON value, with the shapes the library inspects held as plain values.
/// Any other value (a fractional number, an array, an object) is kept as its
/// JSON text.
#[derive(Debug, Clone, PartialEq)]
pub enum JsonValue {
    Null,
    Bool(bool),
    Int(i128),
    Str(String),
    Other(String),
}

/// The mathematical content of a `JsonValue`.
pub enum JsonView {
    Null,
    Bool(bool),
    Int(int),
    Str(Seq<char>),
    Other(Seq<char>),
}

impl View for JsonValue {
    type V = JsonView;

    open spec fn view(&self) -> JsonView {
        match self {
            JsonValue::Null => JsonView::Null,
            JsonValue::Bool(b) => JsonView::Bool(*b),
            JsonValue::Int(n) => JsonView::Int(*n as int),
            JsonValue::Str(s) => JsonView::Str(s@),
            JsonValue::Other(s) => JsonView::Other(s@),
        }
    }
}

impl JsonValue {
    /// A copy of this value.
    pub fn duplicate(&self) -> (r: JsonValue)
        ensures
            r@ == self@,
    {
        match self {
            JsonValue::Null => JsonValue::Null,
            JsonValue::Bool(b) => JsonValue::Bool(*b),
            JsonValue::Int(n) => JsonValue::Int(*n),
            JsonValue::Str(s) => JsonValue::Str(s.clone()),
            JsonValue::Other(s) => JsonValue::Other(s.clone()),
        }
    }
}

} // verus!
