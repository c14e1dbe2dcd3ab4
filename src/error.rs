//! Errors of a render call.
use vstd::prelude::*;

use crate::syntax::Point;

verus! {

/// Why formatting failed.
#[derive(Debug, PartialEq, Eq)]
pub enum Error {
    /// The output sink rejected a write.
    IoError,
    /// The grammar could not be set up; the parser's message is kept.
    LanguageError { message: String },
    /// A node lacks a child that its rule needs.
    TreeError { kind_id: u16, position: Point },
    /// A node has a number of children that its rule does not recognize.
    InvalidCount { kind_id: u16, position: Point },
    /// A node has a child of a kind that its rule does not recognize.
    InvalidKind { kind_id: u16, position: Point },
}

impl Error {
    /// Whether this is one of the errors for a syntax tree that a rule does not recognize.
    pub open spec fn is_structural_mismatch(self) -> bool {
        ||| self is TreeError
        ||| self is InvalidCount
        ||| self is InvalidKind
    }
}

impl From<String> for Error {
    fn from(message: String) -> (r: Error)
        ensures
            r == (Error::LanguageError { message }),
    {
        Error::LanguageError { message }
    }
}

impl vstd::std_specs::convert::FromSpecImpl<String> for Error {
    open spec fn obeys_from_spec() -> bool {
        true
    }

    open spec fn from_spec(message: String) -> Error {
        Error::LanguageError { message }
    }
}

} // verus!
