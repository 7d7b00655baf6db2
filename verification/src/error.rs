//! The error of the library.

use vstd::prelude::*;

verus! {

/// What can go wrong in the library.
#[derive(Debug, Clone, PartialEq, Eq)]
pub enum Error {
    /// Malformed input; the message ends with the offending line.
    ParseError(String),
}

impl Error {
    /// The text that describes the error.
    pub open spec fn text(self) -> Seq<char> {
        match self {
            Error::ParseError(message) => message@,
        }
    }

    /// The text that describes the error, as a string of its own.
    pub fn message(&self) -> (r: String)
        ensures
            r@ == self.text(),
    {
        match self {
            Error::ParseError(message) => message.clone(),
        }
    }
}

} // verus!
