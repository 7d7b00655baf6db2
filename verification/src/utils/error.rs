//! Errors of the surrounding program.

use vstd::prelude::*;

verus! {

/// The error type of std's input and output, carried as it is.
#[verifier::external_type_specification]
#[verifier::external_body]
pub struct ExIoError(std::io::Error);

/// What can go wrong around the library.
#[derive(Debug)]
pub enum AppError {
    /// Reading or writing failed.
    Io(std::io::Error),
    /// Anything else.
    Unknown,
}

} // verus!
