//! Error types for ASC parsing and writing.

use vstd::prelude::*;

verus! {

/// Error returned by ASC operations.
#[derive(Debug, PartialEq, Eq)]
pub enum Error {
    /// A line could not be interpreted as a valid ASC construct.
    Parse {
        /// One-based input line number.
        line: usize,
        /// Description of the invalid input.
        message: String,
    },
    /// A value cannot be represented in an ASC output file.
    Write(String),
}

/// Convenient ASC result alias.
pub type Result<T> = std::result::Result<T, Error>;

/// What an [`Error`] says, as plain mathematical values.
pub enum Failure {
    Parse(int, Seq<char>),
    Write(Seq<char>),
}

impl View for Error {
    type V = Failure;

    open spec fn view(&self) -> Failure {
        match self {
            Error::Parse { line, message } => Failure::Parse(*line as int, message@),
            Error::Write(message) => Failure::Write(message@),
        }
    }
}

pub(crate) fn parse_error(line: usize, message: String) -> (r: Error)
    ensures
        r@ == Failure::Parse(line as int, message@),
{
    Error::Parse { line, message }
}

} // verus!
