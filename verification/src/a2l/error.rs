//! Error types for A2L parsing and writing.

use vstd::prelude::*;

verus! {

/// Unified error type for A2L parse and write operations.
#[derive(Debug, PartialEq, Eq)]
pub enum Error {
    /// Parsing failed; carries the line number and context.
    Parse {
        /// Line where the error occurred (1-based; 0 when no token was at hand).
        line: u32,
        /// Error description.
        message: String,
    },
    /// Writing failed.
    Write {
        /// Name of the node type being written when the error occurred.
        node: &'static str,
        /// Error description.
        message: String,
    },
}

/// Convenience `Result` alias for A2L.
pub type Result<T> = std::result::Result<T, Error>;

/// What an [`Error`] says, as plain mathematical values.
pub enum Failure {
    Parse(int, Seq<char>),
    Write(Seq<char>, Seq<char>),
}

impl View for Error {
    type V = Failure;

    open spec fn view(&self) -> Failure {
        match self {
            Error::Parse { line, message } => Failure::Parse(*line as int, message@),
            Error::Write { node, message } => Failure::Write(node@, message@),
        }
    }
}

impl Error {
    /// Constructs a parse error with a line number.
    pub(crate) fn parse(line: u32, message: String) -> (r: Self)
        ensures
            r@ == Failure::Parse(line as int, message@),
    {
        Error::Parse { line, message }
    }

    /// Constructs a write error.
    pub(crate) fn write(node: &'static str, message: String) -> (r: Self)
        ensures
            r@ == Failure::Write(node@, message@),
    {
        Error::Write { node, message }
    }
}

} // verus!
