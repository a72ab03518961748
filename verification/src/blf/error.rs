//! Error types.

use vstd::prelude::*;

verus! {

/// Error type for BLF reading and writing.
#[derive(Debug, PartialEq, Eq)]
pub enum Error {
    /// Binary structure parse error.
    Parse {
        /// Offset at which the error occurred.
        offset: u64,
        /// Error description.
        message: String,
    },
    /// Write-out error.
    Write(String),
    /// Compression/decompression error.
    Compression(String),
}

/// Convenient `Result` alias.
pub type Result<T> = std::result::Result<T, Error>;

/// What an [`Error`] says, as plain mathematical values.
pub enum Failure {
    Parse(int, Seq<char>),
    Write(Seq<char>),
    Compression(Seq<char>),
}

impl View for Error {
    type V = Failure;

    open spec fn view(&self) -> Failure {
        match self {
            Error::Parse { offset, message } => Failure::Parse(*offset as int, message@),
            Error::Write(message) => Failure::Write(message@),
            Error::Compression(message) => Failure::Compression(message@),
        }
    }
}

pub(crate) fn parse_err<T>(offset: u64, message: String) -> (r: Result<T>)
    ensures
        r is Err,
        r->Err_0@ == Failure::Parse(offset as int, message@),
{
    Err(Error::Parse { offset, message })
}

} // verus!
