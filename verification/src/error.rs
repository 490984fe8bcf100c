//! Crate-wide error type: wraps each pipeline stage's own error so callers
//! match one type.

use vstd::prelude::*;

use crate::analyser::error::AnalyseError;
use crate::executor::error::ExecError;
use crate::lexer::error::LexError;
use crate::parser::error::ParseError;

verus! {

/// The error of running SQL text through the whole pipeline: the stage
/// that failed, with its own error.
#[derive(Debug, PartialEq, Clone)]
pub enum Error<S = String> {
    /// Scanning the text into tokens failed.
    Lex(LexError),
    /// The tokens do not form statements.
    Parse(ParseError<S>),
    /// A statement does not fit the catalog.
    Analyse(AnalyseError<S>),
    /// Running a statement failed.
    Exec(ExecError<S>),
}

pub type ErrorV = Error<Seq<char>>;

/// The result of running SQL text through the pipeline.
pub type Result<T> = std::result::Result<T, Error>;

impl View for Error {
    type V = ErrorV;

    open spec fn view(&self) -> ErrorV {
        match self {
            Error::Lex(e) => Error::Lex(*e),
            Error::Parse(e) => Error::Parse(e@),
            Error::Analyse(e) => Error::Analyse(e@),
            Error::Exec(e) => Error::Exec(e@),
        }
    }
}

} // verus!
