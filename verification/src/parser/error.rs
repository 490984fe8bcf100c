//! Parser-specific error type.

use vstd::prelude::*;

use crate::lexer::token::TokenKind;

verus! {

/// All ways parsing a token stream can fail. Each variant but
/// `UnexpectedEof` carries the byte offset of the offending token.
#[derive(Debug, PartialEq, Clone)]
pub enum ParseError<S = String> {
    /// A specific token was required but another one was found.
    /// `expected` describes what was required, e.g. `FROM`.
    UnexpectedToken { expected: S, found: TokenKind<S>, offset: usize },
    /// The token stream ended before a statement was complete.
    UnexpectedEof { expected: S },
    /// A `Number` token's text is not a valid integer or float (`1.2.3`).
    InvalidNumber { text: S, offset: usize },
    /// A column type name in `CREATE TABLE` is not a known type.
    UnknownType { name: S, offset: usize },
    /// A `VALUES` entry that is `-` and a string or boolean literal,
    /// which no numeric reading can give a meaning.
    NonNumericNegation { found: TokenKind<S>, offset: usize },
}

pub type ParseErrorV = ParseError<Seq<char>>;

impl View for ParseError {
    type V = ParseErrorV;

    open spec fn view(&self) -> ParseErrorV {
        match self {
            ParseError::UnexpectedToken { expected, found, offset } => ParseError::UnexpectedToken {
                expected: expected@,
                found: found@,
                offset: *offset,
            },
            ParseError::UnexpectedEof { expected } => ParseError::UnexpectedEof {
                expected: expected@,
            },
            ParseError::InvalidNumber { text, offset } => ParseError::InvalidNumber {
                text: text@,
                offset: *offset,
            },
            ParseError::UnknownType { name, offset } => ParseError::UnknownType {
                name: name@,
                offset: *offset,
            },
            ParseError::NonNumericNegation { found, offset } => ParseError::NonNumericNegation {
                found: found@,
                offset: *offset,
            },
        }
    }
}

} // verus!
