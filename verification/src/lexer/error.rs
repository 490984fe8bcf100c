//! Lexer-specific error type.

use vstd::prelude::*;

verus! {

/// The ways scanning source text into tokens can fail. Offsets are byte
/// offsets into the source.
#[derive(Debug, Clone, Copy, PartialEq, Eq, Structural)]
pub enum LexError {
    /// A character that starts no token.
    UnexpectedChar { ch: char, offset: usize },
    /// A `'` with no closing `'` before the end of the input.
    UnterminatedString { offset: usize },
}

impl LexError {
    pub fn unexpected_char(ch: char, offset: usize) -> (e: Self)
        ensures
            e == (LexError::UnexpectedChar { ch, offset }),
    {
        LexError::UnexpectedChar { ch, offset }
    }

    pub fn unterminated_string(offset: usize) -> (e: Self)
        ensures
            e == (LexError::UnterminatedString { offset }),
    {
        LexError::UnterminatedString { offset }
    }
}

} // verus!
