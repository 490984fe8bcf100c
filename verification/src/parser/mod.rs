//! Parser: turns a token stream (from the lexer) into statements. Purely
//! syntactic: no catalog lookups, no type checking.
//!
//! Grammar (loosest to tightest binding for expressions):
//!
//! ```text
//! statement    := select | insert | update | delete | create_table
//! select       := SELECT (* | ident (, ident)*) FROM ident where?
//! insert       := INSERT INTO ident VALUES ( expr (, expr)* )
//! update       := UPDATE ident SET assignment (, assignment)* where?
//! delete       := DELETE FROM ident where?
//! create_table := CREATE TABLE ident ( column_decl (, column_decl)* )
//! assignment   := ident = expr
//! column_decl  := ident type_name (NOT NULL)?
//! where        := WHERE expr
//!
//! expr         := or_expr
//! or_expr      := and_expr (OR and_expr)*
//! and_expr     := not_expr (AND not_expr)*
//! not_expr     := NOT not_expr | comparison
//! comparison   := term (IS NOT? NULL | comp_op term)?
//! term         := factor ((+ | -) factor)*
//! factor       := unary ((* | /) unary)*
//! unary        := - unary | primary
//! primary      := ident | literal | ( expr )
//! literal      := number | string | NULL | TRUE | FALSE
//! ```
//!
//! In `VALUES`, a value that is `-` and a number literal is stored as a
//! negative literal, and a value that is `-` and a string or boolean
//! literal is an error. Elsewhere a negated literal is an ordinary
//! negation, which the analyser checks like any other.

pub mod ast;
pub mod error;
pub mod spec;
pub mod number;
pub mod expr;
pub mod statement;
pub mod laws;

pub use ast::{
    BinaryOp, ColumnDecl, CreateTableStatement, DeleteStatement, Expr, InsertStatement,
    SelectColumns, SelectStatement, Statement, UpdateStatement,
};
pub use error::ParseError;

use vstd::prelude::*;

use self::error::ParseErrorV;
use self::spec::{
    advance, at, error_at, expect_ident_spec, expect_spec, non_numeric_literal, well_terminated, Parsed,
};
use crate::lexer::token::{tokens_view, Token, TokenKind, TokenV};

verus! {

/// `r` is the executable form of the spec outcome `s`, with the parser
/// left at `pos`.
pub open spec fn outcome<T: View>(r: Result<T, ParseError>, pos: int, s: Parsed<T::V>) -> bool {
    match r {
        Ok(x) => s == Ok::<(T::V, int), ParseErrorV>((x@, pos)),
        Err(e) => s == Err::<(T::V, int), ParseErrorV>(e@),
    }
}

/// In a well-terminated stream, a token other than `Eof` is not the last.
pub proof fn lemma_not_last(ts: Seq<TokenV>, p: int)
    requires
        well_terminated(ts),
        0 <= p < ts.len(),
        !(ts[p].kind is Eof),
    ensures
        p + 1 < ts.len(),
{
}

/// Converts a token stream into statements. Holds a cursor into the
/// tokens and advances it one token at a time.
pub struct Parser {
    tokens: Vec<Token>,
    pos: usize,
}

impl Parser {
    /// The views of the tokens.
    pub closed spec fn tokens_view(&self) -> Seq<TokenV> {
        tokens_view(self.tokens@)
    }

    /// The cursor.
    pub closed spec fn position(&self) -> int {
        self.pos as int
    }

    /// The tokens end with `Eof` and the cursor is on one of them.
    pub closed spec fn wf(&self) -> bool {
        well_terminated(self.tokens_view()) && self.pos < self.tokens@.len()
    }

    /// What [`Parser::wf`] gives callers.
    pub proof fn lemma_wf(&self)
        requires
            self.wf(),
        ensures
            well_terminated(self.tokens_view()),
            0 <= self.position() < self.tokens_view().len(),
    {
    }

    /// A parser at the start of `tokens`, which must end with
    /// [`TokenKind::Eof`] (as [`crate::lexer::Lexer::tokenise`] gives).
    pub fn new(tokens: Vec<Token>) -> (r: Self)
        requires
            well_terminated(tokens_view(tokens@)),
        ensures
            r.wf(),
            r.tokens_view() == tokens_view(tokens@),
            r.position() == 0,
    {
        Parser { tokens, pos: 0 }
    }

    /// The current token.
    pub(crate) fn peek(&self) -> (r: &Token)
        requires
            self.wf(),
        ensures
            r@ == self.tokens_view()[self.position()],
    {
        &self.tokens[self.pos]
    }

    /// The kind of the current token.
    pub(crate) fn peek_kind(&self) -> (r: &TokenKind)
        requires
            self.wf(),
        ensures
            r@ == self.tokens_view()[self.position()].kind,
    {
        &self.tokens[self.pos].kind
    }

    /// Gives the current token and moves past it, unless it is the last
    /// (`Eof`), which is never consumed.
    pub(crate) fn advance(&mut self) -> (r: Token)
        requires
            old(self).wf(),
        ensures
            final(self).wf(),
            final(self).tokens_view() == old(self).tokens_view(),
            final(self).position() == advance(old(self).tokens_view(), old(self).position()),
            r@ == old(self).tokens_view()[old(self).position()],
    {
        let tok = self.tokens[self.pos].duplicate();
        if self.tokens.len() - self.pos > 1 {
            self.pos = self.pos + 1;
        }
        tok
    }

    /// The cursor, as an index into the tokens.
    pub(crate) fn mark(&self) -> (r: usize)
        ensures
            r == self.position(),
    {
        self.pos
    }

    /// The token after the current one, when the current one is `-` and
    /// that next one is a string or boolean literal.
    pub(crate) fn negated_text_or_bool(&self) -> (r: Option<Token>)
        requires
            self.wf(),
        ensures
            r is Some <==> (at(self.tokens_view(), self.position(), TokenKind::Sub) && non_numeric_literal(
                self.tokens_view()[self.position() + 1].kind,
            )),
            r matches Some(t) ==> t@ == self.tokens_view()[self.position() + 1],
    {
        if self.tokens.len() - self.pos > 1 && matches!(self.tokens[self.pos].kind, TokenKind::Sub) {
            let next = &self.tokens[self.pos + 1];
            if matches!(next.kind, TokenKind::StringLit(_) | TokenKind::True | TokenKind::False) {
                return Some(next.duplicate());
            }
        }
        None
    }

    /// Whether the current token has kind `kind`.
    pub(crate) fn check(&self, kind: &TokenKind) -> (r: bool)
        requires
            self.wf(),
            !(kind@ is Ident || kind@ is Number || kind@ is StringLit),
        ensures
            r == (self.tokens_view()[self.position()].kind == kind@),
    {
        self.peek_kind().same_as(kind)
    }

    /// The error for a missing `expected` at the current token:
    /// [`ParseError::UnexpectedEof`] at the end of input, otherwise
    /// [`ParseError::UnexpectedToken`].
    pub(crate) fn error(&self, expected: &str) -> (e: ParseError)
        requires
            self.wf(),
        ensures
            e@ == error_at(self.tokens_view(), self.position(), expected@),
    {
        let tok = self.peek();
        if matches!(tok.kind, TokenKind::Eof) {
            ParseError::UnexpectedEof { expected: expected.to_owned() }
        } else {
            ParseError::UnexpectedToken {
                expected: expected.to_owned(),
                found: tok.kind.duplicate(),
                offset: tok.offset,
            }
        }
    }

    /// Consumes the current token if it has kind `kind`, else fails naming
    /// `expected`.
    pub(crate) fn expect(&mut self, kind: TokenKind, expected: &str) -> (r: Result<(), ParseError>)
        requires
            old(self).wf(),
            !(kind@ is Eof || kind@ is Ident || kind@ is Number || kind@ is StringLit),
        ensures
            final(self).wf(),
            final(self).tokens_view() == old(self).tokens_view(),
            match r {
                Ok(_) => expect_spec(old(self).tokens_view(), old(self).position(), kind@, expected@)
                    == Ok::<int, ParseErrorV>(final(self).position()) && final(self).position() == old(self).position() + 1,
                Err(e) => expect_spec(old(self).tokens_view(), old(self).position(), kind@, expected@)
                    == Err::<int, ParseErrorV>(e@) && final(self).position() == old(self).position(),
            },
    {
        if self.check(&kind) {
            proof {
                lemma_not_last(self.tokens_view(), self.position());
            }
            self.advance();
            Ok(())
        } else {
            Err(self.error(expected))
        }
    }

    /// Consumes the current token if it is an identifier and gives its
    /// text.
    pub(crate) fn expect_ident(&mut self) -> (r: Result<String, ParseError>)
        requires
            old(self).wf(),
        ensures
            final(self).wf(),
            final(self).tokens_view() == old(self).tokens_view(),
            outcome(r, final(self).position(), expect_ident_spec(old(self).tokens_view(), old(self).position())),
            r is Ok ==> final(self).position() == old(self).position() + 1,
            r is Err ==> final(self).position() == old(self).position(),
    {
        if let TokenKind::Ident(name) = self.peek_kind() {
            let name = name.clone();
            proof {
                lemma_not_last(self.tokens_view(), self.position());
            }
            self.advance();
            Ok(name)
        } else {
            Err(self.error("identifier"))
        }
    }
}

} // verus!
