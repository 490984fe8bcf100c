//! Tokens: what the lexer produces and the parser consumes.

use vstd::prelude::*;

verus! {

/// The category of a single token, plus the text it carries. `S` is the
/// text type: `String` for executable tokens, `Seq<char>` for their view.
#[derive(Debug, Clone, PartialEq)]
pub enum TokenKind<S = String> {
    Select,
    From,
    Where,
    Insert,
    Into,
    Values,
    Update,
    /// The `SET` keyword.
    SetKw,
    Delete,
    Create,
    Table,
    And,
    Or,
    Not,
    Null,
    True,
    False,
    Is,
    /// A user-defined name (table, column, type name, ...): anything
    /// alphabetic that is not a reserved keyword.
    Ident(S),
    /// A numeric literal as its source text (digits and `.`), not yet
    /// parsed.
    Number(S),
    /// A single-quoted string literal, quotes stripped.
    StringLit(S),
    Comma,
    Star,
    LParen,
    RParen,
    Semicolon,
    Eq,
    NotEq,
    Lt,
    LtEq,
    Gt,
    GtEq,
    Add,
    Sub,
    Div,
    /// The end of the input: always the last token produced.
    Eof,
}

pub type TokenKindV = TokenKind<Seq<char>>;

impl View for TokenKind {
    type V = TokenKindV;

    open spec fn view(&self) -> TokenKindV {
        match self {
            TokenKind::Select => TokenKind::Select,
            TokenKind::From => TokenKind::From,
            TokenKind::Where => TokenKind::Where,
            TokenKind::Insert => TokenKind::Insert,
            TokenKind::Into => TokenKind::Into,
            TokenKind::Values => TokenKind::Values,
            TokenKind::Update => TokenKind::Update,
            TokenKind::SetKw => TokenKind::SetKw,
            TokenKind::Delete => TokenKind::Delete,
            TokenKind::Create => TokenKind::Create,
            TokenKind::Table => TokenKind::Table,
            TokenKind::And => TokenKind::And,
            TokenKind::Or => TokenKind::Or,
            TokenKind::Not => TokenKind::Not,
            TokenKind::Null => TokenKind::Null,
            TokenKind::True => TokenKind::True,
            TokenKind::False => TokenKind::False,
            TokenKind::Is => TokenKind::Is,
            TokenKind::Ident(s) => TokenKind::Ident(s@),
            TokenKind::Number(s) => TokenKind::Number(s@),
            TokenKind::StringLit(s) => TokenKind::StringLit(s@),
            TokenKind::Comma => TokenKind::Comma,
            TokenKind::Star => TokenKind::Star,
            TokenKind::LParen => TokenKind::LParen,
            TokenKind::RParen => TokenKind::RParen,
            TokenKind::Semicolon => TokenKind::Semicolon,
            TokenKind::Eq => TokenKind::Eq,
            TokenKind::NotEq => TokenKind::NotEq,
            TokenKind::Lt => TokenKind::Lt,
            TokenKind::LtEq => TokenKind::LtEq,
            TokenKind::Gt => TokenKind::Gt,
            TokenKind::GtEq => TokenKind::GtEq,
            TokenKind::Add => TokenKind::Add,
            TokenKind::Sub => TokenKind::Sub,
            TokenKind::Div => TokenKind::Div,
            TokenKind::Eof => TokenKind::Eof,
        }
    }
}

impl TokenKind {
    /// A copy with the same view.
    pub fn duplicate(&self) -> (r: TokenKind)
        ensures
            r@ == self@,
    {
        match self {
            TokenKind::Ident(s) => TokenKind::Ident(s.clone()),
            TokenKind::Number(s) => TokenKind::Number(s.clone()),
            TokenKind::StringLit(s) => TokenKind::StringLit(s.clone()),
            TokenKind::Select => TokenKind::Select,
            TokenKind::From => TokenKind::From,
            TokenKind::Where => TokenKind::Where,
            TokenKind::Insert => TokenKind::Insert,
            TokenKind::Into => TokenKind::Into,
            TokenKind::Values => TokenKind::Values,
            TokenKind::Update => TokenKind::Update,
            TokenKind::SetKw => TokenKind::SetKw,
            TokenKind::Delete => TokenKind::Delete,
            TokenKind::Create => TokenKind::Create,
            TokenKind::Table => TokenKind::Table,
            TokenKind::And => TokenKind::And,
            TokenKind::Or => TokenKind::Or,
            TokenKind::Not => TokenKind::Not,
            TokenKind::Null => TokenKind::Null,
            TokenKind::True => TokenKind::True,
            TokenKind::False => TokenKind::False,
            TokenKind::Is => TokenKind::Is,
            TokenKind::Comma => TokenKind::Comma,
            TokenKind::Star => TokenKind::Star,
            TokenKind::LParen => TokenKind::LParen,
            TokenKind::RParen => TokenKind::RParen,
            TokenKind::Semicolon => TokenKind::Semicolon,
            TokenKind::Eq => TokenKind::Eq,
            TokenKind::NotEq => TokenKind::NotEq,
            TokenKind::Lt => TokenKind::Lt,
            TokenKind::LtEq => TokenKind::LtEq,
            TokenKind::Gt => TokenKind::Gt,
            TokenKind::GtEq => TokenKind::GtEq,
            TokenKind::Add => TokenKind::Add,
            TokenKind::Sub => TokenKind::Sub,
            TokenKind::Div => TokenKind::Div,
            TokenKind::Eof => TokenKind::Eof,
        }
    }

    /// Whether this kind is `other`, a kind that carries no text.
    pub fn same_as(&self, other: &TokenKind) -> (r: bool)
        requires
            !(other@ is Ident || other@ is Number || other@ is StringLit),
        ensures
            r == (self@ == other@),
    {
        match other {
            TokenKind::Select => matches!(self, TokenKind::Select),
            TokenKind::From => matches!(self, TokenKind::From),
            TokenKind::Where => matches!(self, TokenKind::Where),
            TokenKind::Insert => matches!(self, TokenKind::Insert),
            TokenKind::Into => matches!(self, TokenKind::Into),
            TokenKind::Values => matches!(self, TokenKind::Values),
            TokenKind::Update => matches!(self, TokenKind::Update),
            TokenKind::SetKw => matches!(self, TokenKind::SetKw),
            TokenKind::Delete => matches!(self, TokenKind::Delete),
            TokenKind::Create => matches!(self, TokenKind::Create),
            TokenKind::Table => matches!(self, TokenKind::Table),
            TokenKind::And => matches!(self, TokenKind::And),
            TokenKind::Or => matches!(self, TokenKind::Or),
            TokenKind::Not => matches!(self, TokenKind::Not),
            TokenKind::Null => matches!(self, TokenKind::Null),
            TokenKind::True => matches!(self, TokenKind::True),
            TokenKind::False => matches!(self, TokenKind::False),
            TokenKind::Is => matches!(self, TokenKind::Is),
            TokenKind::Comma => matches!(self, TokenKind::Comma),
            TokenKind::Star => matches!(self, TokenKind::Star),
            TokenKind::LParen => matches!(self, TokenKind::LParen),
            TokenKind::RParen => matches!(self, TokenKind::RParen),
            TokenKind::Semicolon => matches!(self, TokenKind::Semicolon),
            TokenKind::Eq => matches!(self, TokenKind::Eq),
            TokenKind::NotEq => matches!(self, TokenKind::NotEq),
            TokenKind::Lt => matches!(self, TokenKind::Lt),
            TokenKind::LtEq => matches!(self, TokenKind::LtEq),
            TokenKind::Gt => matches!(self, TokenKind::Gt),
            TokenKind::GtEq => matches!(self, TokenKind::GtEq),
            TokenKind::Add => matches!(self, TokenKind::Add),
            TokenKind::Sub => matches!(self, TokenKind::Sub),
            TokenKind::Div => matches!(self, TokenKind::Div),
            TokenKind::Eof => matches!(self, TokenKind::Eof),
            TokenKind::Ident(_) | TokenKind::Number(_) | TokenKind::StringLit(_) => false,
        }
    }
}

/// A single token: its kind and the byte offset in the source where it
/// starts.
#[derive(Debug, Clone, PartialEq)]
pub struct Token<S = String> {
    pub kind: TokenKind<S>,
    pub offset: usize,
}

pub type TokenV = Token<Seq<char>>;

impl View for Token {
    type V = TokenV;

    open spec fn view(&self) -> TokenV {
        Token { kind: self.kind@, offset: self.offset }
    }
}

impl Token {
    pub fn new(kind: TokenKind, offset: usize) -> (r: Self)
        ensures
            r@ == (Token { kind: kind@, offset }),
    {
        Token { kind, offset }
    }

    /// A copy with the same view.
    pub fn duplicate(&self) -> (r: Token)
        ensures
            r@ == self@,
    {
        Token { kind: self.kind.duplicate(), offset: self.offset }
    }
}

/// The views of a sequence of tokens.
pub open spec fn tokens_view(ts: Seq<Token>) -> Seq<TokenV> {
    ts.map_values(|t: Token| t@)
}

} // verus!
