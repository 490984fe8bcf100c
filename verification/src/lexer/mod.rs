//! Tokenizer: turns SQL source text into a stream of [`Token`]s. Purely
//! lexical, no grammar.
//!
//! Whitespace and `--` line comments separate tokens. One character of
//! lookahead tells the two-character operators (`<=`, `>=`, `<>`, `!=`)
//! apart from their one-character prefixes. `5--3` is `5` followed by a
//! comment, not `5 - -3`.

pub mod chars;
pub mod error;
pub mod spec;
pub mod token;

pub use error::LexError;
pub use token::{Token, TokenKind};

use vstd::prelude::*;

use self::chars::{
    ascii_upper_code, ascii_upper_code_of, char_is_alphanumeric, is_alphabetic, is_alphanumeric,
    is_digit, is_whitespace, lemma_byte_offset_step, matches_upper, offset_of, utf8_width_of,
};
use self::spec::{
    char_after, ident_end, is_ident_start, lemma_line_end, lemma_next_token_advances,
    lemma_run_ends, lemma_skip_trivia, lex_from, lex_prepend, line_end, next_token_spec, number_end,
    quote_end, scan_token, skip_trivia, symbol_token, word_kind,
};
use self::token::{tokens_view, TokenKindV, TokenV};
use crate::text::{chars_of, string_from_chars};

verus! {

/// The view of a lexing result.
pub open spec fn lex_result_view(r: Result<Vec<Token>, LexError>) -> Result<Seq<TokenV>, LexError> {
    match r {
        Ok(ts) => Ok(tokens_view(ts@)),
        Err(e) => Err(e),
    }
}

/// The view of the result of one lexing step.
pub open spec fn step_view(r: Result<Token, LexError>) -> Result<TokenV, LexError> {
    match r {
        Ok(t) => Ok(t@),
        Err(e) => Err(e),
    }
}

/// Whether `word` upper-cased in ASCII is the keyword `kw`.
fn matches_keyword(word: &Vec<char>, start: usize, end: usize, kw: &str) -> (r: bool)
    requires
        start <= end <= word@.len(),
    ensures
        r == matches_upper(word@.subrange(start as int, end as int), kw@),
{
    let k = chars_of(kw);
    let ghost w = word@.subrange(start as int, end as int);
    if end - start != k.len() {
        return false;
    }
    let mut i: usize = 0;
    while i < k.len()
        invariant
            start <= end <= word@.len(),
            w == word@.subrange(start as int, end as int),
            k@ == kw@,
            end - start == k@.len(),
            i <= k@.len(),
            forall|m: int| 0 <= m < i ==> ascii_upper_code(#[trigger] w[m]) == k@[m] as u32,
        decreases k.len() - i,
    {
        if ascii_upper_code_of(word[start + i]) != k[i] as u32 {
            assert(w[i as int] == word@[start + i]);
            return false;
        }
        assert(w[i as int] == word@[start + i]);
        i = i + 1;
    }
    true
}

/// Whether `word.to_ascii_uppercase()` is `upper`.
pub fn matches_upper_str(word: &str, upper: &str) -> (r: bool)
    ensures
        r == matches_upper(word@, upper@),
{
    let chars = chars_of(word);
    assert(chars@.subrange(0, chars@.len() as int) =~= word@);
    matches_keyword(&chars, 0, chars.len(), upper)
}

/// The keyword `word[start..end]` spells, or else an identifier.
fn keyword_or_ident(word: &Vec<char>, start: usize, end: usize) -> (r: TokenKind)
    requires
        start <= end <= word@.len(),
    ensures
        r@ == word_kind(word@.subrange(start as int, end as int)),
{
    if matches_keyword(word, start, end, "SELECT") {
        TokenKind::Select
    } else if matches_keyword(word, start, end, "FROM") {
        TokenKind::From
    } else if matches_keyword(word, start, end, "WHERE") {
        TokenKind::Where
    } else if matches_keyword(word, start, end, "INSERT") {
        TokenKind::Insert
    } else if matches_keyword(word, start, end, "INTO") {
        TokenKind::Into
    } else if matches_keyword(word, start, end, "VALUES") {
        TokenKind::Values
    } else if matches_keyword(word, start, end, "UPDATE") {
        TokenKind::Update
    } else if matches_keyword(word, start, end, "SET") {
        TokenKind::SetKw
    } else if matches_keyword(word, start, end, "DELETE") {
        TokenKind::Delete
    } else if matches_keyword(word, start, end, "CREATE") {
        TokenKind::Create
    } else if matches_keyword(word, start, end, "TABLE") {
        TokenKind::Table
    } else if matches_keyword(word, start, end, "AND") {
        TokenKind::And
    } else if matches_keyword(word, start, end, "OR") {
        TokenKind::Or
    } else if matches_keyword(word, start, end, "NOT") {
        TokenKind::Not
    } else if matches_keyword(word, start, end, "NULL") {
        TokenKind::Null
    } else if matches_keyword(word, start, end, "TRUE") {
        TokenKind::True
    } else if matches_keyword(word, start, end, "FALSE") {
        TokenKind::False
    } else if matches_keyword(word, start, end, "IS") {
        TokenKind::Is
    } else {
        TokenKind::Ident(string_from_chars(word, start, end))
    }
}

/// Converts SQL source text into [`Token`]s. Holds the source's characters
/// and a cursor into them, together with the cursor's byte offset.
pub struct Lexer {
    chars: Vec<char>,
    pos: usize,
    offset: usize,
}

impl Lexer {
    /// The source text.
    pub closed spec fn source(&self) -> Seq<char> {
        self.chars@
    }

    /// The cursor, as a character index into the source.
    pub closed spec fn position(&self) -> int {
        self.pos as int
    }

    /// The cursor is within the source and its byte offset is tracked.
    pub closed spec fn wf(&self) -> bool {
        &&& self.pos <= self.chars@.len()
        &&& self.offset == offset_of(self.chars@, self.pos as int)
    }

    /// A lexer at the start of `src`.
    pub fn new(src: &str) -> (r: Self)
        ensures
            r.wf(),
            r.source() == src@,
            r.position() == 0,
    {
        let chars = chars_of(src);
        assert(chars@.take(0) =~= Seq::<char>::empty());
        Lexer { chars, pos: 0, offset: 0 }
    }

    /// Lexes the whole input, returning every token including the
    /// trailing [`TokenKind::Eof`], or the first lexical error.
    pub fn tokenise(self) -> (r: Result<Vec<Token>, LexError>)
        requires
            self.wf(),
        ensures
            lex_from(self.source(), self.position()) == lex_result_view(r),
    {
        let mut lexer = self;
        lexer.run()
    }

    /// Another spelling of [`Lexer::tokenise`].
    pub fn tokenize(self) -> (r: Result<Vec<Token>, LexError>)
        requires
            self.wf(),
        ensures
            lex_from(self.source(), self.position()) == lex_result_view(r),
    {
        self.tokenise()
    }

    fn run(&mut self) -> (r: Result<Vec<Token>, LexError>)
        requires
            old(self).wf(),
        ensures
            lex_from(old(self).source(), old(self).position()) == lex_result_view(r),
    {
        let ghost s = self.chars@;
        let ghost start = self.pos as int;
        let mut tokens: Vec<Token> = Vec::new();
        assert(tokens_view(tokens@) =~= Seq::<TokenV>::empty());
        assert(lex_from(s, start) == lex_prepend(Seq::empty(), lex_from(s, start))) by {
            match lex_from(s, start) {
                Ok(rest) => {
                    assert(Seq::<TokenV>::empty() + rest =~= rest);
                },
                _ => {},
            }
        }
        loop
            invariant
                self.wf(),
                self.chars@ == s,
                s == old(self).chars@,
                start == old(self).pos,
                lex_from(s, start) == lex_prepend(tokens_view(tokens@), lex_from(s, self.pos as int)),
            decreases s.len() - self.pos,
        {
            let ghost i = self.pos as int;
            let ghost before = tokens_view(tokens@);
            let step = self.next_token();
            match step {
                Err(e) => {
                    return Err(e);
                },
                Ok(t) => {
                    let is_eof = matches!(t.kind, TokenKind::Eof);
                    let ghost tv = t@;
                    tokens.push(t);
                    assert(tokens_view(tokens@) =~= before.push(tv));
                    if is_eof {
                        assert(before.push(tv) =~= before + seq![tv]);
                        return Ok(tokens);
                    }
                    proof {
                        lemma_next_token_advances(s, i);
                        match lex_from(s, self.pos as int) {
                            Ok(rest) => {
                                assert(before + (seq![tv] + rest) =~= before.push(tv) + rest);
                            },
                            _ => {},
                        }
                    }
                },
            }
        }
    }

    /// The character under the cursor.
    fn peek(&self) -> (r: Option<char>)
        ensures
            r == (if self.pos < self.chars@.len() {
                Some(self.chars@[self.pos as int])
            } else {
                None
            }),
    {
        if self.pos < self.chars.len() {
            Some(self.chars[self.pos])
        } else {
            None
        }
    }

    /// Whether the character after the cursor is `c`.
    fn next_is(&self, c: char) -> (r: bool)
        ensures
            r == (char_after(self.chars@, self.pos as int) == Some(c)),
    {
        self.pos < self.chars.len() && self.chars.len() - self.pos > 1 && self.chars[self.pos + 1] == c
    }

    /// Moves the cursor past one character.
    fn bump(&mut self)
        requires
            old(self).wf(),
            old(self).pos < old(self).chars@.len(),
        ensures
            final(self).wf(),
            final(self).chars@ == old(self).chars@,
            final(self).pos == old(self).pos + 1,
    {
        proof {
            lemma_byte_offset_step(self.chars@, self.pos as int);
        }
        let n = self.chars.len();
        let w = utf8_width_of(self.chars[self.pos]);
        self.offset = self.offset.saturating_add(w);
        self.pos = self.pos + 1;
        assert(self.pos <= n);
    }

    /// Advances past whitespace and `--` line comments.
    fn skip_whitespace_and_comments(&mut self)
        requires
            old(self).wf(),
        ensures
            final(self).wf(),
            final(self).chars@ == old(self).chars@,
            final(self).pos == skip_trivia(old(self).chars@, old(self).pos as int),
    {
        let ghost s = self.chars@;
        let ghost start = self.pos as int;
        proof {
            lemma_skip_trivia(s, start);
        }
        loop
            invariant
                self.wf(),
                self.chars@ == s,
                start <= self.pos <= s.len(),
                skip_trivia(s, start) == skip_trivia(s, self.pos as int),
            ensures
                self.wf(),
                self.chars@ == s,
                self.pos == skip_trivia(s, start),
            decreases s.len() - self.pos,
        {
            if self.pos >= self.chars.len() {
                break;
            }
            let c = self.chars[self.pos];
            if is_whitespace(c) {
                self.bump();
            } else if c == '-' && self.next_is('-') {
                let ghost dash = self.pos as int;
                self.bump();
                self.bump();
                proof {
                    lemma_line_end(s, dash + 2);
                }
                loop
                    invariant
                        self.wf(),
                        self.chars@ == s,
                        dash + 2 <= self.pos <= s.len(),
                        line_end(s, dash + 2) == line_end(s, self.pos as int),
                    ensures
                        self.wf(),
                        self.chars@ == s,
                        self.pos == line_end(s, dash + 2),
                    decreases s.len() - self.pos,
                {
                    if self.pos >= self.chars.len() || self.chars[self.pos] == '\n' {
                        break;
                    }
                    self.bump();
                }
            } else {
                break;
            }
        }
    }

    /// Reads a `'...'` string literal whose opening quote is under the
    /// cursor. No escapes.
    fn read_string(&mut self) -> (r: Result<TokenKind, LexError>)
        requires
            old(self).wf(),
            old(self).pos < old(self).chars@.len(),
            old(self).chars@[old(self).pos as int] == '\'',
        ensures
            final(self).wf(),
            final(self).chars@ == old(self).chars@,
            match r {
                Ok(k) => scan_token(old(self).chars@, old(self).pos as int) == Ok::<
                    (TokenKindV, int),
                    LexError,
                >((k@, final(self).pos as int)),
                Err(e) => scan_token(old(self).chars@, old(self).pos as int) == Err::<
                    (TokenKindV, int),
                    LexError,
                >(e),
            },
    {
        let ghost s = self.chars@;
        let start_offset = self.offset;
        let ghost i = self.pos as int;
        assert(symbol_token(s, i) is None);
        self.bump();
        let content = self.pos;
        proof {
            lemma_run_ends(s, content as int);
        }
        loop
            invariant
                self.wf(),
                self.chars@ == s,
                content <= self.pos <= s.len(),
                quote_end(s, content as int) == quote_end(s, self.pos as int),
            ensures
                self.wf(),
                self.chars@ == s,
                self.pos == quote_end(s, content as int),
            decreases s.len() - self.pos,
        {
            if self.pos >= self.chars.len() || self.chars[self.pos] == '\'' {
                break;
            }
            self.bump();
        }
        if self.pos >= self.chars.len() {
            return Err(LexError::unterminated_string(start_offset));
        }
        let text = string_from_chars(&self.chars, content, self.pos);
        self.bump();
        Ok(TokenKind::StringLit(text))
    }

    /// Reads a numeric literal: the run of digits and `.` under the cursor.
    fn read_number(&mut self) -> (r: TokenKind)
        requires
            old(self).wf(),
            old(self).pos < old(self).chars@.len(),
            '0' <= old(self).chars@[old(self).pos as int] <= '9',
        ensures
            final(self).wf(),
            final(self).chars@ == old(self).chars@,
            scan_token(old(self).chars@, old(self).pos as int) == Ok::<(TokenKindV, int), LexError>(
                (r@, final(self).pos as int),
            ),
    {
        let ghost s = self.chars@;
        let start = self.pos;
        assert(symbol_token(s, start as int) is None);
        proof {
            lemma_run_ends(s, start as int);
        }
        loop
            invariant
                self.wf(),
                self.chars@ == s,
                start <= self.pos <= s.len(),
                number_end(s, start as int) == number_end(s, self.pos as int),
            ensures
                self.wf(),
                self.chars@ == s,
                self.pos == number_end(s, start as int),
            decreases s.len() - self.pos,
        {
            if self.pos >= self.chars.len() {
                break;
            }
            let c = self.chars[self.pos];
            if !(('0' <= c && c <= '9') || c == '.') {
                break;
            }
            self.bump();
        }
        TokenKind::Number(string_from_chars(&self.chars, start, self.pos))
    }

    /// Reads an identifier or keyword whose first character is under the
    /// cursor: that character and the run of alphanumeric characters and
    /// `_` after it, a keyword when its ASCII upper-casing is one.
    fn read_ident_or_keyword(&mut self) -> (r: TokenKind)
        requires
            old(self).wf(),
            old(self).pos < old(self).chars@.len(),
            is_ident_start(old(self).chars@[old(self).pos as int]),
            symbol_token(old(self).chars@, old(self).pos as int) is None,
            !is_digit(old(self).chars@[old(self).pos as int]),
            old(self).chars@[old(self).pos as int] != '\'',
            old(self).chars@[old(self).pos as int] != '!',
        ensures
            final(self).wf(),
            final(self).chars@ == old(self).chars@,
            scan_token(old(self).chars@, old(self).pos as int) == Ok::<(TokenKindV, int), LexError>(
                (r@, final(self).pos as int),
            ),
    {
        let ghost s = self.chars@;
        let start = self.pos;
        self.bump();
        proof {
            lemma_run_ends(s, start + 1);
        }
        loop
            invariant
                self.wf(),
                self.chars@ == s,
                start < self.pos <= s.len(),
                ident_end(s, start + 1) == ident_end(s, self.pos as int),
            ensures
                self.wf(),
                self.chars@ == s,
                self.pos == ident_end(s, start + 1),
            decreases s.len() - self.pos,
        {
            if self.pos >= self.chars.len() {
                break;
            }
            let c = self.chars[self.pos];
            if !(is_alphanumeric(c) || c == '_') {
                break;
            }
            self.bump();
        }
        keyword_or_ident(&self.chars, start, self.pos)
    }

    /// Skips trivia, then scans and returns the next token (`Eof` at the
    /// end of input), leaving the cursor after it.
    fn next_token(&mut self) -> (r: Result<Token, LexError>)
        requires
            old(self).wf(),
        ensures
            final(self).wf(),
            final(self).chars@ == old(self).chars@,
            step_view(r) == next_token_spec(old(self).chars@, old(self).pos as int).0,
            r matches Ok(_) ==> final(self).pos == next_token_spec(
                old(self).chars@,
                old(self).pos as int,
            ).1,
    {
        let ghost s = self.chars@;
        self.skip_whitespace_and_comments();
        let ghost k = self.pos as int;
        let start = self.offset;
        let c = match self.peek() {
            None => {
                return Ok(Token::new(TokenKind::Eof, start));
            },
            Some(c) => c,
        };
        assert(start == offset_of(s, k));
        let kind = if c == ',' {
            self.bump();
            TokenKind::Comma
        } else if c == '*' {
            self.bump();
            TokenKind::Star
        } else if c == '(' {
            self.bump();
            TokenKind::LParen
        } else if c == ')' {
            self.bump();
            TokenKind::RParen
        } else if c == ';' {
            self.bump();
            TokenKind::Semicolon
        } else if c == '=' {
            self.bump();
            TokenKind::Eq
        } else if c == '+' {
            self.bump();
            TokenKind::Add
        } else if c == '-' {
            self.bump();
            TokenKind::Sub
        } else if c == '/' {
            self.bump();
            TokenKind::Div
        } else if c == '<' {
            if self.next_is('=') {
                self.bump();
                self.bump();
                TokenKind::LtEq
            } else if self.next_is('>') {
                self.bump();
                self.bump();
                TokenKind::NotEq
            } else {
                self.bump();
                TokenKind::Lt
            }
        } else if c == '>' {
            if self.next_is('=') {
                self.bump();
                self.bump();
                TokenKind::GtEq
            } else {
                self.bump();
                TokenKind::Gt
            }
        } else if c == '!' {
            if self.next_is('=') {
                self.bump();
                self.bump();
                TokenKind::NotEq
            } else {
                return Err(LexError::unexpected_char(c, start));
            }
        } else if c == '\'' {
            match self.read_string() {
                Ok(kind) => kind,
                Err(e) => {
                    return Err(e);
                },
            }
        } else if '0' <= c && c <= '9' {
            self.read_number()
        } else if is_alphabetic(c) || c == '_' {
            self.read_ident_or_keyword()
        } else {
            return Err(LexError::unexpected_char(c, start));
        };
        Ok(Token::new(kind, start))
    }
}

} // verus!
