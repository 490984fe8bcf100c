//! What the lexer computes, stated over the characters of the source.
//!
//! Positions are character indices into the source; the offsets tokens
//! and errors carry are the byte offsets of those positions in UTF-8.

use vstd::prelude::*;

use super::chars::{
    ascii_upper_code, byte_offset, lemma_byte_offset_step, offset_of, char_is_alphabetic, char_is_alphanumeric, char_is_whitespace, is_digit,
    matches_upper,
};
use super::error::LexError;
use super::token::{Token, TokenKind, TokenKindV, TokenV};

verus! {

/// A character that may continue an identifier.
pub open spec fn is_ident_char(c: char) -> bool {
    char_is_alphanumeric(c) || c == '_'
}

/// A character that starts an identifier or keyword.
pub open spec fn is_ident_start(c: char) -> bool {
    char_is_alphabetic(c) || c == '_'
}

/// The first position at or after `i` that holds a newline, or the end.
pub open spec fn line_end(s: Seq<char>, i: int) -> int
    decreases s.len() - i,
{
    if 0 <= i < s.len() && s[i] != '\n' {
        line_end(s, i + 1)
    } else {
        i
    }
}

pub proof fn lemma_line_end(s: Seq<char>, i: int)
    requires
        0 <= i <= s.len(),
    ensures
        i <= line_end(s, i) <= s.len(),
    decreases s.len() - i,
{
    if i < s.len() && s[i] != '\n' {
        lemma_line_end(s, i + 1);
    }
}

/// The position after the whitespace and `--` line comments that start at
/// `i`. A comment runs up to, not including, the next newline.
pub open spec fn skip_trivia(s: Seq<char>, i: int) -> int
    decreases s.len() - i,
{
    if 0 <= i < s.len() && char_is_whitespace(s[i]) {
        skip_trivia(s, i + 1)
    } else if 0 <= i && i + 1 < s.len() && s[i] == '-' && s[i + 1] == '-' {
        proof {
            lemma_line_end(s, i + 2);
        }
        skip_trivia(s, line_end(s, i + 2))
    } else {
        i
    }
}

pub proof fn lemma_skip_trivia(s: Seq<char>, i: int)
    requires
        0 <= i <= s.len(),
    ensures
        i <= skip_trivia(s, i) <= s.len(),
    decreases s.len() - i,
{
    if i < s.len() && char_is_whitespace(s[i]) {
        lemma_skip_trivia(s, i + 1);
    } else if i + 1 < s.len() && s[i] == '-' && s[i + 1] == '-' {
        lemma_line_end(s, i + 2);
        lemma_skip_trivia(s, line_end(s, i + 2));
    }
}

/// The end of the run of identifier characters from `i`.
pub open spec fn ident_end(s: Seq<char>, i: int) -> int
    decreases s.len() - i,
{
    if 0 <= i < s.len() && is_ident_char(s[i]) {
        ident_end(s, i + 1)
    } else {
        i
    }
}

/// The end of the run of digits and `.` from `i`.
pub open spec fn number_end(s: Seq<char>, i: int) -> int
    decreases s.len() - i,
{
    if 0 <= i < s.len() && (is_digit(s[i]) || s[i] == '.') {
        number_end(s, i + 1)
    } else {
        i
    }
}

/// The position of the first `'` at or after `i`, or the end.
pub open spec fn quote_end(s: Seq<char>, i: int) -> int
    decreases s.len() - i,
{
    if 0 <= i < s.len() && s[i] != '\'' {
        quote_end(s, i + 1)
    } else {
        i
    }
}

pub proof fn lemma_run_ends(s: Seq<char>, i: int)
    requires
        0 <= i <= s.len(),
    ensures
        i <= ident_end(s, i) <= s.len(),
        i <= number_end(s, i) <= s.len(),
        i <= quote_end(s, i) <= s.len(),
    decreases s.len() - i,
{
    if i < s.len() {
        lemma_run_ends(s, i + 1);
    }
}

/// The token kind of an identifier-shaped word: a keyword when its ASCII
/// upper-casing is one, an identifier otherwise.
pub open spec fn word_kind(w: Seq<char>) -> TokenKindV {
    if matches_upper(w, "SELECT"@) {
        TokenKind::Select
    } else if matches_upper(w, "FROM"@) {
        TokenKind::From
    } else if matches_upper(w, "WHERE"@) {
        TokenKind::Where
    } else if matches_upper(w, "INSERT"@) {
        TokenKind::Insert
    } else if matches_upper(w, "INTO"@) {
        TokenKind::Into
    } else if matches_upper(w, "VALUES"@) {
        TokenKind::Values
    } else if matches_upper(w, "UPDATE"@) {
        TokenKind::Update
    } else if matches_upper(w, "SET"@) {
        TokenKind::SetKw
    } else if matches_upper(w, "DELETE"@) {
        TokenKind::Delete
    } else if matches_upper(w, "CREATE"@) {
        TokenKind::Create
    } else if matches_upper(w, "TABLE"@) {
        TokenKind::Table
    } else if matches_upper(w, "AND"@) {
        TokenKind::And
    } else if matches_upper(w, "OR"@) {
        TokenKind::Or
    } else if matches_upper(w, "NOT"@) {
        TokenKind::Not
    } else if matches_upper(w, "NULL"@) {
        TokenKind::Null
    } else if matches_upper(w, "TRUE"@) {
        TokenKind::True
    } else if matches_upper(w, "FALSE"@) {
        TokenKind::False
    } else if matches_upper(w, "IS"@) {
        TokenKind::Is
    } else {
        TokenKind::Ident(w)
    }
}

/// Words that agree up to ASCII case match the same upper-case words.
proof fn lemma_matches_upper_ignores_case(w1: Seq<char>, w2: Seq<char>, upper: Seq<char>)
    requires
        w1.len() == w2.len(),
        forall|k: int| 0 <= k < w1.len() ==> ascii_upper_code(#[trigger] w1[k]) == ascii_upper_code(w2[k]),
    ensures
        matches_upper(w1, upper) == matches_upper(w2, upper),
{
    if matches_upper(w1, upper) {
        assert forall|k: int| 0 <= k < w2.len() implies ascii_upper_code(#[trigger] w2[k]) == upper[k] as u32 by {
            assert(ascii_upper_code(w1[k]) == upper[k] as u32);
        }
    }
    if matches_upper(w2, upper) {
        assert forall|k: int| 0 <= k < w1.len() implies ascii_upper_code(#[trigger] w1[k]) == upper[k] as u32 by {
            assert(ascii_upper_code(w2[k]) == upper[k] as u32);
        }
    }
}

/// Keywords are recognised whatever their case: two words that agree up
/// to ASCII case are the same keyword, or both identifiers.
pub proof fn law_keywords_ignore_case(w1: Seq<char>, w2: Seq<char>)
    requires
        w1.len() == w2.len(),
        forall|k: int| 0 <= k < w1.len() ==> ascii_upper_code(#[trigger] w1[k]) == ascii_upper_code(w2[k]),
    ensures
        (word_kind(w1) is Ident) == (word_kind(w2) is Ident),
        !(word_kind(w1) is Ident) ==> word_kind(w1) == word_kind(w2),
{
    assert forall|upper: Seq<char>| #[trigger] matches_upper(w1, upper) == matches_upper(w2, upper) by {
        lemma_matches_upper_ignores_case(w1, w2, upper);
    }
}

/// The character after `i`, if any.
pub open spec fn char_after(s: Seq<char>, i: int) -> Option<char> {
    if 0 <= i + 1 < s.len() {
        Some(s[i + 1])
    } else {
        None
    }
}

/// An operator or punctuation token that one or two characters at `i`
/// make, with the position after it.
pub open spec fn symbol_token(s: Seq<char>, i: int) -> Option<(TokenKindV, int)> {
    let c = s[i];
    let next = char_after(s, i);
    if c == ',' {
        Some((TokenKind::Comma, i + 1))
    } else if c == '*' {
        Some((TokenKind::Star, i + 1))
    } else if c == '(' {
        Some((TokenKind::LParen, i + 1))
    } else if c == ')' {
        Some((TokenKind::RParen, i + 1))
    } else if c == ';' {
        Some((TokenKind::Semicolon, i + 1))
    } else if c == '=' {
        Some((TokenKind::Eq, i + 1))
    } else if c == '+' {
        Some((TokenKind::Add, i + 1))
    } else if c == '-' {
        Some((TokenKind::Sub, i + 1))
    } else if c == '/' {
        Some((TokenKind::Div, i + 1))
    } else if c == '<' {
        if next == Some('=') {
            Some((TokenKind::LtEq, i + 2))
        } else if next == Some('>') {
            Some((TokenKind::NotEq, i + 2))
        } else {
            Some((TokenKind::Lt, i + 1))
        }
    } else if c == '>' {
        if next == Some('=') {
            Some((TokenKind::GtEq, i + 2))
        } else {
            Some((TokenKind::Gt, i + 1))
        }
    } else if c == '!' && next == Some('=') {
        Some((TokenKind::NotEq, i + 2))
    } else {
        None
    }
}

/// Scanning one token that starts at `i` (no whitespace there, not the
/// end): the token's kind and the position after it, or the error. An
/// identifier is its first character and the run of identifier
/// characters after it.
pub open spec fn scan_token(s: Seq<char>, i: int) -> Result<(TokenKindV, int), LexError> {
    let c = s[i];
    let offset = offset_of(s, i);
    if symbol_token(s, i) is Some {
        Ok(symbol_token(s, i)->0)
    } else if c == '\'' {
        let j = quote_end(s, i + 1);
        if j >= s.len() {
            Err(LexError::UnterminatedString { offset })
        } else {
            Ok((TokenKind::StringLit(s.subrange(i + 1, j)), j + 1))
        }
    } else if c == '!' {
        Err(LexError::UnexpectedChar { ch: c, offset })
    } else if is_digit(c) {
        let j = number_end(s, i);
        Ok((TokenKind::Number(s.subrange(i, j)), j))
    } else if is_ident_start(c) {
        let j = ident_end(s, i + 1);
        Ok((word_kind(s.subrange(i, j)), j))
    } else {
        Err(LexError::UnexpectedChar { ch: c, offset })
    }
}

/// One step of the lexer from position `i`: skip trivia, then produce the
/// next token (`Eof` at the end) or the error, and the position after it.
pub open spec fn next_token_spec(s: Seq<char>, i: int) -> (Result<TokenV, LexError>, int) {
    let k = skip_trivia(s, i);
    let offset = offset_of(s, k);
    if k >= s.len() {
        (Ok(Token { kind: TokenKind::Eof, offset }), k)
    } else {
        match scan_token(s, k) {
            Err(e) => (Err(e), k),
            Ok((kind, n)) => (Ok(Token { kind, offset }), n),
        }
    }
}

/// `pre` in front of a lexing outcome.
pub open spec fn lex_prepend(pre: Seq<TokenV>, r: Result<Seq<TokenV>, LexError>) -> Result<
    Seq<TokenV>,
    LexError,
> {
    match r {
        Err(e) => Err(e),
        Ok(rest) => Ok(pre + rest),
    }
}

/// Every token but `Eof` moves the position forward, within the source.
pub proof fn lemma_next_token_advances(s: Seq<char>, i: int)
    requires
        0 <= i,
        next_token_spec(s, i).0 matches Ok(t) && !(t.kind is Eof),
    ensures
        i <= skip_trivia(s, i) < next_token_spec(s, i).1 <= s.len(),
{
    if i > s.len() {
        assert(skip_trivia(s, i) == i);
    } else {
        let k = skip_trivia(s, i);
        lemma_skip_trivia(s, i);
        lemma_run_ends(s, k);
        lemma_run_ends(s, k + 1);
    }
}

/// Lexing the source from (non-negative) position `i` to the end: the
/// tokens up to and including `Eof`, or the first error.
pub open spec fn lex_from(s: Seq<char>, i: int) -> Result<Seq<TokenV>, LexError>
    decreases s.len() - i,
{
    match next_token_spec(s, i).0 {
        Err(e) => Err(e),
        Ok(t) => if t.kind is Eof || i < 0 {
            Ok(seq![t])
        } else {
            proof {
                lemma_next_token_advances(s, i);
            }
            lex_prepend(seq![t], lex_from(s, next_token_spec(s, i).1))
        },
    }
}

/// Lexing the whole source.
pub open spec fn lex(s: Seq<char>) -> Result<Seq<TokenV>, LexError> {
    lex_from(s, 0)
}

/// A finished lexing ends with the single `Eof` token, and no other token
/// is `Eof`.
pub proof fn lemma_lex_ends_with_eof(s: Seq<char>, i: int)
    requires
        0 <= i,
        lex_from(s, i) matches Ok(ts),
    ensures
        lex_from(s, i) matches Ok(ts) && ts.len() >= 1 && ts.last().kind is Eof && forall|k: int|
            0 <= k < ts.len() - 1 ==> !(#[trigger] ts[k].kind is Eof),
    decreases s.len() - i,
{
    let t = next_token_spec(s, i).0->Ok_0;
    if !(t.kind is Eof) {
        let n = next_token_spec(s, i).1;
        lemma_next_token_advances(s, i);
        lemma_lex_ends_with_eof(s, n);
        let rest = lex_from(s, n)->Ok_0;
        let ts = seq![t] + rest;
        assert forall|k: int| 0 <= k < ts.len() - 1 implies !(#[trigger] ts[k].kind is Eof) by {
            if k > 0 {
                assert(ts[k] == rest[k - 1]);
            }
        }
    }
}

/// Byte offsets grow with the character index.
pub proof fn lemma_byte_offset_increases(s: Seq<char>, a: int, b: int)
    requires
        0 <= a < b <= s.len(),
    ensures
        byte_offset(s, a) < byte_offset(s, b),
    decreases b - a,
{
    lemma_byte_offset_step(s, b - 1);
    if a < b - 1 {
        lemma_byte_offset_increases(s, a, b - 1);
    }
}

/// The offsets of the tokens lexed from position `i`: the first is that
/// of the first non-trivia position, each is below the next, and the
/// last (`Eof`'s) is the byte length of the source.
proof fn lemma_lex_offsets(s: Seq<char>, i: int)
    requires
        0 <= i <= s.len(),
        byte_offset(s, s.len() as int) <= usize::MAX,
        lex_from(s, i) matches Ok(ts),
    ensures
        lex_from(s, i) matches Ok(ts) && ts.len() >= 1 && ts[0].offset == offset_of(s, skip_trivia(s, i))
            && ts.last().offset == byte_offset(s, s.len() as int) && forall|k: int|
            0 <= k < ts.len() - 1 ==> #[trigger] ts[k].offset < ts[k + 1].offset,
    decreases s.len() - i,
{
    let k0 = skip_trivia(s, i);
    lemma_skip_trivia(s, i);
    let t = next_token_spec(s, i).0->Ok_0;
    if t.kind is Eof {
        assert(k0 == s.len());
        assert(s.take(s.len() as int) =~= s);
    } else {
        let n = next_token_spec(s, i).1;
        lemma_next_token_advances(s, i);
        lemma_lex_offsets(s, n);
        let rest = lex_from(s, n)->Ok_0;
        let ts = seq![t] + rest;
        let k1 = skip_trivia(s, n);
        lemma_skip_trivia(s, n);
        if k1 < s.len() {
            lemma_byte_offset_increases(s, k1, s.len() as int);
        }
        lemma_byte_offset_increases(s, k0, k1);
        assert(ts[1] == rest[0]);
        assert forall|k: int| 0 <= k < ts.len() - 1 implies #[trigger] ts[k].offset < ts[k + 1].offset by {
            if k > 0 {
                assert(ts[k] == rest[k - 1]);
                assert(ts[k + 1] == rest[k]);
            }
        }
        assert(ts.last() == rest.last());
    }
}

/// Token offsets strictly increase through a lexed source, and the
/// closing `Eof` sits at the source's byte length (for any source whose
/// byte length is a `usize`, as every `str` is).
pub proof fn law_token_offsets_increase(s: Seq<char>)
    requires
        byte_offset(s, s.len() as int) <= usize::MAX,
        lex(s) matches Ok(ts),
    ensures
        lex(s) matches Ok(ts) && ts.last().kind is Eof && ts.last().offset == byte_offset(
            s,
            s.len() as int,
        ) && forall|k: int| 0 <= k < ts.len() - 1 ==> #[trigger] ts[k].offset < ts[k + 1].offset,
{
    lemma_lex_offsets(s, 0);
    lemma_lex_ends_with_eof(s, 0);
}

/// What the runs that end identifiers, numbers and strings stop at: every
/// position before the end is in the run, and the end is the source's end
/// or a position outside it.
proof fn lemma_run_shapes(s: Seq<char>, i: int)
    requires
        0 <= i <= s.len(),
    ensures
        forall|k: int| i <= k < ident_end(s, i) ==> is_ident_char(#[trigger] s[k]),
        ident_end(s, i) == s.len() || !is_ident_char(s[ident_end(s, i)]),
        forall|k: int| i <= k < number_end(s, i) ==> is_digit(#[trigger] s[k]) || s[k] == '.',
        number_end(s, i) == s.len() || !(is_digit(s[number_end(s, i)]) || s[number_end(s, i)] == '.'),
        forall|k: int| i <= k < quote_end(s, i) ==> #[trigger] s[k] != '\'',
        quote_end(s, i) == s.len() || s[quote_end(s, i)] == '\'',
    decreases s.len() - i,
{
    lemma_run_ends(s, i);
    if i < s.len() {
        lemma_run_shapes(s, i + 1);
    }
}

/// The shapes of the literal and identifier tokens: a string literal is
/// the text between two quotes, holding none; a number is the longest run
/// of digits and `.` from a digit; an identifier is the longest run of
/// identifier characters from one that may start it, and is no keyword.
pub proof fn law_token_shapes(s: Seq<char>, i: int)
    requires
        0 <= i < s.len(),
    ensures
        scan_token(s, i) matches Ok((TokenKind::StringLit(t), j)) ==> i + 2 <= j <= s.len() && s[i] == '\''
            && s[j - 1] == '\'' && t == s.subrange(i + 1, j - 1) && forall|k: int|
            0 <= k < t.len() ==> #[trigger] t[k] != '\'',
        scan_token(s, i) matches Ok((TokenKind::Number(t), j)) ==> i < j <= s.len() && is_digit(s[i]) && t
            == s.subrange(i, j) && (forall|k: int| 0 <= k < t.len() ==> is_digit(#[trigger] t[k]) || t[k] == '.')
            && (j == s.len() || !(is_digit(s[j]) || s[j] == '.')),
        scan_token(s, i) matches Ok((TokenKind::Ident(t), j)) ==> i < j <= s.len() && t == s.subrange(i, j)
            && is_ident_start(t[0]) && (forall|k: int| 1 <= k < t.len() ==> is_ident_char(#[trigger] t[k]))
            && (j == s.len() || !is_ident_char(s[j])) && word_kind(t) == TokenKind::<Seq<char>>::Ident(t),
{
    lemma_run_shapes(s, i);
    lemma_run_shapes(s, i + 1);
    lemma_run_ends(s, i);
    lemma_run_ends(s, i + 1);
    let c = s[i];
    if symbol_token(s, i) is Some {
    } else if c == '\'' {
        let j = quote_end(s, i + 1);
        if j < s.len() {
            let t = s.subrange(i + 1, j);
            assert forall|k: int| 0 <= k < t.len() implies #[trigger] t[k] != '\'' by {
                assert(t[k] == s[i + 1 + k]);
            }
            assert(s.subrange(i + 1, j + 1 - 1) == t);
        }
    } else if c == '!' {
    } else if is_digit(c) {
        let j = number_end(s, i);
        let t = s.subrange(i, j);
        assert forall|k: int| 0 <= k < t.len() implies is_digit(#[trigger] t[k]) || t[k] == '.' by {
            assert(t[k] == s[i + k]);
        }
    } else if is_ident_start(c) {
        let j = ident_end(s, i + 1);
        let t = s.subrange(i, j);
        assert(t[0] == c);
        assert forall|k: int| 1 <= k < t.len() implies is_ident_char(#[trigger] t[k]) by {
            assert(t[k] == s[i + k]);
        }
    }
}

} // verus!
