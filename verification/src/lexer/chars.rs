//! Character classes the lexer uses: the Unicode ones come from `char`'s
//! methods in std, the ASCII ones and UTF-8 widths are computed here.

use vstd::prelude::*;

verus! {

/// What `char::is_whitespace` answers for `c`: whether it has the Unicode
/// `White_Space` property.
pub uninterp spec fn char_is_whitespace(c: char) -> bool;

/// What `char::is_alphabetic` answers for `c`: whether it has the Unicode
/// `Alphabetic` property.
pub uninterp spec fn char_is_alphabetic(c: char) -> bool;

/// What `char::is_alphanumeric` answers for `c`.
pub uninterp spec fn char_is_alphanumeric(c: char) -> bool;

/// Calls `char::is_whitespace`. Claims that the answer is the one named
/// [`char_is_whitespace`], and, from the Unicode `White_Space` table the
/// documentation points to, which ASCII characters have it: space and
/// tab through carriage return. Outside ASCII it is left to that table.
#[verifier::external_body]
pub(crate) fn is_whitespace(c: char) -> (r: bool)
    ensures
        r == char_is_whitespace(c),
        (c as u32) < 0x80 ==> (r <==> (c == ' ' || ('\t' <= c && c <= '\r'))),
{
    c.is_whitespace()
}

/// Calls `char::is_alphabetic`. Claims that the answer is the one named
/// [`char_is_alphabetic`]; as the documentation of
/// `char::is_alphanumeric` says ("either `is_alphabetic()` or
/// `is_numeric()`"), that an alphabetic character is alphanumeric; and,
/// from the Unicode `Alphabetic` table the documentation points to, that
/// the ASCII ones are the letters `A`-`Z` and `a`-`z`.
#[verifier::external_body]
pub(crate) fn is_alphabetic(c: char) -> (r: bool)
    ensures
        r == char_is_alphabetic(c),
        r ==> char_is_alphanumeric(c),
        (c as u32) < 0x80 ==> (r <==> (('A' <= c && c <= 'Z') || ('a' <= c && c <= 'z'))),
{
    c.is_alphabetic()
}

/// Calls `char::is_alphanumeric`. Claims that the answer is the one
/// named [`char_is_alphanumeric`], and, from the Unicode tables the
/// documentation points to, that the ASCII ones are the letters and the
/// digits `0`-`9`.
#[verifier::external_body]
pub(crate) fn is_alphanumeric(c: char) -> (r: bool)
    ensures
        r == char_is_alphanumeric(c),
        (c as u32) < 0x80 ==> (r <==> (('A' <= c && c <= 'Z') || ('a' <= c && c <= 'z') || ('0' <= c
            && c <= '9'))),
{
    c.is_alphanumeric()
}

/// The number of bytes `c` takes in UTF-8 (what `char::len_utf8` gives).
pub open spec fn utf8_width(c: char) -> nat {
    if (c as u32) < 0x80 {
        1
    } else if (c as u32) < 0x800 {
        2
    } else if (c as u32) < 0x10000 {
        3
    } else {
        4
    }
}

/// The number of bytes `s` takes in UTF-8.
pub open spec fn utf8_size(s: Seq<char>) -> nat
    decreases s.len(),
{
    if s.len() == 0 {
        0
    } else {
        utf8_size(s.drop_last()) + utf8_width(s.last())
    }
}

/// The byte offset of the `i`-th character of `s`.
pub open spec fn byte_offset(s: Seq<char>, i: int) -> nat {
    utf8_size(s.take(i))
}

/// The byte offset of the `i`-th character as a `usize`, saturating at
/// `usize::MAX` (which no text held in memory reaches).
pub open spec fn offset_of(s: Seq<char>, i: int) -> usize {
    if byte_offset(s, i) <= usize::MAX {
        byte_offset(s, i) as usize
    } else {
        usize::MAX
    }
}

pub proof fn lemma_byte_offset_step(s: Seq<char>, i: int)
    requires
        0 <= i < s.len(),
    ensures
        byte_offset(s, i + 1) == byte_offset(s, i) + utf8_width(s[i]),
{
    assert(s.take(i + 1).drop_last() =~= s.take(i));
}

/// `char::len_utf8`, computed from the code point.
pub fn utf8_width_of(c: char) -> (r: usize)
    ensures
        r == utf8_width(c),
{
    let n = c as u32;
    if n < 0x80 {
        1
    } else if n < 0x800 {
        2
    } else if n < 0x10000 {
        3
    } else {
        4
    }
}

/// `char::is_ascii_digit`.
pub open spec fn is_digit(c: char) -> bool {
    '0' <= c && c <= '9'
}

/// The code of `c` after `char::to_ascii_uppercase`.
pub open spec fn ascii_upper_code(c: char) -> u32 {
    if 'a' <= c && c <= 'z' {
        (c as u32 - 32) as u32
    } else {
        c as u32
    }
}

pub fn ascii_upper_code_of(c: char) -> (r: u32)
    ensures
        r == ascii_upper_code(c),
{
    if 'a' <= c && c <= 'z' {
        c as u32 - 32
    } else {
        c as u32
    }
}

/// Whether `word.to_ascii_uppercase()` is `upper` (a keyword written in
/// upper case).
pub open spec fn matches_upper(word: Seq<char>, upper: Seq<char>) -> bool {
    word.len() == upper.len() && forall|k: int|
        0 <= k < word.len() ==> ascii_upper_code(#[trigger] word[k]) == upper[k] as u32
}

} // verus!
