//! Numeric literal text to values.

use vstd::prelude::*;

use super::error::ParseError;
use super::spec::{all_digits, digits_value, number_literal_spec, parse_i64_spec};
use crate::lexer::chars::is_digit;
use crate::text::chars_of;
use crate::types::{ask_float, float_semantics, float_unit_ok, FloatOp, Value};

verus! {

/// A digit string's value grows as digits are appended.
proof fn lemma_digits_value_grows(d: Seq<char>, k: int, j: int)
    requires
        all_digits(d),
        0 <= k <= j <= d.len(),
    ensures
        0 <= digits_value(d.take(k)) <= digits_value(d.take(j)),
    decreases j,
{
    if j > 0 {
        assert(d.take(j).drop_last() =~= d.take(j - 1));
        assert(is_digit(d[j - 1]));
        if k < j {
            lemma_digits_value_grows(d, k, j - 1);
        } else {
            lemma_digits_value_grows(d, j - 1, j - 1);
        }
    } else {
        assert(d.take(0) =~= Seq::<char>::empty());
    }
}

/// Whether `s` holds `c`.
pub fn contains_char(s: &str, c: char) -> (r: bool)
    ensures
        r == s@.contains(c),
{
    let cs = chars_of(s);
    let mut i: usize = 0;
    while i < cs.len()
        invariant
            cs@ == s@,
            i <= cs@.len(),
            forall|k: int| 0 <= k < i ==> cs@[k] != c,
        decreases cs.len() - i,
    {
        if cs[i] == c {
            assert(s@[i as int] == c);
            return true;
        }
        i = i + 1;
    }
    false
}

/// `str::parse::<i64>`: an optional sign, then decimal digits.
pub fn parse_i64(s: &str) -> (r: Option<i64>)
    ensures
        r == parse_i64_spec(s@),
{
    let cs = chars_of(s);
    let ghost t = s@;
    let n = cs.len();
    if n == 0 {
        return None;
    }
    let negative = cs[0] == '-';
    let start: usize = if cs[0] == '-' || cs[0] == '+' {
        1
    } else {
        0
    };
    let ghost d = if start == 1 {
        t.drop_first()
    } else {
        t
    };
    assert(d =~= t.subrange(start as int, t.len() as int));
    if start >= n {
        assert(d.len() == 0);
        return None;
    }
    let mut i: usize = start;
    while i < n
        invariant
            cs@ == t,
            t == s@,
            n == t.len(),
            n > 0,
            start == (if t[0] == '-' || t[0] == '+' { 1usize } else { 0usize }),
            d == (if t[0] == '-' || t[0] == '+' { t.drop_first() } else { t }),
            start <= i <= n,
            d =~= t.subrange(start as int, t.len() as int),
            forall|k: int| 0 <= k < i - start ==> is_digit(#[trigger] d[k]),
        decreases n - i,
    {
        if !('0' <= cs[i] && cs[i] <= '9') {
            assert(!is_digit(d[i - start]));
            return None;
        }
        i = i + 1;
    }
    assert(all_digits(d));
    let mut acc: i64 = 0;
    i = start;
    assert(d.take(0) =~= Seq::<char>::empty());
    while i < n
        invariant
            cs@ == t,
            t == s@,
            n == t.len(),
            n > 0,
            start == (if t[0] == '-' || t[0] == '+' { 1usize } else { 0usize }),
            d == (if t[0] == '-' || t[0] == '+' { t.drop_first() } else { t }),
            start <= i <= n,
            d =~= t.subrange(start as int, t.len() as int),
            d.len() > 0,
            all_digits(d),
            negative == (t[0] == '-'),
            negative ==> acc == -digits_value(d.take(i - start)),
            !negative ==> acc == digits_value(d.take(i - start)),
        decreases n - i,
    {
        let ghost k = i - start;
        proof {
            assert(d.take(k + 1).drop_last() =~= d.take(k));
            assert(d[k] == cs@[i as int]);
            assert(is_digit(d[k]));
            lemma_digits_value_grows(d, k + 1, d.len() as int);
            assert(d.take(d.len() as int) =~= d);
        }
        let digit = (cs[i] as u32 - '0' as u32) as i64;
        if negative {
            let m = match acc.checked_mul(10) {
                Some(m) => m,
                None => {
                    return None;
                },
            };
            acc = match m.checked_sub(digit) {
                Some(v) => v,
                None => {
                    return None;
                },
            };
        } else {
            let m = match acc.checked_mul(10) {
                Some(m) => m,
                None => {
                    return None;
                },
            };
            acc = match m.checked_add(digit) {
                Some(v) => v,
                None => {
                    return None;
                },
            };
        }
        i = i + 1;
    }
    assert(d.take(n - start) =~= d);
    Some(acc)
}

/// The value of a numeric literal's text (`offset` is where its token
/// starts): a float when it holds a `.`, an integer otherwise.
pub fn parse_number_literal<F: Fn(FloatOp) -> Option<u64>>(text: &String, offset: usize, floats: &F) -> (r:
    Result<Value, ParseError>)
    requires
        float_unit_ok(*floats),
    ensures
        match r {
            Ok(v) => number_literal_spec(float_semantics(*floats), text@, offset) == Ok::<
                crate::types::ValueV,
                super::error::ParseErrorV,
            >(v@),
            Err(e) => number_literal_spec(float_semantics(*floats), text@, offset) == Err::<
                crate::types::ValueV,
                super::error::ParseErrorV,
            >(e@),
        },
{
    if contains_char(text.as_str(), '.') {
        match ask_float(floats, FloatOp::Parse(text.clone())) {
            Some(bits) => Ok(Value::Float(bits)),
            None => Err(ParseError::InvalidNumber { text: text.clone(), offset }),
        }
    } else {
        match parse_i64(text.as_str()) {
            Some(n) => Ok(Value::Integer(n)),
            None => Err(ParseError::InvalidNumber { text: text.clone(), offset }),
        }
    }
}

} // verus!
