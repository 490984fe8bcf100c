//! What the parser computes, stated over the views of the tokens.
//!
//! Every function takes the token stream and a position (an index into
//! it) and gives the parsed item with the position after it, or the
//! error. The recursion follows the grammar; where a recursive call would
//! come after a sub-parse, a guard that the position moved keeps the
//! definition well-founded (parsing always moves forward, so the guard
//! always holds on the streams the parser accepts).

use vstd::prelude::*;

use super::ast::{
    BinaryOp, ColumnDecl, ColumnDeclV, CreateTableStatement, CreateTableStatementV, DeleteStatement,
    DeleteStatementV, Expr, ExprV, InsertStatement, InsertStatementV, SelectColumns, SelectStatement,
    SelectStatementV, StatementV, UpdateStatement, UpdateStatementV,
};
use super::error::{ParseError, ParseErrorV};
use crate::lexer::chars::{is_digit, matches_upper};
use crate::lexer::token::{TokenKind, TokenKindV, TokenV};
use crate::types::{f64_negate, DataType, FloatOp, FloatSemantics, Value, ValueV};

verus! {

/// A parsed item and the position after it, or the error.
pub type Parsed<T> = Result<(T, int), ParseErrorV>;

/// Token streams the parser accepts: non-empty and ending with `Eof`.
pub open spec fn well_terminated(ts: Seq<TokenV>) -> bool {
    ts.len() > 0 && ts.last().kind is Eof
}

/// The position after consuming the token at `p`; the last token (`Eof`)
/// is never consumed.
pub open spec fn advance(ts: Seq<TokenV>, p: int) -> int {
    if p + 1 < ts.len() {
        p + 1
    } else {
        p
    }
}

/// The token at `p` has kind `k` and is not the last one.
pub open spec fn at(ts: Seq<TokenV>, p: int, k: TokenKindV) -> bool {
    0 <= p && p + 1 < ts.len() && ts[p].kind == k
}

/// The error for a missing `expected` at `p`: end of input at `Eof`, the
/// token found otherwise.
pub open spec fn error_at(ts: Seq<TokenV>, p: int, expected: Seq<char>) -> ParseErrorV {
    if ts[p].kind is Eof {
        ParseError::UnexpectedEof { expected }
    } else {
        ParseError::UnexpectedToken { expected, found: ts[p].kind, offset: ts[p].offset }
    }
}

/// Consumes a `k` at `p`, or fails naming `expected`.
pub open spec fn expect_spec(ts: Seq<TokenV>, p: int, k: TokenKindV, expected: Seq<char>) -> Result<
    int,
    ParseErrorV,
> {
    if ts[p].kind == k {
        Ok(advance(ts, p))
    } else {
        Err(error_at(ts, p, expected))
    }
}

/// Consumes an identifier at `p` and gives its text.
pub open spec fn expect_ident_spec(ts: Seq<TokenV>, p: int) -> Parsed<Seq<char>> {
    match ts[p].kind {
        TokenKind::Ident(name) => Ok((name, advance(ts, p))),
        _ => Err(error_at(ts, p, "identifier"@)),
    }
}

// ---------------------------------------------------------------------
// Numbers
// ---------------------------------------------------------------------

/// Every character is an ASCII digit.
pub open spec fn all_digits(d: Seq<char>) -> bool {
    forall|k: int| 0 <= k < d.len() ==> is_digit(#[trigger] d[k])
}

/// The value of a string of decimal digits.
pub open spec fn digits_value(d: Seq<char>) -> int
    decreases d.len(),
{
    if d.len() == 0 {
        0
    } else {
        digits_value(d.drop_last()) * 10 + (d.last() as int - '0' as int)
    }
}

/// `str::parse::<i64>`: an optional `+` or `-`, then one or more ASCII
/// digits, whose value fits in an `i64`.
pub open spec fn parse_i64_spec(t: Seq<char>) -> Option<i64> {
    let negative = t.len() > 0 && t[0] == '-';
    let d = if t.len() > 0 && (t[0] == '-' || t[0] == '+') {
        t.drop_first()
    } else {
        t
    };
    let v = if negative {
        -digits_value(d)
    } else {
        digits_value(d)
    };
    if d.len() > 0 && all_digits(d) && i64::MIN <= v <= i64::MAX {
        Some(v as i64)
    } else {
        None
    }
}

/// The value of a numeric literal's text: a float (as the float unit
/// parses it) when it holds a `.`, an `i64` otherwise.
pub open spec fn number_literal_spec(fl: FloatSemantics, text: Seq<char>, offset: usize) -> Result<
    ValueV,
    ParseErrorV,
> {
    if text.contains('.') {
        match fl(FloatOp::Parse(text)) {
            Some(bits) => Ok(Value::Float(bits)),
            None => Err(ParseError::InvalidNumber { text, offset }),
        }
    } else {
        match parse_i64_spec(text) {
            Some(n) => Ok(Value::Integer(n)),
            None => Err(ParseError::InvalidNumber { text, offset }),
        }
    }
}

/// A literal token at `p`.
pub open spec fn parse_literal_spec(fl: FloatSemantics, ts: Seq<TokenV>, p: int) -> Parsed<ValueV> {
    match ts[p].kind {
        TokenKind::Number(text) => match number_literal_spec(fl, text, ts[p].offset) {
            Ok(v) => Ok((v, advance(ts, p))),
            Err(e) => Err(e),
        },
        TokenKind::StringLit(text) => Ok((Value::Text(text), advance(ts, p))),
        TokenKind::Null => Ok((Value::Null, advance(ts, p))),
        TokenKind::True => Ok((Value::Boolean(true), advance(ts, p))),
        TokenKind::False => Ok((Value::Boolean(false), advance(ts, p))),
        _ => Err(error_at(ts, p, "a literal value"@)),
    }
}

// ---------------------------------------------------------------------
// Expressions
// ---------------------------------------------------------------------

pub open spec fn comparison_op(k: TokenKindV) -> Option<BinaryOp> {
    match k {
        TokenKind::Eq => Some(BinaryOp::Eq),
        TokenKind::NotEq => Some(BinaryOp::NotEq),
        TokenKind::Lt => Some(BinaryOp::Lt),
        TokenKind::LtEq => Some(BinaryOp::LtEq),
        TokenKind::Gt => Some(BinaryOp::Gt),
        TokenKind::GtEq => Some(BinaryOp::GtEq),
        _ => None,
    }
}

pub open spec fn term_op(k: TokenKindV) -> Option<BinaryOp> {
    match k {
        TokenKind::Add => Some(BinaryOp::Add),
        TokenKind::Sub => Some(BinaryOp::Sub),
        _ => None,
    }
}

pub open spec fn factor_op(k: TokenKindV) -> Option<BinaryOp> {
    match k {
        TokenKind::Star => Some(BinaryOp::Mul),
        TokenKind::Div => Some(BinaryOp::Div),
        _ => None,
    }
}

pub open spec fn binary(left: ExprV, op: BinaryOp, right: ExprV) -> ExprV {
    Expr::BinaryOp { left: Box::new(left), op, right: Box::new(right) }
}

/// A string or boolean literal token: what `-` may not precede.
pub open spec fn non_numeric_literal(k: TokenKindV) -> bool {
    k is StringLit || k is True || k is False
}

/// `expr := or_expr`
pub closed spec fn parse_expr_spec(fl: FloatSemantics, ts: Seq<TokenV>, p: int) -> Parsed<ExprV>
    decreases ts.len() - p, 13int,
{
    parse_or_spec(fl, ts, p)
}

/// `or_expr := and_expr (OR and_expr)*`, left-associative.
pub closed spec fn parse_or_spec(fl: FloatSemantics, ts: Seq<TokenV>, p: int) -> Parsed<ExprV>
    decreases ts.len() - p, 12int,
{
    match parse_and_spec(fl, ts, p) {
        Err(e) => Err(e),
        Ok((left, q)) => if p <= q <= ts.len() {
            or_tail_spec(fl, ts, left, q)
        } else {
            Ok((left, q))
        },
    }
}

pub closed spec fn or_tail_spec(fl: FloatSemantics, ts: Seq<TokenV>, left: ExprV, q: int) -> Parsed<ExprV>
    decreases ts.len() - q, 11int,
{
    if at(ts, q, TokenKind::Or) {
        match parse_and_spec(fl, ts, q + 1) {
            Err(e) => Err(e),
            Ok((right, q2)) => {
                let e = binary(left, BinaryOp::Or, right);
                if q < q2 <= ts.len() {
                    or_tail_spec(fl, ts, e, q2)
                } else {
                    Ok((e, q2))
                }
            },
        }
    } else {
        Ok((left, q))
    }
}

/// `and_expr := not_expr (AND not_expr)*`, left-associative.
pub closed spec fn parse_and_spec(fl: FloatSemantics, ts: Seq<TokenV>, p: int) -> Parsed<ExprV>
    decreases ts.len() - p, 10int,
{
    match parse_not_spec(fl, ts, p) {
        Err(e) => Err(e),
        Ok((left, q)) => if p <= q <= ts.len() {
            and_tail_spec(fl, ts, left, q)
        } else {
            Ok((left, q))
        },
    }
}

pub closed spec fn and_tail_spec(fl: FloatSemantics, ts: Seq<TokenV>, left: ExprV, q: int) -> Parsed<
    ExprV,
>
    decreases ts.len() - q, 9int,
{
    if at(ts, q, TokenKind::And) {
        match parse_not_spec(fl, ts, q + 1) {
            Err(e) => Err(e),
            Ok((right, q2)) => {
                let e = binary(left, BinaryOp::And, right);
                if q < q2 <= ts.len() {
                    and_tail_spec(fl, ts, e, q2)
                } else {
                    Ok((e, q2))
                }
            },
        }
    } else {
        Ok((left, q))
    }
}

/// `not_expr := NOT not_expr | comparison`
pub closed spec fn parse_not_spec(fl: FloatSemantics, ts: Seq<TokenV>, p: int) -> Parsed<ExprV>
    decreases ts.len() - p, 8int,
{
    if at(ts, p, TokenKind::Not) {
        match parse_not_spec(fl, ts, p + 1) {
            Err(e) => Err(e),
            Ok((inner, q)) => Ok((Expr::Not(Box::new(inner)), q)),
        }
    } else {
        parse_comparison_spec(fl, ts, p)
    }
}

/// `comparison := term (IS NOT? NULL | comp_op term)?`
pub closed spec fn parse_comparison_spec(fl: FloatSemantics, ts: Seq<TokenV>, p: int) -> Parsed<ExprV>
    decreases ts.len() - p, 7int,
{
    match parse_term_spec(fl, ts, p) {
        Err(e) => Err(e),
        Ok((left, q)) => if !(p <= q <= ts.len()) {
            Ok((left, q))
        } else if at(ts, q, TokenKind::Is) {
            let negated = at(ts, q + 1, TokenKind::Not);
            let n = if negated {
                q + 2
            } else {
                q + 1
            };
            match expect_spec(ts, n, TokenKind::Null, "NULL"@) {
                Err(e) => Err(e),
                Ok(r) => Ok((Expr::IsNull { expr: Box::new(left), negated }, r)),
            }
        } else if q + 1 < ts.len() && comparison_op(ts[q].kind) is Some {
            match parse_term_spec(fl, ts, q + 1) {
                Err(e) => Err(e),
                Ok((right, r)) => Ok((binary(left, comparison_op(ts[q].kind)->0, right), r)),
            }
        } else {
            Ok((left, q))
        },
    }
}

/// `term := factor ((+ | -) factor)*`, left-associative.
pub closed spec fn parse_term_spec(fl: FloatSemantics, ts: Seq<TokenV>, p: int) -> Parsed<ExprV>
    decreases ts.len() - p, 6int,
{
    match parse_factor_spec(fl, ts, p) {
        Err(e) => Err(e),
        Ok((left, q)) => if p <= q <= ts.len() {
            term_tail_spec(fl, ts, left, q)
        } else {
            Ok((left, q))
        },
    }
}

pub closed spec fn term_tail_spec(fl: FloatSemantics, ts: Seq<TokenV>, left: ExprV, q: int) -> Parsed<
    ExprV,
>
    decreases ts.len() - q, 5int,
{
    if 0 <= q && q + 1 < ts.len() && term_op(ts[q].kind) is Some {
        match parse_factor_spec(fl, ts, q + 1) {
            Err(e) => Err(e),
            Ok((right, q2)) => {
                let e = binary(left, term_op(ts[q].kind)->0, right);
                if q < q2 <= ts.len() {
                    term_tail_spec(fl, ts, e, q2)
                } else {
                    Ok((e, q2))
                }
            },
        }
    } else {
        Ok((left, q))
    }
}

/// `factor := unary ((* | /) unary)*`, left-associative.
pub closed spec fn parse_factor_spec(fl: FloatSemantics, ts: Seq<TokenV>, p: int) -> Parsed<ExprV>
    decreases ts.len() - p, 4int,
{
    match parse_unary_spec(fl, ts, p) {
        Err(e) => Err(e),
        Ok((left, q)) => if p <= q <= ts.len() {
            factor_tail_spec(fl, ts, left, q)
        } else {
            Ok((left, q))
        },
    }
}

pub closed spec fn factor_tail_spec(fl: FloatSemantics, ts: Seq<TokenV>, left: ExprV, q: int) -> Parsed<
    ExprV,
>
    decreases ts.len() - q, 3int,
{
    if 0 <= q && q + 1 < ts.len() && factor_op(ts[q].kind) is Some {
        match parse_unary_spec(fl, ts, q + 1) {
            Err(e) => Err(e),
            Ok((right, q2)) => {
                let e = binary(left, factor_op(ts[q].kind)->0, right);
                if q < q2 <= ts.len() {
                    factor_tail_spec(fl, ts, e, q2)
                } else {
                    Ok((e, q2))
                }
            },
        }
    } else {
        Ok((left, q))
    }
}

/// `unary := - unary | primary`
pub closed spec fn parse_unary_spec(fl: FloatSemantics, ts: Seq<TokenV>, p: int) -> Parsed<ExprV>
    decreases ts.len() - p, 2int,
{
    if at(ts, p, TokenKind::Sub) {
        match parse_unary_spec(fl, ts, p + 1) {
            Err(e) => Err(e),
            Ok((inner, q)) => Ok((Expr::Neg(Box::new(inner)), q)),
        }
    } else {
        parse_primary_spec(fl, ts, p)
    }
}

/// `primary := ident | literal | ( expr )`
pub closed spec fn parse_primary_spec(fl: FloatSemantics, ts: Seq<TokenV>, p: int) -> Parsed<ExprV>
    decreases ts.len() - p, 1int,
{
    match ts[p].kind {
        TokenKind::LParen => if at(ts, p, TokenKind::LParen) {
            match parse_expr_spec(fl, ts, p + 1) {
                Err(e) => Err(e),
                Ok((inner, q)) => match expect_spec(ts, q, TokenKind::RParen, ")"@) {
                    Err(e) => Err(e),
                    Ok(r) => Ok((inner, r)),
                },
            }
        } else {
            Err(error_at(ts, p, "a column, literal, or '('"@))
        },
        TokenKind::Ident(name) => Ok((Expr::Column(name), advance(ts, p))),
        TokenKind::Number(_) | TokenKind::StringLit(_) | TokenKind::Null | TokenKind::True
        | TokenKind::False => match parse_literal_spec(fl, ts, p) {
            Err(e) => Err(e),
            Ok((v, q)) => Ok((Expr::Literal(v), q)),
        },
        _ => Err(error_at(ts, p, "a column, literal, or '('"@)),
    }
}

/// The defining equation of [`parse_expr_spec`].
pub proof fn lemma_parse_expr_unfold(fl: FloatSemantics, ts: Seq<TokenV>, p: int)
    ensures
        parse_expr_spec(fl, ts, p) == ({
            parse_or_spec(fl, ts, p)
        }),
{
}

/// The defining equation of [`parse_or_spec`].
pub proof fn lemma_parse_or_unfold(fl: FloatSemantics, ts: Seq<TokenV>, p: int)
    ensures
        parse_or_spec(fl, ts, p) == ({
            match parse_and_spec(fl, ts, p) {
                Err(e) => Err(e),
                Ok((left, q)) => if p <= q <= ts.len() {
                    or_tail_spec(fl, ts, left, q)
                } else {
                    Ok((left, q))
                },
            }
        }),
{
}

/// The defining equation of [`or_tail_spec`].
pub proof fn lemma_or_tail_unfold(fl: FloatSemantics, ts: Seq<TokenV>, left: ExprV, q: int)
    ensures
        or_tail_spec(fl, ts, left, q) == ({
            if at(ts, q, TokenKind::Or) {
                match parse_and_spec(fl, ts, q + 1) {
                    Err(e) => Err(e),
                    Ok((right, q2)) => {
                        let e = binary(left, BinaryOp::Or, right);
                        if q < q2 <= ts.len() {
                            or_tail_spec(fl, ts, e, q2)
                        } else {
                            Ok((e, q2))
                        }
                    },
                }
            } else {
                Ok((left, q))
            }
        }),
{
}

/// The defining equation of [`parse_and_spec`].
pub proof fn lemma_parse_and_unfold(fl: FloatSemantics, ts: Seq<TokenV>, p: int)
    ensures
        parse_and_spec(fl, ts, p) == ({
            match parse_not_spec(fl, ts, p) {
                Err(e) => Err(e),
                Ok((left, q)) => if p <= q <= ts.len() {
                    and_tail_spec(fl, ts, left, q)
                } else {
                    Ok((left, q))
                },
            }
        }),
{
}

/// The defining equation of [`and_tail_spec`].
pub proof fn lemma_and_tail_unfold(fl: FloatSemantics, ts: Seq<TokenV>, left: ExprV, q: int)
    ensures
        and_tail_spec(fl, ts, left, q) == ({
            if at(ts, q, TokenKind::And) {
                match parse_not_spec(fl, ts, q + 1) {
                    Err(e) => Err(e),
                    Ok((right, q2)) => {
                        let e = binary(left, BinaryOp::And, right);
                        if q < q2 <= ts.len() {
                            and_tail_spec(fl, ts, e, q2)
                        } else {
                            Ok((e, q2))
                        }
                    },
                }
            } else {
                Ok((left, q))
            }
        }),
{
}

/// The defining equation of [`parse_not_spec`].
pub proof fn lemma_parse_not_unfold(fl: FloatSemantics, ts: Seq<TokenV>, p: int)
    ensures
        parse_not_spec(fl, ts, p) == ({
            if at(ts, p, TokenKind::Not) {
                match parse_not_spec(fl, ts, p + 1) {
                    Err(e) => Err(e),
                    Ok((inner, q)) => Ok((Expr::Not(Box::new(inner)), q)),
                }
            } else {
                parse_comparison_spec(fl, ts, p)
            }
        }),
{
}

/// The defining equation of [`parse_comparison_spec`].
pub proof fn lemma_parse_comparison_unfold(fl: FloatSemantics, ts: Seq<TokenV>, p: int)
    ensures
        parse_comparison_spec(fl, ts, p) == ({
            match parse_term_spec(fl, ts, p) {
                Err(e) => Err(e),
                Ok((left, q)) => if !(p <= q <= ts.len()) {
                    Ok((left, q))
                } else if at(ts, q, TokenKind::Is) {
                    let negated = at(ts, q + 1, TokenKind::Not);
                    let n = if negated {
                        q + 2
                    } else {
                        q + 1
                    };
                    match expect_spec(ts, n, TokenKind::Null, "NULL"@) {
                        Err(e) => Err(e),
                        Ok(r) => Ok((Expr::IsNull { expr: Box::new(left), negated }, r)),
                    }
                } else if q + 1 < ts.len() && comparison_op(ts[q].kind) is Some {
                    match parse_term_spec(fl, ts, q + 1) {
                        Err(e) => Err(e),
                        Ok((right, r)) => Ok((binary(left, comparison_op(ts[q].kind)->0, right), r)),
                    }
                } else {
                    Ok((left, q))
                },
            }
        }),
{
}

/// The defining equation of [`parse_term_spec`].
pub proof fn lemma_parse_term_unfold(fl: FloatSemantics, ts: Seq<TokenV>, p: int)
    ensures
        parse_term_spec(fl, ts, p) == ({
            match parse_factor_spec(fl, ts, p) {
                Err(e) => Err(e),
                Ok((left, q)) => if p <= q <= ts.len() {
                    term_tail_spec(fl, ts, left, q)
                } else {
                    Ok((left, q))
                },
            }
        }),
{
}

/// The defining equation of [`term_tail_spec`].
pub proof fn lemma_term_tail_unfold(fl: FloatSemantics, ts: Seq<TokenV>, left: ExprV, q: int)
    ensures
        term_tail_spec(fl, ts, left, q) == ({
            if 0 <= q && q + 1 < ts.len() && term_op(ts[q].kind) is Some {
                match parse_factor_spec(fl, ts, q + 1) {
                    Err(e) => Err(e),
                    Ok((right, q2)) => {
                        let e = binary(left, term_op(ts[q].kind)->0, right);
                        if q < q2 <= ts.len() {
                            term_tail_spec(fl, ts, e, q2)
                        } else {
                            Ok((e, q2))
                        }
                    },
                }
            } else {
                Ok((left, q))
            }
        }),
{
}

/// The defining equation of [`parse_factor_spec`].
pub proof fn lemma_parse_factor_unfold(fl: FloatSemantics, ts: Seq<TokenV>, p: int)
    ensures
        parse_factor_spec(fl, ts, p) == ({
            match parse_unary_spec(fl, ts, p) {
                Err(e) => Err(e),
                Ok((left, q)) => if p <= q <= ts.len() {
                    factor_tail_spec(fl, ts, left, q)
                } else {
                    Ok((left, q))
                },
            }
        }),
{
}

/// The defining equation of [`factor_tail_spec`].
pub proof fn lemma_factor_tail_unfold(fl: FloatSemantics, ts: Seq<TokenV>, left: ExprV, q: int)
    ensures
        factor_tail_spec(fl, ts, left, q) == ({
            if 0 <= q && q + 1 < ts.len() && factor_op(ts[q].kind) is Some {
                match parse_unary_spec(fl, ts, q + 1) {
                    Err(e) => Err(e),
                    Ok((right, q2)) => {
                        let e = binary(left, factor_op(ts[q].kind)->0, right);
                        if q < q2 <= ts.len() {
                            factor_tail_spec(fl, ts, e, q2)
                        } else {
                            Ok((e, q2))
                        }
                    },
                }
            } else {
                Ok((left, q))
            }
        }),
{
}

/// The defining equation of [`parse_unary_spec`].
pub proof fn lemma_parse_unary_unfold(fl: FloatSemantics, ts: Seq<TokenV>, p: int)
    ensures
        parse_unary_spec(fl, ts, p) == ({
            if at(ts, p, TokenKind::Sub) {
                match parse_unary_spec(fl, ts, p + 1) {
                    Err(e) => Err(e),
                    Ok((inner, q)) => Ok((Expr::Neg(Box::new(inner)), q)),
                }
            } else {
                parse_primary_spec(fl, ts, p)
            }
        }),
{
}

/// The defining equation of [`parse_primary_spec`].
pub proof fn lemma_parse_primary_unfold(fl: FloatSemantics, ts: Seq<TokenV>, p: int)
    ensures
        parse_primary_spec(fl, ts, p) == ({
            match ts[p].kind {
                TokenKind::LParen => if at(ts, p, TokenKind::LParen) {
                    match parse_expr_spec(fl, ts, p + 1) {
                        Err(e) => Err(e),
                        Ok((inner, q)) => match expect_spec(ts, q, TokenKind::RParen, ")"@) {
                            Err(e) => Err(e),
                            Ok(r) => Ok((inner, r)),
                        },
                    }
                } else {
                    Err(error_at(ts, p, "a column, literal, or '('"@))
                },
                TokenKind::Ident(name) => Ok((Expr::Column(name), advance(ts, p))),
                TokenKind::Number(_) | TokenKind::StringLit(_) | TokenKind::Null | TokenKind::True
                | TokenKind::False => match parse_literal_spec(fl, ts, p) {
                    Err(e) => Err(e),
                    Ok((v, q)) => Ok((Expr::Literal(v), q)),
                },
                _ => Err(error_at(ts, p, "a column, literal, or '('"@)),
            }
        }),
{
}

// ---------------------------------------------------------------------
// Statements
// ---------------------------------------------------------------------

/// `ident (, ident)*` after its first identifier.
pub open spec fn ident_tail_spec(ts: Seq<TokenV>, acc: Seq<Seq<char>>, q: int) -> Parsed<Seq<Seq<char>>>
    decreases ts.len() - q,
{
    if at(ts, q, TokenKind::Comma) {
        match expect_ident_spec(ts, q + 1) {
            Err(e) => Err(e),
            Ok((name, q2)) => if q < q2 <= ts.len() {
                ident_tail_spec(ts, acc.push(name), q2)
            } else {
                Ok((acc.push(name), q2))
            },
        }
    } else {
        Ok((acc, q))
    }
}

/// `* | ident (, ident)*`
pub open spec fn parse_select_columns_spec(ts: Seq<TokenV>, p: int) -> Parsed<
    SelectColumns<Seq<Seq<char>>>,
> {
    if ts[p].kind is Star {
        Ok((SelectColumns::All, advance(ts, p)))
    } else {
        match expect_ident_spec(ts, p) {
            Err(e) => Err(e),
            Ok((first, q)) => match ident_tail_spec(ts, seq![first], q) {
                Err(e) => Err(e),
                Ok((names, r)) => Ok((SelectColumns::List(names), r)),
            },
        }
    }
}

/// `(WHERE expr)?`
pub open spec fn parse_optional_where_spec(fl: FloatSemantics, ts: Seq<TokenV>, p: int) -> Parsed<
    Option<ExprV>,
> {
    if at(ts, p, TokenKind::Where) {
        match parse_expr_spec(fl, ts, p + 1) {
            Err(e) => Err(e),
            Ok((e, q)) => Ok((Some(e), q)),
        }
    } else {
        Ok((None, p))
    }
}

/// `SELECT columns FROM ident where?`
pub open spec fn parse_select_spec(fl: FloatSemantics, ts: Seq<TokenV>, p: int) -> Parsed<
    SelectStatementV,
> {
    match expect_spec(ts, p, TokenKind::Select, "SELECT"@) {
        Err(e) => Err(e),
        Ok(p1) => match parse_select_columns_spec(ts, p1) {
            Err(e) => Err(e),
            Ok((columns, p2)) => match expect_spec(ts, p2, TokenKind::From, "FROM"@) {
                Err(e) => Err(e),
                Ok(p3) => match expect_ident_spec(ts, p3) {
                    Err(e) => Err(e),
                    Ok((table, p4)) => match parse_optional_where_spec(fl, ts, p4) {
                        Err(e) => Err(e),
                        Ok((filter, p5)) => Ok((SelectStatement { columns, table, filter }, p5)),
                    },
                },
            },
        },
    }
}

/// A `VALUES` entry as stored: a `-` directly before a number literal is
/// folded into a negative literal.
pub open spec fn fold_negative_literal(e: ExprV) -> ExprV {
    match e {
        Expr::Neg(inner) => match *inner {
            Expr::Literal(Value::Integer(n)) => if n > i64::MIN {
                Expr::Literal(Value::Integer((-n) as i64))
            } else {
                e
            },
            Expr::Literal(Value::Float(bits)) => Expr::Literal(Value::Float(f64_negate(bits))),
            _ => e,
        },
        _ => e,
    }
}

/// One `VALUES` entry: an expression, a negated number literal folded
/// into a negative literal. An entry that is just `-` and a string or
/// boolean literal is an error.
pub open spec fn parse_value_spec(fl: FloatSemantics, ts: Seq<TokenV>, p: int) -> Parsed<ExprV> {
    match parse_expr_spec(fl, ts, p) {
        Err(e) => Err(e),
        Ok((v, q)) => if at(ts, p, TokenKind::Sub) && non_numeric_literal(ts[p + 1].kind) && q == p + 2 {
            Err(ParseError::NonNumericNegation { found: ts[p + 1].kind, offset: ts[p + 1].offset })
        } else {
            Ok((fold_negative_literal(v), q))
        },
    }
}

/// `(, value)*` inside `VALUES ( ... )`, after its first value.
pub open spec fn value_tail_spec(fl: FloatSemantics, ts: Seq<TokenV>, acc: Seq<ExprV>, q: int) -> Parsed<
    Seq<ExprV>,
>
    decreases ts.len() - q,
{
    if at(ts, q, TokenKind::Comma) {
        match parse_value_spec(fl, ts, q + 1) {
            Err(e) => Err(e),
            Ok((v, q2)) => {
                let acc2 = acc.push(v);
                if q < q2 <= ts.len() {
                    value_tail_spec(fl, ts, acc2, q2)
                } else {
                    Ok((acc2, q2))
                }
            },
        }
    } else {
        Ok((acc, q))
    }
}

/// `INSERT INTO ident VALUES ( value (, value)* )`
pub open spec fn parse_insert_spec(fl: FloatSemantics, ts: Seq<TokenV>, p: int) -> Parsed<
    InsertStatementV,
> {
    match expect_spec(ts, p, TokenKind::Insert, "INSERT"@) {
        Err(e) => Err(e),
        Ok(p1) => match expect_spec(ts, p1, TokenKind::Into, "INTO"@) {
            Err(e) => Err(e),
            Ok(p2) => match expect_ident_spec(ts, p2) {
                Err(e) => Err(e),
                Ok((table, p3)) => match expect_spec(ts, p3, TokenKind::Values, "VALUES"@) {
                    Err(e) => Err(e),
                    Ok(p4) => match expect_spec(ts, p4, TokenKind::LParen, "("@) {
                        Err(e) => Err(e),
                        Ok(p5) => match parse_value_spec(fl, ts, p5) {
                            Err(e) => Err(e),
                            Ok((first, p6)) => match value_tail_spec(fl, ts, seq![first], p6) {
                                Err(e) => Err(e),
                                Ok((values, p7)) => match expect_spec(
                                    ts,
                                    p7,
                                    TokenKind::RParen,
                                    ")"@,
                                ) {
                                    Err(e) => Err(e),
                                    Ok(p8) => Ok((InsertStatement { table, values }, p8)),
                                },
                            },
                        },
                    },
                },
            },
        },
    }
}

/// `ident = expr`
pub open spec fn parse_assignment_spec(fl: FloatSemantics, ts: Seq<TokenV>, p: int) -> Parsed<
    (Seq<char>, ExprV),
> {
    match expect_ident_spec(ts, p) {
        Err(e) => Err(e),
        Ok((column, p1)) => match expect_spec(ts, p1, TokenKind::Eq, "="@) {
            Err(e) => Err(e),
            Ok(p2) => match parse_expr_spec(fl, ts, p2) {
                Err(e) => Err(e),
                Ok((value, p3)) => Ok(((column, value), p3)),
            },
        },
    }
}

pub open spec fn assignment_tail_spec(
    fl: FloatSemantics,
    ts: Seq<TokenV>,
    acc: Seq<(Seq<char>, ExprV)>,
    q: int,
) -> Parsed<Seq<(Seq<char>, ExprV)>>
    decreases ts.len() - q,
{
    if at(ts, q, TokenKind::Comma) {
        match parse_assignment_spec(fl, ts, q + 1) {
            Err(e) => Err(e),
            Ok((a, q2)) => if q < q2 <= ts.len() {
                assignment_tail_spec(fl, ts, acc.push(a), q2)
            } else {
                Ok((acc.push(a), q2))
            },
        }
    } else {
        Ok((acc, q))
    }
}

/// `UPDATE ident SET assignment (, assignment)* where?`
pub open spec fn parse_update_spec(fl: FloatSemantics, ts: Seq<TokenV>, p: int) -> Parsed<
    UpdateStatementV,
> {
    match expect_spec(ts, p, TokenKind::Update, "UPDATE"@) {
        Err(e) => Err(e),
        Ok(p1) => match expect_ident_spec(ts, p1) {
            Err(e) => Err(e),
            Ok((table, p2)) => match expect_spec(ts, p2, TokenKind::SetKw, "SET"@) {
                Err(e) => Err(e),
                Ok(p3) => match parse_assignment_spec(fl, ts, p3) {
                    Err(e) => Err(e),
                    Ok((first, p4)) => match assignment_tail_spec(fl, ts, seq![first], p4) {
                        Err(e) => Err(e),
                        Ok((assignments, p5)) => match parse_optional_where_spec(fl, ts, p5) {
                            Err(e) => Err(e),
                            Ok((filter, p6)) => Ok(
                                (UpdateStatement { table, assignments, filter }, p6),
                            ),
                        },
                    },
                },
            },
        },
    }
}

/// `DELETE FROM ident where?`
pub open spec fn parse_delete_spec(fl: FloatSemantics, ts: Seq<TokenV>, p: int) -> Parsed<
    DeleteStatementV,
> {
    match expect_spec(ts, p, TokenKind::Delete, "DELETE"@) {
        Err(e) => Err(e),
        Ok(p1) => match expect_spec(ts, p1, TokenKind::From, "FROM"@) {
            Err(e) => Err(e),
            Ok(p2) => match expect_ident_spec(ts, p2) {
                Err(e) => Err(e),
                Ok((table, p3)) => match parse_optional_where_spec(fl, ts, p3) {
                    Err(e) => Err(e),
                    Ok((filter, p4)) => Ok((DeleteStatement { table, filter }, p4)),
                },
            },
        },
    }
}

/// The column type a type name denotes, matched case-insensitively.
pub open spec fn type_named(name: Seq<char>) -> Option<DataType> {
    if matches_upper(name, "INTEGER"@) || matches_upper(name, "INT"@) {
        Some(DataType::Integer)
    } else if matches_upper(name, "FLOAT"@) || matches_upper(name, "REAL"@) || matches_upper(
        name,
        "DOUBLE"@,
    ) {
        Some(DataType::Float)
    } else if matches_upper(name, "TEXT"@) || matches_upper(name, "VARCHAR"@) || matches_upper(
        name,
        "STRING"@,
    ) {
        Some(DataType::Text)
    } else if matches_upper(name, "BOOLEAN"@) || matches_upper(name, "BOOL"@) {
        Some(DataType::Boolean)
    } else {
        None
    }
}

/// A type name: any identifier, checked against the known names.
pub open spec fn parse_data_type_spec(ts: Seq<TokenV>, p: int) -> Parsed<DataType> {
    match expect_ident_spec(ts, p) {
        Err(e) => Err(e),
        Ok((name, q)) => match type_named(name) {
            Some(ty) => Ok((ty, q)),
            None => Err(ParseError::UnknownType { name, offset: ts[p].offset }),
        },
    }
}

/// `ident type_name (NOT NULL)?`
pub open spec fn parse_column_decl_spec(ts: Seq<TokenV>, p: int) -> Parsed<ColumnDeclV> {
    match expect_ident_spec(ts, p) {
        Err(e) => Err(e),
        Ok((name, p1)) => match parse_data_type_spec(ts, p1) {
            Err(e) => Err(e),
            Ok((ty, p2)) => if at(ts, p2, TokenKind::Not) {
                match expect_spec(ts, p2 + 1, TokenKind::Null, "NULL"@) {
                    Err(e) => Err(e),
                    Ok(p3) => Ok((ColumnDecl { name, ty, nullable: false }, p3)),
                }
            } else {
                Ok((ColumnDecl { name, ty, nullable: true }, p2))
            },
        },
    }
}

pub open spec fn column_decl_tail_spec(ts: Seq<TokenV>, acc: Seq<ColumnDeclV>, q: int) -> Parsed<
    Seq<ColumnDeclV>,
>
    decreases ts.len() - q,
{
    if at(ts, q, TokenKind::Comma) {
        match parse_column_decl_spec(ts, q + 1) {
            Err(e) => Err(e),
            Ok((c, q2)) => if q < q2 <= ts.len() {
                column_decl_tail_spec(ts, acc.push(c), q2)
            } else {
                Ok((acc.push(c), q2))
            },
        }
    } else {
        Ok((acc, q))
    }
}

/// `CREATE TABLE ident ( column_decl (, column_decl)* )`
pub open spec fn parse_create_table_spec(ts: Seq<TokenV>, p: int) -> Parsed<CreateTableStatementV> {
    match expect_spec(ts, p, TokenKind::Create, "CREATE"@) {
        Err(e) => Err(e),
        Ok(p1) => match expect_spec(ts, p1, TokenKind::Table, "TABLE"@) {
            Err(e) => Err(e),
            Ok(p2) => match expect_ident_spec(ts, p2) {
                Err(e) => Err(e),
                Ok((table, p3)) => match expect_spec(ts, p3, TokenKind::LParen, "("@) {
                    Err(e) => Err(e),
                    Ok(p4) => match parse_column_decl_spec(ts, p4) {
                        Err(e) => Err(e),
                        Ok((first, p5)) => match column_decl_tail_spec(ts, seq![first], p5) {
                            Err(e) => Err(e),
                            Ok((columns, p6)) => match expect_spec(
                                ts,
                                p6,
                                TokenKind::RParen,
                                ")"@,
                            ) {
                                Err(e) => Err(e),
                                Ok(p7) => Ok((CreateTableStatement { table, columns }, p7)),
                            },
                        },
                    },
                },
            },
        },
    }
}

/// One statement, chosen by its leading keyword.
pub open spec fn parse_statement_spec(fl: FloatSemantics, ts: Seq<TokenV>, p: int) -> Parsed<
    StatementV,
> {
    match ts[p].kind {
        TokenKind::Select => match parse_select_spec(fl, ts, p) {
            Err(e) => Err(e),
            Ok((s, q)) => Ok((StatementV::Select(s), q)),
        },
        TokenKind::Insert => match parse_insert_spec(fl, ts, p) {
            Err(e) => Err(e),
            Ok((s, q)) => Ok((StatementV::Insert(s), q)),
        },
        TokenKind::Update => match parse_update_spec(fl, ts, p) {
            Err(e) => Err(e),
            Ok((s, q)) => Ok((StatementV::Update(s), q)),
        },
        TokenKind::Delete => match parse_delete_spec(fl, ts, p) {
            Err(e) => Err(e),
            Ok((s, q)) => Ok((StatementV::Delete(s), q)),
        },
        TokenKind::Create => match parse_create_table_spec(ts, p) {
            Err(e) => Err(e),
            Ok((s, q)) => Ok((StatementV::CreateTable(s), q)),
        },
        _ => Err(error_at(ts, p, "a statement (SELECT, INSERT, UPDATE, DELETE, or CREATE TABLE)"@)),
    }
}

/// The position after the `;` tokens at `p`.
pub open spec fn skip_semicolons(ts: Seq<TokenV>, p: int) -> int
    decreases ts.len() - p,
{
    if at(ts, p, TokenKind::Semicolon) {
        skip_semicolons(ts, p + 1)
    } else {
        p
    }
}

/// The statements from `p` on, after those already parsed (`acc`):
/// separated, and optionally terminated, by `;`, up to `Eof`.
pub open spec fn parse_statements_spec(
    fl: FloatSemantics,
    ts: Seq<TokenV>,
    p: int,
    acc: Seq<StatementV>,
) -> Result<Seq<StatementV>, ParseErrorV>
    decreases ts.len() - p,
{
    if !(0 <= p < ts.len()) {
        Ok(acc)
    } else {
        let p1 = skip_semicolons(ts, p);
        if ts[p1].kind is Eof {
            Ok(acc)
        } else {
            match parse_statement_spec(fl, ts, p1) {
                Err(e) => Err(e),
                Ok((s, q)) => {
                    let q2 = if 0 <= q < ts.len() && ts[q].kind is Semicolon {
                        advance(ts, q)
                    } else {
                        q
                    };
                    if p < q2 <= ts.len() {
                        parse_statements_spec(fl, ts, q2, acc.push(s))
                    } else {
                        Ok(acc.push(s))
                    }
                },
            }
        }
    }
}

/// Parsing a whole token stream.
pub open spec fn parse_tokens_spec(fl: FloatSemantics, ts: Seq<TokenV>) -> Result<
    Seq<StatementV>,
    ParseErrorV,
> {
    parse_statements_spec(fl, ts, 0, seq![])
}

} // verus!
