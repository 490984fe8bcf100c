//! Laws of the expression grammar: precedence and associativity.

use vstd::prelude::*;

use super::ast::{Expr, ExprV};
use super::spec::{
    binary, comparison_op, factor_op, lemma_and_tail_unfold, lemma_factor_tail_unfold,
    lemma_or_tail_unfold, lemma_parse_and_unfold, lemma_parse_comparison_unfold,
    lemma_parse_expr_unfold, lemma_parse_factor_unfold, lemma_parse_not_unfold,
    lemma_parse_or_unfold, lemma_parse_primary_unfold, lemma_parse_term_unfold,
    lemma_parse_unary_unfold, lemma_term_tail_unfold, parse_and_spec, parse_expr_spec,
    parse_factor_spec, parse_not_spec, parse_term_spec, parse_unary_spec, term_op,
};
use crate::lexer::token::{Token, TokenKind, TokenKindV, TokenV};
use crate::parser::BinaryOp;
use crate::types::FloatSemantics;

verus! {

/// The token of kind `k` at byte offset `o`.
pub open spec fn tok(k: TokenKindV, o: usize) -> TokenV {
    Token { kind: k, offset: o }
}

/// A column reference.
pub open spec fn col(n: Seq<char>) -> ExprV {
    Expr::Column(n)
}

/// An identifier at `p` followed by a token that continues no term is a
/// whole term, and a whole `NOT`-level operand.
proof fn lemma_ident_operand(fl: FloatSemantics, ts: Seq<TokenV>, p: int)
    requires
        0 <= p,
        p + 1 < ts.len(),
        ts[p].kind is Ident,
    ensures
        parse_unary_spec(fl, ts, p) == Ok::<(ExprV, int), super::error::ParseErrorV>((col(ts[p].kind->Ident_0), p + 1)),
        factor_op(ts[p + 1].kind) is None ==> parse_factor_spec(fl, ts, p) == Ok::<(ExprV, int), super::error::ParseErrorV>((col(ts[p].kind->Ident_0), p + 1)),
        factor_op(ts[p + 1].kind) is None && term_op(ts[p + 1].kind) is None ==> parse_term_spec(fl, ts, p) == Ok::<(ExprV, int), super::error::ParseErrorV>(
            (col(ts[p].kind->Ident_0), p + 1),
        ),
        factor_op(ts[p + 1].kind) is None && term_op(ts[p + 1].kind) is None && comparison_op(ts[p + 1].kind) is None && !(ts[p + 1].kind is Is)
            ==> parse_not_spec(fl, ts, p) == Ok::<(ExprV, int), super::error::ParseErrorV>(
            (col(ts[p].kind->Ident_0), p + 1),
        ),
{
    lemma_parse_primary_unfold(fl, ts, p);
    lemma_parse_unary_unfold(fl, ts, p);
    lemma_parse_factor_unfold(fl, ts, p);
    lemma_factor_tail_unfold(fl, ts, col(ts[p].kind->Ident_0), p + 1);
    lemma_parse_term_unfold(fl, ts, p);
    lemma_term_tail_unfold(fl, ts, col(ts[p].kind->Ident_0), p + 1);
    lemma_parse_comparison_unfold(fl, ts, p);
    lemma_parse_not_unfold(fl, ts, p);
}

/// A term that runs up to the final token is the whole expression.
proof fn lemma_term_is_expr(fl: FloatSemantics, ts: Seq<TokenV>, p: int, e: ExprV)
    requires
        0 <= p < ts.len() - 1,
        ts[p].kind is Ident,
        parse_term_spec(fl, ts, p) == Ok::<(ExprV, int), super::error::ParseErrorV>((e, ts.len() - 1)),
    ensures
        parse_expr_spec(fl, ts, p) == Ok::<(ExprV, int), super::error::ParseErrorV>((e, ts.len() - 1)),
{
    let q = ts.len() - 1;
    lemma_parse_expr_unfold(fl, ts, p);
    lemma_parse_or_unfold(fl, ts, p);
    lemma_parse_and_unfold(fl, ts, p);
    lemma_parse_not_unfold(fl, ts, p);
    lemma_parse_comparison_unfold(fl, ts, p);
    lemma_and_tail_unfold(fl, ts, e, q);
    lemma_or_tail_unfold(fl, ts, e, q);
}

/// `*` and `/` bind tighter than `+` and `-`: `x + y * z` is
/// `x + (y * z)`, for any names, operators of those levels and offsets.
pub proof fn law_factor_binds_tighter_than_term(
    fl: FloatSemantics,
    x: Seq<char>,
    y: Seq<char>,
    z: Seq<char>,
    add: TokenKindV,
    mul: TokenKindV,
    o: Seq<usize>,
)
    requires
        add is Add || add is Sub,
        mul is Star || mul is Div,
        o.len() == 6,
    ensures
        ({
            let ts = seq![
                tok(TokenKind::Ident(x), o[0]),
                tok(add, o[1]),
                tok(TokenKind::Ident(y), o[2]),
                tok(mul, o[3]),
                tok(TokenKind::Ident(z), o[4]),
                tok(TokenKind::Eof, o[5]),
            ];
            parse_expr_spec(fl, ts, 0) == Ok::<(ExprV, int), super::error::ParseErrorV>(
                (binary(col(x), term_op(add)->0, binary(col(y), factor_op(mul)->0, col(z))), 5),
            )
        }),
{
    let ts = seq![
        tok(TokenKind::Ident(x), o[0]),
        tok(add, o[1]),
        tok(TokenKind::Ident(y), o[2]),
        tok(mul, o[3]),
        tok(TokenKind::Ident(z), o[4]),
        tok(TokenKind::Eof, o[5]),
    ];
    lemma_ident_operand(fl, ts, 0);
    lemma_ident_operand(fl, ts, 2);
    lemma_ident_operand(fl, ts, 4);
    let yz = binary(col(y), factor_op(mul)->0, col(z));
    lemma_parse_factor_unfold(fl, ts, 2);
    lemma_factor_tail_unfold(fl, ts, col(y), 3);
    lemma_factor_tail_unfold(fl, ts, yz, 5);
    assert(parse_factor_spec(fl, ts, 2) == Ok::<(ExprV, int), super::error::ParseErrorV>((yz, 5)));
    let e = binary(col(x), term_op(add)->0, yz);
    lemma_parse_term_unfold(fl, ts, 0);
    lemma_term_tail_unfold(fl, ts, col(x), 1);
    lemma_term_tail_unfold(fl, ts, e, 5);
    assert(parse_term_spec(fl, ts, 0) == Ok::<(ExprV, int), super::error::ParseErrorV>((e, 5)));
    lemma_term_is_expr(fl, ts, 0, e);
}

/// `+` and `-` associate to the left: `x - y - z` is `(x - y) - z`.
pub proof fn law_term_operators_associate_left(
    fl: FloatSemantics,
    x: Seq<char>,
    y: Seq<char>,
    z: Seq<char>,
    op1: TokenKindV,
    op2: TokenKindV,
    o: Seq<usize>,
)
    requires
        op1 is Add || op1 is Sub,
        op2 is Add || op2 is Sub,
        o.len() == 6,
    ensures
        ({
            let ts = seq![
                tok(TokenKind::Ident(x), o[0]),
                tok(op1, o[1]),
                tok(TokenKind::Ident(y), o[2]),
                tok(op2, o[3]),
                tok(TokenKind::Ident(z), o[4]),
                tok(TokenKind::Eof, o[5]),
            ];
            parse_expr_spec(fl, ts, 0) == Ok::<(ExprV, int), super::error::ParseErrorV>(
                (binary(binary(col(x), term_op(op1)->0, col(y)), term_op(op2)->0, col(z)), 5),
            )
        }),
{
    let ts = seq![
        tok(TokenKind::Ident(x), o[0]),
        tok(op1, o[1]),
        tok(TokenKind::Ident(y), o[2]),
        tok(op2, o[3]),
        tok(TokenKind::Ident(z), o[4]),
        tok(TokenKind::Eof, o[5]),
    ];
    lemma_ident_operand(fl, ts, 0);
    lemma_ident_operand(fl, ts, 2);
    lemma_ident_operand(fl, ts, 4);
    let xy = binary(col(x), term_op(op1)->0, col(y));
    let e = binary(xy, term_op(op2)->0, col(z));
    lemma_parse_term_unfold(fl, ts, 0);
    lemma_term_tail_unfold(fl, ts, col(x), 1);
    lemma_term_tail_unfold(fl, ts, xy, 3);
    lemma_term_tail_unfold(fl, ts, e, 5);
    assert(parse_term_spec(fl, ts, 0) == Ok::<(ExprV, int), super::error::ParseErrorV>((e, 5)));
    lemma_term_is_expr(fl, ts, 0, e);
}

/// `AND` binds tighter than `OR`: `x OR y AND z` is `x OR (y AND z)`.
pub proof fn law_and_binds_tighter_than_or(fl: FloatSemantics, x: Seq<char>, y: Seq<char>, z: Seq<char>, o: Seq<usize>)
    requires
        o.len() == 6,
    ensures
        ({
            let ts = seq![
                tok(TokenKind::Ident(x), o[0]),
                tok(TokenKind::Or, o[1]),
                tok(TokenKind::Ident(y), o[2]),
                tok(TokenKind::And, o[3]),
                tok(TokenKind::Ident(z), o[4]),
                tok(TokenKind::Eof, o[5]),
            ];
            parse_expr_spec(fl, ts, 0) == Ok::<(ExprV, int), super::error::ParseErrorV>(
                (binary(col(x), BinaryOp::Or, binary(col(y), BinaryOp::And, col(z))), 5),
            )
        }),
{
    let ts = seq![
        tok(TokenKind::Ident(x), o[0]),
        tok(TokenKind::Or, o[1]),
        tok(TokenKind::Ident(y), o[2]),
        tok(TokenKind::And, o[3]),
        tok(TokenKind::Ident(z), o[4]),
        tok(TokenKind::Eof, o[5]),
    ];
    lemma_ident_operand(fl, ts, 0);
    lemma_ident_operand(fl, ts, 2);
    lemma_ident_operand(fl, ts, 4);
    let yz = binary(col(y), BinaryOp::And, col(z));
    let e = binary(col(x), BinaryOp::Or, yz);
    lemma_parse_and_unfold(fl, ts, 0);
    lemma_and_tail_unfold(fl, ts, col(x), 1);
    lemma_parse_and_unfold(fl, ts, 2);
    lemma_and_tail_unfold(fl, ts, col(y), 3);
    lemma_and_tail_unfold(fl, ts, yz, 5);
    assert(parse_and_spec(fl, ts, 2) == Ok::<(ExprV, int), super::error::ParseErrorV>((yz, 5)));
    lemma_parse_expr_unfold(fl, ts, 0);
    lemma_parse_or_unfold(fl, ts, 0);
    lemma_or_tail_unfold(fl, ts, col(x), 1);
    lemma_or_tail_unfold(fl, ts, e, 5);
}

} // verus!
