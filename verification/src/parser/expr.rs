//! Expression parsing: one method per precedence tier, loosest first.

use vstd::prelude::*;

use super::number::parse_number_literal;
use super::spec::{
    lemma_and_tail_unfold, lemma_factor_tail_unfold, lemma_or_tail_unfold, lemma_parse_and_unfold,
    lemma_parse_comparison_unfold, lemma_parse_expr_unfold, lemma_parse_factor_unfold,
    lemma_parse_not_unfold, lemma_parse_or_unfold, lemma_parse_primary_unfold, lemma_parse_term_unfold,
    lemma_parse_unary_unfold, lemma_term_tail_unfold, and_tail_spec, comparison_op, factor_op, factor_tail_spec, or_tail_spec, parse_and_spec,
    parse_comparison_spec, parse_expr_spec, parse_factor_spec, parse_literal_spec, parse_not_spec,
    parse_or_spec, parse_primary_spec, parse_term_spec, parse_unary_spec, term_op, term_tail_spec,
};
use super::{lemma_not_last, outcome, BinaryOp, Expr, ParseError, Parser};
use crate::lexer::token::TokenKind;
use crate::types::{float_semantics, float_unit_ok, FloatOp, Value};

verus! {

impl Parser {
    pub(crate) fn parse_expr<F: Fn(FloatOp) -> Option<u64>>(&mut self, floats: &F) -> (r: Result<
        Expr,
        ParseError,
    >)
        requires
            old(self).wf(),
            float_unit_ok(*floats),
        ensures
            final(self).wf(),
            final(self).tokens_view() == old(self).tokens_view(),
            old(self).position() <= final(self).position(),
            outcome(
                r,
                final(self).position(),
                parse_expr_spec(float_semantics(*floats), old(self).tokens_view(), old(self).position()),
            ),
        decreases old(self).tokens_view().len() - old(self).position(), 13int,
    {
        proof {
            lemma_parse_expr_unfold(float_semantics(*floats), self.tokens_view(), self.position());
        }
        self.parse_or(floats)
    }

    fn parse_or<F: Fn(FloatOp) -> Option<u64>>(&mut self, floats: &F) -> (r: Result<Expr, ParseError>)
        requires
            old(self).wf(),
            float_unit_ok(*floats),
        ensures
            final(self).wf(),
            final(self).tokens_view() == old(self).tokens_view(),
            old(self).position() <= final(self).position(),
            outcome(
                r,
                final(self).position(),
                parse_or_spec(float_semantics(*floats), old(self).tokens_view(), old(self).position()),
            ),
        decreases old(self).tokens_view().len() - old(self).position(), 12int,
    {
        proof {
            lemma_parse_or_unfold(float_semantics(*floats), self.tokens_view(), self.position());
        }
        let ghost ts = self.tokens_view();
        let ghost fl = float_semantics(*floats);
        let ghost p0 = self.position();
        let mut left = match self.parse_and(floats) {
            Ok(e) => e,
            Err(e) => {
                return Err(e);
            },
        };
        proof {
            self.lemma_wf();
        }
        loop
            invariant
                self.wf(),
                self.tokens_view() == ts,
                ts == old(self).tokens_view(),
                p0 == old(self).position(),
                p0 <= self.position(),
                float_unit_ok(*floats),
                fl == float_semantics(*floats),
                parse_or_spec(fl, ts, p0) == or_tail_spec(fl, ts, left@, self.position()),
            decreases ts.len() - self.position(),
        {
            proof {
                lemma_or_tail_unfold(fl, ts, left@, self.position());
            }
            proof {
                self.lemma_wf();
            }
            if !matches!(self.peek_kind(), TokenKind::Or) {
                return Ok(left);
            }
            proof {
                lemma_not_last(ts, self.position());
            }
            self.advance();
            let right = match self.parse_and(floats) {
                Ok(e) => e,
                Err(e) => {
                    return Err(e);
                },
            };
            proof {
                self.lemma_wf();
            }
            left = Expr::BinaryOp { left: Box::new(left), op: BinaryOp::Or, right: Box::new(right) };
        }
    }

    fn parse_and<F: Fn(FloatOp) -> Option<u64>>(&mut self, floats: &F) -> (r: Result<Expr, ParseError>)
        requires
            old(self).wf(),
            float_unit_ok(*floats),
        ensures
            final(self).wf(),
            final(self).tokens_view() == old(self).tokens_view(),
            old(self).position() <= final(self).position(),
            outcome(
                r,
                final(self).position(),
                parse_and_spec(float_semantics(*floats), old(self).tokens_view(), old(self).position()),
            ),
        decreases old(self).tokens_view().len() - old(self).position(), 10int,
    {
        proof {
            lemma_parse_and_unfold(float_semantics(*floats), self.tokens_view(), self.position());
        }
        let ghost ts = self.tokens_view();
        let ghost fl = float_semantics(*floats);
        let ghost p0 = self.position();
        let mut left = match self.parse_not(floats) {
            Ok(e) => e,
            Err(e) => {
                return Err(e);
            },
        };
        proof {
            self.lemma_wf();
        }
        loop
            invariant
                self.wf(),
                self.tokens_view() == ts,
                ts == old(self).tokens_view(),
                p0 == old(self).position(),
                p0 <= self.position(),
                float_unit_ok(*floats),
                fl == float_semantics(*floats),
                parse_and_spec(fl, ts, p0) == and_tail_spec(fl, ts, left@, self.position()),
            decreases ts.len() - self.position(),
        {
            proof {
                lemma_and_tail_unfold(fl, ts, left@, self.position());
            }
            proof {
                self.lemma_wf();
            }
            if !matches!(self.peek_kind(), TokenKind::And) {
                return Ok(left);
            }
            proof {
                lemma_not_last(ts, self.position());
            }
            self.advance();
            let right = match self.parse_not(floats) {
                Ok(e) => e,
                Err(e) => {
                    return Err(e);
                },
            };
            proof {
                self.lemma_wf();
            }
            left = Expr::BinaryOp { left: Box::new(left), op: BinaryOp::And, right: Box::new(right) };
        }
    }

    fn parse_not<F: Fn(FloatOp) -> Option<u64>>(&mut self, floats: &F) -> (r: Result<Expr, ParseError>)
        requires
            old(self).wf(),
            float_unit_ok(*floats),
        ensures
            final(self).wf(),
            final(self).tokens_view() == old(self).tokens_view(),
            old(self).position() <= final(self).position(),
            outcome(
                r,
                final(self).position(),
                parse_not_spec(float_semantics(*floats), old(self).tokens_view(), old(self).position()),
            ),
        decreases old(self).tokens_view().len() - old(self).position(), 8int,
    {
        proof {
            lemma_parse_not_unfold(float_semantics(*floats), self.tokens_view(), self.position());
        }
        proof {
            self.lemma_wf();
        }
        if matches!(self.peek_kind(), TokenKind::Not) {
            proof {
                lemma_not_last(self.tokens_view(), self.position());
            }
            self.advance();
            let inner = match self.parse_not(floats) {
                Ok(e) => e,
                Err(e) => {
                    return Err(e);
                },
            };
            Ok(Expr::Not(Box::new(inner)))
        } else {
            self.parse_comparison(floats)
        }
    }

    /// Consumes and gives a comparison operator, if the current token is
    /// one.
    fn match_comparison_op(&mut self) -> (r: Option<BinaryOp>)
        requires
            old(self).wf(),
        ensures
            final(self).wf(),
            final(self).tokens_view() == old(self).tokens_view(),
            r == comparison_op(old(self).tokens_view()[old(self).position()].kind),
            r is Some ==> final(self).position() == old(self).position() + 1,
            r is None ==> final(self).position() == old(self).position(),
    {
        proof {
            self.lemma_wf();
        }
        let op = match self.peek_kind() {
            TokenKind::Eq => BinaryOp::Eq,
            TokenKind::NotEq => BinaryOp::NotEq,
            TokenKind::Lt => BinaryOp::Lt,
            TokenKind::LtEq => BinaryOp::LtEq,
            TokenKind::Gt => BinaryOp::Gt,
            TokenKind::GtEq => BinaryOp::GtEq,
            _ => {
                return None;
            },
        };
        proof {
            lemma_not_last(self.tokens_view(), self.position());
        }
        self.advance();
        Some(op)
    }

    fn parse_comparison<F: Fn(FloatOp) -> Option<u64>>(&mut self, floats: &F) -> (r: Result<
        Expr,
        ParseError,
    >)
        requires
            old(self).wf(),
            float_unit_ok(*floats),
        ensures
            final(self).wf(),
            final(self).tokens_view() == old(self).tokens_view(),
            old(self).position() <= final(self).position(),
            outcome(
                r,
                final(self).position(),
                parse_comparison_spec(
                    float_semantics(*floats),
                    old(self).tokens_view(),
                    old(self).position(),
                ),
            ),
        decreases old(self).tokens_view().len() - old(self).position(), 7int,
    {
        proof {
            lemma_parse_comparison_unfold(float_semantics(*floats), self.tokens_view(), self.position());
        }
        let ghost ts = self.tokens_view();
        let left = match self.parse_term(floats) {
            Ok(e) => e,
            Err(e) => {
                return Err(e);
            },
        };
        proof {
            self.lemma_wf();
        }
        if matches!(self.peek_kind(), TokenKind::Is) {
            proof {
                lemma_not_last(ts, self.position());
            }
            self.advance();
            proof {
                self.lemma_wf();
            }
            let negated = matches!(self.peek_kind(), TokenKind::Not);
            if negated {
                proof {
                    lemma_not_last(ts, self.position());
                }
                self.advance();
            }
            match self.expect(TokenKind::Null, "NULL") {
                Ok(()) => {},
                Err(e) => {
                    return Err(e);
                },
            }
            return Ok(Expr::IsNull { expr: Box::new(left), negated });
        }
        match self.match_comparison_op() {
            Some(op) => {
                let right = match self.parse_term(floats) {
                    Ok(e) => e,
                    Err(e) => {
                        return Err(e);
                    },
                };
                Ok(Expr::BinaryOp { left: Box::new(left), op, right: Box::new(right) })
            },
            None => Ok(left),
        }
    }

    /// Consumes and gives `+` or `-`, if the current token is one.
    fn match_term_op(&mut self) -> (r: Option<BinaryOp>)
        requires
            old(self).wf(),
        ensures
            final(self).wf(),
            final(self).tokens_view() == old(self).tokens_view(),
            r == term_op(old(self).tokens_view()[old(self).position()].kind),
            r is Some ==> final(self).position() == old(self).position() + 1,
            r is None ==> final(self).position() == old(self).position(),
    {
        proof {
            self.lemma_wf();
        }
        let op = match self.peek_kind() {
            TokenKind::Add => BinaryOp::Add,
            TokenKind::Sub => BinaryOp::Sub,
            _ => {
                return None;
            },
        };
        proof {
            lemma_not_last(self.tokens_view(), self.position());
        }
        self.advance();
        Some(op)
    }

    fn parse_term<F: Fn(FloatOp) -> Option<u64>>(&mut self, floats: &F) -> (r: Result<Expr, ParseError>)
        requires
            old(self).wf(),
            float_unit_ok(*floats),
        ensures
            final(self).wf(),
            final(self).tokens_view() == old(self).tokens_view(),
            old(self).position() <= final(self).position(),
            outcome(
                r,
                final(self).position(),
                parse_term_spec(float_semantics(*floats), old(self).tokens_view(), old(self).position()),
            ),
        decreases old(self).tokens_view().len() - old(self).position(), 6int,
    {
        proof {
            lemma_parse_term_unfold(float_semantics(*floats), self.tokens_view(), self.position());
        }
        let ghost ts = self.tokens_view();
        let ghost fl = float_semantics(*floats);
        let ghost p0 = self.position();
        let mut left = match self.parse_factor(floats) {
            Ok(e) => e,
            Err(e) => {
                return Err(e);
            },
        };
        proof {
            self.lemma_wf();
        }
        loop
            invariant
                self.wf(),
                self.tokens_view() == ts,
                ts == old(self).tokens_view(),
                p0 == old(self).position(),
                p0 <= self.position(),
                float_unit_ok(*floats),
                fl == float_semantics(*floats),
                parse_term_spec(fl, ts, p0) == term_tail_spec(fl, ts, left@, self.position()),
            decreases ts.len() - self.position(),
        {
            proof {
                lemma_term_tail_unfold(fl, ts, left@, self.position());
            }
            proof {
                self.lemma_wf();
            }
            match self.match_term_op() {
                None => {
                    return Ok(left);
                },
                Some(op) => {
                    proof {
                        self.lemma_wf();
                    }
                    let right = match self.parse_factor(floats) {
                        Ok(e) => e,
                        Err(e) => {
                            return Err(e);
                        },
                    };
                    proof {
                        self.lemma_wf();
                    }
                    left = Expr::BinaryOp { left: Box::new(left), op, right: Box::new(right) };
                },
            }
        }
    }

    /// Consumes and gives `*` or `/`, if the current token is one.
    fn match_factor_op(&mut self) -> (r: Option<BinaryOp>)
        requires
            old(self).wf(),
        ensures
            final(self).wf(),
            final(self).tokens_view() == old(self).tokens_view(),
            r == factor_op(old(self).tokens_view()[old(self).position()].kind),
            r is Some ==> final(self).position() == old(self).position() + 1,
            r is None ==> final(self).position() == old(self).position(),
    {
        proof {
            self.lemma_wf();
        }
        let op = match self.peek_kind() {
            TokenKind::Star => BinaryOp::Mul,
            TokenKind::Div => BinaryOp::Div,
            _ => {
                return None;
            },
        };
        proof {
            lemma_not_last(self.tokens_view(), self.position());
        }
        self.advance();
        Some(op)
    }

    fn parse_factor<F: Fn(FloatOp) -> Option<u64>>(&mut self, floats: &F) -> (r: Result<
        Expr,
        ParseError,
    >)
        requires
            old(self).wf(),
            float_unit_ok(*floats),
        ensures
            final(self).wf(),
            final(self).tokens_view() == old(self).tokens_view(),
            old(self).position() <= final(self).position(),
            outcome(
                r,
                final(self).position(),
                parse_factor_spec(float_semantics(*floats), old(self).tokens_view(), old(self).position()),
            ),
        decreases old(self).tokens_view().len() - old(self).position(), 4int,
    {
        proof {
            lemma_parse_factor_unfold(float_semantics(*floats), self.tokens_view(), self.position());
        }
        let ghost ts = self.tokens_view();
        let ghost fl = float_semantics(*floats);
        let ghost p0 = self.position();
        let mut left = match self.parse_unary(floats) {
            Ok(e) => e,
            Err(e) => {
                return Err(e);
            },
        };
        proof {
            self.lemma_wf();
        }
        loop
            invariant
                self.wf(),
                self.tokens_view() == ts,
                ts == old(self).tokens_view(),
                p0 == old(self).position(),
                p0 <= self.position(),
                float_unit_ok(*floats),
                fl == float_semantics(*floats),
                parse_factor_spec(fl, ts, p0) == factor_tail_spec(fl, ts, left@, self.position()),
            decreases ts.len() - self.position(),
        {
            proof {
                lemma_factor_tail_unfold(fl, ts, left@, self.position());
            }
            proof {
                self.lemma_wf();
            }
            match self.match_factor_op() {
                None => {
                    return Ok(left);
                },
                Some(op) => {
                    proof {
                        self.lemma_wf();
                    }
                    let right = match self.parse_unary(floats) {
                        Ok(e) => e,
                        Err(e) => {
                            return Err(e);
                        },
                    };
                    proof {
                        self.lemma_wf();
                    }
                    left = Expr::BinaryOp { left: Box::new(left), op, right: Box::new(right) };
                },
            }
        }
    }

    /// `-<unary>`, right-recursive so `- - a` is a double negation.
    fn parse_unary<F: Fn(FloatOp) -> Option<u64>>(&mut self, floats: &F) -> (r: Result<
        Expr,
        ParseError,
    >)
        requires
            old(self).wf(),
            float_unit_ok(*floats),
        ensures
            final(self).wf(),
            final(self).tokens_view() == old(self).tokens_view(),
            old(self).position() <= final(self).position(),
            outcome(
                r,
                final(self).position(),
                parse_unary_spec(float_semantics(*floats), old(self).tokens_view(), old(self).position()),
            ),
        decreases old(self).tokens_view().len() - old(self).position(), 2int,
    {
        proof {
            lemma_parse_unary_unfold(float_semantics(*floats), self.tokens_view(), self.position());
        }
        proof {
            self.lemma_wf();
        }
        if matches!(self.peek_kind(), TokenKind::Sub) {
            proof {
                lemma_not_last(self.tokens_view(), self.position());
            }
            self.advance();
            let inner = match self.parse_unary(floats) {
                Ok(e) => e,
                Err(e) => {
                    return Err(e);
                },
            };
            Ok(Expr::Neg(Box::new(inner)))
        } else {
            self.parse_primary(floats)
        }
    }

    fn parse_primary<F: Fn(FloatOp) -> Option<u64>>(&mut self, floats: &F) -> (r: Result<
        Expr,
        ParseError,
    >)
        requires
            old(self).wf(),
            float_unit_ok(*floats),
        ensures
            final(self).wf(),
            final(self).tokens_view() == old(self).tokens_view(),
            old(self).position() <= final(self).position(),
            outcome(
                r,
                final(self).position(),
                parse_primary_spec(float_semantics(*floats), old(self).tokens_view(), old(self).position()),
            ),
        decreases old(self).tokens_view().len() - old(self).position(), 1int,
    {
        proof {
            lemma_parse_primary_unfold(float_semantics(*floats), self.tokens_view(), self.position());
        }
        proof {
            self.lemma_wf();
        }
        if matches!(self.peek_kind(), TokenKind::LParen) {
            proof {
                lemma_not_last(self.tokens_view(), self.position());
            }
            self.advance();
            let inner = match self.parse_expr(floats) {
                Ok(e) => e,
                Err(e) => {
                    return Err(e);
                },
            };
            match self.expect(TokenKind::RParen, ")") {
                Ok(()) => Ok(inner),
                Err(e) => Err(e),
            }
        } else if let TokenKind::Ident(name) = self.peek_kind() {
            let name = name.clone();
            self.advance();
            Ok(Expr::Column(name))
        } else if matches!(
            self.peek_kind(),
            TokenKind::Number(_) | TokenKind::StringLit(_) | TokenKind::Null | TokenKind::True
                | TokenKind::False
        ) {
            match self.parse_literal(floats) {
                Ok(v) => Ok(Expr::Literal(v)),
                Err(e) => Err(e),
            }
        } else {
            Err(self.error("a column, literal, or '('"))
        }
    }

    fn parse_literal<F: Fn(FloatOp) -> Option<u64>>(&mut self, floats: &F) -> (r: Result<
        Value,
        ParseError,
    >)
        requires
            old(self).wf(),
            float_unit_ok(*floats),
        ensures
            final(self).wf(),
            final(self).tokens_view() == old(self).tokens_view(),
            old(self).position() <= final(self).position(),
            outcome(
                r,
                final(self).position(),
                parse_literal_spec(float_semantics(*floats), old(self).tokens_view(), old(self).position()),
            ),
    {
        proof {
            self.lemma_wf();
        }
        let offset = self.peek().offset;
        if let TokenKind::Number(text) = self.peek_kind() {
            let text = text.clone();
            self.advance();
            return parse_number_literal(&text, offset, floats);
        }
        if let TokenKind::StringLit(text) = self.peek_kind() {
            let text = text.clone();
            self.advance();
            return Ok(Value::Text(text));
        }
        if matches!(self.peek_kind(), TokenKind::Null) {
            self.advance();
            Ok(Value::Null)
        } else if matches!(self.peek_kind(), TokenKind::True) {
            self.advance();
            Ok(Value::Boolean(true))
        } else if matches!(self.peek_kind(), TokenKind::False) {
            self.advance();
            Ok(Value::Boolean(false))
        } else {
            Err(self.error("a literal value"))
        }
    }
}

} // verus!
