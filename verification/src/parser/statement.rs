//! Statement parsing: one method per statement kind, and the loop over a
//! whole token stream.

use vstd::prelude::*;

use super::ast::{
    assignments_view, column_decls_view, exprs_view, opt_expr_view, statements_view, strings_view,
    ColumnDeclV, ExprV, StatementV,
};
use super::error::ParseErrorV;
use super::spec::{
    advance, assignment_tail_spec, column_decl_tail_spec, fold_negative_literal, ident_tail_spec,
    parse_assignment_spec, parse_column_decl_spec, parse_create_table_spec, parse_data_type_spec,
    parse_delete_spec, parse_insert_spec, parse_optional_where_spec, parse_value_spec, parse_select_columns_spec,
    parse_select_spec, parse_statement_spec, parse_statements_spec, parse_update_spec,
    skip_semicolons, type_named, value_tail_spec,
};
use super::{
    lemma_not_last, outcome, ColumnDecl, CreateTableStatement, DeleteStatement, Expr,
    InsertStatement, ParseError, Parser, SelectColumns, SelectStatement, Statement,
    UpdateStatement,
};
use crate::lexer::matches_upper_str;
use crate::lexer::token::TokenKind;
use crate::types::{f64_bits_negate, float_semantics, float_unit_ok, DataType, FloatOp, Value};

verus! {

/// The view of a parsing result.
pub open spec fn statements_result_view(r: Result<Vec<Statement>, ParseError>) -> Result<
    Seq<StatementV>,
    ParseErrorV,
> {
    match r {
        Ok(v) => Ok(statements_view(v@)),
        Err(e) => Err(e@),
    }
}

/// A `VALUES` entry as stored: `-` before a number literal folds into a
/// negative literal.
fn fold_negative_value(e: Expr) -> (r: Expr)
    ensures
        r@ == fold_negative_literal(e@),
{
    let ghost ev = e@;
    match e {
        Expr::Neg(inner) => {
            let inner = *inner;
            let ghost iv = inner@;
            assert(ev == Expr::<Seq<char>>::Neg(Box::new(iv)));
            match inner {
                Expr::Literal(Value::Integer(n)) => {
                    assert(iv == Expr::<Seq<char>>::Literal(Value::<Seq<char>>::Integer(n)));
                    if n > i64::MIN {
                        Expr::Literal(Value::Integer(-n))
                    } else {
                        Expr::Neg(Box::new(Expr::Literal(Value::Integer(n))))
                    }
                },
                Expr::Literal(Value::Float(bits)) => Expr::Literal(Value::Float(f64_bits_negate(bits))),
                other => Expr::Neg(Box::new(other)),
            }
        },
        other => other,
    }
}

/// The column type a type name denotes.
fn type_named_exec(name: &String) -> (r: Option<DataType>)
    ensures
        r == type_named(name@),
{
    let n = name.as_str();
    if matches_upper_str(n, "INTEGER") || matches_upper_str(n, "INT") {
        Some(DataType::Integer)
    } else if matches_upper_str(n, "FLOAT") || matches_upper_str(n, "REAL") || matches_upper_str(
        n,
        "DOUBLE",
    ) {
        Some(DataType::Float)
    } else if matches_upper_str(n, "TEXT") || matches_upper_str(n, "VARCHAR") || matches_upper_str(
        n,
        "STRING",
    ) {
        Some(DataType::Text)
    } else if matches_upper_str(n, "BOOLEAN") || matches_upper_str(n, "BOOL") {
        Some(DataType::Boolean)
    } else {
        None
    }
}

impl Parser {
    /// Consumes the parser and parses the whole token stream into zero or
    /// more statements, separated (and optionally terminated) by `;`.
    /// Fails on the first syntax error.
    pub fn parse<F: Fn(FloatOp) -> Option<u64>>(self, floats: &F) -> (r: Result<
        Vec<Statement>,
        ParseError,
    >)
        requires
            self.wf(),
            float_unit_ok(*floats),
        ensures
            statements_result_view(r) == parse_statements_spec(
                float_semantics(*floats),
                self.tokens_view(),
                self.position(),
                seq![],
            ),
    {
        let mut parser = self;
        parser.parse_all(floats)
    }

    fn parse_all<F: Fn(FloatOp) -> Option<u64>>(&mut self, floats: &F) -> (r: Result<
        Vec<Statement>,
        ParseError,
    >)
        requires
            old(self).wf(),
            float_unit_ok(*floats),
        ensures
            statements_result_view(r) == parse_statements_spec(
                float_semantics(*floats),
                old(self).tokens_view(),
                old(self).position(),
                seq![],
            ),
    {
        let ghost ts = self.tokens_view();
        let ghost fl = float_semantics(*floats);
        let ghost p0 = self.position();
        let mut statements: Vec<Statement> = Vec::new();
        assert(statements_view(statements@) =~= Seq::<StatementV>::empty());
        loop
            invariant
                self.wf(),
                self.tokens_view() == ts,
                ts == old(self).tokens_view(),
                p0 == old(self).position(),
                float_unit_ok(*floats),
                fl == float_semantics(*floats),
                parse_statements_spec(fl, ts, p0, seq![]) == parse_statements_spec(
                    fl,
                    ts,
                    self.position(),
                    statements_view(statements@),
                ),
            decreases ts.len() - self.position(),
        {
            let ghost p = self.position();
            proof {
                self.lemma_wf();
            }
            while self.check(&TokenKind::Semicolon)
                invariant
                    self.wf(),
                    self.tokens_view() == ts,
                    p <= self.position(),
                    skip_semicolons(ts, p) == skip_semicolons(ts, self.position()),
                decreases ts.len() - self.position(),
            {
                proof {
                    self.lemma_wf();
                    lemma_not_last(ts, self.position());
                }
                self.advance();
            }
            proof {
                self.lemma_wf();
            }
            if matches!(self.peek_kind(), TokenKind::Eof) {
                return Ok(statements);
            }
            let statement = match self.parse_statement(floats) {
                Ok(s) => s,
                Err(e) => {
                    return Err(e);
                },
            };
            let ghost before = statements_view(statements@);
            let ghost sv = statement@;
            statements.push(statement);
            assert(statements_view(statements@) =~= before.push(sv));
            proof {
                self.lemma_wf();
            }
            if matches!(self.peek_kind(), TokenKind::Semicolon) {
                self.advance();
            }
        }
    }

    /// One statement, dispatched on its leading keyword.
    fn parse_statement<F: Fn(FloatOp) -> Option<u64>>(&mut self, floats: &F) -> (r: Result<
        Statement,
        ParseError,
    >)
        requires
            old(self).wf(),
            float_unit_ok(*floats),
        ensures
            final(self).wf(),
            final(self).tokens_view() == old(self).tokens_view(),
            old(self).position() <= final(self).position(),
            r is Ok ==> old(self).position() < final(self).position(),
            outcome(
                r,
                final(self).position(),
                parse_statement_spec(float_semantics(*floats), old(self).tokens_view(), old(self).position()),
            ),
    {
        proof {
            self.lemma_wf();
        }
        if matches!(self.peek_kind(), TokenKind::Select) {
            match self.parse_select(floats) {
                Ok(s) => Ok(Statement::Select(s)),
                Err(e) => Err(e),
            }
        } else if matches!(self.peek_kind(), TokenKind::Insert) {
            match self.parse_insert(floats) {
                Ok(s) => Ok(Statement::Insert(s)),
                Err(e) => Err(e),
            }
        } else if matches!(self.peek_kind(), TokenKind::Update) {
            match self.parse_update(floats) {
                Ok(s) => Ok(Statement::Update(s)),
                Err(e) => Err(e),
            }
        } else if matches!(self.peek_kind(), TokenKind::Delete) {
            match self.parse_delete(floats) {
                Ok(s) => Ok(Statement::Delete(s)),
                Err(e) => Err(e),
            }
        } else if matches!(self.peek_kind(), TokenKind::Create) {
            match self.parse_create_table() {
                Ok(s) => Ok(Statement::CreateTable(s)),
                Err(e) => Err(e),
            }
        } else {
            Err(self.error("a statement (SELECT, INSERT, UPDATE, DELETE, or CREATE TABLE)"))
        }
    }

    /// `* | ident (, ident)*`
    fn parse_select_columns(&mut self) -> (r: Result<SelectColumns, ParseError>)
        requires
            old(self).wf(),
        ensures
            final(self).wf(),
            final(self).tokens_view() == old(self).tokens_view(),
            old(self).position() <= final(self).position(),
            outcome(r, final(self).position(), parse_select_columns_spec(old(self).tokens_view(), old(self).position())),
    {
        let ghost ts = self.tokens_view();
        proof {
            self.lemma_wf();
        }
        if matches!(self.peek_kind(), TokenKind::Star) {
            self.advance();
            return Ok(SelectColumns::All);
        }
        let first = match self.expect_ident() {
            Ok(name) => name,
            Err(e) => {
                return Err(e);
            },
        };
        let ghost p1 = self.position();
        let ghost start = seq![first@];
        let mut columns: Vec<String> = Vec::new();
        columns.push(first);
        assert(strings_view(columns@) =~= start);
        loop
            invariant
                self.wf(),
                self.tokens_view() == ts,
                ts == old(self).tokens_view(),
                old(self).position() < p1 <= self.position(),
                parse_select_columns_spec(ts, old(self).position()) == match ident_tail_spec(ts, start, p1) {
                    Err(e) => Err(e),
                    Ok((names, r)) => Ok((SelectColumns::List(names), r)),
                },
                ident_tail_spec(ts, start, p1) == ident_tail_spec(ts, strings_view(columns@), self.position()),
            decreases ts.len() - self.position(),
        {
            proof {
                self.lemma_wf();
            }
            if !matches!(self.peek_kind(), TokenKind::Comma) {
                return Ok(SelectColumns::List(columns));
            }
            proof {
                lemma_not_last(ts, self.position());
            }
            self.advance();
            let name = match self.expect_ident() {
                Ok(name) => name,
                Err(e) => {
                    return Err(e);
                },
            };
            let ghost before = strings_view(columns@);
            let ghost nv = name@;
            columns.push(name);
            assert(strings_view(columns@) =~= before.push(nv));
        }
    }

    /// `(WHERE expr)?`
    fn parse_optional_where<F: Fn(FloatOp) -> Option<u64>>(&mut self, floats: &F) -> (r: Result<
        Option<Expr>,
        ParseError,
    >)
        requires
            old(self).wf(),
            float_unit_ok(*floats),
        ensures
            final(self).wf(),
            final(self).tokens_view() == old(self).tokens_view(),
            old(self).position() <= final(self).position(),
            match r {
                Ok(f) => parse_optional_where_spec(
                    float_semantics(*floats),
                    old(self).tokens_view(),
                    old(self).position(),
                ) == Ok::<(Option<ExprV>, int), ParseErrorV>((opt_expr_view(f), final(self).position())),
                Err(e) => parse_optional_where_spec(
                    float_semantics(*floats),
                    old(self).tokens_view(),
                    old(self).position(),
                ) == Err::<(Option<ExprV>, int), ParseErrorV>(e@),
            },
    {
        proof {
            self.lemma_wf();
        }
        if matches!(self.peek_kind(), TokenKind::Where) {
            proof {
                lemma_not_last(self.tokens_view(), self.position());
            }
            self.advance();
            match self.parse_expr(floats) {
                Ok(e) => Ok(Some(e)),
                Err(e) => Err(e),
            }
        } else {
            Ok(None)
        }
    }

    /// `SELECT columns FROM ident where?`
    fn parse_select<F: Fn(FloatOp) -> Option<u64>>(&mut self, floats: &F) -> (r: Result<
        SelectStatement,
        ParseError,
    >)
        requires
            old(self).wf(),
            float_unit_ok(*floats),
        ensures
            final(self).wf(),
            final(self).tokens_view() == old(self).tokens_view(),
            old(self).position() <= final(self).position(),
            r is Ok ==> old(self).position() < final(self).position(),
            outcome(
                r,
                final(self).position(),
                parse_select_spec(float_semantics(*floats), old(self).tokens_view(), old(self).position()),
            ),
    {
        match self.expect(TokenKind::Select, "SELECT") {
            Ok(()) => {},
            Err(e) => {
                return Err(e);
            },
        }
        let columns = match self.parse_select_columns() {
            Ok(c) => c,
            Err(e) => {
                return Err(e);
            },
        };
        match self.expect(TokenKind::From, "FROM") {
            Ok(()) => {},
            Err(e) => {
                return Err(e);
            },
        }
        let table = match self.expect_ident() {
            Ok(t) => t,
            Err(e) => {
                return Err(e);
            },
        };
        let filter = match self.parse_optional_where(floats) {
            Ok(f) => f,
            Err(e) => {
                return Err(e);
            },
        };
        Ok(SelectStatement { columns, table, filter })
    }

    /// One `VALUES` entry: an expression, with a negated number literal
    /// folded into a negative literal; an entry that is just `-` and a
    /// string or boolean literal is [`ParseError::NonNumericNegation`].
    fn parse_value<F: Fn(FloatOp) -> Option<u64>>(&mut self, floats: &F) -> (r: Result<Expr, ParseError>)
        requires
            old(self).wf(),
            float_unit_ok(*floats),
        ensures
            final(self).wf(),
            final(self).tokens_view() == old(self).tokens_view(),
            old(self).position() <= final(self).position(),
            outcome(
                r,
                final(self).position(),
                parse_value_spec(float_semantics(*floats), old(self).tokens_view(), old(self).position()),
            ),
    {
        let start = self.mark();
        let negated = self.negated_text_or_bool();
        let e = match self.parse_expr(floats) {
            Ok(e) => e,
            Err(e) => {
                return Err(e);
            },
        };
        if let Some(tok) = negated {
            if self.mark() - start == 2 {
                return Err(ParseError::NonNumericNegation { found: tok.kind, offset: tok.offset });
            }
        }
        Ok(fold_negative_value(e))
    }

    /// `INSERT INTO ident VALUES ( value (, value)* )`
    fn parse_insert<F: Fn(FloatOp) -> Option<u64>>(&mut self, floats: &F) -> (r: Result<
        InsertStatement,
        ParseError,
    >)
        requires
            old(self).wf(),
            float_unit_ok(*floats),
        ensures
            final(self).wf(),
            final(self).tokens_view() == old(self).tokens_view(),
            old(self).position() <= final(self).position(),
            r is Ok ==> old(self).position() < final(self).position(),
            outcome(
                r,
                final(self).position(),
                parse_insert_spec(float_semantics(*floats), old(self).tokens_view(), old(self).position()),
            ),
    {
        let ghost ts = self.tokens_view();
        let ghost fl = float_semantics(*floats);
        match self.expect(TokenKind::Insert, "INSERT") {
            Ok(()) => {},
            Err(e) => {
                return Err(e);
            },
        }
        match self.expect(TokenKind::Into, "INTO") {
            Ok(()) => {},
            Err(e) => {
                return Err(e);
            },
        }
        let table = match self.expect_ident() {
            Ok(t) => t,
            Err(e) => {
                return Err(e);
            },
        };
        match self.expect(TokenKind::Values, "VALUES") {
            Ok(()) => {},
            Err(e) => {
                return Err(e);
            },
        }
        match self.expect(TokenKind::LParen, "(") {
            Ok(()) => {},
            Err(e) => {
                return Err(e);
            },
        }
        let first = match self.parse_value(floats) {
            Ok(e) => e,
            Err(e) => {
                return Err(e);
            },
        };
        let ghost p6 = self.position();
        let ghost start = seq![first@];
        let mut values: Vec<Expr> = Vec::new();
        values.push(first);
        assert(exprs_view(values@) =~= start);
        while self.check(&TokenKind::Comma)
            invariant
                self.wf(),
                self.tokens_view() == ts,
                ts == old(self).tokens_view(),
                float_unit_ok(*floats),
                fl == float_semantics(*floats),
                old(self).position() < p6 <= self.position(),
                parse_insert_spec(fl, ts, old(self).position()) == match value_tail_spec(fl, ts, start, p6) {
                    Err(e) => Err(e),
                    Ok((vals, p7)) => match super::spec::expect_spec(ts, p7, TokenKind::RParen, ")"@) {
                        Err(e) => Err(e),
                        Ok(p8) => Ok((super::ast::InsertStatement { table: table@, values: vals }, p8)),
                    },
                },
                value_tail_spec(fl, ts, start, p6) == value_tail_spec(fl, ts, exprs_view(values@), self.position()),
            decreases ts.len() - self.position(),
        {
            proof {
                self.lemma_wf();
                lemma_not_last(ts, self.position());
            }
            self.advance();
            let v = match self.parse_value(floats) {
                Ok(e) => e,
                Err(e) => {
                    return Err(e);
                },
            };
            let ghost before = exprs_view(values@);
            let ghost vv = v@;
            values.push(v);
            assert(exprs_view(values@) =~= before.push(vv));
        }
        match self.expect(TokenKind::RParen, ")") {
            Ok(()) => {},
            Err(e) => {
                return Err(e);
            },
        }
        Ok(InsertStatement { table, values })
    }

    /// `ident = expr`
    fn parse_assignment<F: Fn(FloatOp) -> Option<u64>>(&mut self, floats: &F) -> (r: Result<
        (String, Expr),
        ParseError,
    >)
        requires
            old(self).wf(),
            float_unit_ok(*floats),
        ensures
            final(self).wf(),
            final(self).tokens_view() == old(self).tokens_view(),
            old(self).position() <= final(self).position(),
            outcome(
                r,
                final(self).position(),
                parse_assignment_spec(float_semantics(*floats), old(self).tokens_view(), old(self).position()),
            ),
    {
        let column = match self.expect_ident() {
            Ok(c) => c,
            Err(e) => {
                return Err(e);
            },
        };
        match self.expect(TokenKind::Eq, "=") {
            Ok(()) => {},
            Err(e) => {
                return Err(e);
            },
        }
        match self.parse_expr(floats) {
            Ok(value) => Ok((column, value)),
            Err(e) => Err(e),
        }
    }

    /// `UPDATE ident SET assignment (, assignment)* where?`
    fn parse_update<F: Fn(FloatOp) -> Option<u64>>(&mut self, floats: &F) -> (r: Result<
        UpdateStatement,
        ParseError,
    >)
        requires
            old(self).wf(),
            float_unit_ok(*floats),
        ensures
            final(self).wf(),
            final(self).tokens_view() == old(self).tokens_view(),
            old(self).position() <= final(self).position(),
            r is Ok ==> old(self).position() < final(self).position(),
            outcome(
                r,
                final(self).position(),
                parse_update_spec(float_semantics(*floats), old(self).tokens_view(), old(self).position()),
            ),
    {
        let ghost ts = self.tokens_view();
        let ghost fl = float_semantics(*floats);
        match self.expect(TokenKind::Update, "UPDATE") {
            Ok(()) => {},
            Err(e) => {
                return Err(e);
            },
        }
        let table = match self.expect_ident() {
            Ok(t) => t,
            Err(e) => {
                return Err(e);
            },
        };
        match self.expect(TokenKind::SetKw, "SET") {
            Ok(()) => {},
            Err(e) => {
                return Err(e);
            },
        }
        let first = match self.parse_assignment(floats) {
            Ok(a) => a,
            Err(e) => {
                return Err(e);
            },
        };
        let ghost p4 = self.position();
        let ghost start = seq![first@];
        let mut assignments: Vec<(String, Expr)> = Vec::new();
        assignments.push(first);
        assert(assignments_view(assignments@) =~= start);
        while self.check(&TokenKind::Comma)
            invariant
                self.wf(),
                self.tokens_view() == ts,
                ts == old(self).tokens_view(),
                float_unit_ok(*floats),
                fl == float_semantics(*floats),
                old(self).position() < p4 <= self.position(),
                parse_update_spec(fl, ts, old(self).position()) == match assignment_tail_spec(fl, ts, start, p4) {
                    Err(e) => Err(e),
                    Ok((assignments, p5)) => match parse_optional_where_spec(fl, ts, p5) {
                        Err(e) => Err(e),
                        Ok((filter, p6)) => Ok(
                            (super::ast::UpdateStatement { table: table@, assignments, filter }, p6),
                        ),
                    },
                },
                assignment_tail_spec(fl, ts, start, p4) == assignment_tail_spec(
                    fl,
                    ts,
                    assignments_view(assignments@),
                    self.position(),
                ),
            decreases ts.len() - self.position(),
        {
            proof {
                self.lemma_wf();
                lemma_not_last(ts, self.position());
            }
            self.advance();
            let a = match self.parse_assignment(floats) {
                Ok(a) => a,
                Err(e) => {
                    return Err(e);
                },
            };
            let ghost before = assignments_view(assignments@);
            let ghost av = a@;
            assignments.push(a);
            assert(assignments_view(assignments@) =~= before.push(av));
        }
        let filter = match self.parse_optional_where(floats) {
            Ok(f) => f,
            Err(e) => {
                return Err(e);
            },
        };
        Ok(UpdateStatement { table, assignments, filter })
    }

    /// `DELETE FROM ident where?`
    fn parse_delete<F: Fn(FloatOp) -> Option<u64>>(&mut self, floats: &F) -> (r: Result<
        DeleteStatement,
        ParseError,
    >)
        requires
            old(self).wf(),
            float_unit_ok(*floats),
        ensures
            final(self).wf(),
            final(self).tokens_view() == old(self).tokens_view(),
            old(self).position() <= final(self).position(),
            r is Ok ==> old(self).position() < final(self).position(),
            outcome(
                r,
                final(self).position(),
                parse_delete_spec(float_semantics(*floats), old(self).tokens_view(), old(self).position()),
            ),
    {
        match self.expect(TokenKind::Delete, "DELETE") {
            Ok(()) => {},
            Err(e) => {
                return Err(e);
            },
        }
        match self.expect(TokenKind::From, "FROM") {
            Ok(()) => {},
            Err(e) => {
                return Err(e);
            },
        }
        let table = match self.expect_ident() {
            Ok(t) => t,
            Err(e) => {
                return Err(e);
            },
        };
        let filter = match self.parse_optional_where(floats) {
            Ok(f) => f,
            Err(e) => {
                return Err(e);
            },
        };
        Ok(DeleteStatement { table, filter })
    }

    /// A type name: any identifier, checked against the known names
    /// (`INTEGER`/`INT`, `FLOAT`/`REAL`/`DOUBLE`, `TEXT`/`VARCHAR`/`STRING`,
    /// `BOOLEAN`/`BOOL`, in any case).
    fn parse_data_type(&mut self) -> (r: Result<DataType, ParseError>)
        requires
            old(self).wf(),
        ensures
            final(self).wf(),
            final(self).tokens_view() == old(self).tokens_view(),
            old(self).position() <= final(self).position(),
            outcome(r, final(self).position(), parse_data_type_spec(old(self).tokens_view(), old(self).position())),
            old(self).tokens_view()[old(self).position()].kind is Ident ==> final(self).position()
                == old(self).position() + 1,
            !(old(self).tokens_view()[old(self).position()].kind is Ident) ==> final(self).position()
                == old(self).position(),
    {
        let offset = self.peek().offset;
        let name = match self.expect_ident() {
            Ok(n) => n,
            Err(e) => {
                return Err(e);
            },
        };
        match type_named_exec(&name) {
            Some(ty) => Ok(ty),
            None => Err(ParseError::UnknownType { name, offset }),
        }
    }

    /// `ident type_name (NOT NULL)?`
    fn parse_column_decl(&mut self) -> (r: Result<ColumnDecl, ParseError>)
        requires
            old(self).wf(),
        ensures
            final(self).wf(),
            final(self).tokens_view() == old(self).tokens_view(),
            old(self).position() <= final(self).position(),
            outcome(r, final(self).position(), parse_column_decl_spec(old(self).tokens_view(), old(self).position())),
    {
        let name = match self.expect_ident() {
            Ok(n) => n,
            Err(e) => {
                return Err(e);
            },
        };
        let ty = match self.parse_data_type() {
            Ok(t) => t,
            Err(e) => {
                return Err(e);
            },
        };
        proof {
            self.lemma_wf();
        }
        let mut nullable = true;
        if matches!(self.peek_kind(), TokenKind::Not) {
            proof {
                lemma_not_last(self.tokens_view(), self.position());
            }
            self.advance();
            match self.expect(TokenKind::Null, "NULL") {
                Ok(()) => {},
                Err(e) => {
                    return Err(e);
                },
            }
            nullable = false;
        }
        Ok(ColumnDecl { name, ty, nullable })
    }

    /// `CREATE TABLE ident ( column_decl (, column_decl)* )`
    fn parse_create_table(&mut self) -> (r: Result<CreateTableStatement, ParseError>)
        requires
            old(self).wf(),
        ensures
            final(self).wf(),
            final(self).tokens_view() == old(self).tokens_view(),
            old(self).position() <= final(self).position(),
            r is Ok ==> old(self).position() < final(self).position(),
            outcome(r, final(self).position(), parse_create_table_spec(old(self).tokens_view(), old(self).position())),
    {
        let ghost ts = self.tokens_view();
        match self.expect(TokenKind::Create, "CREATE") {
            Ok(()) => {},
            Err(e) => {
                return Err(e);
            },
        }
        match self.expect(TokenKind::Table, "TABLE") {
            Ok(()) => {},
            Err(e) => {
                return Err(e);
            },
        }
        let table = match self.expect_ident() {
            Ok(t) => t,
            Err(e) => {
                return Err(e);
            },
        };
        match self.expect(TokenKind::LParen, "(") {
            Ok(()) => {},
            Err(e) => {
                return Err(e);
            },
        }
        let first = match self.parse_column_decl() {
            Ok(c) => c,
            Err(e) => {
                return Err(e);
            },
        };
        let ghost p5 = self.position();
        let ghost start = seq![first@];
        let mut columns: Vec<ColumnDecl> = Vec::new();
        columns.push(first);
        assert(column_decls_view(columns@) =~= start);
        while self.check(&TokenKind::Comma)
            invariant
                self.wf(),
                self.tokens_view() == ts,
                ts == old(self).tokens_view(),
                old(self).position() < p5 <= self.position(),
                parse_create_table_spec(ts, old(self).position()) == match column_decl_tail_spec(ts, start, p5) {
                    Err(e) => Err(e),
                    Ok((columns, p6)) => match super::spec::expect_spec(ts, p6, TokenKind::RParen, ")"@) {
                        Err(e) => Err(e),
                        Ok(p7) => Ok((super::ast::CreateTableStatement { table: table@, columns }, p7)),
                    },
                },
                column_decl_tail_spec(ts, start, p5) == column_decl_tail_spec(
                    ts,
                    column_decls_view(columns@),
                    self.position(),
                ),
            decreases ts.len() - self.position(),
        {
            proof {
                self.lemma_wf();
                lemma_not_last(ts, self.position());
            }
            self.advance();
            let c = match self.parse_column_decl() {
                Ok(c) => c,
                Err(e) => {
                    return Err(e);
                },
            };
            let ghost before = column_decls_view(columns@);
            let ghost cv = c@;
            columns.push(c);
            assert(column_decls_view(columns@) =~= before.push(cv));
        }
        match self.expect(TokenKind::RParen, ")") {
            Ok(()) => {},
            Err(e) => {
                return Err(e);
            },
        }
        Ok(CreateTableStatement { table, columns })
    }
}

} // verus!
