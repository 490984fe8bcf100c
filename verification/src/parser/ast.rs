//! Abstract syntax tree produced by the [`Parser`](super::Parser).
//! Statements own all their data (no borrows from the token stream) so
//! they can outlive parsing and be passed on to later pipeline stages.
//!
//! Each type is generic over its text type `S` (and, where it holds a
//! list, over the list type `L`): the defaults are the executable types,
//! and the instances over `Seq<char>` and `Seq<..>` are their views.

use vstd::prelude::*;

use crate::types::{DataType, Value, ValueV};

verus! {

/// A single parsed SQL statement.
#[derive(Debug, PartialEq)]
pub enum Statement {
    Select(SelectStatement),
    Insert(InsertStatement),
    Update(UpdateStatement),
    Delete(DeleteStatement),
    CreateTable(CreateTableStatement),
}

/// `SELECT <columns> FROM <table> [WHERE <filter>]`
#[derive(Debug, PartialEq)]
pub struct SelectStatement<S = String, L = Vec<String>> {
    pub columns: SelectColumns<L>,
    pub table: S,
    pub filter: Option<Expr<S>>,
}

/// The column list of a `SELECT`: `*` or an explicit list.
#[derive(Debug, Clone, PartialEq)]
pub enum SelectColumns<L = Vec<String>> {
    /// `SELECT *`
    All,
    /// `SELECT a, b, c`
    List(L),
}

/// `INSERT INTO <table> VALUES (<expr> ...)`
#[derive(Debug, Clone, PartialEq)]
pub struct InsertStatement<S = String, L = Vec<Expr>> {
    pub table: S,
    pub values: L,
}

/// `UPDATE <table> SET <col> = <expr>, ... [WHERE <filter>]`
#[derive(Debug, PartialEq)]
pub struct UpdateStatement<S = String, L = Vec<(String, Expr)>> {
    pub table: S,
    pub assignments: L,
    pub filter: Option<Expr<S>>,
}

/// `DELETE FROM <table> [WHERE <filter>]`
#[derive(Debug, PartialEq)]
pub struct DeleteStatement<S = String> {
    pub table: S,
    pub filter: Option<Expr<S>>,
}

/// `CREATE TABLE <table> (<columns>)`
#[derive(Debug, Clone, PartialEq)]
pub struct CreateTableStatement<S = String, L = Vec<ColumnDecl>> {
    pub table: S,
    pub columns: L,
}

/// A single column declaration inside `CREATE TABLE`, e.g.
/// `id INTEGER NOT NULL`.
#[derive(Debug, Clone, PartialEq)]
pub struct ColumnDecl<S = String> {
    pub name: S,
    pub ty: DataType,
    /// `true` unless the declaration is followed by `NOT NULL`.
    pub nullable: bool,
}

/// An expression tree.
#[derive(Debug, PartialEq)]
pub enum Expr<S = String> {
    /// A bare column reference, e.g. `age` in `WHERE age > 3`.
    Column(S),
    /// A literal value, e.g. `3` or `'x'`.
    Literal(Value<S>),
    /// `NOT <expr>`
    Not(Box<Expr<S>>),
    /// `-<expr>`, e.g. `-price` or `-1`.
    Neg(Box<Expr<S>>),
    /// `<left> <op> <right>`
    BinaryOp { left: Box<Expr<S>>, op: BinaryOp, right: Box<Expr<S>> },
    /// `<expr> IS NULL` (`negated: false`) or `<expr> IS NOT NULL`.
    IsNull { expr: Box<Expr<S>>, negated: bool },
}

/// Operators usable inside an [`Expr::BinaryOp`].
#[derive(Debug, Clone, Copy, PartialEq, Eq, Structural)]
pub enum BinaryOp {
    And,
    Or,
    Eq,
    NotEq,
    Lt,
    LtEq,
    Gt,
    GtEq,
    Add,
    Sub,
    Mul,
    Div,
}

// ---------------------------------------------------------------------
// Views
// ---------------------------------------------------------------------

pub type ExprV = Expr<Seq<char>>;

pub type SelectStatementV = SelectStatement<Seq<char>, Seq<Seq<char>>>;

pub type InsertStatementV = InsertStatement<Seq<char>, Seq<ExprV>>;

pub type UpdateStatementV = UpdateStatement<Seq<char>, Seq<(Seq<char>, ExprV)>>;

pub type DeleteStatementV = DeleteStatement<Seq<char>>;

pub type ColumnDeclV = ColumnDecl<Seq<char>>;

pub type CreateTableStatementV = CreateTableStatement<Seq<char>, Seq<ColumnDeclV>>;

/// The view of a [`Statement`].
pub enum StatementV {
    Select(SelectStatementV),
    Insert(InsertStatementV),
    Update(UpdateStatementV),
    Delete(DeleteStatementV),
    CreateTable(CreateTableStatementV),
}

pub open spec fn expr_view(e: Expr) -> ExprV
    decreases e,
{
    match e {
        Expr::Column(s) => Expr::Column(s@),
        Expr::Literal(v) => Expr::Literal(v@),
        Expr::Not(b) => Expr::Not(Box::new(expr_view(*b))),
        Expr::Neg(b) => Expr::Neg(Box::new(expr_view(*b))),
        Expr::BinaryOp { left, op, right } => Expr::BinaryOp {
            left: Box::new(expr_view(*left)),
            op,
            right: Box::new(expr_view(*right)),
        },
        Expr::IsNull { expr, negated } => Expr::IsNull { expr: Box::new(expr_view(*expr)), negated },
    }
}

impl Clone for Expr {
    fn clone(&self) -> (r: Self)
        ensures
            r@ == self@,
        decreases self,
    {
        match self {
            Expr::Column(s) => Expr::Column(s.clone()),
            Expr::Literal(v) => Expr::Literal(v.duplicate()),
            Expr::Not(b) => Expr::Not(Box::new((**b).clone())),
            Expr::Neg(b) => Expr::Neg(Box::new((**b).clone())),
            Expr::BinaryOp { left, op, right } => Expr::BinaryOp {
                left: Box::new((**left).clone()),
                op: *op,
                right: Box::new((**right).clone()),
            },
            Expr::IsNull { expr, negated } => Expr::IsNull {
                expr: Box::new((**expr).clone()),
                negated: *negated,
            },
        }
    }
}

impl View for Expr {
    type V = ExprV;

    open spec fn view(&self) -> ExprV {
        expr_view(*self)
    }
}

pub open spec fn opt_expr_view(e: Option<Expr>) -> Option<ExprV> {
    match e {
        Some(e) => Some(e@),
        None => None,
    }
}

pub open spec fn strings_view(s: Seq<String>) -> Seq<Seq<char>> {
    s.map_values(|x: String| x@)
}

pub open spec fn exprs_view(s: Seq<Expr>) -> Seq<ExprV> {
    s.map_values(|e: Expr| e@)
}

pub open spec fn assignments_view(s: Seq<(String, Expr)>) -> Seq<(Seq<char>, ExprV)> {
    s.map_values(|a: (String, Expr)| (a.0@, a.1@))
}

impl View for ColumnDecl {
    type V = ColumnDeclV;

    open spec fn view(&self) -> ColumnDeclV {
        ColumnDecl { name: self.name@, ty: self.ty, nullable: self.nullable }
    }
}

pub open spec fn column_decls_view(s: Seq<ColumnDecl>) -> Seq<ColumnDeclV> {
    s.map_values(|c: ColumnDecl| c@)
}

impl View for SelectColumns {
    type V = SelectColumns<Seq<Seq<char>>>;

    open spec fn view(&self) -> SelectColumns<Seq<Seq<char>>> {
        match self {
            SelectColumns::All => SelectColumns::All,
            SelectColumns::List(l) => SelectColumns::List(strings_view(l@)),
        }
    }
}

impl View for SelectStatement {
    type V = SelectStatementV;

    open spec fn view(&self) -> SelectStatementV {
        SelectStatement {
            columns: self.columns@,
            table: self.table@,
            filter: opt_expr_view(self.filter),
        }
    }
}

impl View for InsertStatement {
    type V = InsertStatementV;

    open spec fn view(&self) -> InsertStatementV {
        InsertStatement { table: self.table@, values: exprs_view(self.values@) }
    }
}

impl View for UpdateStatement {
    type V = UpdateStatementV;

    open spec fn view(&self) -> UpdateStatementV {
        UpdateStatement {
            table: self.table@,
            assignments: assignments_view(self.assignments@),
            filter: opt_expr_view(self.filter),
        }
    }
}

impl View for DeleteStatement {
    type V = DeleteStatementV;

    open spec fn view(&self) -> DeleteStatementV {
        DeleteStatement { table: self.table@, filter: opt_expr_view(self.filter) }
    }
}

impl View for CreateTableStatement {
    type V = CreateTableStatementV;

    open spec fn view(&self) -> CreateTableStatementV {
        CreateTableStatement { table: self.table@, columns: column_decls_view(self.columns@) }
    }
}

impl View for Statement {
    type V = StatementV;

    open spec fn view(&self) -> StatementV {
        match self {
            Statement::Select(s) => StatementV::Select(s@),
            Statement::Insert(s) => StatementV::Insert(s@),
            Statement::Update(s) => StatementV::Update(s@),
            Statement::Delete(s) => StatementV::Delete(s@),
            Statement::CreateTable(s) => StatementV::CreateTable(s@),
        }
    }
}

pub open spec fn statements_view(s: Seq<Statement>) -> Seq<StatementV> {
    s.map_values(|st: Statement| st@)
}

} // verus!
