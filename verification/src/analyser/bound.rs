//! The "bound" AST: a [`Statement`](crate::parser::Statement) tree after
//! it has been checked against a [`Catalog`](crate::catalog::Catalog).
//! Column references are resolved to a concrete index and type, so the
//! executor never needs to resolve names again.

use vstd::prelude::*;

use crate::parser::ast::{CreateTableStatement, CreateTableStatementV};
use crate::parser::BinaryOp;
use crate::types::{DataType, Value, ValueV};

verus! {

/// A statement after binding. Mirrors [`Statement`](crate::parser::Statement)
/// one for one, except `CreateTable` is passed through unchanged as there is
/// no schema to bind against when the schema is what is being defined.
#[derive(Debug, PartialEq)]
pub enum BoundStatement {
    Select(BoundSelect),
    Insert(BoundInsert),
    Update(BoundUpdate),
    Delete(BoundDelete),
    CreateTable(CreateTableStatement),
}

/// A resolved reference to a table column: its declared name, its position
/// in the table's schema (used to index into a row), and its declared type.
#[derive(Debug, Clone, PartialEq)]
pub struct BoundColumn<S = String> {
    pub name: S,
    pub index: usize,
    pub ty: DataType,
}

/// `SELECT <columns> FROM <table> [WHERE <filter>]`, bound.
#[derive(Debug, PartialEq)]
pub struct BoundSelect<S = String, L = Vec<BoundColumn>> {
    pub table: S,
    /// Resolved in schema order for `SELECT *`, or as written for an
    /// explicit column list.
    pub columns: L,
    pub filter: Option<BoundExpr<S>>,
}

/// `INSERT INTO <table> VALUES (<values>)`, bound.
#[derive(Debug, Clone, PartialEq)]
pub struct BoundInsert<S = String, L = Vec<BoundExpr>> {
    pub table: S,
    /// Positional, one per column in schema order. Never contains a
    /// [`BoundExpr::Column`].
    pub values: L,
}

/// `UPDATE <table> SET <col> = <value>, ... [WHERE <filter>]`, bound.
#[derive(Debug, PartialEq)]
pub struct BoundUpdate<S = String, L = Vec<(BoundColumn, BoundExpr)>> {
    pub table: S,
    pub assignments: L,
    pub filter: Option<BoundExpr<S>>,
}

/// `DELETE FROM <table> [WHERE <filter>]`, bound.
#[derive(Debug, PartialEq)]
pub struct BoundDelete<S = String> {
    pub table: S,
    pub filter: Option<BoundExpr<S>>,
}

/// An expression after binding: column references carry their resolved
/// index and type instead of a bare name.
#[derive(Debug, PartialEq)]
pub enum BoundExpr<S = String> {
    Column { name: S, index: usize, ty: DataType },
    Literal(Value<S>),
    Not(Box<BoundExpr<S>>),
    Neg(Box<BoundExpr<S>>),
    BinaryOp { left: Box<BoundExpr<S>>, op: BinaryOp, right: Box<BoundExpr<S>> },
    IsNull { expr: Box<BoundExpr<S>>, negated: bool },
}

// ---------------------------------------------------------------------
// Views
// ---------------------------------------------------------------------

pub type BoundExprV = BoundExpr<Seq<char>>;

pub type BoundColumnV = BoundColumn<Seq<char>>;

pub type BoundSelectV = BoundSelect<Seq<char>, Seq<BoundColumnV>>;

pub type BoundInsertV = BoundInsert<Seq<char>, Seq<BoundExprV>>;

pub type BoundUpdateV = BoundUpdate<Seq<char>, Seq<(BoundColumnV, BoundExprV)>>;

pub type BoundDeleteV = BoundDelete<Seq<char>>;

/// The view of a [`BoundStatement`].
pub enum BoundStatementV {
    Select(BoundSelectV),
    Insert(BoundInsertV),
    Update(BoundUpdateV),
    Delete(BoundDeleteV),
    CreateTable(CreateTableStatementV),
}

pub open spec fn bound_expr_view(e: BoundExpr) -> BoundExprV
    decreases e,
{
    match e {
        BoundExpr::Column { name, index, ty } => BoundExpr::Column { name: name@, index, ty },
        BoundExpr::Literal(v) => BoundExpr::Literal(v@),
        BoundExpr::Not(b) => BoundExpr::Not(Box::new(bound_expr_view(*b))),
        BoundExpr::Neg(b) => BoundExpr::Neg(Box::new(bound_expr_view(*b))),
        BoundExpr::BinaryOp { left, op, right } => BoundExpr::BinaryOp {
            left: Box::new(bound_expr_view(*left)),
            op,
            right: Box::new(bound_expr_view(*right)),
        },
        BoundExpr::IsNull { expr, negated } => BoundExpr::IsNull {
            expr: Box::new(bound_expr_view(*expr)),
            negated,
        },
    }
}

impl View for BoundExpr {
    type V = BoundExprV;

    open spec fn view(&self) -> BoundExprV {
        bound_expr_view(*self)
    }
}

impl Clone for BoundExpr {
    fn clone(&self) -> (r: Self)
        ensures
            r@ == self@,
        decreases self,
    {
        match self {
            BoundExpr::Column { name, index, ty } => BoundExpr::Column {
                name: name.clone(),
                index: *index,
                ty: *ty,
            },
            BoundExpr::Literal(v) => BoundExpr::Literal(v.duplicate()),
            BoundExpr::Not(b) => BoundExpr::Not(Box::new((**b).clone())),
            BoundExpr::Neg(b) => BoundExpr::Neg(Box::new((**b).clone())),
            BoundExpr::BinaryOp { left, op, right } => BoundExpr::BinaryOp {
                left: Box::new((**left).clone()),
                op: *op,
                right: Box::new((**right).clone()),
            },
            BoundExpr::IsNull { expr, negated } => BoundExpr::IsNull {
                expr: Box::new((**expr).clone()),
                negated: *negated,
            },
        }
    }
}

pub open spec fn opt_bound_expr_view(e: Option<BoundExpr>) -> Option<BoundExprV> {
    match e {
        Some(e) => Some(e@),
        None => None,
    }
}

impl View for BoundColumn {
    type V = BoundColumnV;

    open spec fn view(&self) -> BoundColumnV {
        BoundColumn { name: self.name@, index: self.index, ty: self.ty }
    }
}

pub open spec fn bound_columns_view(s: Seq<BoundColumn>) -> Seq<BoundColumnV> {
    s.map_values(|c: BoundColumn| c@)
}

pub open spec fn bound_exprs_view(s: Seq<BoundExpr>) -> Seq<BoundExprV> {
    s.map_values(|e: BoundExpr| e@)
}

pub open spec fn bound_assignments_view(s: Seq<(BoundColumn, BoundExpr)>) -> Seq<
    (BoundColumnV, BoundExprV),
> {
    s.map_values(|a: (BoundColumn, BoundExpr)| (a.0@, a.1@))
}

impl View for BoundSelect {
    type V = BoundSelectV;

    open spec fn view(&self) -> BoundSelectV {
        BoundSelect {
            table: self.table@,
            columns: bound_columns_view(self.columns@),
            filter: opt_bound_expr_view(self.filter),
        }
    }
}

impl View for BoundInsert {
    type V = BoundInsertV;

    open spec fn view(&self) -> BoundInsertV {
        BoundInsert { table: self.table@, values: bound_exprs_view(self.values@) }
    }
}

impl View for BoundUpdate {
    type V = BoundUpdateV;

    open spec fn view(&self) -> BoundUpdateV {
        BoundUpdate {
            table: self.table@,
            assignments: bound_assignments_view(self.assignments@),
            filter: opt_bound_expr_view(self.filter),
        }
    }
}

impl View for BoundDelete {
    type V = BoundDeleteV;

    open spec fn view(&self) -> BoundDeleteV {
        BoundDelete { table: self.table@, filter: opt_bound_expr_view(self.filter) }
    }
}

impl View for BoundStatement {
    type V = BoundStatementV;

    open spec fn view(&self) -> BoundStatementV {
        match self {
            BoundStatement::Select(s) => BoundStatementV::Select(s@),
            BoundStatement::Insert(s) => BoundStatementV::Insert(s@),
            BoundStatement::Update(s) => BoundStatementV::Update(s@),
            BoundStatement::Delete(s) => BoundStatementV::Delete(s@),
            BoundStatement::CreateTable(s) => BoundStatementV::CreateTable(s@),
        }
    }
}

// ---------------------------------------------------------------------
// Static types
// ---------------------------------------------------------------------

/// The static type of a value: `None` for NULL, whose type is only
/// meaningful at runtime.
pub open spec fn value_static_type(v: ValueV) -> Option<DataType> {
    match v {
        Value::Integer(_) => Some(DataType::Integer),
        Value::Float(_) => Some(DataType::Float),
        Value::Text(_) => Some(DataType::Text),
        Value::Boolean(_) => Some(DataType::Boolean),
        Value::Null => None,
    }
}

/// Whether an operator yields a BOOLEAN (logical and comparison operators).
pub open spec fn is_boolean_op(op: BinaryOp) -> bool {
    !(op is Add || op is Sub || op is Mul || op is Div)
}

/// An expression's type, if statically determinable. `None` for anything
/// built from a NULL literal (it is compatible with anything during
/// binding). Logical operators, comparisons and `IS [NOT] NULL` are
/// always BOOLEAN; arithmetic is FLOAT if either side is FLOAT, INTEGER
/// if both sides are INTEGER, and unknown otherwise.
pub open spec fn static_type_of(e: BoundExprV) -> Option<DataType>
    decreases e,
{
    match e {
        BoundExpr::Column { ty, .. } => Some(ty),
        BoundExpr::Literal(v) => value_static_type(v),
        BoundExpr::Not(_) => Some(DataType::Boolean),
        BoundExpr::IsNull { .. } => Some(DataType::Boolean),
        BoundExpr::Neg(inner) => static_type_of(*inner),
        BoundExpr::BinaryOp { left, op, right } => {
            if is_boolean_op(op) {
                Some(DataType::Boolean)
            } else {
                let (l, r) = (static_type_of(*left), static_type_of(*right));
                if l == Some(DataType::Float) || r == Some(DataType::Float) {
                    Some(DataType::Float)
                } else if l == Some(DataType::Integer) && r == Some(DataType::Integer) {
                    Some(DataType::Integer)
                } else {
                    None
                }
            }
        },
    }
}

impl BoundExpr {
    /// This expression's type, if statically determinable (see
    /// [`static_type_of`]).
    pub fn static_type(&self) -> (r: Option<DataType>)
        ensures
            r == static_type_of(self@),
        decreases self,
    {
        match self {
            BoundExpr::Column { ty, .. } => Some(*ty),
            BoundExpr::Literal(Value::Integer(_)) => Some(DataType::Integer),
            BoundExpr::Literal(Value::Float(_)) => Some(DataType::Float),
            BoundExpr::Literal(Value::Text(_)) => Some(DataType::Text),
            BoundExpr::Literal(Value::Boolean(_)) => Some(DataType::Boolean),
            BoundExpr::Literal(Value::Null) => None,
            BoundExpr::Not(_) => Some(DataType::Boolean),
            BoundExpr::IsNull { .. } => Some(DataType::Boolean),
            BoundExpr::Neg(inner) => inner.static_type(),
            BoundExpr::BinaryOp { op, left, right } => match op {
                BinaryOp::And
                | BinaryOp::Or
                | BinaryOp::Eq
                | BinaryOp::NotEq
                | BinaryOp::Lt
                | BinaryOp::LtEq
                | BinaryOp::Gt
                | BinaryOp::GtEq => Some(DataType::Boolean),
                BinaryOp::Add | BinaryOp::Sub | BinaryOp::Mul | BinaryOp::Div => {
                    match (left.static_type(), right.static_type()) {
                        (Some(DataType::Float), _) | (_, Some(DataType::Float)) => {
                            Some(DataType::Float)
                        },
                        (Some(DataType::Integer), Some(DataType::Integer)) => {
                            Some(DataType::Integer)
                        },
                        _ => None,
                    }
                },
            },
        }
    }
}

} // verus!
