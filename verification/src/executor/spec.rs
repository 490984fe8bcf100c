//! What executing a bound statement means, stated over views.

use vstd::prelude::*;

use super::error::{ExecError, ExecErrorV};
use crate::analyser::bound::{
    BoundColumnV, BoundDeleteV, BoundExpr, BoundExprV, BoundInsertV, BoundSelectV,
    BoundStatementV, BoundUpdateV,
};
use crate::analyser::spec::{try_each, try_map};
use crate::catalog::{CatalogV, ColumnDef, ColumnDefV, SchemaV};
use crate::parser::ast::{ColumnDeclV, CreateTableStatementV};
use crate::parser::BinaryOp;
use crate::storage::{StorageError, StorageV};
use crate::text::{decimal, str_debug};
use crate::types::{
    f64_is_nan, f64_is_zero, f64_negate, f64_order_key, FloatOp, FloatSemantics, RowV, Value,
    ValueV,
};

verus! {

/// The outcome of running one statement.
#[derive(Debug, Clone, PartialEq)]
pub enum ExecResult<R = Vec<crate::types::Row>> {
    /// Rows produced by a `SELECT`.
    Rows(R),
    /// Rows touched by an `INSERT`, `UPDATE`, or `DELETE`.
    RowsAffected(usize),
    /// A `CREATE TABLE` completed.
    TableCreated,
}

pub type ExecResultV = ExecResult<Seq<RowV>>;

/// A three-way comparison outcome.
#[derive(Debug, Clone, Copy, PartialEq, Eq, Structural)]
pub enum Order {
    Less,
    Equal,
    Greater,
}

// ---------------------------------------------------------------------
// How internal error messages write values and operators
// ---------------------------------------------------------------------

/// How `Debug` writes a value, except that a FLOAT is written as its
/// variant name alone.
pub open spec fn value_debug(v: ValueV) -> Seq<char> {
    match v {
        Value::Integer(n) => "Integer("@ + decimal(n as int) + ")"@,
        Value::Float(_) => "Float"@,
        Value::Text(t) => "Text("@ + str_debug(t) + ")"@,
        Value::Boolean(b) => if b {
            "Boolean(true)"@
        } else {
            "Boolean(false)"@
        },
        Value::Null => "Null"@,
    }
}

/// The `Debug` name of an operator.
pub open spec fn op_label(op: BinaryOp) -> Seq<char> {
    match op {
        BinaryOp::And => "And"@,
        BinaryOp::Or => "Or"@,
        BinaryOp::Eq => "Eq"@,
        BinaryOp::NotEq => "NotEq"@,
        BinaryOp::Lt => "Lt"@,
        BinaryOp::LtEq => "LtEq"@,
        BinaryOp::Gt => "Gt"@,
        BinaryOp::GtEq => "GtEq"@,
        BinaryOp::Add => "Add"@,
        BinaryOp::Sub => "Sub"@,
        BinaryOp::Mul => "Mul"@,
        BinaryOp::Div => "Div"@,
    }
}

pub open spec fn internal(msg: Seq<char>) -> ExecErrorV {
    ExecError::InternalTypeError(msg)
}

// ---------------------------------------------------------------------
// Three-valued logic
// ---------------------------------------------------------------------

/// BOOLEAN as `Some(b)`, NULL (UNKNOWN) as `None`; anything else is an
/// internal type error.
pub open spec fn tri_bool_spec(v: ValueV) -> Result<Option<bool>, ExecErrorV> {
    match v {
        Value::Boolean(b) => Ok(Some(b)),
        Value::Null => Ok(None),
        other => Err(internal("expected BOOLEAN or NULL, got "@ + value_debug(other))),
    }
}

pub open spec fn tri_value(b: Option<bool>) -> ValueV {
    match b {
        Some(b) => Value::Boolean(b),
        None => Value::Null,
    }
}

/// SQL `NOT`: `NOT UNKNOWN` is UNKNOWN.
pub open spec fn not_spec(v: ValueV) -> Result<ValueV, ExecErrorV> {
    match tri_bool_spec(v) {
        Err(e) => Err(e),
        Ok(b) => Ok(
            tri_value(
                match b {
                    Some(b) => Some(!b),
                    None => None,
                },
            ),
        ),
    }
}

/// SQL `AND`: `false` dominates, then UNKNOWN.
pub open spec fn and_spec(l: ValueV, r: ValueV) -> Result<ValueV, ExecErrorV> {
    match tri_bool_spec(l) {
        Err(e) => Err(e),
        Ok(a) => match tri_bool_spec(r) {
            Err(e) => Err(e),
            Ok(b) => Ok(
                tri_value(
                    if a == Some(false) || b == Some(false) {
                        Some(false)
                    } else if a == Some(true) && b == Some(true) {
                        Some(true)
                    } else {
                        None
                    },
                ),
            ),
        },
    }
}

/// SQL `OR`: `true` dominates, then UNKNOWN.
pub open spec fn or_spec(l: ValueV, r: ValueV) -> Result<ValueV, ExecErrorV> {
    match tri_bool_spec(l) {
        Err(e) => Err(e),
        Ok(a) => match tri_bool_spec(r) {
            Err(e) => Err(e),
            Ok(b) => Ok(
                tri_value(
                    if a == Some(true) || b == Some(true) {
                        Some(true)
                    } else if a == Some(false) && b == Some(false) {
                        Some(false)
                    } else {
                        None
                    },
                ),
            ),
        },
    }
}

// ---------------------------------------------------------------------
// Comparison
// ---------------------------------------------------------------------

pub open spec fn int_order(a: int, b: int) -> Order {
    if a < b {
        Order::Less
    } else if a > b {
        Order::Greater
    } else {
        Order::Equal
    }
}

/// Lexicographic order by code point (the order of `str`, whose byte-wise
/// order on UTF-8 is the code point order).
pub open spec fn text_order(a: Seq<char>, b: Seq<char>) -> Order
    decreases a.len(),
{
    if a.len() == 0 {
        if b.len() == 0 {
            Order::Equal
        } else {
            Order::Less
        }
    } else if b.len() == 0 {
        Order::Greater
    } else if (a[0] as u32) < (b[0] as u32) {
        Order::Less
    } else if (a[0] as u32) > (b[0] as u32) {
        Order::Greater
    } else {
        text_order(a.drop_first(), b.drop_first())
    }
}

/// `false < true`.
pub open spec fn bool_order(a: bool, b: bool) -> Order {
    int_order(
        if a {
            1
        } else {
            0
        },
        if b {
            1
        } else {
            0
        },
    )
}

/// The order of two doubles, `None` when either is NaN (what
/// `f64::partial_cmp` gives).
pub open spec fn f64_order(a: u64, b: u64) -> Option<Order> {
    if f64_is_nan(a) || f64_is_nan(b) {
        None
    } else {
        Some(int_order(f64_order_key(a), f64_order_key(b)))
    }
}

/// A numeric value as a double: an INTEGER through the float unit's
/// conversion, a FLOAT as it is.
pub open spec fn as_f64_spec(fl: FloatSemantics, v: ValueV) -> Option<u64> {
    match v {
        Value::Integer(n) => Some(fl(FloatOp::FromInteger(n)).unwrap()),
        Value::Float(b) => Some(b),
        _ => None,
    }
}

/// The ordering of two non-NULL values, `None` for NaN.
pub open spec fn compare_values_spec(fl: FloatSemantics, l: ValueV, r: ValueV) -> Result<
    Option<Order>,
    ExecErrorV,
> {
    match (l, r) {
        (Value::Integer(a), Value::Integer(b)) => Ok(Some(int_order(a as int, b as int))),
        (Value::Text(a), Value::Text(b)) => Ok(Some(text_order(a, b))),
        (Value::Boolean(a), Value::Boolean(b)) => Ok(Some(bool_order(a, b))),
        _ => match (as_f64_spec(fl, l), as_f64_spec(fl, r)) {
            (Some(a), Some(b)) => Ok(f64_order(a, b)),
            _ => Err(internal("cannot compare "@ + value_debug(l) + " and "@ + value_debug(r))),
        },
    }
}

/// Comparison with SQL NULL semantics: either side NULL makes the result
/// UNKNOWN. A NaN operand makes every comparison false except `<>`.
pub open spec fn comparison_spec(fl: FloatSemantics, op: BinaryOp, l: ValueV, r: ValueV) -> Result<
    ValueV,
    ExecErrorV,
> {
    if l is Null || r is Null {
        Ok(Value::Null)
    } else {
        match compare_values_spec(fl, l, r) {
            Err(e) => Err(e),
            Ok(None) => Ok(Value::Boolean(op is NotEq)),
            Ok(Some(o)) => match op {
                BinaryOp::Eq => Ok(Value::Boolean(o == Order::Equal)),
                BinaryOp::NotEq => Ok(Value::Boolean(o != Order::Equal)),
                BinaryOp::Lt => Ok(Value::Boolean(o == Order::Less)),
                BinaryOp::LtEq => Ok(Value::Boolean(o != Order::Greater)),
                BinaryOp::Gt => Ok(Value::Boolean(o == Order::Greater)),
                BinaryOp::GtEq => Ok(Value::Boolean(o != Order::Less)),
                other => Err(internal("eval_cmp got non-comparison operator "@ + op_label(other))),
            },
        }
    }
}

// ---------------------------------------------------------------------
// Arithmetic
// ---------------------------------------------------------------------

pub open spec fn fits_i64(x: int) -> bool {
    i64::MIN <= x <= i64::MAX
}

/// Rust's `/` on integers: the quotient truncated toward zero.
pub open spec fn trunc_div(a: int, b: int) -> int {
    if a >= 0 && b > 0 {
        a / b
    } else if a >= 0 {
        -(a / (-b))
    } else if b > 0 {
        -((-a) / b)
    } else {
        (-a) / (-b)
    }
}

pub open spec fn checked_int(x: int) -> Result<ValueV, ExecErrorV> {
    if fits_i64(x) {
        Ok(Value::Integer(x as i64))
    } else {
        Err(ExecError::IntegerOverflow)
    }
}

/// INTEGER arithmetic: exact, or `IntegerOverflow` when the exact result
/// does not fit (including `i64::MIN / -1`).
pub open spec fn int_arith_spec(op: BinaryOp, a: i64, b: i64) -> Result<ValueV, ExecErrorV> {
    match op {
        BinaryOp::Add => checked_int(a + b),
        BinaryOp::Sub => checked_int(a - b),
        BinaryOp::Mul => checked_int(a * b),
        BinaryOp::Div => if b == 0 {
            Err(ExecError::DivisionByZero)
        } else {
            checked_int(trunc_div(a as int, b as int))
        },
        other => Err(internal("eval_arith got non-arithmetic operator "@ + op_label(other))),
    }
}

/// Arithmetic with SQL NULL semantics and standard SQL division by zero
/// (for FLOAT too). Mixed INTEGER/FLOAT operands are computed as doubles.
pub open spec fn arith_spec(fl: FloatSemantics, op: BinaryOp, l: ValueV, r: ValueV) -> Result<
    ValueV,
    ExecErrorV,
> {
    if l is Null || r is Null {
        Ok(Value::Null)
    } else {
        match (l, r) {
            (Value::Integer(a), Value::Integer(b)) => int_arith_spec(op, a, b),
            _ => match (as_f64_spec(fl, l), as_f64_spec(fl, r)) {
                (Some(a), Some(b)) => if op is Div && (r == Value::<Seq<char>>::Integer(0) || f64_is_zero(b)) {
                    Err(ExecError::DivisionByZero)
                } else {
                    match op {
                        BinaryOp::Add => Ok(Value::Float(fl(FloatOp::Add(a, b)).unwrap())),
                        BinaryOp::Sub => Ok(Value::Float(fl(FloatOp::Sub(a, b)).unwrap())),
                        BinaryOp::Mul => Ok(Value::Float(fl(FloatOp::Mul(a, b)).unwrap())),
                        BinaryOp::Div => Ok(Value::Float(fl(FloatOp::Div(a, b)).unwrap())),
                        other => Err(
                            internal("eval_arith got non-arithmetic operator "@ + op_label(other)),
                        ),
                    }
                },
                _ => Err(
                    internal("cannot do arithmetic on "@ + value_debug(l) + " and "@ + value_debug(r)),
                ),
            },
        }
    }
}

/// Unary minus. Negating `i64::MIN` overflows.
pub open spec fn neg_spec(v: ValueV) -> Result<ValueV, ExecErrorV> {
    match v {
        Value::Integer(n) => checked_int(-(n as int)),
        Value::Float(b) => Ok(Value::Float(f64_negate(b))),
        Value::Null => Ok(Value::Null),
        other => Err(internal("NEG expected a numeric type or NULL, got "@ + value_debug(other))),
    }
}

// ---------------------------------------------------------------------
// Expressions
// ---------------------------------------------------------------------

/// Every column reference in `e` indexes below `n`.
pub open spec fn columns_within(e: BoundExprV, n: nat) -> bool
    decreases e,
{
    match e {
        BoundExpr::Column { index, .. } => index < n,
        BoundExpr::Literal(_) => true,
        BoundExpr::Not(b) => columns_within(*b, n),
        BoundExpr::Neg(b) => columns_within(*b, n),
        BoundExpr::BinaryOp { left, right, .. } => columns_within(*left, n) && columns_within(
            *right,
            n,
        ),
        BoundExpr::IsNull { expr, .. } => columns_within(*expr, n),
    }
}

/// Evaluation of a bound expression against a row.
pub open spec fn eval_spec(fl: FloatSemantics, e: BoundExprV, row: RowV) -> Result<ValueV, ExecErrorV>
    decreases e,
{
    match e {
        BoundExpr::Column { index, .. } => Ok(row[index as int]),
        BoundExpr::Literal(v) => Ok(v),
        BoundExpr::Not(inner) => match eval_spec(fl, *inner, row) {
            Err(err) => Err(err),
            Ok(v) => not_spec(v),
        },
        BoundExpr::Neg(inner) => match eval_spec(fl, *inner, row) {
            Err(err) => Err(err),
            Ok(v) => neg_spec(v),
        },
        BoundExpr::BinaryOp { left, op, right } => match eval_spec(fl, *left, row) {
            Err(err) => Err(err),
            Ok(l) => match eval_spec(fl, *right, row) {
                Err(err) => Err(err),
                Ok(r) => match op {
                    BinaryOp::And => and_spec(l, r),
                    BinaryOp::Or => or_spec(l, r),
                    BinaryOp::Add | BinaryOp::Sub | BinaryOp::Mul | BinaryOp::Div => arith_spec(
                        fl,
                        op,
                        l,
                        r,
                    ),
                    _ => comparison_spec(fl, op, l, r),
                },
            },
        },
        BoundExpr::IsNull { expr, negated } => match eval_spec(fl, *expr, row) {
            Err(err) => Err(err),
            Ok(v) => Ok(Value::Boolean((v is Null) != negated)),
        },
    }
}

/// A filter keeps a row only if it evaluates to exactly `TRUE`; FALSE and
/// UNKNOWN both exclude it. No filter keeps every row.
pub open spec fn filter_spec(fl: FloatSemantics, f: Option<BoundExprV>, row: RowV) -> Result<
    bool,
    ExecErrorV,
> {
    match f {
        None => Ok(true),
        Some(e) => match eval_spec(fl, e, row) {
            Err(err) => Err(err),
            Ok(v) => Ok(v == Value::<Seq<char>>::Boolean(true)),
        },
    }
}

pub open spec fn opt_columns_within(f: Option<BoundExprV>, n: nat) -> bool {
    match f {
        None => true,
        Some(e) => columns_within(e, n),
    }
}

// ---------------------------------------------------------------------
// Statements
// ---------------------------------------------------------------------

/// The effect of one statement: its result and the new catalog and
/// storage.
pub type ExecOutcome = (Result<ExecResultV, ExecErrorV>, CatalogV, StorageV);

pub open spec fn missing_table_error(name: Seq<char>) -> ExecErrorV {
    ExecError::Storage(StorageError::MissingTable { name })
}

/// The chosen columns of a row.
pub open spec fn project(row: RowV, cols: Seq<BoundColumnV>) -> RowV {
    Seq::new(cols.len(), |i: int| row[cols[i].index as int])
}

/// The rows whose flag is true, in order.
pub open spec fn flagged(rows: Seq<RowV>, flags: Seq<bool>) -> Seq<RowV>
    decreases rows.len(),
{
    if rows.len() == 0 {
        Seq::empty()
    } else {
        let rest = flagged(rows.drop_last(), flags.take(rows.len() - 1));
        if flags[rows.len() - 1] {
            rest.push(rows.last())
        } else {
            rest
        }
    }
}

/// The projections of the rows that pass the filter, in order. Filters
/// are evaluated row by row; the first failure wins.
pub open spec fn select_rows_spec(
    fl: FloatSemantics,
    rows: Seq<RowV>,
    cols: Seq<BoundColumnV>,
    filter: Option<BoundExprV>,
) -> Result<Seq<RowV>, ExecErrorV> {
    match try_map(rows, filter_evaluator(fl, filter)) {
        Err(err) => Err(err),
        Ok(flags) => Ok(flagged(rows, flags).map_values(|r: RowV| project(r, cols))),
    }
}

pub open spec fn select_spec(fl: FloatSemantics, cat: CatalogV, sto: StorageV, s: BoundSelectV) -> ExecOutcome {
    if !sto.contains_key(s.table) {
        (Err(missing_table_error(s.table)), cat, sto)
    } else {
        match select_rows_spec(fl, sto[s.table], s.columns, s.filter) {
            Err(err) => (Err(err), cat, sto),
            Ok(rows) => (Ok(ExecResult::Rows(rows)), cat, sto),
        }
    }
}

/// Whether column `i` of `table` is declared `NOT NULL`. A column the
/// catalog does not know has no constraint.
pub open spec fn not_null_column(cat: CatalogV, table: Seq<char>, i: int) -> bool {
    cat.contains_key(table) && 0 <= i < cat[table].len() && !cat[table][i].nullable
}

pub open spec fn not_null_violation(table: Seq<char>, column: Seq<char>) -> ExecErrorV {
    ExecError::NotNullViolation { table, column }
}

/// The NOT NULL check of the `i`-th inserted value.
pub open spec fn insert_null_check(cat: CatalogV, table: Seq<char>, vals: Seq<ValueV>, i: int) -> Result<
    (),
    ExecErrorV,
> {
    if not_null_column(cat, table, i) && vals[i] is Null {
        Err(not_null_violation(table, cat[table][i].name))
    } else {
        Ok(())
    }
}

pub open spec fn insert_null_checker(cat: CatalogV, table: Seq<char>, vals: Seq<ValueV>) -> spec_fn(
    int,
) -> Result<(), ExecErrorV> {
    |i: int| insert_null_check(cat, table, vals, i)
}

pub open spec fn value_evaluator(fl: FloatSemantics, row: RowV) -> spec_fn(BoundExprV) -> Result<
    ValueV,
    ExecErrorV,
> {
    |e: BoundExprV| eval_spec(fl, e, row)
}

/// `INSERT`: evaluate every value (against an empty row), enforce NOT
/// NULL, then append the row.
pub open spec fn insert_spec(fl: FloatSemantics, cat: CatalogV, sto: StorageV, s: BoundInsertV) -> ExecOutcome {
    match try_map(s.values, value_evaluator(fl, Seq::empty())) {
        Err(err) => (Err(err), cat, sto),
        Ok(vals) => match try_each(vals.len(), insert_null_checker(cat, s.table, vals)) {
            Err(err) => (Err(err), cat, sto),
            Ok(_) => if !sto.contains_key(s.table) {
                (Err(missing_table_error(s.table)), cat, sto)
            } else {
                (
                    Ok(ExecResult::RowsAffected(1)),
                    cat,
                    sto.insert(s.table, sto[s.table].push(vals)),
                )
            },
        },
    }
}

/// One `SET` assignment evaluated against the row's pre-update values,
/// with the NOT NULL check of its column.
pub open spec fn assignment_spec(
    fl: FloatSemantics,
    cat: CatalogV,
    table: Seq<char>,
    row: RowV,
    a: (BoundColumnV, BoundExprV),
) -> Result<(usize, ValueV), ExecErrorV> {
    match eval_spec(fl, a.1, row) {
        Err(err) => Err(err),
        Ok(v) => if not_null_column(cat, table, a.0.index as int) && v is Null {
            Err(not_null_violation(table, a.0.name))
        } else {
            Ok((a.0.index, v))
        },
    }
}

pub open spec fn assignment_evaluator(
    fl: FloatSemantics,
    cat: CatalogV,
    table: Seq<char>,
    row: RowV,
) -> spec_fn((BoundColumnV, BoundExprV)) -> Result<(usize, ValueV), ExecErrorV> {
    |a: (BoundColumnV, BoundExprV)| assignment_spec(fl, cat, table, row, a)
}

/// The planned change for one row: `None` if the filter excludes it, else
/// the `(column, value)` writes of its assignments, in order.
pub open spec fn update_row_plan(fl: FloatSemantics, cat: CatalogV, s: BoundUpdateV, row: RowV) -> Result<
    Option<Seq<(usize, ValueV)>>,
    ExecErrorV,
> {
    match filter_spec(fl, s.filter, row) {
        Err(err) => Err(err),
        Ok(false) => Ok(None),
        Ok(true) => match try_map(s.assignments, assignment_evaluator(fl, cat, s.table, row)) {
            Err(err) => Err(err),
            Ok(changes) => Ok(Some(changes)),
        },
    }
}

pub open spec fn update_planner(fl: FloatSemantics, cat: CatalogV, s: BoundUpdateV) -> spec_fn(
    RowV,
) -> Result<Option<Seq<(usize, ValueV)>>, ExecErrorV> {
    |row: RowV| update_row_plan(fl, cat, s, row)
}

/// Applies writes in order (a later write to a column wins).
pub open spec fn apply_changes(row: RowV, changes: Seq<(usize, ValueV)>) -> RowV
    decreases changes.len(),
{
    if changes.len() == 0 {
        row
    } else {
        apply_changes(row, changes.drop_last()).update(
            changes.last().0 as int,
            changes.last().1,
        )
    }
}

pub open spec fn apply_plan(rows: Seq<RowV>, plan: Seq<Option<Seq<(usize, ValueV)>>>) -> Seq<RowV> {
    Seq::new(
        rows.len(),
        |i: int|
            match plan[i] {
                Some(changes) => apply_changes(rows[i], changes),
                None => rows[i],
            },
    )
}

/// The number of rows a plan touches.
pub open spec fn count_some<T>(s: Seq<Option<T>>) -> nat
    decreases s.len(),
{
    if s.len() == 0 {
        0
    } else {
        count_some(s.drop_last()) + if s.last() is Some {
            1nat
        } else {
            0nat
        }
    }
}

/// `UPDATE`: plan every row first (filter, assignments, NOT NULL), then
/// apply the plan. A failure anywhere leaves the table untouched.
pub open spec fn update_spec(fl: FloatSemantics, cat: CatalogV, sto: StorageV, s: BoundUpdateV) -> ExecOutcome {
    if !sto.contains_key(s.table) {
        (Err(missing_table_error(s.table)), cat, sto)
    } else {
        let rows = sto[s.table];
        match try_map(rows, update_planner(fl, cat, s)) {
            Err(err) => (Err(err), cat, sto),
            Ok(plan) => (
                Ok(ExecResult::RowsAffected(count_some(plan) as usize)),
                cat,
                sto.insert(s.table, apply_plan(rows, plan)),
            ),
        }
    }
}

pub open spec fn filter_evaluator(fl: FloatSemantics, f: Option<BoundExprV>) -> spec_fn(RowV) -> Result<
    bool,
    ExecErrorV,
> {
    |row: RowV| filter_spec(fl, f, row)
}

/// The rows whose flag is false, in order.
pub open spec fn unflagged(rows: Seq<RowV>, flags: Seq<bool>) -> Seq<RowV>
    decreases rows.len(),
{
    if rows.len() == 0 {
        Seq::empty()
    } else {
        let rest = unflagged(rows.drop_last(), flags.take(rows.len() - 1));
        if flags[rows.len() - 1] {
            rest
        } else {
            rest.push(rows.last())
        }
    }
}

pub open spec fn count_true(s: Seq<bool>) -> nat
    decreases s.len(),
{
    if s.len() == 0 {
        0
    } else {
        count_true(s.drop_last()) + if s.last() {
            1nat
        } else {
            0nat
        }
    }
}

/// `DELETE`: evaluate the filter on every row first, then remove the rows
/// it keeps.
pub open spec fn delete_spec(fl: FloatSemantics, cat: CatalogV, sto: StorageV, s: BoundDeleteV) -> ExecOutcome {
    if !sto.contains_key(s.table) {
        (Err(missing_table_error(s.table)), cat, sto)
    } else {
        let rows = sto[s.table];
        match try_map(rows, filter_evaluator(fl, s.filter)) {
            Err(err) => (Err(err), cat, sto),
            Ok(flags) => (
                Ok(ExecResult::RowsAffected(count_true(flags) as usize)),
                cat,
                sto.insert(s.table, unflagged(rows, flags)),
            ),
        }
    }
}

/// The schema a `CREATE TABLE` declares.
pub open spec fn declared_schema(cols: Seq<ColumnDeclV>) -> SchemaV {
    cols.map_values(|c: ColumnDeclV| ColumnDef { name: c.name, ty: c.ty, nullable: c.nullable })
}

/// `CREATE TABLE`: register the schema and an empty row set (rows already
/// stored under the name are kept).
pub open spec fn create_table_spec(cat: CatalogV, sto: StorageV, s: CreateTableStatementV) -> ExecOutcome {
    (
        Ok(ExecResult::TableCreated),
        cat.insert(s.table, declared_schema(s.columns)),
        if sto.contains_key(s.table) {
            sto
        } else {
            sto.insert(s.table, Seq::empty())
        },
    )
}

impl View for ExecResult {
    type V = ExecResultV;

    open spec fn view(&self) -> ExecResultV {
        match self {
            ExecResult::Rows(rows) => ExecResult::Rows(crate::types::rows_view(rows@)),
            ExecResult::RowsAffected(n) => ExecResult::RowsAffected(*n),
            ExecResult::TableCreated => ExecResult::TableCreated,
        }
    }
}

/// A planned row writes, in order, the columns of the assignments.
pub proof fn lemma_update_plan_indices(
    fl: FloatSemantics,
    cat: CatalogV,
    s: BoundUpdateV,
    row: RowV,
    changes: Seq<(usize, ValueV)>,
    c: int,
)
    requires
        update_row_plan(fl, cat, s, row) == Ok::<Option<Seq<(usize, ValueV)>>, ExecErrorV>(
            Some(changes),
        ),
        0 <= c < changes.len(),
    ensures
        changes.len() == s.assignments.len(),
        changes[c].0 == s.assignments[c].0.index,
{
    let f = assignment_evaluator(fl, cat, s.table, row);
    crate::analyser::spec::lemma_try_map_ok_len(s.assignments, f);
    crate::analyser::spec::lemma_try_map_ok_elem(s.assignments, f, c);
}

pub proof fn lemma_flagged_step(rows: Seq<RowV>, flags: Seq<bool>, b: bool, i: int)
    requires
        0 <= i < rows.len(),
        flags.len() == i,
    ensures
        flagged(rows.take(i + 1), flags.push(b)) == (if b {
            flagged(rows.take(i), flags).push(rows[i])
        } else {
            flagged(rows.take(i), flags)
        }),
        unflagged(rows.take(i + 1), flags.push(b)) == (if b {
            unflagged(rows.take(i), flags)
        } else {
            unflagged(rows.take(i), flags).push(rows[i])
        }),
        count_true(flags.push(b)) == count_true(flags) + if b {
            1nat
        } else {
            0nat
        },
{
    let t = rows.take(i + 1);
    assert(t.drop_last() =~= rows.take(i));
    assert(flags.push(b).take(i) =~= flags);
    assert(flags.push(b).drop_last() =~= flags);
}

pub proof fn lemma_count_some_step<T>(s: Seq<Option<T>>, x: Option<T>)
    ensures
        count_some(s.push(x)) == count_some(s) + if x is Some {
            1nat
        } else {
            0nat
        },
        count_some(s) <= s.len(),
    decreases s.len(),
{
    assert(s.push(x).drop_last() =~= s);
    if s.len() > 0 {
        lemma_count_some_step(s.drop_last(), s.last());
        assert(s.drop_last().push(s.last()) =~= s);
    }
}

pub proof fn lemma_count_true_bound(s: Seq<bool>)
    ensures
        count_true(s) <= s.len(),
    decreases s.len(),
{
    if s.len() > 0 {
        lemma_count_true_bound(s.drop_last());
    }
}

/// The effect of executing a bound statement.
pub open spec fn execute_spec(fl: FloatSemantics, cat: CatalogV, sto: StorageV, s: BoundStatementV) -> ExecOutcome {
    match s {
        BoundStatementV::Select(s) => select_spec(fl, cat, sto, s),
        BoundStatementV::Insert(s) => insert_spec(fl, cat, sto, s),
        BoundStatementV::Update(s) => update_spec(fl, cat, sto, s),
        BoundStatementV::Delete(s) => delete_spec(fl, cat, sto, s),
        BoundStatementV::CreateTable(s) => create_table_spec(cat, sto, s),
    }
}

/// The statement only reads columns that every row of its table has (rows
/// are indexed directly, so a column past a row's end cannot be read), and
/// `INSERT` values read no column at all.
pub open spec fn statement_fits(sto: StorageV, s: BoundStatementV) -> bool {
    match s {
        BoundStatementV::Select(s) => sto.contains_key(s.table) ==> forall|i: int|
            0 <= i < sto[s.table].len() ==> {
                let n = #[trigger] sto[s.table][i].len();
                &&& opt_columns_within(s.filter, n)
                &&& forall|k: int| 0 <= k < s.columns.len() ==> #[trigger] s.columns[k].index < n
            },
        BoundStatementV::Insert(s) => forall|k: int|
            0 <= k < s.values.len() ==> columns_within(#[trigger] s.values[k], 0nat),
        BoundStatementV::Update(s) => sto.contains_key(s.table) ==> forall|i: int|
            0 <= i < sto[s.table].len() ==> {
                let n = #[trigger] sto[s.table][i].len();
                &&& opt_columns_within(s.filter, n)
                &&& forall|k: int|
                    0 <= k < s.assignments.len() ==> #[trigger] s.assignments[k].0.index < n
                        && columns_within(s.assignments[k].1, n)
            },
        BoundStatementV::Delete(s) => sto.contains_key(s.table) ==> forall|i: int|
            0 <= i < sto[s.table].len() ==> opt_columns_within(
                s.filter,
                #[trigger] sto[s.table][i].len(),
            ),
        BoundStatementV::CreateTable(_) => true,
    }
}

/// What [`statement_fits`] says of an `INSERT`: its values read no column.
pub proof fn lemma_insert_fits(sto: StorageV, s: BoundInsertV)
    requires
        statement_fits(sto, BoundStatementV::Insert(s)),
    ensures
        forall|k: int| 0 <= k < s.values.len() ==> columns_within(#[trigger] s.values[k], 0nat),
{
    let st = BoundStatementV::Insert(s);
    assert(st is Insert);
    assert(st->Insert_0 == s);
    assert forall|k: int| 0 <= k < s.values.len() implies columns_within(#[trigger] s.values[k], 0nat) by {
        assert(statement_fits(sto, st));
        assert(columns_within(st->Insert_0.values[k], 0nat));
    }
}

} // verus!
