//! Executor: runs a [`BoundStatement`] against a [`Catalog`] and its
//! [`Storage`], producing an [`ExecResult`]. The last pipeline stage:
//! everything before it is read-only checking; this is where rows are
//! read and written.
//!
//! ## NULL and three-valued logic
//!
//! Comparisons and logical operators follow standard SQL three-valued
//! logic: a NULL operand makes a comparison UNKNOWN (represented as
//! [`Value::Null`]), and UNKNOWN propagates through `AND`/`OR`/`NOT` per
//! the usual truth tables. A filter keeps a row only when it evaluates to
//! `Value::Boolean(true)`.
//!
//! ## Division by zero
//!
//! `/` by zero is a runtime error ([`ExecError::DivisionByZero`]) for both
//! INTEGER and FLOAT operands, as in standard SQL, not IEEE-754.
//!
//! ## Atomicity
//!
//! `UPDATE` and `DELETE` evaluate every row's filter (and, for `UPDATE`,
//! every assignment and NOT NULL check) before mutating anything, so a
//! runtime error leaves the table untouched. This is single-statement
//! atomicity, not a transaction system.

pub mod error;
pub mod spec;
pub mod laws;
pub mod statement_laws;

pub use error::ExecError;
pub use spec::ExecResult;

use vstd::prelude::*;

use crate::analyser::bound::{
    bound_assignments_view, bound_exprs_view, opt_bound_expr_view, BoundColumnV, BoundExprV,
};
use crate::text::{debug_str, push_decimal};
use crate::analyser::spec::{lemma_try_each_prefix_err, lemma_try_map_prefix_err, lemma_try_map_step, try_each, try_map};
use crate::analyser::{BoundDelete, BoundExpr, BoundInsert, BoundSelect, BoundStatement, BoundUpdate};
use crate::catalog::{Catalog, CatalogV, ColumnDef, TableSchema};
use crate::parser::ast::column_decls_view;
use crate::parser::CreateTableStatement;
use crate::storage::{Storage, StorageV};
use crate::executor::error::ExecErrorV;
use crate::executor::spec::{
    apply_changes, apply_plan, assignment_evaluator, assignment_spec, count_some, count_true,
    create_table_spec, declared_schema, delete_spec, execute_spec, filter_evaluator, flagged,
    insert_null_check, insert_null_checker, insert_spec, lemma_count_some_step,
    lemma_count_true_bound, lemma_flagged_step, lemma_insert_fits, lemma_update_plan_indices, missing_table_error, not_null_column,
    not_null_violation, project, select_rows_spec, select_spec, statement_fits, unflagged,
    update_planner, update_row_plan, update_spec, value_evaluator, ExecResultV,
    and_spec, arith_spec, as_f64_spec, bool_order, columns_within, comparison_spec,
    compare_values_spec, eval_spec, f64_order, filter_spec, int_arith_spec, int_order, internal,
    neg_spec, not_spec, op_label, opt_columns_within, or_spec, text_order, tri_bool_spec,
    tri_value, value_debug, Order,
};
use crate::parser::BinaryOp;
use crate::text::chars_of;
use crate::types::{
    ask_float, f64_bits_is_nan, f64_bits_is_zero, f64_bits_magnitude, f64_bits_negate,
    f64_bits_negative, float_semantics, float_unit_ok, rows_view, values_view, FloatOp,
    FloatSemantics, Row, RowV, Value, ValueV,
};

verus! {

/// The view of an evaluation outcome.
pub open spec fn value_result_view(r: Result<Value, ExecError>) -> Result<ValueV, ExecErrorV> {
    match r {
        Ok(v) => Ok(v@),
        Err(e) => Err(e@),
    }
}

/// How `Debug` writes `v`, with a FLOAT written as its variant name.
fn value_debug_of(v: &Value) -> (s: String)
    ensures
        s@ == value_debug(v@),
{
    match v {
        Value::Integer(n) => {
            let mut s = "Integer(".to_owned();
            push_decimal(&mut s, *n);
            s.append(")");
            s
        },
        Value::Float(_) => "Float".to_owned(),
        Value::Text(t) => {
            let mut s = "Text(".to_owned();
            let d = debug_str(t.as_str());
            s.append(d.as_str());
            s.append(")");
            s
        },
        Value::Boolean(b) => if *b {
            "Boolean(true)".to_owned()
        } else {
            "Boolean(false)".to_owned()
        },
        Value::Null => "Null".to_owned(),
    }
}

fn op_label_of(op: BinaryOp) -> (s: String)
    ensures
        s@ == op_label(op),
{
    match op {
        BinaryOp::And => "And".to_owned(),
        BinaryOp::Or => "Or".to_owned(),
        BinaryOp::Eq => "Eq".to_owned(),
        BinaryOp::NotEq => "NotEq".to_owned(),
        BinaryOp::Lt => "Lt".to_owned(),
        BinaryOp::LtEq => "LtEq".to_owned(),
        BinaryOp::Gt => "Gt".to_owned(),
        BinaryOp::GtEq => "GtEq".to_owned(),
        BinaryOp::Add => "Add".to_owned(),
        BinaryOp::Sub => "Sub".to_owned(),
        BinaryOp::Mul => "Mul".to_owned(),
        BinaryOp::Div => "Div".to_owned(),
    }
}

/// `prefix` followed by a label.
fn labelled(prefix: &str, label: String) -> (s: String)
    ensures
        s@ == prefix@ + label@,
{
    let mut s = prefix.to_owned();
    s.append(label.as_str());
    s
}

/// `prefix` followed by how two values are written, joined by `" and "`.
fn labelled_pair(prefix: &str, l: &Value, r: &Value) -> (s: String)
    ensures
        s@ == prefix@ + value_debug(l@) + " and "@ + value_debug(r@),
{
    let mut s = prefix.to_owned();
    let ls = value_debug_of(l);
    s.append(ls.as_str());
    s.append(" and ");
    let rs = value_debug_of(r);
    s.append(rs.as_str());
    s
}

/// Maps a BOOLEAN value to `Some(bool)` and NULL (UNKNOWN) to `None`;
/// anything else is an internal type error.
pub fn as_tri_bool(v: Value) -> (r: Result<Option<bool>, ExecError>)
    ensures
        match r {
            Ok(b) => tri_bool_spec(v@) == Ok::<Option<bool>, ExecErrorV>(b),
            Err(e) => tri_bool_spec(v@) == Err::<Option<bool>, ExecErrorV>(e@),
        },
{
    match v {
        Value::Boolean(b) => Ok(Some(b)),
        Value::Null => Ok(None),
        other => Err(
            ExecError::InternalTypeError(labelled("expected BOOLEAN or NULL, got ", value_debug_of(&other))),
        ),
    }
}

pub fn tri_bool_to_value(b: Option<bool>) -> (r: Value)
    ensures
        r@ == tri_value(b),
{
    match b {
        Some(b) => Value::Boolean(b),
        None => Value::Null,
    }
}

/// SQL `NOT`. `NOT UNKNOWN` is UNKNOWN.
pub fn eval_not(v: Value) -> (r: Result<Value, ExecError>)
    ensures
        value_result_view(r) == not_spec(v@),
{
    let b = as_tri_bool(v)?;
    Ok(
        tri_bool_to_value(
            match b {
                Some(b) => Some(!b),
                None => None,
            },
        ),
    )
}

/// SQL `AND`: `false` dominates (even against UNKNOWN), otherwise UNKNOWN
/// propagates unless both sides are `true`.
pub fn eval_and(l: Value, r: Value) -> (res: Result<Value, ExecError>)
    ensures
        value_result_view(res) == and_spec(l@, r@),
{
    let l = as_tri_bool(l)?;
    let r = as_tri_bool(r)?;
    let result = match (l, r) {
        (Some(false), _) | (_, Some(false)) => Some(false),
        (Some(true), Some(true)) => Some(true),
        _ => None,
    };
    Ok(tri_bool_to_value(result))
}

/// SQL `OR`: `true` dominates, otherwise UNKNOWN propagates unless both
/// sides are `false`.
pub fn eval_or(l: Value, r: Value) -> (res: Result<Value, ExecError>)
    ensures
        value_result_view(res) == or_spec(l@, r@),
{
    let l = as_tri_bool(l)?;
    let r = as_tri_bool(r)?;
    let result = match (l, r) {
        (Some(true), _) | (_, Some(true)) => Some(true),
        (Some(false), Some(false)) => Some(false),
        _ => None,
    };
    Ok(tri_bool_to_value(result))
}

/// A numeric value as a double bit pattern.
fn as_f64<F: Fn(FloatOp) -> Option<u64>>(v: &Value, floats: &F) -> (r: Option<u64>)
    requires
        float_unit_ok(*floats),
    ensures
        r == as_f64_spec(float_semantics(*floats), v@),
{
    match v {
        Value::Integer(n) => {
            let b = ask_float(floats, FloatOp::FromInteger(*n));
            Some(b.unwrap())
        },
        Value::Float(b) => Some(*b),
        _ => None,
    }
}

fn int_order_of(a: i64, b: i64) -> (r: Order)
    ensures
        r == int_order(a as int, b as int),
{
    if a < b {
        Order::Less
    } else if a > b {
        Order::Greater
    } else {
        Order::Equal
    }
}

fn bool_order_of(a: bool, b: bool) -> (r: Order)
    ensures
        r == bool_order(a, b),
{
    if a == b {
        Order::Equal
    } else if b {
        Order::Less
    } else {
        Order::Greater
    }
}

proof fn lemma_text_order_skip(a: Seq<char>, b: Seq<char>, i: int)
    requires
        0 <= i < a.len(),
        i < b.len(),
        a[i] as u32 == b[i] as u32,
    ensures
        text_order(a.skip(i), b.skip(i)) == text_order(a.skip(i + 1), b.skip(i + 1)),
{
    assert(a.skip(i).drop_first() =~= a.skip(i + 1));
    assert(b.skip(i).drop_first() =~= b.skip(i + 1));
}

/// Lexicographic order of two strings by code point.
fn text_order_of(a: &String, b: &String) -> (r: Order)
    ensures
        r == text_order(a@, b@),
{
    let x = chars_of(a.as_str());
    let y = chars_of(b.as_str());
    let mut i: usize = 0;
    assert(x@.skip(0) =~= x@);
    assert(y@.skip(0) =~= y@);
    while i < x.len() && i < y.len()
        invariant
            i <= x@.len(),
            i <= y@.len(),
            x@ == a@,
            y@ == b@,
            text_order(a@, b@) == text_order(x@.skip(i as int), y@.skip(i as int)),
        decreases x.len() - i,
    {
        let (c, d) = (x[i], y[i]);
        assert(x@.skip(i as int)[0] == c && y@.skip(i as int)[0] == d);
        assert(x@.skip(i as int).len() > 0 && y@.skip(i as int).len() > 0);
        if (c as u32) < (d as u32) {
            return Order::Less;
        } else if (c as u32) > (d as u32) {
            return Order::Greater;
        }
        proof {
            lemma_text_order_skip(x@, y@, i as int);
        }
        i = i + 1;
    }
    if i == x.len() {
        if i == y.len() {
            Order::Equal
        } else {
            Order::Less
        }
    } else {
        Order::Greater
    }
}

/// The order of two doubles by their bit patterns; `None` when either is
/// NaN.
fn f64_order_of(a: u64, b: u64) -> (r: Option<Order>)
    ensures
        r == f64_order(a, b),
{
    if f64_bits_is_nan(a) || f64_bits_is_nan(b) {
        return None;
    }
    let (na, ma) = (f64_bits_negative(a), f64_bits_magnitude(a));
    let (nb, mb) = (f64_bits_negative(b), f64_bits_magnitude(b));
    let o = if !na && !nb {
        int_order_of_u64(ma, mb)
    } else if na && nb {
        int_order_of_u64(mb, ma)
    } else if ma == 0 && mb == 0 {
        Order::Equal
    } else if na {
        Order::Less
    } else {
        Order::Greater
    };
    Some(o)
}

fn int_order_of_u64(a: u64, b: u64) -> (r: Order)
    ensures
        r == int_order(a as int, b as int),
{
    if a < b {
        Order::Less
    } else if a > b {
        Order::Greater
    } else {
        Order::Equal
    }
}

/// Comparison with SQL NULL semantics: either side NULL makes the whole
/// comparison UNKNOWN, never `true`/`false`. A NaN makes every comparison
/// false except `<>`.
pub fn eval_cmp<F: Fn(FloatOp) -> Option<u64>>(op: BinaryOp, l: Value, r: Value, floats: &F) -> (res:
    Result<Value, ExecError>)
    requires
        float_unit_ok(*floats),
    ensures
        value_result_view(res) == comparison_spec(float_semantics(*floats), op, l@, r@),
{
    if matches!(l, Value::Null) || matches!(r, Value::Null) {
        return Ok(Value::Null);
    }
    let ordering = match (&l, &r) {
        (Value::Integer(a), Value::Integer(b)) => Some(int_order_of(*a, *b)),
        (Value::Text(a), Value::Text(b)) => Some(text_order_of(a, b)),
        (Value::Boolean(a), Value::Boolean(b)) => Some(bool_order_of(*a, *b)),
        _ => match (as_f64(&l, floats), as_f64(&r, floats)) {
            (Some(a), Some(b)) => f64_order_of(a, b),
            _ => {
                return Err(ExecError::InternalTypeError(labelled_pair("cannot compare ", &l, &r)));
            },
        },
    };
    let ordering = match ordering {
        Some(o) => o,
        None => {
            return Ok(Value::Boolean(matches!(op, BinaryOp::NotEq)));
        },
    };
    let result = match op {
        BinaryOp::Eq => ordering == Order::Equal,
        BinaryOp::NotEq => ordering != Order::Equal,
        BinaryOp::Lt => ordering == Order::Less,
        BinaryOp::LtEq => ordering != Order::Greater,
        BinaryOp::Gt => ordering == Order::Greater,
        BinaryOp::GtEq => ordering != Order::Less,
        other => {
            return Err(
                ExecError::InternalTypeError(
                    labelled("eval_cmp got non-comparison operator ", op_label_of(other)),
                ),
            );
        },
    };
    Ok(Value::Boolean(result))
}

/// INTEGER arithmetic, checked.
fn eval_int_arith(op: BinaryOp, a: i64, b: i64) -> (res: Result<Value, ExecError>)
    ensures
        value_result_view(res) == int_arith_spec(op, a, b),
{
    let result = match op {
        BinaryOp::Add => a.checked_add(b),
        BinaryOp::Sub => a.checked_sub(b),
        BinaryOp::Mul => a.checked_mul(b),
        BinaryOp::Div => {
            if b == 0 {
                return Err(ExecError::DivisionByZero);
            }
            a.checked_div(b)
        },
        other => {
            return Err(
                ExecError::InternalTypeError(
                    labelled("eval_arith got non-arithmetic operator ", op_label_of(other)),
                ),
            );
        },
    };
    match result {
        Some(n) => Ok(Value::Integer(n)),
        None => Err(ExecError::IntegerOverflow),
    }
}

/// Arithmetic with SQL NULL semantics (either side NULL gives NULL) and
/// standard SQL division by zero semantics.
pub fn eval_arith<F: Fn(FloatOp) -> Option<u64>>(op: BinaryOp, l: Value, r: Value, floats: &F) -> (res:
    Result<Value, ExecError>)
    requires
        float_unit_ok(*floats),
    ensures
        value_result_view(res) == arith_spec(float_semantics(*floats), op, l@, r@),
{
    if matches!(l, Value::Null) || matches!(r, Value::Null) {
        return Ok(Value::Null);
    }
    if let (Value::Integer(a), Value::Integer(b)) = (&l, &r) {
        return eval_int_arith(op, *a, *b);
    }
    let (a, b) = match (as_f64(&l, floats), as_f64(&r, floats)) {
        (Some(a), Some(b)) => (a, b),
        _ => {
            return Err(
                ExecError::InternalTypeError(labelled_pair("cannot do arithmetic on ", &l, &r)),
            );
        },
    };
    if matches!(op, BinaryOp::Div) && (matches!(r, Value::Integer(0)) || f64_bits_is_zero(b)) {
        return Err(ExecError::DivisionByZero);
    }
    let q = match op {
        BinaryOp::Add => FloatOp::Add(a, b),
        BinaryOp::Sub => FloatOp::Sub(a, b),
        BinaryOp::Mul => FloatOp::Mul(a, b),
        BinaryOp::Div => FloatOp::Div(a, b),
        other => {
            return Err(
                ExecError::InternalTypeError(
                    labelled("eval_arith got non-arithmetic operator ", op_label_of(other)),
                ),
            );
        },
    };
    let result = ask_float(floats, q);
    Ok(Value::Float(result.unwrap()))
}

/// Unary minus. Negating `i64::MIN` is an integer overflow.
pub fn eval_neg(v: Value) -> (res: Result<Value, ExecError>)
    ensures
        value_result_view(res) == neg_spec(v@),
{
    match v {
        Value::Integer(n) => {
            if n == i64::MIN {
                Err(ExecError::IntegerOverflow)
            } else {
                Ok(Value::Integer(-n))
            }
        },
        Value::Float(f) => Ok(Value::Float(f64_bits_negate(f))),
        Value::Null => Ok(Value::Null),
        other => Err(
            ExecError::InternalTypeError(
                labelled("NEG expected a numeric type or NULL, got ", value_debug_of(&other)),
            ),
        ),
    }
}

/// Evaluates a bound expression against a row. For analysed statements
/// the only errors are the runtime ones: division by zero and integer
/// overflow.
pub fn eval<F: Fn(FloatOp) -> Option<u64>>(expr: &BoundExpr, row: &Row, floats: &F) -> (res: Result<
    Value,
    ExecError,
>)
    requires
        float_unit_ok(*floats),
        columns_within(expr@, row@.len()),
    ensures
        value_result_view(res) == eval_spec(float_semantics(*floats), expr@, row@),
    decreases expr,
{
    match expr {
        BoundExpr::Column { index, .. } => Ok(row.values[*index].duplicate()),
        BoundExpr::Literal(value) => Ok(value.duplicate()),
        BoundExpr::Not(inner) => {
            let v = eval(inner, row, floats)?;
            eval_not(v)
        },
        BoundExpr::Neg(inner) => {
            let v = eval(inner, row, floats)?;
            eval_neg(v)
        },
        BoundExpr::BinaryOp { left, op, right } => {
            let l = eval(left, row, floats)?;
            let r = eval(right, row, floats)?;
            match op {
                BinaryOp::And => eval_and(l, r),
                BinaryOp::Or => eval_or(l, r),
                BinaryOp::Eq
                | BinaryOp::NotEq
                | BinaryOp::Lt
                | BinaryOp::LtEq
                | BinaryOp::Gt
                | BinaryOp::GtEq => eval_cmp(*op, l, r, floats),
                BinaryOp::Add | BinaryOp::Sub | BinaryOp::Mul | BinaryOp::Div => {
                    eval_arith(*op, l, r, floats)
                },
            }
        },
        BoundExpr::IsNull { expr, negated } => {
            let v = eval(expr, row, floats)?;
            let is_null = matches!(v, Value::Null);
            Ok(Value::Boolean(is_null != *negated))
        },
    }
}

/// A row is kept by a filter only if it evaluates to exactly `TRUE`. No
/// filter means every row passes.
fn row_passes_filter<F: Fn(FloatOp) -> Option<u64>>(
    filter: &Option<BoundExpr>,
    row: &Row,
    floats: &F,
) -> (res: Result<bool, ExecError>)
    requires
        float_unit_ok(*floats),
        opt_columns_within(crate::analyser::bound::opt_bound_expr_view(*filter), row@.len()),
    ensures
        match res {
            Ok(b) => filter_spec(
                float_semantics(*floats),
                crate::analyser::bound::opt_bound_expr_view(*filter),
                row@,
            ) == Ok::<bool, ExecErrorV>(b),
            Err(e) => filter_spec(
                float_semantics(*floats),
                crate::analyser::bound::opt_bound_expr_view(*filter),
                row@,
            ) == Err::<bool, ExecErrorV>(e@),
        },
{
    match filter {
        Some(expr) => {
            let v = eval(expr, row, floats)?;
            Ok(matches!(v, Value::Boolean(true)))
        },
        None => Ok(true),
    }
}


/// The view of a statement's outcome.
pub open spec fn exec_result_view(r: Result<ExecResult, ExecError>) -> Result<ExecResultV, ExecErrorV> {
    match r {
        Ok(x) => Ok(x@),
        Err(e) => Err(e@),
    }
}

/// The view of an update plan.
pub open spec fn plan_entry_view(p: Option<Vec<(usize, Value)>>) -> Option<Seq<(usize, ValueV)>> {
    match p {
        Some(changes) => Some(changes@.map_values(|c: (usize, Value)| (c.0, c.1@))),
        None => None,
    }
}

pub open spec fn plan_view(p: Seq<Option<Vec<(usize, Value)>>>) -> Seq<Option<Seq<(usize, ValueV)>>> {
    p.map_values(|e: Option<Vec<(usize, Value)>>| plan_entry_view(e))
}

/// `schema` is what the catalog view holds for `table`.
pub open spec fn schema_matches(schema: Option<&TableSchema>, cat: CatalogV, table: Seq<char>) -> bool {
    match schema {
        Some(s) => cat.contains_key(table) && s@ == cat[table],
        None => !cat.contains_key(table),
    }
}

/// Whether column `i` is declared `NOT NULL`.
fn not_null_at(schema: Option<&TableSchema>, i: usize, Ghost(cat): Ghost<CatalogV>, Ghost(table): Ghost<Seq<char>>) -> (b: bool)
    requires
        schema_matches(schema, cat, table),
    ensures
        b == not_null_column(cat, table, i as int),
{
    match schema {
        Some(s) => i < s.columns.len() && !s.columns[i].nullable,
        None => false,
    }
}

/// The plan for one row of an `UPDATE`: `None` if its filter excludes it,
/// otherwise the `(column, value)` writes of the assignments, evaluated
/// against the row's pre-update values and checked against NOT NULL.
fn plan_row<F: Fn(FloatOp) -> Option<u64>>(
    update: &BoundUpdate,
    row: &Row,
    schema: Option<&TableSchema>,
    floats: &F,
    Ghost(cat): Ghost<CatalogV>,
) -> (r: Result<Option<Vec<(usize, Value)>>, ExecError>)
    requires
        float_unit_ok(*floats),
        schema_matches(schema, cat, update.table@),
        opt_columns_within(opt_bound_expr_view(update.filter), row@.len()),
        forall|k: int|
            0 <= k < update.assignments@.len() ==> #[trigger] update.assignments@[k].0.index
                < row@.len() && columns_within(update.assignments@[k].1@, row@.len()),
    ensures
        match r {
            Ok(p) => update_row_plan(float_semantics(*floats), cat, update@, row@) == Ok::<
                Option<Seq<(usize, ValueV)>>,
                ExecErrorV,
            >(plan_entry_view(p)),
            Err(e) => update_row_plan(float_semantics(*floats), cat, update@, row@) == Err::<
                Option<Seq<(usize, ValueV)>>,
                ExecErrorV,
            >(e@),
        },
{
    let ghost fl = float_semantics(*floats);
    let passes = row_passes_filter(&update.filter, row, floats)?;
    if !passes {
        return Ok(None);
    }
    let ghost av = bound_assignments_view(update.assignments@);
    let ghost f = assignment_evaluator(fl, cat, update.table@, row@);
    let mut changes: Vec<(usize, Value)> = Vec::new();
    let mut k: usize = 0;
    assert(av.take(0) =~= Seq::<(BoundColumnV, BoundExprV)>::empty());
    assert(changes@.map_values(|c: (usize, Value)| (c.0, c.1@)) =~= Seq::<(usize, ValueV)>::empty());
    while k < update.assignments.len()
        invariant
            k <= update.assignments@.len(),
            float_unit_ok(*floats),
            fl == float_semantics(*floats),
            schema_matches(schema, cat, update.table@),
            av == bound_assignments_view(update.assignments@),
            f == assignment_evaluator(fl, cat, update.table@, row@),
            forall|j: int|
                0 <= j < update.assignments@.len() ==> #[trigger] update.assignments@[j].0.index
                    < row@.len() && columns_within(update.assignments@[j].1@, row@.len()),
            try_map(av.take(k as int), f) == Ok::<Seq<(usize, ValueV)>, ExecErrorV>(
                changes@.map_values(|c: (usize, Value)| (c.0, c.1@)),
            ),
            filter_spec(fl, opt_bound_expr_view(update.filter), row@) == Ok::<bool, ExecErrorV>(true),
        decreases update.assignments.len() - k,
    {
        let column = &update.assignments[k].0;
        let expr = &update.assignments[k].1;
        proof {
            lemma_try_map_step(av, f, k as int);
            assert(av[k as int] == (column@, expr@));
            assert(f(av[k as int]) == assignment_spec(fl, cat, update.table@, row@, (column@, expr@)));
        }
        let v = match eval(expr, row, floats) {
            Ok(v) => v,
            Err(e) => {
                proof {
                    lemma_try_map_prefix_err(av, f, k + 1);
                }
                return Err(e);
            },
        };
        if not_null_at(schema, column.index, Ghost(cat), Ghost(update.table@)) && matches!(v, Value::Null) {
            proof {
                lemma_try_map_prefix_err(av, f, k + 1);
            }
            return Err(ExecError::NotNullViolation { table: update.table.clone(), column: column.name.clone() });
        }
        let ghost before = changes@;
        changes.push((column.index, v));
        k = k + 1;
        assert(changes@.map_values(|c: (usize, Value)| (c.0, c.1@)) =~= before.map_values(
            |c: (usize, Value)| (c.0, c.1@),
        ).push((column.index, v@)));
    }
    assert(av.take(k as int) =~= av);
    Ok(Some(changes))
}

/// A copy of `row` with `changes` written in order.
fn apply_row_changes(row: &Row, changes: &Vec<(usize, Value)>) -> (r: Row)
    requires
        forall|j: int| 0 <= j < changes@.len() ==> #[trigger] changes@[j].0 < row@.len(),
    ensures
        r@ == apply_changes(row@, changes@.map_values(|c: (usize, Value)| (c.0, c.1@))),
        r@.len() == row@.len(),
{
    let ghost cv = changes@.map_values(|c: (usize, Value)| (c.0, c.1@));
    let mut r = row.duplicate();
    let mut j: usize = 0;
    assert(cv.take(0) =~= Seq::<(usize, ValueV)>::empty());
    while j < changes.len()
        invariant
            j <= changes@.len(),
            cv == changes@.map_values(|c: (usize, Value)| (c.0, c.1@)),
            forall|i: int| 0 <= i < changes@.len() ==> #[trigger] changes@[i].0 < row@.len(),
            r@ == apply_changes(row@, cv.take(j as int)),
            r@.len() == row@.len(),
        decreases changes.len() - j,
    {
        let ghost before = r@;
        let idx = changes[j].0;
        r.values.set(idx, changes[j].1.duplicate());
        proof {
            assert(cv.take(j + 1).drop_last() =~= cv.take(j as int));
            assert(r@ =~= before.update(idx as int, changes@[j as int].1@));
        }
        j = j + 1;
    }
    assert(cv.take(j as int) =~= cv);
    r
}

/// Runs bound statements against a catalog and its row storage, which it
/// owns for as long as it runs statements. A
/// [`Database`](crate::db::Database) keeps one for the process lifetime.
pub struct Executor {
    catalog: Catalog,
    storage: Storage,
}

impl Executor {
    /// Both halves are well formed.
    pub closed spec fn wf(&self) -> bool {
        self.catalog.wf() && self.storage.wf()
    }

    /// The schemas of the tables.
    pub closed spec fn catalog_view(&self) -> CatalogV {
        self.catalog@
    }

    /// The rows of the tables.
    pub closed spec fn storage_view(&self) -> StorageV {
        self.storage@
    }

    pub fn new(catalog: Catalog, storage: Storage) -> (r: Self)
        requires
            catalog.wf(),
            storage.wf(),
        ensures
            r.wf(),
            r.catalog_view() == catalog@,
            r.storage_view() == storage@,
    {
        Self { catalog, storage }
    }

    /// Read access to the schemas.
    pub fn catalog(&self) -> (r: &Catalog)
        ensures
            r@ == self.catalog_view(),
            self.wf() ==> r.wf(),
    {
        &self.catalog
    }

    /// Read access to the rows.
    pub fn storage(&self) -> (r: &Storage)
        ensures
            r@ == self.storage_view(),
            self.wf() ==> r.wf(),
    {
        &self.storage
    }

    /// Runs one bound statement. A failure leaves the catalog and the
    /// storage as they were.
    pub fn execute<F: Fn(FloatOp) -> Option<u64>>(&mut self, statement: BoundStatement, floats: &F) -> (r:
        Result<ExecResult, ExecError>)
        requires
            old(self).wf(),
            float_unit_ok(*floats),
            statement_fits(old(self).storage_view(), statement@),
        ensures
            final(self).wf(),
            (exec_result_view(r), final(self).catalog_view(), final(self).storage_view())
                == execute_spec(
                float_semantics(*floats),
                old(self).catalog_view(),
                old(self).storage_view(),
                statement@,
            ),
    {
        match statement {
            BoundStatement::Select(s) => self.exec_select(s, floats),
            BoundStatement::Insert(s) => self.exec_insert(s, floats),
            BoundStatement::Update(s) => self.exec_update(s, floats),
            BoundStatement::Delete(s) => self.exec_delete(s, floats),
            BoundStatement::CreateTable(s) => self.exec_create_table(s),
        }
    }

    fn exec_select<F: Fn(FloatOp) -> Option<u64>>(&self, select: BoundSelect, floats: &F) -> (r: Result<
        ExecResult,
        ExecError,
    >)
        requires
            self.wf(),
            float_unit_ok(*floats),
            statement_fits(self.storage_view(), crate::analyser::bound::BoundStatementV::Select(select@)),
        ensures
            (exec_result_view(r), self.catalog_view(), self.storage_view()) == select_spec(
                float_semantics(*floats),
                self.catalog_view(),
                self.storage_view(),
                select@,
            ),
    {
        let ghost fl = float_semantics(*floats);
        let rows = match self.storage.rows(select.table.as_str()) {
            Ok(rows) => rows,
            Err(e) => {
                return Err(ExecError::Storage(e));
            },
        };
        let ghost rv = rows_view(rows@);
        let ghost sv = select@;
        let ghost fe = filter_evaluator(fl, sv.filter);
        let ghost mut flags: Seq<bool> = Seq::empty();
        let mut result: Vec<Row> = Vec::new();
        let mut i: usize = 0;
        assert(rv.take(0) =~= Seq::<RowV>::empty());
        assert(rows_view(result@) =~= Seq::<RowV>::empty());
        while i < rows.len()
            invariant
                i <= rows@.len(),
                float_unit_ok(*floats),
                fl == float_semantics(*floats),
                sv == select@,
                rv == rows_view(rows@),
                rv == self.storage_view()[sv.table],
                self.storage_view().contains_key(sv.table),
                statement_fits(self.storage_view(), crate::analyser::bound::BoundStatementV::Select(sv)),
                fe == filter_evaluator(fl, sv.filter),
                flags.len() == i,
                try_map(rv.take(i as int), fe) == Ok::<Seq<bool>, ExecErrorV>(flags),
                rows_view(result@) == flagged(rv.take(i as int), flags).map_values(
                    |r: RowV| project(r, sv.columns),
                ),
            decreases rows.len() - i,
        {
            let row = &rows[i];
            proof {
                assert(rv[i as int] == row@);
                assert(rv[i as int].len() == row@.len());
                lemma_try_map_step(rv, fe, i as int);
                lemma_flagged_step(rv, flags, true, i as int);
                lemma_flagged_step(rv, flags, false, i as int);
            }
            let keep = match row_passes_filter(&select.filter, row, floats) {
                Ok(b) => b,
                Err(e) => {
                    proof {
                        lemma_try_map_prefix_err(rv, fe, i + 1);
                    }
                    return Err(e);
                },
            };
            if keep {
                proof {
                    assert forall|c: int| 0 <= c < select.columns@.len() implies #[trigger] select.columns@[c].index
                        < row@.len() by {
                        assert(self.storage_view()[sv.table][i as int].len() == row@.len());
                        assert(sv.columns[c] == select.columns@[c]@);
                        assert(sv.columns[c].index == select.columns@[c].index);
                    }
                }
                let mut vals: Vec<Value> = Vec::new();
                let mut k: usize = 0;
                while k < select.columns.len()
                    invariant
                        k <= select.columns@.len(),
                        sv == select@,
                        forall|c: int| 0 <= c < select.columns@.len() ==> #[trigger] select.columns@[c].index < row@.len(),
                        vals@.len() == k,
                        forall|c: int| 0 <= c < k ==> #[trigger] vals@[c]@ == project(row@, sv.columns)[c],
                    decreases select.columns.len() - k,
                {
                    assert(sv.columns[k as int] == select.columns@[k as int]@);
                    vals.push(row.values[select.columns[k].index].duplicate());
                    k = k + 1;
                }
                let projected = Row::new(vals);
                assert(projected@ =~= project(row@, sv.columns));
                let ghost before = result@;
                result.push(projected);
                assert(rows_view(result@) =~= rows_view(before).push(projected@));
            }
            proof {
                flags = flags.push(keep);
            }
            i = i + 1;
        }
        assert(rv.take(i as int) =~= rv);
        Ok(ExecResult::Rows(result))
    }

    fn exec_insert<F: Fn(FloatOp) -> Option<u64>>(&mut self, insert: BoundInsert, floats: &F) -> (r:
        Result<ExecResult, ExecError>)
        requires
            old(self).wf(),
            float_unit_ok(*floats),
            statement_fits(old(self).storage_view(), crate::analyser::bound::BoundStatementV::Insert(insert@)),
        ensures
            final(self).wf(),
            (exec_result_view(r), final(self).catalog_view(), final(self).storage_view()) == insert_spec(
                float_semantics(*floats),
                old(self).catalog_view(),
                old(self).storage_view(),
                insert@,
            ),
    {
        let ghost fl = float_semantics(*floats);
        let ghost cat = self.catalog@;
        // VALUES expressions never contain a column reference, so there is
        // no real row to evaluate them against.
        let no_row = Row::new(Vec::new());
        assert(no_row@ =~= Seq::<ValueV>::empty());
        let ghost ev = bound_exprs_view(insert.values@);
        let ghost f = value_evaluator(fl, Seq::empty());
        let mut values: Vec<Value> = Vec::with_capacity(insert.values.len());
        let mut k: usize = 0;
        assert(ev.take(0) =~= Seq::<BoundExprV>::empty());
        assert(values_view(values@) =~= Seq::<ValueV>::empty());
        proof {
            lemma_insert_fits(old(self).storage_view(), insert@);
        }
        assert forall|j: int| 0 <= j < ev.len() implies columns_within(#[trigger] ev[j], 0) by {
            assert(insert@.values[j] == ev[j]);
        }
        while k < insert.values.len()
            invariant
                k <= insert.values@.len(),
                float_unit_ok(*floats),
                fl == float_semantics(*floats),
                ev == bound_exprs_view(insert.values@),
                f == value_evaluator(fl, Seq::empty()),
                no_row@ == Seq::<ValueV>::empty(),
                self.wf(),
                self.catalog_view() == old(self).catalog_view(),
                self.storage_view() == old(self).storage_view(),
                cat == self.catalog_view(),
                forall|j: int| 0 <= j < ev.len() ==> columns_within(#[trigger] ev[j], 0),
                try_map(ev.take(k as int), f) == Ok::<Seq<ValueV>, ExecErrorV>(values_view(values@)),
            decreases insert.values.len() - k,
        {
            proof {
                lemma_try_map_step(ev, f, k as int);
                assert(ev[k as int] == insert.values@[k as int]@);
            }
            let v = match eval(&insert.values[k], &no_row, floats) {
                Ok(v) => v,
                Err(e) => {
                    proof {
                        lemma_try_map_prefix_err(ev, f, k + 1);
                    }
                    return Err(e);
                },
            };
            let ghost before = values@;
            values.push(v);
            k = k + 1;
            assert(values_view(values@) =~= values_view(before).push(v@));
        }
        assert(ev.take(k as int) =~= ev);
        let ghost vv = values_view(values@);
        let ghost g = insert_null_checker(cat, insert.table@, vv);
        let schema = self.catalog.schema(insert.table.as_str());
        let mut i: usize = 0;
        while i < values.len()
            invariant
                i <= values@.len(),
                vv == values_view(values@),
                g == insert_null_checker(cat, insert.table@, vv),
                self.wf(),
                self.catalog_view() == old(self).catalog_view(),
                self.storage_view() == old(self).storage_view(),
                cat == self.catalog_view(),
                ev == bound_exprs_view(insert.values@),
                try_map(ev, f) == Ok::<Seq<ValueV>, ExecErrorV>(vv),
                f == value_evaluator(fl, Seq::empty()),
                schema_matches(schema, cat, insert.table@),
                try_each(i as nat, g) == Ok::<(), ExecErrorV>(()),
                fl == float_semantics(*floats),
            decreases values.len() - i,
        {
            proof {
                assert(g(i as int) == insert_null_check(cat, insert.table@, vv, i as int));
                assert(vv[i as int] == values@[i as int]@);
            }
            if not_null_at(schema, i, Ghost(cat), Ghost(insert.table@)) && matches!(values[i], Value::Null) {
                proof {
                    lemma_try_each_prefix_err(vv.len(), g, (i + 1) as nat);
                }
                let name = match schema {
                    Some(s) => {
                        assert(s.columns@[i as int]@ == s@[i as int]);
                        s.columns[i].name.clone()
                    },
                    None => String::new(),
                };
                assert(name@ == cat[insert.table@][i as int].name);
                let table = insert.table.clone();
                assert(g(i as int) == Err::<(), ExecErrorV>(not_null_violation(table@, name@)));
                return Err(ExecError::NotNullViolation { table, column: name });
            }
            i = i + 1;
        }
        assert(i == vv.len());
        let row = Row::new(values);
        assert(row@ == vv);
        match self.storage.insert(insert.table.as_str(), row) {
            Ok(()) => Ok(ExecResult::RowsAffected(1)),
            Err(e) => Err(ExecError::Storage(e)),
        }
    }

    fn exec_update<F: Fn(FloatOp) -> Option<u64>>(&mut self, update: BoundUpdate, floats: &F) -> (r:
        Result<ExecResult, ExecError>)
        requires
            old(self).wf(),
            float_unit_ok(*floats),
            statement_fits(old(self).storage_view(), crate::analyser::bound::BoundStatementV::Update(update@)),
        ensures
            final(self).wf(),
            (exec_result_view(r), final(self).catalog_view(), final(self).storage_view()) == update_spec(
                float_semantics(*floats),
                old(self).catalog_view(),
                old(self).storage_view(),
                update@,
            ),
    {
        let ghost fl = float_semantics(*floats);
        let ghost cat = self.catalog@;
        let ghost uv = update@;
        // Evaluate then apply: every SET expression sees the row's
        // pre-update values, and nothing is written unless every row's
        // plan succeeds.
        let existing = match self.storage.rows(update.table.as_str()) {
            Ok(rows) => rows,
            Err(e) => {
                return Err(ExecError::Storage(e));
            },
        };
        let schema = self.catalog.schema(update.table.as_str());
        let ghost rv = rows_view(existing@);
        let ghost planner = update_planner(fl, cat, uv);
        let mut plan: Vec<Option<Vec<(usize, Value)>>> = Vec::new();
        let mut i: usize = 0;
        assert(rv.take(0) =~= Seq::<RowV>::empty());
        assert(plan_view(plan@) =~= Seq::<Option<Seq<(usize, ValueV)>>>::empty());
        while i < existing.len()
            invariant
                i <= existing@.len(),
                float_unit_ok(*floats),
                fl == float_semantics(*floats),
                uv == update@,
                rv == rows_view(existing@),
                rv == old(self).storage_view()[uv.table],
                old(self).storage_view().contains_key(uv.table),
                statement_fits(old(self).storage_view(), crate::analyser::bound::BoundStatementV::Update(uv)),
                schema_matches(schema, cat, update.table@),
                planner == update_planner(fl, cat, uv),
                plan@.len() == i,
                self.wf(),
                self.catalog_view() == old(self).catalog_view(),
                self.storage_view() == old(self).storage_view(),
                cat == self.catalog_view(),
                try_map(rv.take(i as int), planner) == Ok::<Seq<Option<Seq<(usize, ValueV)>>>, ExecErrorV>(
                    plan_view(plan@),
                ),
            decreases existing.len() - i,
        {
            let row = &existing[i];
            proof {
                assert(rv[i as int] == row@);
                lemma_try_map_step(rv, planner, i as int);
                assert forall|k: int| 0 <= k < update.assignments@.len() implies #[trigger] update.assignments@[k].0.index
                    < row@.len() && columns_within(update.assignments@[k].1@, row@.len()) by {
                    assert(uv.assignments[k] == (update.assignments@[k].0@, update.assignments@[k].1@));
                    assert(old(self).storage_view()[uv.table][i as int].len() == row@.len());
                    assert(uv.assignments[k].0.index == update.assignments@[k].0.index);
                }
            }
            let p = match plan_row(&update, row, schema, floats, Ghost(cat)) {
                Ok(p) => p,
                Err(e) => {
                    proof {
                        lemma_try_map_prefix_err(rv, planner, i + 1);
                    }
                    return Err(e);
                },
            };
            let ghost before = plan@;
            plan.push(p);
            i = i + 1;
            assert(plan_view(plan@) =~= plan_view(before).push(plan_entry_view(p)));
        }
        assert(rv.take(i as int) =~= rv);
        let ghost pv = plan_view(plan@);
        let mut new_rows: Vec<Row> = Vec::with_capacity(existing.len());
        let mut affected: usize = 0;
        let mut j: usize = 0;
        while j < existing.len()
            invariant
                j <= existing@.len(),
                plan@.len() == existing@.len(),
                pv == plan_view(plan@),
                rv == rows_view(existing@),
                rv == old(self).storage_view()[uv.table],
                old(self).storage_view().contains_key(uv.table),
                uv == update@,
                statement_fits(old(self).storage_view(), crate::analyser::bound::BoundStatementV::Update(uv)),
                try_map(rv, planner) == Ok::<Seq<Option<Seq<(usize, ValueV)>>>, ExecErrorV>(pv),
                planner == update_planner(fl, cat, uv),
                rows_view(new_rows@) =~= apply_plan(rv, pv).take(j as int),
                affected == count_some(pv.take(j as int)),
                affected <= j,
                self.wf(),
                self.catalog_view() == old(self).catalog_view(),
                self.storage_view() == old(self).storage_view(),
                cat == self.catalog_view(),
            decreases existing.len() - j,
        {
            proof {
                lemma_count_some_step(pv.take(j as int), pv[j as int]);
                assert(pv.take(j + 1) =~= pv.take(j as int).push(pv[j as int]));
            }
            let ghost before = new_rows@;
            match &plan[j] {
                Some(changes) => {
                    proof {
                        assert(rv[j as int] == existing@[j as int]@);
                        assert(pv[j as int] == plan_entry_view(plan@[j as int]));
                        crate::analyser::spec::lemma_try_map_ok_elem(rv, planner, j as int);
                        assert forall|c: int| 0 <= c < changes@.len() implies #[trigger] changes@[c].0
                            < existing@[j as int]@.len() by {
                            let cv = changes@.map_values(|x: (usize, Value)| (x.0, x.1@));
                            assert(cv[c] == (changes@[c].0, changes@[c].1@));
                            lemma_update_plan_indices(fl, cat, uv, rv[j as int], cv, c);
                            assert(uv.assignments.len() == update.assignments@.len());
                        }
                    }
                    let r = apply_row_changes(&existing[j], changes);
                    new_rows.push(r);
                    affected = affected + 1;
                },
                None => {
                    new_rows.push(existing[j].duplicate());
                },
            }
            j = j + 1;
            assert(rows_view(new_rows@) =~= rows_view(before).push(new_rows@.last()@));
        }
        assert(pv.take(j as int) =~= pv);
        assert(rows_view(new_rows@) =~= apply_plan(rv, pv));
        match self.storage.replace_rows(update.table.as_str(), new_rows) {
            Ok(()) => Ok(ExecResult::RowsAffected(affected)),
            Err(e) => Err(ExecError::Storage(e)),
        }
    }

    fn exec_delete<F: Fn(FloatOp) -> Option<u64>>(&mut self, delete: BoundDelete, floats: &F) -> (r:
        Result<ExecResult, ExecError>)
        requires
            old(self).wf(),
            float_unit_ok(*floats),
            statement_fits(old(self).storage_view(), crate::analyser::bound::BoundStatementV::Delete(delete@)),
        ensures
            final(self).wf(),
            (exec_result_view(r), final(self).catalog_view(), final(self).storage_view()) == delete_spec(
                float_semantics(*floats),
                old(self).catalog_view(),
                old(self).storage_view(),
                delete@,
            ),
    {
        let ghost fl = float_semantics(*floats);
        let ghost dv = delete@;
        // Evaluate then apply: decide what to remove before removing
        // anything.
        let existing = match self.storage.rows(delete.table.as_str()) {
            Ok(rows) => rows,
            Err(e) => {
                return Err(ExecError::Storage(e));
            },
        };
        let ghost rv = rows_view(existing@);
        let ghost fe = filter_evaluator(fl, dv.filter);
        let mut keep: Vec<bool> = Vec::with_capacity(existing.len());
        let mut kept: Vec<Row> = Vec::new();
        let mut removed: usize = 0;
        let mut i: usize = 0;
        assert(rv.take(0) =~= Seq::<RowV>::empty());
        assert(rows_view(kept@) =~= Seq::<RowV>::empty());
        while i < existing.len()
            invariant
                i <= existing@.len(),
                float_unit_ok(*floats),
                fl == float_semantics(*floats),
                dv == delete@,
                rv == rows_view(existing@),
                rv == old(self).storage_view()[dv.table],
                old(self).storage_view().contains_key(dv.table),
                statement_fits(old(self).storage_view(), crate::analyser::bound::BoundStatementV::Delete(dv)),
                fe == filter_evaluator(fl, dv.filter),
                keep@.len() == i,
                try_map(rv.take(i as int), fe) == Ok::<Seq<bool>, ExecErrorV>(keep@),
                rows_view(kept@) == unflagged(rv.take(i as int), keep@),
                removed == count_true(keep@),
                removed <= i,
                self.wf(),
                self.catalog_view() == old(self).catalog_view(),
                self.storage_view() == old(self).storage_view(),
            decreases existing.len() - i,
        {
            let row = &existing[i];
            proof {
                assert(rv[i as int] == row@);
                lemma_try_map_step(rv, fe, i as int);
                lemma_flagged_step(rv, keep@, true, i as int);
                lemma_flagged_step(rv, keep@, false, i as int);
            }
            let passes = match row_passes_filter(&delete.filter, row, floats) {
                Ok(b) => b,
                Err(e) => {
                    proof {
                        lemma_try_map_prefix_err(rv, fe, i + 1);
                    }
                    return Err(e);
                },
            };
            if passes {
                removed = removed + 1;
            } else {
                let ghost before = kept@;
                kept.push(row.duplicate());
                assert(rows_view(kept@) =~= rows_view(before).push(row@));
            }
            keep.push(passes);
            i = i + 1;
        }
        assert(rv.take(i as int) =~= rv);
        match self.storage.replace_rows(delete.table.as_str(), kept) {
            Ok(()) => Ok(ExecResult::RowsAffected(removed)),
            Err(e) => Err(ExecError::Storage(e)),
        }
    }

    fn exec_create_table(&mut self, stmt: CreateTableStatement) -> (r: Result<ExecResult, ExecError>)
        requires
            old(self).wf(),
        ensures
            final(self).wf(),
            (exec_result_view(r), final(self).catalog_view(), final(self).storage_view())
                == create_table_spec(old(self).catalog_view(), old(self).storage_view(), stmt@),
    {
        let ghost decls = column_decls_view(stmt.columns@);
        let mut columns: Vec<ColumnDef> = Vec::with_capacity(stmt.columns.len());
        let mut i: usize = 0;
        while i < stmt.columns.len()
            invariant
                i <= stmt.columns@.len(),
                decls == column_decls_view(stmt.columns@),
                columns@.len() == i,
                forall|k: int| 0 <= k < i ==> #[trigger] columns@[k]@ == declared_schema(decls)[k],
            decreases stmt.columns.len() - i,
        {
            let decl = &stmt.columns[i];
            columns.push(ColumnDef { name: decl.name.clone(), ty: decl.ty, nullable: decl.nullable });
            i = i + 1;
        }
        let schema = TableSchema { columns };
        assert(schema@ =~= declared_schema(decls));
        self.catalog.register_table(stmt.table.as_str(), schema);
        self.storage.create_table(stmt.table.as_str());
        Ok(ExecResult::TableCreated)
    }
}

} // verus!
