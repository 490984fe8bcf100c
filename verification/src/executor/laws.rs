//! Laws of expression evaluation: three-valued logic, NULL propagation,
//! division by zero, NaN comparisons and checked integer arithmetic.

use vstd::prelude::*;

use super::error::ExecError;
use super::spec::{
    and_spec, arith_spec, as_f64_spec, checked_int, comparison_spec, eval_spec, neg_spec, not_spec,
    or_spec, text_order, Order,
};
use crate::analyser::bound::{BoundExpr, BoundExprV};
use crate::parser::BinaryOp;
use crate::types::{f64_is_nan, f64_is_zero, f64_order_key, FloatOp, FloatSemantics, RowV, Value, ValueV};

verus! {

/// A truth value of three-valued logic: TRUE, FALSE or UNKNOWN (NULL).
pub open spec fn is_truth_value(v: ValueV) -> bool {
    v is Boolean || v is Null
}

pub open spec fn is_comparison(op: BinaryOp) -> bool {
    op is Eq || op is NotEq || op is Lt || op is LtEq || op is Gt || op is GtEq
}

pub open spec fn is_arithmetic(op: BinaryOp) -> bool {
    op is Add || op is Sub || op is Mul || op is Div
}

/// `AND` and `OR` do not depend on the order of their operands.
pub proof fn law_and_or_commute(l: ValueV, r: ValueV)
    requires
        is_truth_value(l),
        is_truth_value(r),
    ensures
        and_spec(l, r) == and_spec(r, l),
        or_spec(l, r) == or_spec(r, l),
{
}

/// FALSE decides an `AND` and TRUE decides an `OR`, even against UNKNOWN.
pub proof fn law_dominance(v: ValueV)
    requires
        is_truth_value(v),
    ensures
        and_spec(Value::Boolean(false), v) == Ok::<ValueV, crate::executor::error::ExecErrorV>(
            Value::Boolean(false),
        ),
        and_spec(v, Value::Boolean(false)) == Ok::<ValueV, crate::executor::error::ExecErrorV>(
            Value::Boolean(false),
        ),
        or_spec(Value::Boolean(true), v) == Ok::<ValueV, crate::executor::error::ExecErrorV>(
            Value::Boolean(true),
        ),
        or_spec(v, Value::Boolean(true)) == Ok::<ValueV, crate::executor::error::ExecErrorV>(
            Value::Boolean(true),
        ),
{
}

/// UNKNOWN propagates: `NOT` of it, and `AND`/`OR` of it with anything
/// that does not decide the result, are UNKNOWN.
pub proof fn law_unknown_propagates(v: ValueV)
    requires
        is_truth_value(v),
    ensures
        not_spec(Value::Null) == Ok::<ValueV, crate::executor::error::ExecErrorV>(Value::Null),
        v != Value::<Seq<char>>::Boolean(false) ==> and_spec(Value::Null, v) == Ok::<
            ValueV,
            crate::executor::error::ExecErrorV,
        >(Value::Null),
        v != Value::<Seq<char>>::Boolean(true) ==> or_spec(Value::Null, v) == Ok::<
            ValueV,
            crate::executor::error::ExecErrorV,
        >(Value::Null),
{
}

/// `NOT` undoes itself on truth values.
pub proof fn law_double_negation(v: ValueV)
    requires
        is_truth_value(v),
    ensures
        not_spec(not_spec(v)->Ok_0) == Ok::<ValueV, crate::executor::error::ExecErrorV>(v),
{
}

/// De Morgan's laws hold in three-valued logic.
pub proof fn law_de_morgan(l: ValueV, r: ValueV)
    requires
        is_truth_value(l),
        is_truth_value(r),
    ensures
        not_spec(and_spec(l, r)->Ok_0) == or_spec(not_spec(l)->Ok_0, not_spec(r)->Ok_0),
        not_spec(or_spec(l, r)->Ok_0) == and_spec(not_spec(l)->Ok_0, not_spec(r)->Ok_0),
{
}

/// A comparison with NULL on either side is UNKNOWN, never TRUE or FALSE,
/// whatever the operator and the other operand.
pub proof fn law_comparison_with_null_is_unknown(fl: FloatSemantics, op: BinaryOp, v: ValueV)
    ensures
        comparison_spec(fl, op, Value::Null, v) == Ok::<ValueV, crate::executor::error::ExecErrorV>(
            Value::Null,
        ),
        comparison_spec(fl, op, v, Value::Null) == Ok::<ValueV, crate::executor::error::ExecErrorV>(
            Value::Null,
        ),
{
}

/// Arithmetic with NULL on either side is NULL.
pub proof fn law_null_propagates_through_arithmetic(fl: FloatSemantics, op: BinaryOp, v: ValueV)
    ensures
        arith_spec(fl, op, Value::Null, v) == Ok::<ValueV, crate::executor::error::ExecErrorV>(
            Value::Null,
        ),
        arith_spec(fl, op, v, Value::Null) == Ok::<ValueV, crate::executor::error::ExecErrorV>(
            Value::Null,
        ),
        neg_spec(Value::Null) == Ok::<ValueV, crate::executor::error::ExecErrorV>(Value::Null),
{
}

/// `IS NULL` is never UNKNOWN: it is TRUE exactly for NULL, and `IS NOT
/// NULL` is its negation.
pub proof fn law_is_null_is_definite(fl: FloatSemantics, e: BoundExprV, row: RowV)
    ensures
        eval_spec(fl, BoundExpr::IsNull { expr: Box::new(e), negated: false }, row) == match eval_spec(
            fl,
            e,
            row,
        ) {
            Ok(v) => Ok(Value::<Seq<char>>::Boolean(v is Null)),
            Err(err) => Err(err),
        },
        eval_spec(fl, BoundExpr::IsNull { expr: Box::new(e), negated: true }, row) == match eval_spec(
            fl,
            e,
            row,
        ) {
            Ok(v) => Ok(Value::<Seq<char>>::Boolean(!(v is Null))),
            Err(err) => Err(err),
        },
{
}

/// Dividing a number by zero (the INTEGER 0, or either FLOAT zero) is an
/// error, for INTEGER and FLOAT dividends alike: IEEE-754's infinities
/// are never produced.
pub proof fn law_division_by_zero(fl: FloatSemantics, l: ValueV, zero: ValueV)
    requires
        l is Integer || l is Float,
        zero == Value::<Seq<char>>::Integer(0) || (zero is Float && f64_is_zero(zero->Float_0)),
    ensures
        arith_spec(fl, BinaryOp::Div, l, zero) == Err::<ValueV, crate::executor::error::ExecErrorV>(
            ExecError::DivisionByZero,
        ),
{
}

/// When either operand of a comparison is a NaN (and not both are
/// INTEGERs), every comparison is FALSE except `<>`, which is TRUE.
pub proof fn law_nan_comparisons(fl: FloatSemantics, op: BinaryOp, l: ValueV, r: ValueV)
    requires
        is_comparison(op),
        l is Integer || l is Float,
        r is Integer || r is Float,
        l is Float || r is Float,
        f64_is_nan(as_f64_spec(fl, l)->Some_0) || f64_is_nan(as_f64_spec(fl, r)->Some_0),
    ensures
        comparison_spec(fl, op, l, r) == Ok::<ValueV, crate::executor::error::ExecErrorV>(
            Value::Boolean(op is NotEq),
        ),
{
}

/// INTEGER `+`, `-` and `*` give the exact result, or `IntegerOverflow`
/// when it does not fit in an `i64`; never a wrapped value.
pub proof fn law_integer_arithmetic_is_checked(fl: FloatSemantics, op: BinaryOp, a: i64, b: i64)
    requires
        op is Add || op is Sub || op is Mul,
    ensures
        arith_spec(fl, op, Value::Integer(a), Value::Integer(b)) == checked_int(
            match op {
                BinaryOp::Add => a + b,
                BinaryOp::Sub => a - b,
                _ => a * b,
            },
        ),
        arith_spec(fl, op, Value::Integer(a), Value::Integer(b)) is Err ==> arith_spec(
            fl,
            op,
            Value::Integer(a),
            Value::Integer(b),
        ) == Err::<ValueV, crate::executor::error::ExecErrorV>(ExecError::IntegerOverflow),
{
}

// ---------------------------------------------------------------------
// The comparison operators
// ---------------------------------------------------------------------

/// INTEGER comparisons are the comparisons of the integers.
pub proof fn law_integer_comparisons(fl: FloatSemantics, a: i64, b: i64)
    ensures
        comparison_spec(fl, BinaryOp::Eq, Value::Integer(a), Value::Integer(b)) == Ok::<ValueV, crate::executor::error::ExecErrorV>(Value::Boolean(a == b)),
        comparison_spec(fl, BinaryOp::NotEq, Value::Integer(a), Value::Integer(b)) == Ok::<ValueV, crate::executor::error::ExecErrorV>(Value::Boolean(a != b)),
        comparison_spec(fl, BinaryOp::Lt, Value::Integer(a), Value::Integer(b)) == Ok::<ValueV, crate::executor::error::ExecErrorV>(Value::Boolean(a < b)),
        comparison_spec(fl, BinaryOp::LtEq, Value::Integer(a), Value::Integer(b)) == Ok::<ValueV, crate::executor::error::ExecErrorV>(Value::Boolean(a <= b)),
        comparison_spec(fl, BinaryOp::Gt, Value::Integer(a), Value::Integer(b)) == Ok::<ValueV, crate::executor::error::ExecErrorV>(Value::Boolean(a > b)),
        comparison_spec(fl, BinaryOp::GtEq, Value::Integer(a), Value::Integer(b)) == Ok::<ValueV, crate::executor::error::ExecErrorV>(Value::Boolean(a >= b)),
{
}

/// BOOLEAN comparisons order `false` before `true`.
pub proof fn law_boolean_comparisons(fl: FloatSemantics, a: bool, b: bool)
    ensures
        comparison_spec(fl, BinaryOp::Eq, Value::Boolean(a), Value::Boolean(b)) == Ok::<ValueV, crate::executor::error::ExecErrorV>(Value::Boolean(a == b)),
        comparison_spec(fl, BinaryOp::NotEq, Value::Boolean(a), Value::Boolean(b)) == Ok::<ValueV, crate::executor::error::ExecErrorV>(Value::Boolean(a != b)),
        comparison_spec(fl, BinaryOp::Lt, Value::Boolean(a), Value::Boolean(b)) == Ok::<ValueV, crate::executor::error::ExecErrorV>(Value::Boolean(!a && b)),
        comparison_spec(fl, BinaryOp::LtEq, Value::Boolean(a), Value::Boolean(b)) == Ok::<ValueV, crate::executor::error::ExecErrorV>(Value::Boolean(!a || b)),
        comparison_spec(fl, BinaryOp::Gt, Value::Boolean(a), Value::Boolean(b)) == Ok::<ValueV, crate::executor::error::ExecErrorV>(Value::Boolean(a && !b)),
        comparison_spec(fl, BinaryOp::GtEq, Value::Boolean(a), Value::Boolean(b)) == Ok::<ValueV, crate::executor::error::ExecErrorV>(Value::Boolean(a || !b)),
{
}

/// FLOAT comparisons of non-NaN doubles compare the numbers they denote
/// (`-0.0` and `0.0` are equal).
pub proof fn law_float_comparisons(fl: FloatSemantics, x: u64, y: u64)
    requires
        !f64_is_nan(x),
        !f64_is_nan(y),
    ensures
        comparison_spec(fl, BinaryOp::Eq, Value::Float(x), Value::Float(y)) == Ok::<ValueV, crate::executor::error::ExecErrorV>(Value::Boolean(f64_order_key(x) == f64_order_key(y))),
        comparison_spec(fl, BinaryOp::NotEq, Value::Float(x), Value::Float(y)) == Ok::<ValueV, crate::executor::error::ExecErrorV>(Value::Boolean(f64_order_key(x) != f64_order_key(y))),
        comparison_spec(fl, BinaryOp::Lt, Value::Float(x), Value::Float(y)) == Ok::<ValueV, crate::executor::error::ExecErrorV>(Value::Boolean(f64_order_key(x) < f64_order_key(y))),
        comparison_spec(fl, BinaryOp::LtEq, Value::Float(x), Value::Float(y)) == Ok::<ValueV, crate::executor::error::ExecErrorV>(Value::Boolean(f64_order_key(x) <= f64_order_key(y))),
        comparison_spec(fl, BinaryOp::Gt, Value::Float(x), Value::Float(y)) == Ok::<ValueV, crate::executor::error::ExecErrorV>(Value::Boolean(f64_order_key(x) > f64_order_key(y))),
        comparison_spec(fl, BinaryOp::GtEq, Value::Float(x), Value::Float(y)) == Ok::<ValueV, crate::executor::error::ExecErrorV>(Value::Boolean(f64_order_key(x) >= f64_order_key(y))),
{
}

/// Text order: equal texts compare equal.
proof fn lemma_text_order_refl(a: Seq<char>)
    ensures
        text_order(a, a) == Order::Equal,
    decreases a.len(),
{
    if a.len() > 0 {
        lemma_text_order_refl(a.drop_first());
    }
}

/// Text order: swapping the operands swaps `Less` and `Greater`, and only
/// equal texts compare `Equal`.
proof fn lemma_text_order_flip(a: Seq<char>, b: Seq<char>)
    ensures
        text_order(a, b) == Order::Less <==> text_order(b, a) == Order::Greater,
        text_order(a, b) == Order::Equal <==> a == b,
    decreases a.len(),
{
    if a.len() > 0 && b.len() > 0 {
        lemma_text_order_flip(a.drop_first(), b.drop_first());
        if text_order(a, b) == Order::Equal {
            vstd::utf8::char_u32_cast(a[0], a[0] as u32);
            vstd::utf8::char_u32_cast(b[0], b[0] as u32);
            assert(a[0] == b[0]);
            assert(a.drop_first() == b.drop_first());
            assert(a =~= seq![a[0]] + a.drop_first());
            assert(b =~= seq![b[0]] + b.drop_first());
        }
        if a == b {
            lemma_text_order_refl(a);
        }
    } else if a.len() == 0 && b.len() == 0 {
        assert(a =~= b);
    }
}

/// TEXT equality is equality of the texts.
pub proof fn law_text_equality(fl: FloatSemantics, a: Seq<char>, b: Seq<char>)
    ensures
        comparison_spec(fl, BinaryOp::Eq, Value::Text(a), Value::Text(b)) == Ok::<ValueV, crate::executor::error::ExecErrorV>(Value::Boolean(a == b)),
        comparison_spec(fl, BinaryOp::NotEq, Value::Text(a), Value::Text(b)) == Ok::<ValueV, crate::executor::error::ExecErrorV>(Value::Boolean(a != b)),
{
    lemma_text_order_flip(a, b);
}

/// Swapping the operands of a comparison swaps `<` with `>` and `<=` with
/// `>=`, and keeps `=` and `<>`, for any two non-NULL values that can be
/// compared.
pub proof fn law_comparison_converse(fl: FloatSemantics, l: ValueV, r: ValueV)
    requires
        !(l is Null),
        !(r is Null),
        comparison_spec(fl, BinaryOp::Eq, l, r) is Ok,
    ensures
        comparison_spec(fl, BinaryOp::Gt, l, r) == comparison_spec(fl, BinaryOp::Lt, r, l),
        comparison_spec(fl, BinaryOp::GtEq, l, r) == comparison_spec(fl, BinaryOp::LtEq, r, l),
        comparison_spec(fl, BinaryOp::Lt, l, r) == comparison_spec(fl, BinaryOp::Gt, r, l),
        comparison_spec(fl, BinaryOp::LtEq, l, r) == comparison_spec(fl, BinaryOp::GtEq, r, l),
        comparison_spec(fl, BinaryOp::Eq, l, r) == comparison_spec(fl, BinaryOp::Eq, r, l),
        comparison_spec(fl, BinaryOp::NotEq, l, r) == comparison_spec(fl, BinaryOp::NotEq, r, l),
{
    match (l, r) {
        (Value::Text(a), Value::Text(b)) => {
            lemma_text_order_flip(a, b);
            lemma_text_order_flip(b, a);
        },
        _ => {},
    }
}

/// No non-NULL value is less or greater than itself, and every one that
/// is not a NaN equals itself.
pub proof fn law_comparison_irreflexive(fl: FloatSemantics, v: ValueV)
    requires
        !(v is Null),
        comparison_spec(fl, BinaryOp::Eq, v, v) is Ok,
    ensures
        comparison_spec(fl, BinaryOp::Lt, v, v) == Ok::<ValueV, crate::executor::error::ExecErrorV>(Value::Boolean(false)),
        comparison_spec(fl, BinaryOp::Gt, v, v) == Ok::<ValueV, crate::executor::error::ExecErrorV>(Value::Boolean(false)),
        as_f64_spec(fl, v) is None || !f64_is_nan(as_f64_spec(fl, v)->Some_0) ==> {
            &&& comparison_spec(fl, BinaryOp::Eq, v, v) == Ok::<ValueV, crate::executor::error::ExecErrorV>(Value::Boolean(true))
            &&& comparison_spec(fl, BinaryOp::LtEq, v, v) == Ok::<ValueV, crate::executor::error::ExecErrorV>(Value::Boolean(true))
            &&& comparison_spec(fl, BinaryOp::GtEq, v, v) == Ok::<ValueV, crate::executor::error::ExecErrorV>(Value::Boolean(true))
            &&& comparison_spec(fl, BinaryOp::NotEq, v, v) == Ok::<ValueV, crate::executor::error::ExecErrorV>(Value::Boolean(false))
        },
{
    match v {
        Value::Text(a) => {
            lemma_text_order_refl(a);
        },
        _ => {},
    }
}

// ---------------------------------------------------------------------
// FLOAT and INTEGER arithmetic
// ---------------------------------------------------------------------

/// The float unit's answer to `q`, as a FLOAT.
pub open spec fn unit_float(fl: FloatSemantics, q: FloatOp<Seq<char>>) -> ValueV {
    Value::Float(fl(q).unwrap())
}

/// The float unit's conversion of the integer `n`.
pub open spec fn unit_from_int(fl: FloatSemantics, n: i64) -> u64 {
    fl(FloatOp::FromInteger(n)).unwrap()
}

/// Arithmetic on two FLOATs asks the float unit for that operation on the
/// two operands, the left operand first (division by a zero aside, see
/// [`law_division_by_zero`]).
pub proof fn law_float_arithmetic(fl: FloatSemantics, x: u64, y: u64)
    ensures
        arith_spec(fl, BinaryOp::Add, Value::Float(x), Value::Float(y)) == Ok::<ValueV, crate::executor::error::ExecErrorV>(unit_float(fl, FloatOp::Add(x, y))),
        arith_spec(fl, BinaryOp::Sub, Value::Float(x), Value::Float(y)) == Ok::<ValueV, crate::executor::error::ExecErrorV>(unit_float(fl, FloatOp::Sub(x, y))),
        arith_spec(fl, BinaryOp::Mul, Value::Float(x), Value::Float(y)) == Ok::<ValueV, crate::executor::error::ExecErrorV>(unit_float(fl, FloatOp::Mul(x, y))),
        !f64_is_zero(y) ==> arith_spec(fl, BinaryOp::Div, Value::Float(x), Value::Float(y)) == Ok::<ValueV, crate::executor::error::ExecErrorV>(unit_float(fl, FloatOp::Div(x, y))),
{
}

/// Arithmetic mixing an INTEGER and a FLOAT converts the INTEGER with the
/// float unit, then asks for the operation with the operands in their
/// places: `n - y` is `from(n) - y`, `x - n` is `x - from(n)`.
pub proof fn law_mixed_arithmetic(fl: FloatSemantics, n: i64, y: u64)
    ensures
        arith_spec(fl, BinaryOp::Add, Value::Integer(n), Value::Float(y)) == Ok::<ValueV, crate::executor::error::ExecErrorV>(unit_float(fl, FloatOp::Add(unit_from_int(fl, n), y))),
        arith_spec(fl, BinaryOp::Add, Value::Float(y), Value::Integer(n)) == Ok::<ValueV, crate::executor::error::ExecErrorV>(unit_float(fl, FloatOp::Add(y, unit_from_int(fl, n)))),
        arith_spec(fl, BinaryOp::Sub, Value::Integer(n), Value::Float(y)) == Ok::<ValueV, crate::executor::error::ExecErrorV>(unit_float(fl, FloatOp::Sub(unit_from_int(fl, n), y))),
        arith_spec(fl, BinaryOp::Sub, Value::Float(y), Value::Integer(n)) == Ok::<ValueV, crate::executor::error::ExecErrorV>(unit_float(fl, FloatOp::Sub(y, unit_from_int(fl, n)))),
        arith_spec(fl, BinaryOp::Mul, Value::Integer(n), Value::Float(y)) == Ok::<ValueV, crate::executor::error::ExecErrorV>(unit_float(fl, FloatOp::Mul(unit_from_int(fl, n), y))),
        arith_spec(fl, BinaryOp::Mul, Value::Float(y), Value::Integer(n)) == Ok::<ValueV, crate::executor::error::ExecErrorV>(unit_float(fl, FloatOp::Mul(y, unit_from_int(fl, n)))),
        !f64_is_zero(y) ==> arith_spec(fl, BinaryOp::Div, Value::Integer(n), Value::Float(y)) == Ok::<ValueV, crate::executor::error::ExecErrorV>(unit_float(fl, FloatOp::Div(unit_from_int(fl, n), y))),
        n != 0 && !f64_is_zero(unit_from_int(fl, n)) ==> arith_spec(fl, BinaryOp::Div, Value::Float(y), Value::Integer(n)) == Ok::<ValueV, crate::executor::error::ExecErrorV>(unit_float(fl, FloatOp::Div(y, unit_from_int(fl, n)))),
{
}

/// INTEGER division truncates toward zero: unless the divisor is zero or
/// the quotient overflows (`i64::MIN / -1`), the result `q` leaves a
/// remainder `a - q * b` smaller than `b` in size and of the sign of `a`.
pub proof fn law_integer_division(fl: FloatSemantics, a: i64, b: i64)
    requires
        b != 0,
        !(a == i64::MIN && b == -1),
    ensures
        arith_spec(fl, BinaryOp::Div, Value::Integer(a), Value::Integer(b)) matches Ok(Value::Integer(q)) && {
            let r = a - q * b;
            &&& -(b as int) < r < (b as int) || (b as int) < r < -(b as int)
            &&& r == 0 || (r > 0) == (a > 0)
        },
{
    let ai = a as int;
    let bi = b as int;
    let q = super::spec::trunc_div(ai, bi);
    if ai >= 0 && bi > 0 {
        let d = ai / bi;
        let m = ai % bi;
        assert(ai == bi * d + m && 0 <= m < bi && 0 <= d <= ai) by (nonlinear_arith)
            requires bi > 0, ai >= 0, d == ai / bi, m == ai % bi;
        assert(q == d);
        assert(ai - q * bi == m) by (nonlinear_arith) requires ai == bi * d + m, q == d;
    } else if ai >= 0 {
        let nb = -bi;
        let d = ai / nb;
        let m = ai % nb;
        assert(ai == nb * d + m && 0 <= m < nb && 0 <= d <= ai) by (nonlinear_arith)
            requires nb > 0, ai >= 0, d == ai / nb, m == ai % nb;
        assert(q == -d);
        assert(ai - q * bi == m) by (nonlinear_arith) requires ai == nb * d + m, q == -d, bi == -nb;
    } else if bi > 0 {
        let na = -ai;
        let d = na / bi;
        let m = na % bi;
        assert(na == bi * d + m && 0 <= m < bi && 0 <= d <= na) by (nonlinear_arith)
            requires bi > 0, na > 0, d == na / bi, m == na % bi;
        assert(q == -d);
        assert(ai - q * bi == -m) by (nonlinear_arith) requires na == bi * d + m, q == -d, ai == -na;
    } else {
        let na = -ai;
        let nb = -bi;
        let d = na / nb;
        let m = na % nb;
        assert(na == nb * d + m && 0 <= m < nb && 0 <= d <= na) by (nonlinear_arith)
            requires nb > 0, na > 0, d == na / nb, m == na % nb;
        assert(d <= i64::MAX) by (nonlinear_arith)
            requires nb > 0, na > 0, d == na / nb, na <= 0x8000_0000_0000_0000, nb == 1 ==> na <= 0x7fff_ffff_ffff_ffff;
        assert(q == d);
        assert(ai - q * bi == -m) by (nonlinear_arith) requires na == nb * d + m, q == d, ai == -na, bi == -nb;
    }
}

// ---------------------------------------------------------------------
// Definite truth values and negation
// ---------------------------------------------------------------------

/// On TRUE and FALSE, `AND`, `OR` and `NOT` are the connectives of
/// two-valued logic.
pub proof fn law_two_valued_connectives(a: bool, b: bool)
    ensures
        and_spec(Value::Boolean(a), Value::Boolean(b)) == Ok::<ValueV, crate::executor::error::ExecErrorV>(Value::Boolean(a && b)),
        or_spec(Value::Boolean(a), Value::Boolean(b)) == Ok::<ValueV, crate::executor::error::ExecErrorV>(Value::Boolean(a || b)),
        not_spec(Value::Boolean(a)) == Ok::<ValueV, crate::executor::error::ExecErrorV>(Value::Boolean(!a)),
{
}

/// Unary minus on an INTEGER is its negation, and an overflow only for
/// `i64::MIN`; twice applied to a FLOAT it gives the FLOAT back.
pub proof fn law_negation(n: i64, x: u64)
    ensures
        n != i64::MIN ==> (neg_spec(Value::Integer(n)) matches Ok(Value::Integer(m)) && m == -n),
        n == i64::MIN ==> neg_spec(Value::Integer(n)) == Err::<ValueV, crate::executor::error::ExecErrorV>(ExecError::IntegerOverflow),
        neg_spec(Value::Float(x)) matches Ok(v) && neg_spec(v) == Ok::<ValueV, crate::executor::error::ExecErrorV>(Value::Float(x)),
        neg_spec(Value::<Seq<char>>::Null) == Ok::<ValueV, crate::executor::error::ExecErrorV>(Value::Null),
{
}

} // verus!
