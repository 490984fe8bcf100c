use basaltsql::analyser::{BoundColumn, BoundExpr, BoundSelect, BoundStatement};
use basaltsql::catalog::{Catalog, TableSchema};
use basaltsql::executor::{
    eval, eval_and, eval_arith, eval_cmp, eval_neg, eval_not, eval_or, ExecError, Executor,
};
use basaltsql::storage::{Storage, StorageError};
use basaltsql::parser::BinaryOp;
use basaltsql::types::{DataType, FloatOp, Row, Value};

fn floats(op: FloatOp) -> Option<u64> {
    match op {
        FloatOp::Parse(text) => text.parse::<f64>().ok().map(f64::to_bits),
        FloatOp::FromInteger(n) => Some((n as f64).to_bits()),
        FloatOp::Add(a, b) => Some((f64::from_bits(a) + f64::from_bits(b)).to_bits()),
        FloatOp::Sub(a, b) => Some((f64::from_bits(a) - f64::from_bits(b)).to_bits()),
        FloatOp::Mul(a, b) => Some((f64::from_bits(a) * f64::from_bits(b)).to_bits()),
        FloatOp::Div(a, b) => Some((f64::from_bits(a) / f64::from_bits(b)).to_bits()),
    }
}

fn float(f: f64) -> Value {
    Value::Float(f.to_bits())
}

#[test]
fn and_truth_table_matches_three_valued_logic() {
    let t = Value::Boolean(true);
    let f = Value::Boolean(false);
    let u = Value::Null;

    assert_eq!(eval_and(t.clone(), t.clone()).unwrap(), Value::Boolean(true));
    assert_eq!(eval_and(t.clone(), f.clone()).unwrap(), Value::Boolean(false));
    assert_eq!(eval_and(f.clone(), t.clone()).unwrap(), Value::Boolean(false));
    assert_eq!(eval_and(f.clone(), f.clone()).unwrap(), Value::Boolean(false));
    assert_eq!(eval_and(t.clone(), u.clone()).unwrap(), Value::Null);
    assert_eq!(eval_and(u.clone(), t.clone()).unwrap(), Value::Null);
    assert_eq!(eval_and(f.clone(), u.clone()).unwrap(), Value::Boolean(false));
    assert_eq!(eval_and(u.clone(), f.clone()).unwrap(), Value::Boolean(false));
    assert_eq!(eval_and(u.clone(), u.clone()).unwrap(), Value::Null);
}

#[test]
fn or_truth_table_matches_three_valued_logic() {
    let t = Value::Boolean(true);
    let f = Value::Boolean(false);
    let u = Value::Null;

    assert_eq!(eval_or(t.clone(), t.clone()).unwrap(), Value::Boolean(true));
    assert_eq!(eval_or(f.clone(), f.clone()).unwrap(), Value::Boolean(false));
    assert_eq!(eval_or(t.clone(), u.clone()).unwrap(), Value::Boolean(true));
    assert_eq!(eval_or(u.clone(), t.clone()).unwrap(), Value::Boolean(true));
    assert_eq!(eval_or(f.clone(), u.clone()).unwrap(), Value::Null);
    assert_eq!(eval_or(u.clone(), f.clone()).unwrap(), Value::Null);
    assert_eq!(eval_or(u.clone(), u.clone()).unwrap(), Value::Null);
}

#[test]
fn not_unknown_is_unknown() {
    assert_eq!(eval_not(Value::Null).unwrap(), Value::Null);
    assert_eq!(eval_not(Value::Boolean(true)).unwrap(), Value::Boolean(false));
}

#[test]
fn comparison_with_null_is_unknown_not_false() {
    let result = eval_cmp(BinaryOp::Eq, Value::Integer(1), Value::Null, &floats).unwrap();
    assert_eq!(result, Value::Null);
}

#[test]
fn integer_division_by_zero_errors() {
    let err = eval_arith(BinaryOp::Div, Value::Integer(1), Value::Integer(0), &floats).unwrap_err();
    assert_eq!(err, ExecError::DivisionByZero);
}

#[test]
fn float_division_by_zero_errors_not_infinity() {
    let err = eval_arith(BinaryOp::Div, float(1.0), float(0.0), &floats).unwrap_err();
    assert_eq!(err, ExecError::DivisionByZero);
}

#[test]
fn mixed_integer_float_arithmetic_promotes_to_float() {
    let result = eval_arith(BinaryOp::Add, Value::Integer(1), float(2.5), &floats).unwrap();
    assert_eq!(result, float(3.5));
}

#[test]
fn null_propagates_through_arithmetic() {
    let result = eval_arith(BinaryOp::Add, Value::Integer(1), Value::Null, &floats).unwrap();
    assert_eq!(result, Value::Null);
}

#[test]
fn nan_comparisons_are_all_false_except_not_eq() {
    let nan = float(f64::NAN);
    assert_eq!(
        eval_cmp(BinaryOp::Eq, nan.clone(), nan.clone(), &floats).unwrap(),
        Value::Boolean(false)
    );
    assert_eq!(
        eval_cmp(BinaryOp::NotEq, nan.clone(), nan.clone(), &floats).unwrap(),
        Value::Boolean(true)
    );
    assert_eq!(
        eval_cmp(BinaryOp::Lt, nan.clone(), nan, &floats).unwrap(),
        Value::Boolean(false)
    );
}

#[test]
fn integer_overflow_errors() {
    let err = eval_arith(BinaryOp::Add, Value::Integer(i64::MAX), Value::Integer(1), &floats)
        .unwrap_err();
    assert_eq!(err, ExecError::IntegerOverflow);
}

#[test]
fn integer_division_overflow_errors() {
    let err = eval_arith(BinaryOp::Div, Value::Integer(i64::MIN), Value::Integer(-1), &floats)
        .unwrap_err();
    assert_eq!(err, ExecError::IntegerOverflow);
}

#[test]
fn is_null_true_for_null_and_false_otherwise() {
    let row = Row::new(vec![]);
    let is_null = BoundExpr::IsNull {
        expr: Box::new(BoundExpr::Literal(Value::Null)),
        negated: false,
    };
    assert_eq!(eval(&is_null, &row, &floats).unwrap(), Value::Boolean(true));

    let not_null = BoundExpr::IsNull {
        expr: Box::new(BoundExpr::Literal(Value::Integer(1))),
        negated: false,
    };
    assert_eq!(eval(&not_null, &row, &floats).unwrap(), Value::Boolean(false));
}

#[test]
fn is_not_null_negates_correctly() {
    let row = Row::new(vec![]);
    let expr = BoundExpr::IsNull {
        expr: Box::new(BoundExpr::Literal(Value::Null)),
        negated: true,
    };
    assert_eq!(eval(&expr, &row, &floats).unwrap(), Value::Boolean(false));
}

#[test]
fn de_morgan_on_concrete_truth_values() {
    let values = [Value::Boolean(true), Value::Boolean(false), Value::Null];
    for l in values.iter() {
        for r in values.iter() {
            let lhs = eval_not(eval_and(l.clone(), r.clone()).unwrap()).unwrap();
            let rhs = eval_or(eval_not(l.clone()).unwrap(), eval_not(r.clone()).unwrap()).unwrap();
            assert_eq!(lhs, rhs);
            assert_eq!(
                eval_and(l.clone(), r.clone()).unwrap(),
                eval_and(r.clone(), l.clone()).unwrap()
            );
        }
    }
}

#[test]
fn logical_operators_reject_non_boolean_operands() {
    assert_eq!(
        eval_not(Value::Integer(3)).unwrap_err(),
        ExecError::InternalTypeError("expected BOOLEAN or NULL, got Integer(3)".into())
    );
    assert_eq!(
        eval_not(Value::Integer(i64::MIN)).unwrap_err(),
        ExecError::InternalTypeError(
            "expected BOOLEAN or NULL, got Integer(-9223372036854775808)".into()
        )
    );
    assert!(matches!(
        eval_and(Value::Boolean(true), Value::Text("x".into())),
        Err(ExecError::InternalTypeError(_))
    ));
}

#[test]
fn comparisons_of_each_type() {
    let cmp = |op, l, r| eval_cmp(op, l, r, &floats).unwrap();
    assert_eq!(cmp(BinaryOp::Lt, Value::Integer(1), Value::Integer(2)), Value::Boolean(true));
    assert_eq!(cmp(BinaryOp::GtEq, Value::Integer(2), Value::Integer(2)), Value::Boolean(true));
    assert_eq!(
        cmp(BinaryOp::Lt, Value::Text("apple".into()), Value::Text("banana".into())),
        Value::Boolean(true)
    );
    assert_eq!(
        cmp(BinaryOp::Gt, Value::Text("b".into()), Value::Text("abc".into())),
        Value::Boolean(true)
    );
    assert_eq!(
        cmp(BinaryOp::Lt, Value::Boolean(false), Value::Boolean(true)),
        Value::Boolean(true)
    );
    assert_eq!(cmp(BinaryOp::Eq, Value::Integer(2), float(2.0)), Value::Boolean(true));
    assert_eq!(cmp(BinaryOp::Lt, float(-0.5), float(0.25)), Value::Boolean(true));
    assert_eq!(cmp(BinaryOp::Eq, float(-0.0), float(0.0)), Value::Boolean(true));
    assert_eq!(cmp(BinaryOp::NotEq, float(1.5), float(1.5)), Value::Boolean(false));
    assert_eq!(cmp(BinaryOp::LtEq, float(-3.0), float(-2.0)), Value::Boolean(true));
}

#[test]
fn comparing_mismatched_types_is_an_internal_error() {
    assert_eq!(
        eval_cmp(BinaryOp::Eq, Value::Text("a".into()), Value::Integer(1), &floats).unwrap_err(),
        ExecError::InternalTypeError("cannot compare Text(\"a\") and Integer(1)".into())
    );
    assert_eq!(
        eval_cmp(BinaryOp::Lt, Value::Boolean(true), Value::Text("a\"b".into()), &floats)
            .unwrap_err(),
        ExecError::InternalTypeError(
            "cannot compare Boolean(true) and Text(\"a\\\"b\")".into()
        )
    );
}

#[test]
fn integer_arithmetic_is_exact() {
    let arith = |op, a, b| eval_arith(op, Value::Integer(a), Value::Integer(b), &floats);
    assert_eq!(arith(BinaryOp::Add, 2, 3), Ok(Value::Integer(5)));
    assert_eq!(arith(BinaryOp::Sub, 2, 3), Ok(Value::Integer(-1)));
    assert_eq!(arith(BinaryOp::Mul, -4, 3), Ok(Value::Integer(-12)));
    assert_eq!(arith(BinaryOp::Div, -7, 2), Ok(Value::Integer(-3)));
    assert_eq!(arith(BinaryOp::Div, 7, -2), Ok(Value::Integer(-3)));
    assert_eq!(arith(BinaryOp::Sub, i64::MIN, 1), Err(ExecError::IntegerOverflow));
    assert_eq!(arith(BinaryOp::Mul, i64::MAX, 2), Err(ExecError::IntegerOverflow));
}

#[test]
fn float_arithmetic_uses_the_float_unit() {
    assert_eq!(
        eval_arith(BinaryOp::Mul, float(1.5), float(2.0), &floats),
        Ok(float(3.0))
    );
    assert_eq!(
        eval_arith(BinaryOp::Div, Value::Integer(10), Value::Integer(4), &floats),
        Ok(Value::Integer(2))
    );
    assert_eq!(
        eval_arith(BinaryOp::Div, float(10.0), Value::Integer(4), &floats),
        Ok(float(2.5))
    );
    assert_eq!(
        eval_arith(BinaryOp::Div, float(1.0), float(-0.0), &floats),
        Err(ExecError::DivisionByZero)
    );
}

#[test]
fn negation() {
    assert_eq!(eval_neg(Value::Integer(5)), Ok(Value::Integer(-5)));
    assert_eq!(eval_neg(float(2.5)), Ok(float(-2.5)));
    assert_eq!(eval_neg(Value::Null), Ok(Value::Null));
    assert_eq!(eval_neg(Value::Integer(i64::MIN)), Err(ExecError::IntegerOverflow));
    assert!(matches!(
        eval_neg(Value::Boolean(true)),
        Err(ExecError::InternalTypeError(_))
    ));
}

#[test]
fn columns_read_the_row() {
    let row = Row::new(vec![Value::Integer(7), Value::Text("x".into())]);
    let expr = BoundExpr::BinaryOp {
        left: Box::new(BoundExpr::Column {
            name: "a".into(),
            index: 0,
            ty: DataType::Integer,
        }),
        op: BinaryOp::Mul,
        right: Box::new(BoundExpr::Literal(Value::Integer(3))),
    };
    assert_eq!(eval(&expr, &row, &floats), Ok(Value::Integer(21)));
}

#[test]
fn executor_reports_tables_missing_from_storage() {
    let mut catalog = Catalog::new();
    catalog.register_table("t", TableSchema::default());
    let mut executor = Executor::new(catalog, Storage::new());
    let select = BoundStatement::Select(BoundSelect {
        table: "t".into(),
        columns: Vec::<BoundColumn>::new(),
        filter: None,
    });
    assert_eq!(
        executor.execute(select, &floats),
        Err(ExecError::Storage(StorageError::MissingTable { name: "t".into() }))
    );
    assert!(executor.catalog().has_table("t"));
    assert!(executor.storage().rows("t").is_err());
}

fn zero_converts_to_one(op: FloatOp) -> Option<u64> {
    match op {
        FloatOp::FromInteger(0) => Some(1.0f64.to_bits()),
        other => floats(other),
    }
}

#[test]
fn float_divided_by_integer_zero_errors_whatever_the_conversion() {
    let err = eval_arith(BinaryOp::Div, float(1.0), Value::Integer(0), &zero_converts_to_one)
        .unwrap_err();
    assert_eq!(err, ExecError::DivisionByZero);
    let err = eval_arith(BinaryOp::Div, float(1.0), Value::Integer(0), &floats).unwrap_err();
    assert_eq!(err, ExecError::DivisionByZero);
}

fn negative_payload_nans(op: FloatOp) -> Option<u64> {
    match op {
        FloatOp::Sub(_, _) => Some(0xfff0_0000_0000_0001),
        other => floats(other),
    }
}

#[test]
fn nan_results_are_stored_with_the_canonical_pattern() {
    let result =
        eval_arith(BinaryOp::Sub, float(f64::INFINITY), float(f64::INFINITY), &negative_payload_nans)
            .unwrap();
    assert!(matches!(result, Value::Float(0x7ff8_0000_0000_0000)));
    let sum = eval_arith(BinaryOp::Add, float(1.0), float(2.0), &negative_payload_nans).unwrap();
    assert!(matches!(sum, Value::Float(b) if b == 3.0f64.to_bits()));
}

#[test]
fn values_compare_floats_as_ieee_754() {
    assert!(float(f64::NAN) != float(f64::NAN));
    assert!(float(-0.0) == float(0.0));
    assert!(float(1.5) == float(1.5));
    assert!(float(1.5) != float(2.5));
    assert!(Value::Integer(1) != float(1.0));
    assert!(Value::Text(String::from("a")) == Value::Text(String::from("a")));
    assert!(Value::Text(String::from("a")) != Value::Text(String::from("b")));
    assert!(Value::<String>::Null == Value::Null);
    assert!(Value::<String>::Boolean(true) != Value::Null);
}
