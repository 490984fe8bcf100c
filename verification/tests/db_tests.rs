use basaltsql::db::Database;
use basaltsql::error::Error;
use basaltsql::executor::{ExecError, ExecResult};
use basaltsql::lexer::LexError;
use basaltsql::parser::ParseError;
use basaltsql::types::{FloatOp, Row, Value};

fn floats(op: FloatOp) -> Option<u64> {
    match op {
        FloatOp::Parse(text) => text.parse::<f64>().ok().map(f64::to_bits),
        FloatOp::FromInteger(n) => Some((n as f64).to_bits()),
        FloatOp::Add(a, b) => Some((f64::from_bits(a) + f64::from_bits(b)).to_bits()),
        FloatOp::Sub(a, b) => Some((f64::from_bits(a) - f64::from_bits(b)).to_bits()),
        FloatOp::Mul(a, b) => Some((f64::from_bits(a) * f64::from_bits(b)).to_bits()),
        FloatOp::Div(a, b) => Some((f64::from_bits(a) / f64::from_bits(b)).to_bits()),
    }
}

fn new_db() -> Database<fn(FloatOp) -> Option<u64>> {
    Database::new(floats as fn(FloatOp) -> Option<u64>)
}

#[test]
fn create_insert_select_round_trip() {
    let mut db = new_db();
    db.execute("CREATE TABLE users (id INTEGER, name TEXT, balance FLOAT);")
        .unwrap();
    db.execute("INSERT INTO users VALUES (1, 'Ada', 10.5);")
        .unwrap();
    db.execute("INSERT INTO users VALUES (2, 'Bo', 3.0);")
        .unwrap();

    let result = db
        .execute("SELECT * FROM users WHERE balance > 5;")
        .unwrap()
        .unwrap();
    assert_eq!(
        result,
        ExecResult::Rows(vec![Row::new(vec![
            Value::Integer(1),
            Value::Text("Ada".into()),
            Value::Float(10.5f64.to_bits()),
        ])])
    );
}

#[test]
fn select_with_column_list_and_computed_where() {
    let mut db = new_db();
    db.execute("CREATE TABLE t (id INTEGER, qty INTEGER);")
        .unwrap();
    db.execute("INSERT INTO t VALUES (1, 4);").unwrap();
    db.execute("INSERT INTO t VALUES (2, 10);").unwrap();

    let result = db
        .execute("SELECT id FROM t WHERE qty * 2 > 15;")
        .unwrap()
        .unwrap();
    assert_eq!(
        result,
        ExecResult::Rows(vec![Row::new(vec![Value::Integer(2)])])
    );
}

#[test]
fn update_and_delete() {
    let mut db = new_db();
    db.execute("CREATE TABLE t (id INTEGER, qty INTEGER);")
        .unwrap();
    db.execute("INSERT INTO t VALUES (1, 10);").unwrap();
    db.execute("INSERT INTO t VALUES (2, 20);").unwrap();

    let updated = db
        .execute("UPDATE t SET qty = qty * 2 WHERE id = 1;")
        .unwrap()
        .unwrap();
    assert_eq!(updated, ExecResult::RowsAffected(1));

    let deleted = db
        .execute("DELETE FROM t WHERE qty > 15;")
        .unwrap()
        .unwrap();
    assert_eq!(deleted, ExecResult::RowsAffected(2));

    let remaining = db.execute("SELECT * FROM t;").unwrap().unwrap();
    assert_eq!(remaining, ExecResult::Rows(vec![]));
}

#[test]
fn division_by_zero_is_a_runtime_error() {
    let mut db = new_db();
    db.execute("CREATE TABLE t (id INTEGER, qty INTEGER);")
        .unwrap();
    db.execute("INSERT INTO t VALUES (1, 10);").unwrap();

    let err = db.execute("SELECT * FROM t WHERE id / 0 = 1;").unwrap_err();
    assert!(matches!(err, Error::Exec(ExecError::DivisionByZero)));
}

#[test]
fn analyser_rejects_before_execution_touches_storage() {
    let mut db = new_db();
    db.execute("CREATE TABLE t (id INTEGER);").unwrap();

    let err = db
        .execute("INSERT INTO t VALUES ('not a number');")
        .unwrap_err();
    assert!(matches!(err, Error::Analyse(_)));

    let rows = db.execute("SELECT * FROM t;").unwrap().unwrap();
    assert_eq!(rows, ExecResult::Rows(vec![]));
}

#[test]
fn execute_all_runs_a_batch_in_order() {
    let mut db = new_db();
    let results = db
        .execute_all(
            "CREATE TABLE t (id INTEGER); \
                INSERT INTO t VALUES (1); \
                INSERT INTO t VALUES (2);",
        )
        .unwrap();
    assert_eq!(results.len(), 3);
    assert_eq!(results[0], ExecResult::TableCreated);
    assert_eq!(results[1], ExecResult::RowsAffected(1));
    assert_eq!(results[2], ExecResult::RowsAffected(1));
}

#[test]
fn execute_returns_none_for_empty_input() {
    let mut db = new_db();
    assert_eq!(db.execute("   ").unwrap(), None);
}

#[test]
fn three_valued_logic_is_reachable_from_real_sql() {
    let mut db = new_db();
    db.execute("CREATE TABLE t (id INTEGER, flag BOOLEAN);")
        .unwrap();
    db.execute("INSERT INTO t VALUES (1, NULL);").unwrap();
    db.execute("INSERT INTO t VALUES (2, TRUE);").unwrap();
    db.execute("INSERT INTO t VALUES (3, FALSE);").unwrap();

    let result = db
        .execute("SELECT id FROM t WHERE flag = TRUE;")
        .unwrap()
        .unwrap();
    assert_eq!(
        result,
        ExecResult::Rows(vec![Row::new(vec![Value::Integer(2)])])
    );
}

#[test]
fn not_null_is_enforced_on_insert_and_update() {
    let mut db = new_db();
    db.execute("CREATE TABLE t (id INTEGER NOT NULL, note TEXT);")
        .unwrap();
    let err = db.execute("INSERT INTO t VALUES (NULL, 'x');").unwrap_err();
    assert_eq!(
        err,
        Error::Exec(ExecError::NotNullViolation {
            table: "t".into(),
            column: "id".into(),
        })
    );
    db.execute("INSERT INTO t VALUES (1, NULL);").unwrap();
    let err = db.execute("UPDATE t SET id = 1 + NULL;").unwrap_err();
    assert!(matches!(err, Error::Exec(ExecError::NotNullViolation { .. })));
    let rows = db.execute("SELECT * FROM t;").unwrap().unwrap();
    assert_eq!(
        rows,
        ExecResult::Rows(vec![Row::new(vec![Value::Integer(1), Value::Null])])
    );
}

#[test]
fn failed_update_changes_no_row() {
    let mut db = new_db();
    db.execute_all(
        "CREATE TABLE t (id INTEGER, qty INTEGER); \
         INSERT INTO t VALUES (1, 5); \
         INSERT INTO t VALUES (2, 0);",
    )
    .unwrap();
    let err = db.execute("UPDATE t SET qty = 10 / qty;").unwrap_err();
    assert_eq!(err, Error::Exec(ExecError::DivisionByZero));
    let rows = db.execute("SELECT qty FROM t;").unwrap().unwrap();
    assert_eq!(
        rows,
        ExecResult::Rows(vec![
            Row::new(vec![Value::Integer(5)]),
            Row::new(vec![Value::Integer(0)]),
        ])
    );
}

#[test]
fn batch_stops_at_first_error_without_rollback() {
    let mut db = new_db();
    let err = db
        .execute_all(
            "CREATE TABLE t (id INTEGER); \
             INSERT INTO t VALUES (1); \
             INSERT INTO nowhere VALUES (2); \
             INSERT INTO t VALUES (3);",
        )
        .unwrap_err();
    assert!(matches!(err, Error::Analyse(_)));
    let rows = db.execute("SELECT * FROM t;").unwrap().unwrap();
    assert_eq!(rows, ExecResult::Rows(vec![Row::new(vec![Value::Integer(1)])]));
}

#[test]
fn lex_and_parse_errors_surface_through_execute() {
    let mut db = new_db();
    assert_eq!(
        db.execute("SELECT # FROM t;").unwrap_err(),
        Error::Lex(LexError::UnexpectedChar { ch: '#', offset: 7 })
    );
    assert_eq!(
        db.execute("SELECT * FROM").unwrap_err(),
        Error::Parse(ParseError::UnexpectedEof {
            expected: "identifier".into()
        })
    );
}

#[test]
fn execute_runs_only_the_first_statement() {
    let mut db = new_db();
    let first = db
        .execute("CREATE TABLE t (id INTEGER); INSERT INTO t VALUES (4);")
        .unwrap();
    assert_eq!(first, Some(ExecResult::TableCreated));
    let rows = db.execute("SELECT id FROM t;").unwrap().unwrap();
    assert_eq!(rows, ExecResult::Rows(vec![]));
    assert!(db.catalog().has_table("t"));
}

#[test]
fn execute_does_not_analyse_later_statements() {
    let mut db = new_db();
    let first = db
        .execute("CREATE TABLE t (id INTEGER); SELECT * FROM missing;")
        .unwrap();
    assert_eq!(first, Some(ExecResult::TableCreated));
}

#[test]
fn multibyte_identifiers_are_ordinary_names() {
    let mut db = new_db();
    assert_eq!(
        db.execute("CREATE TABLE café (prix INTEGER);"),
        Ok(Some(ExecResult::TableCreated))
    );
    assert!(db.catalog().has_table("café"));
    assert_eq!(
        db.execute_all("INSERT INTO café VALUES (3); SELECT prix FROM café;"),
        Ok(vec![
            ExecResult::RowsAffected(1),
            ExecResult::Rows(vec![Row::new(vec![Value::Integer(3)])]),
        ])
    );
}

#[test]
fn is_null_filters_and_float_arithmetic() {
    let mut db = new_db();
    db.execute_all(
        "CREATE TABLE p (name TEXT, price FLOAT); \
         INSERT INTO p VALUES ('a', 1.5); \
         INSERT INTO p VALUES ('b', NULL); \
         UPDATE p SET price = price * 2 WHERE price IS NOT NULL;",
    )
    .unwrap();
    let rows = db.execute("SELECT name, price FROM p WHERE price IS NULL OR price > 2;").unwrap().unwrap();
    assert_eq!(
        rows,
        ExecResult::Rows(vec![
            Row::new(vec![Value::Text("a".into()), Value::Float(3.0f64.to_bits())]),
            Row::new(vec![Value::Text("b".into()), Value::Null]),
        ])
    );
}

#[test]
fn version_is_the_package_version() {
    assert_eq!(basaltsql::VERSION, "0.1.0");
}
