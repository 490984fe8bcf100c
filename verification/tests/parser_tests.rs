use basaltsql::lexer::{Lexer, TokenKind};
use basaltsql::parser::{
    BinaryOp, ColumnDecl, CreateTableStatement, DeleteStatement, Expr, InsertStatement,
    ParseError, Parser, SelectColumns, SelectStatement, Statement, UpdateStatement,
};
use basaltsql::types::{DataType, FloatOp, Value};

fn floats(op: FloatOp) -> Option<u64> {
    match op {
        FloatOp::Parse(text) => text.parse::<f64>().ok().map(f64::to_bits),
        FloatOp::FromInteger(n) => Some((n as f64).to_bits()),
        FloatOp::Add(a, b) => Some((f64::from_bits(a) + f64::from_bits(b)).to_bits()),
        FloatOp::Sub(a, b) => Some((f64::from_bits(a) - f64::from_bits(b)).to_bits()),
        FloatOp::Mul(a, b) => Some((f64::from_bits(a) * f64::from_bits(b)).to_bits()),
        FloatOp::Div(a, b) => Some((f64::from_bits(a) / f64::from_bits(b)).to_bits()),
    }
}

fn parse(src: &str) -> Vec<Statement> {
    let tokens = Lexer::new(src).tokenise().expect("lex failed");
    Parser::new(tokens).parse(&floats).expect("parse failed")
}

fn parse_err(src: &str) -> ParseError {
    let tokens = Lexer::new(src).tokenise().expect("lex failed");
    Parser::new(tokens).parse(&floats).unwrap_err()
}

fn eq_literal(e: Expr, n: i64) -> Expr {
    Expr::BinaryOp {
        left: Box::new(e),
        op: BinaryOp::Eq,
        right: Box::new(Expr::Literal(Value::Integer(n))),
    }
}

#[test]
fn parses_simple_select() {
    let stmts = parse("SELECT * FROM t;");
    assert_eq!(
        stmts,
        vec![Statement::Select(SelectStatement {
            columns: SelectColumns::All,
            table: "t".to_string(),
            filter: None,
        })]
    );
}

#[test]
fn parses_select_with_column_list_and_where() {
    let stmts = parse("SELECT a, b FROM t WHERE a = 1 AND b = 'x';");
    assert_eq!(
        stmts,
        vec![Statement::Select(SelectStatement {
            columns: SelectColumns::List(vec!["a".into(), "b".into()]),
            table: "t".into(),
            filter: Some(Expr::BinaryOp {
                left: Box::new(Expr::BinaryOp {
                    left: Box::new(Expr::Column("a".into())),
                    op: BinaryOp::Eq,
                    right: Box::new(Expr::Literal(Value::Integer(1))),
                }),
                op: BinaryOp::And,
                right: Box::new(Expr::BinaryOp {
                    left: Box::new(Expr::Column("b".into())),
                    op: BinaryOp::Eq,
                    right: Box::new(Expr::Literal(Value::Text("x".into()))),
                }),
            }),
        })]
    );
}

#[test]
fn and_binds_tighter_than_or() {
    let stmts = parse("SELECT * FROM t WHERE a = 1 OR b = 2 AND c = 3;");
    let Statement::Select(select) = &stmts[0] else {
        panic!("expected select");
    };
    let Some(Expr::BinaryOp { op, left, right }) = &select.filter else {
        panic!("expected top-level binary op");
    };
    assert_eq!(*op, BinaryOp::Or);
    assert_eq!(**left, eq_literal(Expr::Column("a".into()), 1));
    assert!(matches!(
        **right,
        Expr::BinaryOp {
            op: BinaryOp::And,
            ..
        }
    ));
}

#[test]
fn parenthesized_expr_overrides_precedence() {
    let stmts = parse("SELECT * FROM t WHERE (a = 1 OR b = 2) AND c = 3;");
    let Statement::Select(select) = &stmts[0] else {
        panic!("expected select");
    };
    let Some(Expr::BinaryOp { op, .. }) = &select.filter else {
        panic!("expected top-level binary op");
    };
    assert_eq!(*op, BinaryOp::And);
}

#[test]
fn parses_not() {
    let stmts = parse("SELECT * FROM t WHERE NOT a = 1;");
    let Statement::Select(select) = &stmts[0] else {
        panic!("expected select");
    };
    assert!(matches!(select.filter, Some(Expr::Not(_))));
}

#[test]
fn parses_insert() {
    let stmts = parse("INSERT INTO t VALUES (1, 'x', 2.5);");
    assert_eq!(
        stmts,
        vec![Statement::Insert(InsertStatement {
            table: "t".into(),
            values: vec![
                Expr::Literal(Value::Integer(1)),
                Expr::Literal(Value::Text("x".into())),
                Expr::Literal(Value::Float(2.5f64.to_bits())),
            ],
        })]
    );
}

#[test]
fn parses_update() {
    let stmts = parse("UPDATE t SET a = 1, b = 'y' WHERE a = 2;");
    assert_eq!(
        stmts,
        vec![Statement::Update(UpdateStatement {
            table: "t".into(),
            assignments: vec![
                ("a".into(), Expr::Literal(Value::Integer(1))),
                ("b".into(), Expr::Literal(Value::Text("y".into()))),
            ],
            filter: Some(Expr::BinaryOp {
                left: Box::new(Expr::Column("a".into())),
                op: BinaryOp::Eq,
                right: Box::new(Expr::Literal(Value::Integer(2))),
            }),
        })]
    );
}

#[test]
fn parses_delete() {
    let stmts = parse("DELETE FROM t WHERE a = 1;");
    assert_eq!(
        stmts,
        vec![Statement::Delete(DeleteStatement {
            table: "t".into(),
            filter: Some(Expr::BinaryOp {
                left: Box::new(Expr::Column("a".into())),
                op: BinaryOp::Eq,
                right: Box::new(Expr::Literal(Value::Integer(1))),
            }),
        })]
    );
}

#[test]
fn parses_create_table() {
    let stmts = parse("CREATE TABLE t (id INTEGER NOT NULL, name TEXT);");
    assert_eq!(
        stmts,
        vec![Statement::CreateTable(CreateTableStatement {
            table: "t".into(),
            columns: vec![
                ColumnDecl {
                    name: "id".into(),
                    ty: DataType::Integer,
                    nullable: false,
                },
                ColumnDecl {
                    name: "name".into(),
                    ty: DataType::Text,
                    nullable: true,
                },
            ],
        })]
    );
}

#[test]
fn parses_multiple_statements() {
    let stmts = parse("SELECT * FROM t; DELETE FROM t;");
    assert_eq!(stmts.len(), 2);
}

#[test]
fn errors_on_unknown_type() {
    let tokens = Lexer::new("CREATE TABLE t (id WIDGET);")
        .tokenise()
        .unwrap();
    let err = Parser::new(tokens).parse(&floats).unwrap_err();
    match err {
        ParseError::UnknownType { name, .. } => assert_eq!(name, "WIDGET"),
        other => panic!("expected UnknownType, got {other:?}"),
    }
}

#[test]
fn errors_on_unexpected_token() {
    let tokens = Lexer::new("SELECT FROM t;").tokenise().unwrap();
    let err = Parser::new(tokens).parse(&floats).unwrap_err();
    assert!(matches!(err, ParseError::UnexpectedToken { .. }));
}

#[test]
fn errors_on_unexpected_eof() {
    let tokens = Lexer::new("SELECT * FROM").tokenise().unwrap();
    let err = Parser::new(tokens).parse(&floats).unwrap_err();
    assert!(matches!(err, ParseError::UnexpectedEof { .. }));
}

#[test]
fn multiplication_binds_tighter_than_addition() {
    let stmts = parse("SELECT * FROM t WHERE a + b * c = 1;");
    let Statement::Select(select) = &stmts[0] else {
        panic!("expected select")
    };
    let Some(Expr::BinaryOp {
        op: BinaryOp::Eq,
        left,
        ..
    }) = &select.filter
    else {
        panic!("expected top-level Eq");
    };
    let Expr::BinaryOp { op, right, .. } = left.as_ref() else {
        panic!("expected term-level binary op on the left of Eq");
    };
    assert_eq!(*op, BinaryOp::Add);
    assert!(matches!(
        right.as_ref(),
        Expr::BinaryOp {
            op: BinaryOp::Mul,
            ..
        }
    ));
}

#[test]
fn parens_override_arithmetic_precedence() {
    let stmts = parse("SELECT * FROM t WHERE (a + b) * c = 1;");
    let Statement::Select(select) = &stmts[0] else {
        panic!("expected select")
    };
    let Some(Expr::BinaryOp { left, .. }) = &select.filter else {
        panic!("expected top-level binary op");
    };
    let Expr::BinaryOp { op, .. } = left.as_ref() else {
        panic!("expected multiplication on the left")
    };
    assert_eq!(*op, BinaryOp::Mul);
}

#[test]
fn arithmetic_is_left_associative() {
    let stmts = parse("SELECT * FROM t WHERE a / b * c = 1;");
    let Statement::Select(select) = &stmts[0] else {
        panic!("expected select")
    };
    let Some(Expr::BinaryOp { left, .. }) = &select.filter else {
        panic!("expected top-level binary op");
    };
    let Expr::BinaryOp {
        op,
        left: inner_left,
        ..
    } = left.as_ref()
    else {
        panic!("expected multiplication on the left")
    };
    assert_eq!(*op, BinaryOp::Mul);
    assert!(matches!(
        inner_left.as_ref(),
        Expr::BinaryOp {
            op: BinaryOp::Div,
            ..
        }
    ));
}

#[test]
fn parses_unary_minus() {
    let stmts = parse("SELECT * FROM t WHERE a = -1;");
    let Statement::Select(select) = &stmts[0] else {
        panic!("expected select")
    };
    assert_eq!(
        select.filter,
        Some(Expr::BinaryOp {
            left: Box::new(Expr::Column("a".into())),
            op: BinaryOp::Eq,
            right: Box::new(Expr::Neg(Box::new(Expr::Literal(Value::Integer(1))))),
        })
    );
}

#[test]
fn parses_negative_literal_in_insert() {
    let stmts = parse("INSERT INTO t VALUES (-1, -2.5);");
    assert_eq!(
        stmts,
        vec![Statement::Insert(InsertStatement {
            table: "t".into(),
            values: vec![
                Expr::Literal(Value::Integer(-1)),
                Expr::Literal(Value::Float((-2.5f64).to_bits())),
            ],
        })]
    );
}

#[test]
fn errors_on_negating_string_literal() {
    let tokens = Lexer::new("INSERT INTO t VALUES (-'x');")
        .tokenise()
        .unwrap();
    let err = Parser::new(tokens).parse(&floats).unwrap_err();
    assert!(matches!(err, ParseError::NonNumericNegation { .. }));
}

#[test]
fn parses_full_arithmetic_and_logical_expression() {
    let stmts = parse("SELECT * FROM t WHERE a * b + c = d AND -e < f;");
    assert_eq!(stmts.len(), 1);
}

#[test]
fn parses_is_null_and_is_not_null() {
    let stmts = parse("SELECT * FROM t WHERE a IS NULL OR b IS NOT NULL;");
    let Statement::Select(select) = &stmts[0] else {
        panic!("expected select")
    };
    assert_eq!(
        select.filter,
        Some(Expr::BinaryOp {
            left: Box::new(Expr::IsNull {
                expr: Box::new(Expr::Column("a".into())),
                negated: false,
            }),
            op: BinaryOp::Or,
            right: Box::new(Expr::IsNull {
                expr: Box::new(Expr::Column("b".into())),
                negated: true,
            }),
        })
    );
}

#[test]
fn is_must_be_followed_by_null() {
    let err = parse_err("SELECT * FROM t WHERE a IS 1;");
    assert_eq!(
        err,
        ParseError::UnexpectedToken {
            expected: "NULL".into(),
            found: TokenKind::Number("1".into()),
            offset: 27,
        }
    );
}

#[test]
fn literals_null_true_false() {
    let stmts = parse("INSERT INTO t VALUES (NULL, TRUE, false);");
    assert_eq!(
        stmts,
        vec![Statement::Insert(InsertStatement {
            table: "t".into(),
            values: vec![
                Expr::Literal(Value::Null),
                Expr::Literal(Value::Boolean(true)),
                Expr::Literal(Value::Boolean(false)),
            ],
        })]
    );
}

#[test]
fn double_negation_parses_as_nested_neg() {
    let stmts = parse("SELECT * FROM t WHERE - - a = 1;");
    let Statement::Select(select) = &stmts[0] else {
        panic!("expected select")
    };
    assert_eq!(
        select.filter,
        Some(eq_literal(
            Expr::Neg(Box::new(Expr::Neg(Box::new(Expr::Column("a".into()))))),
            1
        ))
    );
}

#[test]
fn negating_true_in_values_is_an_error_with_its_offset() {
    let err = parse_err("INSERT INTO t VALUES (1, -TRUE);");
    assert_eq!(
        err,
        ParseError::NonNumericNegation {
            found: TokenKind::True,
            offset: 26,
        }
    );
}

#[test]
fn negated_boolean_outside_values_parses() {
    let stmts = parse("SELECT * FROM t WHERE -TRUE;");
    let Statement::Select(select) = &stmts[0] else {
        panic!("expected select")
    };
    assert_eq!(
        select.filter,
        Some(Expr::Neg(Box::new(Expr::Literal(Value::Boolean(true)))))
    );
}

#[test]
fn negated_string_inside_a_larger_value_parses() {
    let stmts = parse("INSERT INTO t VALUES (-'x' = 'y');");
    let Statement::Insert(insert) = &stmts[0] else {
        panic!("expected insert")
    };
    assert_eq!(
        insert.values,
        vec![Expr::BinaryOp {
            left: Box::new(Expr::Neg(Box::new(Expr::Literal(Value::Text("x".into()))))),
            op: BinaryOp::Eq,
            right: Box::new(Expr::Literal(Value::Text("y".into()))),
        }]
    );
}

#[test]
fn malformed_numbers_are_invalid() {
    let err = parse_err("SELECT * FROM t WHERE a = 1.2.3;");
    assert_eq!(
        err,
        ParseError::InvalidNumber {
            text: "1.2.3".into(),
            offset: 26,
        }
    );
    let err = parse_err("SELECT * FROM t WHERE a = 99999999999999999999;");
    assert!(matches!(err, ParseError::InvalidNumber { .. }));
}

#[test]
fn type_names_and_synonyms() {
    let stmts = parse("CREATE TABLE t (a int, b Real, c varchar, d BOOL, e double, f string);");
    let Statement::CreateTable(create) = &stmts[0] else {
        panic!("expected create table")
    };
    let types: Vec<DataType> = create.columns.iter().map(|c| c.ty).collect();
    assert_eq!(
        types,
        vec![
            DataType::Integer,
            DataType::Float,
            DataType::Text,
            DataType::Boolean,
            DataType::Float,
            DataType::Text,
        ]
    );
}

#[test]
fn unknown_statement_keyword_is_an_error() {
    let err = parse_err("DROP TABLE t;");
    assert_eq!(
        err,
        ParseError::UnexpectedToken {
            expected: "a statement (SELECT, INSERT, UPDATE, DELETE, or CREATE TABLE)".into(),
            found: TokenKind::Ident("DROP".into()),
            offset: 0,
        }
    );
}

#[test]
fn empty_and_semicolon_only_input_parse_to_nothing() {
    assert_eq!(parse(""), vec![]);
    assert_eq!(parse(";;;"), vec![]);
}

#[test]
fn missing_closing_paren() {
    let err = parse_err("INSERT INTO t VALUES (1, 2");
    assert_eq!(
        err,
        ParseError::UnexpectedEof {
            expected: ")".into()
        }
    );
}

#[test]
fn comparison_operators_map_to_binary_ops() {
    let ops = [
        ("=", BinaryOp::Eq),
        ("<>", BinaryOp::NotEq),
        ("!=", BinaryOp::NotEq),
        ("<", BinaryOp::Lt),
        ("<=", BinaryOp::LtEq),
        (">", BinaryOp::Gt),
        (">=", BinaryOp::GtEq),
    ];
    for (text, op) in ops {
        let stmts = parse(&format!("SELECT * FROM t WHERE a {text} 1;"));
        let Statement::Select(select) = &stmts[0] else {
            panic!("expected select")
        };
        let Some(Expr::BinaryOp { op: found, .. }) = &select.filter else {
            panic!("expected a comparison")
        };
        assert_eq!(*found, op);
    }
}
