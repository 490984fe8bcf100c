use basaltsql::lexer::{LexError, Lexer, Token, TokenKind};

fn kinds(src: &str) -> Vec<TokenKind> {
    Lexer::new(src)
        .tokenise()
        .unwrap()
        .iter()
        .map(|t| t.kind.clone())
        .collect()
}

#[test]
fn tokenizes_simple_select() {
    let tokens = Lexer::new("SELECT * FROM t;").tokenize().unwrap();
    assert_eq!(tokens.first().unwrap().kind, TokenKind::Select);
    assert_eq!(tokens.last().unwrap().kind, TokenKind::Eof);
}

#[test]
fn mod_errors_on_unexpected_char() {
    let err = Lexer::new("SELECT $ FROM t;").tokenize().unwrap_err();
    assert_eq!(err, LexError::UnexpectedChar { ch: '$', offset: 7 });
}

#[test]
fn mod_errors_on_unterminated_string() {
    let err = Lexer::new("SELECT * FROM t WHERE x = 'oops")
        .tokenize()
        .unwrap_err();
    assert_eq!(err, LexError::UnterminatedString { offset: 26 });
}

#[test]
fn tokenises_simple_select() {
    let tokens = Lexer::new("SELECT * FROM t;").tokenise().unwrap();
    assert_eq!(tokens.first().unwrap().kind, TokenKind::Select);
    assert_eq!(tokens.last().unwrap().kind, TokenKind::Eof);
}

#[test]
fn tests_errors_on_unexpected_char() {
    let err = Lexer::new("SELECT $ FROM t;").tokenise().unwrap_err();
    assert_eq!(err, LexError::UnexpectedChar { ch: '$', offset: 7 });
}

#[test]
fn tests_errors_on_unterminated_string() {
    let err = Lexer::new("SELECT * FROM t WHERE x = 'oops")
        .tokenise()
        .unwrap_err();
    assert_eq!(err, LexError::UnterminatedString { offset: 26 });
}

#[test]
fn tokenises_comparison_operators() {
    let tokens = Lexer::new("< <= > >= <> !=").tokenise().unwrap();
    let kinds: Vec<_> = tokens.iter().map(|t| t.kind.clone()).collect();
    assert_eq!(
        kinds,
        vec![
            TokenKind::Lt,
            TokenKind::LtEq,
            TokenKind::Gt,
            TokenKind::GtEq,
            TokenKind::NotEq,
            TokenKind::NotEq,
            TokenKind::Eof,
        ]
    );
}

#[test]
fn tokenises_arithmetic_operators() {
    let tokens = Lexer::new("+ - * /").tokenise().unwrap();
    let kinds: Vec<_> = tokens.iter().map(|t| t.kind.clone()).collect();
    assert_eq!(
        kinds,
        vec![
            TokenKind::Add,
            TokenKind::Sub,
            TokenKind::Star,
            TokenKind::Div,
            TokenKind::Eof,
        ]
    );
}

#[test]
fn distinguishes_lt_from_lteq() {
    let tokens = Lexer::new("a < b").tokenise().unwrap();
    assert_eq!(tokens[1].kind, TokenKind::Lt);
}

#[test]
fn lone_operator_at_end_of_input() {
    let tokens = Lexer::new("a <").tokenise().unwrap();
    let kinds: Vec<_> = tokens.iter().map(|t| t.kind.clone()).collect();
    assert_eq!(
        kinds,
        vec![TokenKind::Ident("a".into()), TokenKind::Lt, TokenKind::Eof]
    );
}

#[test]
fn keywords_are_case_insensitive() {
    let tokens = Lexer::new("select From WHERE").tokenise().unwrap();
    let kinds: Vec<_> = tokens.iter().map(|t| t.kind.clone()).collect();
    assert_eq!(
        kinds,
        vec![
            TokenKind::Select,
            TokenKind::From,
            TokenKind::Where,
            TokenKind::Eof
        ]
    );
}

#[test]
fn tokenises_float_and_integer_numbers() {
    let tokens = Lexer::new("42 3.14").tokenise().unwrap();
    let kinds: Vec<_> = tokens.iter().map(|t| t.kind.clone()).collect();
    assert_eq!(
        kinds,
        vec![
            TokenKind::Number("42".into()),
            TokenKind::Number("3.14".into()),
            TokenKind::Eof,
        ]
    );
}

#[test]
fn comment_does_not_consume_past_newline() {
    let tokens = Lexer::new("SELECT 1 -- comment\nFROM t")
        .tokenise()
        .unwrap();
    let kinds: Vec<_> = tokens.iter().map(|t| t.kind.clone()).collect();
    assert_eq!(
        kinds,
        vec![
            TokenKind::Select,
            TokenKind::Number("1".into()),
            TokenKind::From,
            TokenKind::Ident("t".into()),
            TokenKind::Eof,
        ]
    );
}

#[test]
fn unspaced_double_minus_is_swallowed_as_a_comment() {
    let tokens = Lexer::new("5--3").tokenise().unwrap();
    let kinds: Vec<_> = tokens.iter().map(|t| t.kind.clone()).collect();
    assert_eq!(kinds, vec![TokenKind::Number("5".into()), TokenKind::Eof]);
}

#[test]
fn empty_input_produces_only_eof() {
    let tokens = Lexer::new("").tokenise().unwrap();
    assert_eq!(tokens, vec![Token::new(TokenKind::Eof, 0)]);
}

#[test]
fn tokenises_null_true_false_keywords() {
    let tokens = Lexer::new("NULL true False").tokenise().unwrap();
    let kinds: Vec<_> = tokens.iter().map(|t| t.kind.clone()).collect();
    assert_eq!(
        kinds,
        vec![
            TokenKind::Null,
            TokenKind::True,
            TokenKind::False,
            TokenKind::Eof
        ]
    );
}

#[test]
fn tokenises_is_keyword() {
    let tokens = Lexer::new("IS").tokenise().unwrap();
    assert_eq!(tokens[0].kind, TokenKind::Is);
}

#[test]
fn offsets_are_byte_offsets() {
    let tokens = Lexer::new("'é' x").tokenise().unwrap();
    assert_eq!(tokens[0], Token::new(TokenKind::StringLit("é".into()), 0));
    assert_eq!(tokens[1], Token::new(TokenKind::Ident("x".into()), 5));
    assert_eq!(tokens[2], Token::new(TokenKind::Eof, 6));
}

#[test]
fn every_keyword_is_recognised() {
    assert_eq!(
        kinds("select from where insert into values update set delete create table and or not null true false is"),
        vec![
            TokenKind::Select,
            TokenKind::From,
            TokenKind::Where,
            TokenKind::Insert,
            TokenKind::Into,
            TokenKind::Values,
            TokenKind::Update,
            TokenKind::SetKw,
            TokenKind::Delete,
            TokenKind::Create,
            TokenKind::Table,
            TokenKind::And,
            TokenKind::Or,
            TokenKind::Not,
            TokenKind::Null,
            TokenKind::True,
            TokenKind::False,
            TokenKind::Is,
            TokenKind::Eof,
        ]
    );
}

#[test]
fn identifiers_keep_their_case_and_underscores() {
    assert_eq!(
        kinds("_Users_2 selected"),
        vec![
            TokenKind::Ident("_Users_2".into()),
            TokenKind::Ident("selected".into()),
            TokenKind::Eof,
        ]
    );
}

#[test]
fn punctuation_and_lone_symbols() {
    assert_eq!(
        kinds("(a, b);=>"),
        vec![
            TokenKind::LParen,
            TokenKind::Ident("a".into()),
            TokenKind::Comma,
            TokenKind::Ident("b".into()),
            TokenKind::RParen,
            TokenKind::Semicolon,
            TokenKind::Eq,
            TokenKind::Gt,
            TokenKind::Eof,
        ]
    );
}

#[test]
fn bang_without_equals_is_unexpected() {
    let err = Lexer::new("a ! b").tokenise().unwrap_err();
    assert_eq!(err, LexError::UnexpectedChar { ch: '!', offset: 2 });
}

#[test]
fn malformed_number_text_is_kept_for_the_parser() {
    assert_eq!(
        kinds("1.2.3"),
        vec![TokenKind::Number("1.2.3".into()), TokenKind::Eof]
    );
}

#[test]
fn comment_at_end_of_input() {
    assert_eq!(kinds("x -- trailing"), vec![TokenKind::Ident("x".into()), TokenKind::Eof]);
}

#[test]
fn multibyte_letter_in_identifier() {
    assert_eq!(
        Lexer::new("SELECT café FROM t").tokenise(),
        Ok(vec![
            Token::new(TokenKind::Select, 0),
            Token::new(TokenKind::Ident("café".into()), 7),
            Token::new(TokenKind::From, 13),
            Token::new(TokenKind::Ident("t".into()), 18),
            Token::new(TokenKind::Eof, 19),
        ])
    );
    assert_eq!(
        Lexer::new("café").tokenise(),
        Ok(vec![
            Token::new(TokenKind::Ident("café".into()), 0),
            Token::new(TokenKind::Eof, 5),
        ])
    );
}

#[test]
fn error_constructors_build_their_variants() {
    assert_eq!(
        LexError::unexpected_char('#', 3),
        LexError::UnexpectedChar { ch: '#', offset: 3 }
    );
    assert_eq!(
        LexError::unterminated_string(9),
        LexError::UnterminatedString { offset: 9 }
    );
}
