use core_lib::formula::lexer::{tokenize, Token};
use core_lib::formula::parser::{parse, BinOp, Expr};
use core_lib::formula::{parse_formula, FormulaError};

fn num(text: &str) -> Token {
    Token::Number(text.to_string())
}

fn lit(text: &str) -> Expr {
    Expr::Number(text.to_string())
}

/// The value a numeric literal token stands for.
fn value_of(token: &Token) -> f64 {
    match token {
        Token::Number(text) => text.parse().unwrap(),
        other => panic!("not a number token: {other:?}"),
    }
}

#[test]
fn tokenizes_arithmetic_expression() {
    let tokens = tokenize("1+2*3").unwrap();
    assert_eq!(tokens, vec![num("1"), Token::Plus, num("2"), Token::Star, num("3"), Token::Eof]);
    assert_eq!(value_of(&tokens[0]), 1.0);
    assert_eq!(value_of(&tokens[2]), 2.0);
    assert_eq!(value_of(&tokens[4]), 3.0);
}

#[test]
fn tokenizes_function_call() {
    let tokens = tokenize("sin(A1)").unwrap();
    assert_eq!(
        tokens,
        vec![
            Token::Ident("sin".to_string()),
            Token::LParen,
            Token::Ident("A1".to_string()),
            Token::RParen,
            Token::Eof,
        ]
    );
}

#[test]
fn tokenizes_unary_minus_and_decimal() {
    let tokens = tokenize("-3.5").unwrap();
    assert_eq!(tokens, vec![Token::Minus, num("3.5"), Token::Eof]);
    assert_eq!(value_of(&tokens[1]), 3.5);
}

#[test]
fn tokenizes_parenthesized_expression() {
    let tokens = tokenize("(1+2)*3").unwrap();
    assert_eq!(
        tokens,
        vec![
            Token::LParen,
            num("1"),
            Token::Plus,
            num("2"),
            Token::RParen,
            Token::Star,
            num("3"),
            Token::Eof,
        ]
    );
}

#[test]
fn rejects_invalid_character() {
    let err = tokenize("1+@2").unwrap_err();
    assert!(matches!(
        err,
        FormulaError::UnexpectedToken { found, .. } if found == "@"
    ));
}

#[test]
fn tokenizes_empty_input_to_just_eof() {
    assert_eq!(tokenize("").unwrap(), vec![Token::Eof]);
}

#[test]
fn never_panics_on_garbage_input() {
    for input in ["@@@", "$$$", "1.2.3", "....", "\0\0\0", "🙂🙂"] {
        let _ = tokenize(input);
    }
}

#[test]
fn a_lone_decimal_point_is_not_a_number() {
    assert_eq!(
        tokenize("1+.").unwrap_err(),
        FormulaError::UnexpectedToken { found: ".".to_string(), pos: 2 }
    );
    assert_eq!(tokenize("5.").unwrap(), vec![num("5."), Token::Eof]);
    assert_eq!(tokenize(".5").unwrap(), vec![num(".5"), Token::Eof]);
}

#[test]
fn a_literal_with_a_second_decimal_point_is_rejected_whole() {
    assert_eq!(
        tokenize("1.2.3").unwrap_err(),
        FormulaError::UnexpectedToken { found: "1.2.3".to_string(), pos: 0 }
    );
    assert_eq!(
        tokenize("2*1..5+x").unwrap_err(),
        FormulaError::UnexpectedToken { found: "1..5".to_string(), pos: 2 }
    );
    assert_eq!(
        tokenize("....").unwrap_err(),
        FormulaError::UnexpectedToken { found: "....".to_string(), pos: 0 }
    );
}

#[test]
fn identifiers_may_start_with_an_underscore_and_hold_digits() {
    assert_eq!(
        tokenize(" _a1 ,b").unwrap(),
        vec![Token::Ident("_a1".to_string()), Token::Comma, Token::Ident("b".to_string()), Token::Eof]
    );
}

fn parse_str(source: &str) -> Expr {
    parse(&tokenize(source).unwrap()).unwrap()
}

#[test]
fn parses_precedence_of_plus_and_star() {
    assert_eq!(
        parse_str("1+2*3"),
        Expr::BinOp {
            op: BinOp::Add,
            lhs: Box::new(lit("1")),
            rhs: Box::new(Expr::BinOp {
                op: BinOp::Mul,
                lhs: Box::new(lit("2")),
                rhs: Box::new(lit("3")),
            }),
        }
    );
}

#[test]
fn parses_parenthesized_grouping() {
    assert_eq!(
        parse_str("(1+2)*3"),
        Expr::BinOp {
            op: BinOp::Mul,
            lhs: Box::new(Expr::BinOp {
                op: BinOp::Add,
                lhs: Box::new(lit("1")),
                rhs: Box::new(lit("2")),
            }),
            rhs: Box::new(lit("3")),
        }
    );
}

#[test]
fn power_is_right_associative() {
    assert_eq!(
        parse_str("2^3^2"),
        Expr::BinOp {
            op: BinOp::Pow,
            lhs: Box::new(lit("2")),
            rhs: Box::new(Expr::BinOp {
                op: BinOp::Pow,
                lhs: Box::new(lit("3")),
                rhs: Box::new(lit("2")),
            }),
        }
    );
}

#[test]
fn unary_minus_binds_looser_than_power() {
    assert_eq!(
        parse_str("-2^2"),
        Expr::Neg(Box::new(Expr::BinOp {
            op: BinOp::Pow,
            lhs: Box::new(lit("2")),
            rhs: Box::new(lit("2")),
        }))
    );
}

#[test]
fn parses_function_call_with_multiple_args() {
    assert_eq!(
        parse_str("max(1,2)"),
        Expr::Call { name: "max".to_string(), args: vec![lit("1"), lit("2")] }
    );
}

#[test]
fn parses_bare_identifier_as_variable() {
    assert_eq!(parse_str("A1"), Expr::Variable("A1".to_string()));
}

#[test]
fn malformed_inputs_each_fail_to_parse_without_panicking() {
    let malformed = ["1+", "(1+2", "+", ""];
    for source in malformed {
        let tokens = tokenize(source).unwrap();
        let result = parse(&tokens);
        assert!(result.is_err(), "expected parse error for {source:?}");
    }
}

#[test]
fn trailing_tokens_after_valid_expression_are_an_error() {
    let tokens = tokenize("1+2)").unwrap();
    assert!(parse(&tokens).is_err());
}

#[test]
fn subtraction_and_division_are_left_associative() {
    assert_eq!(
        parse_str("8-4-2"),
        Expr::BinOp {
            op: BinOp::Sub,
            lhs: Box::new(Expr::BinOp { op: BinOp::Sub, lhs: Box::new(lit("8")), rhs: Box::new(lit("4")) }),
            rhs: Box::new(lit("2")),
        }
    );
    assert_eq!(
        parse_str("8/4/2"),
        Expr::BinOp {
            op: BinOp::Div,
            lhs: Box::new(Expr::BinOp { op: BinOp::Div, lhs: Box::new(lit("8")), rhs: Box::new(lit("4")) }),
            rhs: Box::new(lit("2")),
        }
    );
}

#[test]
fn parse_errors_name_the_offending_token_or_the_end() {
    assert_eq!(parse(&tokenize("1+").unwrap()).unwrap_err(), FormulaError::UnexpectedEof);
    assert_eq!(
        parse(&tokenize("1+2)").unwrap()).unwrap_err(),
        FormulaError::UnexpectedToken { found: "RParen".to_string(), pos: 3 }
    );
    assert_eq!(
        parse(&tokenize("*2").unwrap()).unwrap_err(),
        FormulaError::UnexpectedToken { found: "Star".to_string(), pos: 0 }
    );
}

#[test]
fn parse_formula_runs_both_stages() {
    assert_eq!(
        parse_formula("a*(b+1)").unwrap(),
        Expr::BinOp {
            op: BinOp::Mul,
            lhs: Box::new(Expr::Variable("a".to_string())),
            rhs: Box::new(Expr::BinOp {
                op: BinOp::Add,
                lhs: Box::new(Expr::Variable("b".to_string())),
                rhs: Box::new(lit("1")),
            }),
        }
    );
    assert!(matches!(
        parse_formula("1+@"),
        Err(FormulaError::UnexpectedToken { found, pos: 2 }) if found == "@"
    ));
    assert_eq!(parse_formula("(1").unwrap_err(), FormulaError::UnexpectedEof);
}

#[test]
fn unicode_whitespace_separates_tokens() {
    let tokens = tokenize("1\u{3000}+\u{a0}2\u{2028}").unwrap();
    assert_eq!(tokens, vec![num("1"), Token::Plus, num("2"), Token::Eof]);
}

#[test]
fn unexpected_number_and_identifier_tokens_are_reported_quoted() {
    assert_eq!(
        parse_formula("1 2").unwrap_err(),
        FormulaError::UnexpectedToken { found: "Number(\"2\")".to_string(), pos: 1 }
    );
    assert_eq!(
        parse_formula("a b_1").unwrap_err(),
        FormulaError::UnexpectedToken { found: "Ident(\"b_1\")".to_string(), pos: 1 }
    );
    assert_eq!(
        parse_formula("(1 .5").unwrap_err(),
        FormulaError::UnexpectedToken { found: "Number(\".5\")".to_string(), pos: 2 }
    );
}
