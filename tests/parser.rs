use jlox::ast::{Expression, Statement};
use jlox::errors::ParseError;
use jlox::parser::parse;
use jlox::scanner::scan_tokens;
use jlox::token::{Token, TokenType};
use jlox::value::Value;

fn parse_source(source: &str) -> Result<Vec<Statement>, Vec<ParseError>> {
    parse(scan_tokens(source.to_string()).expect("scanning failed"))
}

fn single_expression(source: &str) -> Expression {
    let mut statements = parse_source(source).expect("parsing failed");
    assert_eq!(statements.len(), 1);
    match statements.remove(0) {
        Statement::Expression(e) => e,
        other => panic!("not an expression statement: {:?}", other),
    }
}

fn name_of(e: &Expression) -> String {
    match e {
        Expression::Variable(t) => t.lexeme(),
        other => panic!("not a variable: {:?}", other),
    }
}

#[test]
fn subtraction_is_left_associative() {
    match single_expression("a - b - c;") {
        Expression::Binary(left, op, right) => {
            assert_eq!(op.token_type(), TokenType::Minus);
            assert_eq!(name_of(&right), "c");
            match *left {
                Expression::Binary(l, _, r) => {
                    assert_eq!(name_of(&l), "a");
                    assert_eq!(name_of(&r), "b");
                }
                other => panic!("unexpected {:?}", other),
            }
        }
        other => panic!("unexpected {:?}", other),
    }
}

#[test]
fn assignment_is_right_associative() {
    match single_expression("a = b = c;") {
        Expression::Assign(name, value) => {
            assert_eq!(name.lexeme(), "a");
            match *value {
                Expression::Assign(inner, v) => {
                    assert_eq!(inner.lexeme(), "b");
                    assert_eq!(name_of(&v), "c");
                }
                other => panic!("unexpected {:?}", other),
            }
        }
        other => panic!("unexpected {:?}", other),
    }
}

#[test]
fn unary_minus_binds_tighter_than_binary() {
    match single_expression("-a * b;") {
        Expression::Binary(left, op, _) => {
            assert_eq!(op.token_type(), TokenType::Star);
            assert!(matches!(*left, Expression::Unary(_, _)));
        }
        other => panic!("unexpected {:?}", other),
    }
}

#[test]
fn product_binds_tighter_than_sum() {
    match single_expression("1 + 2 * 3;") {
        Expression::Binary(left, op, right) => {
            assert_eq!(op.token_type(), TokenType::Plus);
            assert_eq!(*left, Expression::Literal(Value::Number(1.0f64.to_bits())));
            assert!(matches!(*right, Expression::Binary(_, _, _)));
        }
        other => panic!("unexpected {:?}", other),
    }
}

#[test]
fn logical_operators_bind_looser_than_equality() {
    match single_expression("a == b and c or d;") {
        Expression::Logical(left, op, right) => {
            assert_eq!(op.token_type(), TokenType::Or);
            assert_eq!(name_of(&right), "d");
            match *left {
                Expression::Logical(l, and, r) => {
                    assert_eq!(and.token_type(), TokenType::And);
                    assert!(matches!(*l, Expression::Binary(_, _, _)));
                    assert_eq!(name_of(&r), "c");
                }
                other => panic!("unexpected {:?}", other),
            }
        }
        other => panic!("unexpected {:?}", other),
    }
}

#[test]
fn dangling_else_binds_to_nearest_if() {
    let statements = parse_source("if (true) if (false) print 1; else print 2;").unwrap();
    assert_eq!(statements.len(), 1);
    match &statements[0] {
        Statement::If(_, then_branch, None) => match &**then_branch {
            Statement::If(_, _, Some(_)) => {}
            other => panic!("unexpected {:?}", other),
        },
        other => panic!("unexpected {:?}", other),
    }
}

#[test]
fn for_loop_desugars_into_while() {
    let statements = parse_source("for (var i = 0; i < 3; i = i + 1) print i;").unwrap();
    match &statements[0] {
        Statement::Block(parts) => {
            assert_eq!(parts.len(), 2);
            assert!(matches!(parts[0], Statement::Var(_, Some(_))));
            match &parts[1] {
                Statement::While(_, body) => match &**body {
                    Statement::Block(inner) => {
                        assert_eq!(inner.len(), 2);
                        assert!(matches!(inner[0], Statement::Print(_)));
                        assert!(matches!(inner[1], Statement::Expression(Expression::Assign(_, _))));
                    }
                    other => panic!("unexpected {:?}", other),
                },
                other => panic!("unexpected {:?}", other),
            }
        }
        other => panic!("unexpected {:?}", other),
    }
}

#[test]
fn for_loop_without_clauses_loops_on_true() {
    let statements = parse_source("for (;;) print 1;").unwrap();
    match &statements[0] {
        Statement::While(cond, body) => {
            assert_eq!(*cond, Expression::Literal(Value::Bool(true)));
            assert!(matches!(**body, Statement::Print(_)));
        }
        other => panic!("unexpected {:?}", other),
    }
}

#[test]
fn two_malformed_statements_give_two_errors() {
    let errors = parse_source("var = 1; var = 2;").unwrap_err();
    assert_eq!(
        errors,
        vec![ParseError::ExpectedIdentifier(1), ParseError::ExpectedIdentifier(1)]
    );
}

#[test]
fn recovery_keeps_parsing_after_an_error() {
    let errors = parse_source("print ;\nprint 1;\n1 = 2;").unwrap_err();
    assert_eq!(
        errors,
        vec![ParseError::ExpectedExpression(1), ParseError::InvalidAssignmentTarget]
    );
}

#[test]
fn each_syntax_error_is_found() {
    let cases = [
        ("(1;", ParseError::UnterminatedGrouping(1)),
        ("print 1", ParseError::UnterminatedPrintStatement(1)),
        ("1", ParseError::UnterminatedExpressionStatement(1)),
        ("var a = 1", ParseError::UnterminatedVarDeclaration(1)),
        ("{ print 1;", ParseError::UnterminatedBlock(1)),
        ("var 1;", ParseError::ExpectedIdentifier(1)),
        ("if 1;", ParseError::ExprectedLeftParen(1)),
        ("while (1;", ParseError::ExpectedRightParen(1)),
        (";", ParseError::ExpectedExpression(1)),
        ("for (; 1 ) print 1;", ParseError::ExpectedSemicolon(1)),
        ("1 = 2;", ParseError::InvalidAssignmentTarget),
    ];
    for (source, expected) in cases {
        let errors = parse_source(source).unwrap_err();
        assert_eq!(errors[0], expected, "source {:?}", source);
    }
}

#[test]
fn literal_token_without_value_is_an_error() {
    let tokens = vec![
        Token::new(TokenType::Number, "1".to_string(), None, 3),
        Token::new(TokenType::Semicolon, ";".to_string(), None, 3),
        Token::new(TokenType::Eof, String::new(), None, 3),
    ];
    assert_eq!(parse(tokens).unwrap_err()[0], ParseError::NoLiteralOnToken(3));
}

#[test]
fn end_marker_alone_parses_to_nothing() {
    let tokens = vec![Token::new(TokenType::Eof, String::new(), None, 1)];
    assert_eq!(parse(tokens).unwrap(), vec![]);
}
