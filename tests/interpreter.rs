use jlox::ast::{Expression, Statement};
use jlox::environment::Environment;
use jlox::errors::{ParseError, RuntimeError};
use jlox::interpreter::{handle_binary, handle_unary, interpret};
use jlox::token::{Token, TokenType};
use jlox::value::{is_equal, is_truthy, Value};
use jlox::{run, RunError};

fn num(x: f64) -> Value {
    Value::Number(x.to_bits())
}

fn run_source(source: &str) -> (Vec<Value>, Result<(), RunError>) {
    run(source.to_string(), u64::MAX)
}

fn printed(source: &str) -> Vec<Value> {
    let (out, result) = run_source(source);
    assert_eq!(result, Ok(()), "source {:?}", source);
    out
}

fn runtime_error(source: &str) -> RuntimeError {
    match run_source(source).1 {
        Err(RunError::Runtime(e)) => e,
        other => panic!("no runtime error: {:?}", other),
    }
}

fn ident(name: &str) -> Token {
    Token::new(TokenType::Identifier, name.to_string(), None, 1)
}

#[test]
fn precedence_and_grouping() {
    assert_eq!(printed("print 1 + 2 * 3;"), vec![num(7.0)]);
    assert_eq!(printed("print (1 + 2) * 3;"), vec![num(9.0)]);
}

#[test]
fn arithmetic_follows_doubles() {
    assert_eq!(printed("print 6 / 2;"), vec![num(3.0)]);
    assert_eq!(printed("print 1 / 0;"), vec![num(f64::INFINITY)]);
    assert_eq!(printed("print -1 / 0;"), vec![num(f64::NEG_INFINITY)]);
    assert_eq!(printed("print 0.1 + 0.2;"), vec![num(0.1 + 0.2)]);
    assert_eq!(printed("print 10 - 4.5;"), vec![num(5.5)]);
    assert_eq!(printed("print 2.5 * 4;"), vec![num(10.0)]);
    match &printed("print 0 / 0;")[0] {
        Value::Number(bits) => assert!(f64::from_bits(*bits).is_nan()),
        other => panic!("unexpected {:?}", other),
    }
}

#[test]
fn comparisons_follow_doubles() {
    assert_eq!(
        printed("print 1 < 2; print 2 <= 2; print 3 > 4; print 4 >= 5; print 0 == -0;"),
        vec![
            Value::Bool(true),
            Value::Bool(true),
            Value::Bool(false),
            Value::Bool(false),
            Value::Bool(true)
        ]
    );
    assert_eq!(
        printed("var n = 0 / 0; print n == n; print n < 1; print n >= 1;"),
        vec![Value::Bool(false), Value::Bool(false), Value::Bool(false)]
    );
}

#[test]
fn string_concatenation() {
    assert_eq!(printed("print \"a\" + \"b\";"), vec![Value::String("ab".to_string())]);
    assert_eq!(runtime_error("print \"a\" + 1;"), RuntimeError::IncompatibleTypes);
    assert_eq!(runtime_error("print nil + nil;"), RuntimeError::IncompatibleTypes);
}

#[test]
fn inner_declaration_shadows() {
    assert_eq!(
        printed("var x = 1; { var x = 2; print x; } print x;"),
        vec![num(2.0), num(1.0)]
    );
}

#[test]
fn assignment_reaches_outer_scope() {
    assert_eq!(printed("var x = 1; { x = 2; } print x;"), vec![num(2.0)]);
}

#[test]
fn short_circuit_skips_right_operand() {
    assert_eq!(
        printed("print false and missing; print true or missing; print nil or 3;"),
        vec![Value::Bool(false), Value::Bool(true), num(3.0)]
    );
    assert_eq!(runtime_error("print true and missing;"), RuntimeError::UndefinedVariable);
}

#[test]
fn equality_has_no_coercion() {
    assert_eq!(
        printed("print nil == nil; print nil == false; print 1 == \"1\"; print \"a\" != \"a\";"),
        vec![Value::Bool(true), Value::Bool(false), Value::Bool(false), Value::Bool(false)]
    );
    assert!(is_equal(&Value::Nil, &Value::Nil));
    assert!(!is_equal(&Value::Nil, &Value::Bool(false)));
    assert!(!is_equal(&num(1.0), &Value::String("1".to_string())));
}

#[test]
fn truthiness() {
    assert!(!is_truthy(&Value::Nil));
    assert!(!is_truthy(&Value::Bool(false)));
    assert!(is_truthy(&num(0.0)));
    assert!(is_truthy(&Value::String(String::new())));
    assert_eq!(printed("if (0) print 1; else print 2;"), vec![num(1.0)]);
    assert_eq!(printed("print !nil; print !\"\";"), vec![Value::Bool(true), Value::Bool(false)]);
}

#[test]
fn dangling_else_prints_two() {
    assert_eq!(printed("if (true) if (false) print 1; else print 2;"), vec![num(2.0)]);
}

#[test]
fn loops_run() {
    assert_eq!(
        printed("for (var i = 0; i < 3; i = i + 1) print i;"),
        vec![num(0.0), num(1.0), num(2.0)]
    );
    assert_eq!(
        printed("var s = 0; var i = 1; while (i <= 4) { s = s + i; i = i + 1; } print s;"),
        vec![num(10.0)]
    );
}

#[test]
fn loop_past_its_budget_stops() {
    let (out, result) = run("var i = 0; while (true) { print i; i = i + 1; }".to_string(), 3);
    assert_eq!(out, vec![num(0.0), num(1.0), num(2.0)]);
    assert_eq!(result, Err(RunError::Runtime(RuntimeError::LoopLimit)));
}

#[test]
fn runtime_errors() {
    assert_eq!(runtime_error("print -\"a\";"), RuntimeError::NumberOperand);
    assert_eq!(runtime_error("print 1 < true;"), RuntimeError::NumberOperand);
    assert_eq!(runtime_error("print nil * 2;"), RuntimeError::NumberOperand);
    assert_eq!(runtime_error("print y;"), RuntimeError::UndefinedVariable);
    assert_eq!(runtime_error("y = 1;"), RuntimeError::UndefinedVariable);
}

#[test]
fn error_aborts_remaining_statements() {
    let (out, result) = run_source("print 1; print y; print 2;");
    assert_eq!(out, vec![num(1.0)]);
    assert_eq!(result, Err(RunError::Runtime(RuntimeError::UndefinedVariable)));
}

#[test]
fn failed_block_restores_scope() {
    let (out, result) = run_source("var x = 1; { var x = 2; print y; }");
    assert!(out.is_empty());
    assert_eq!(result, Err(RunError::Runtime(RuntimeError::UndefinedVariable)));
}

#[test]
fn var_without_initializer_is_nil() {
    assert_eq!(printed("var a; print a; var a = 2; print a;"), vec![Value::Nil, num(2.0)]);
}

#[test]
fn run_reports_syntax_errors() {
    let (out, result) = run_source("print 1; var = 1; var = 2;");
    assert!(out.is_empty());
    assert_eq!(
        result,
        Err(RunError::Parse(vec![
            ParseError::ExpectedIdentifier(1),
            ParseError::ExpectedIdentifier(1)
        ]))
    );
}

#[test]
fn run_reports_scan_errors() {
    assert!(matches!(run_source("print @;").1, Err(RunError::Scan(_))));
}

#[test]
fn unknown_operators_fail() {
    assert_eq!(handle_binary(TokenType::Comma, num(1.0), num(2.0)), Err(RuntimeError::Unknown));
    assert_eq!(handle_unary(TokenType::Plus, num(1.0)), Err(RuntimeError::Unknown));
    let program = vec![Statement::Print(Expression::Unary(
        Token::new(TokenType::Plus, "+".to_string(), None, 1),
        Box::new(Expression::Literal(num(1.0))),
    ))];
    assert_eq!(interpret(&program, 10).1, Err(RuntimeError::Unknown));
}

#[test]
fn operators_on_values() {
    assert_eq!(handle_binary(TokenType::Plus, num(1.5), num(2.25)), Ok(num(3.75)));
    assert_eq!(handle_binary(TokenType::Minus, num(1.0), num(3.0)), Ok(num(-2.0)));
    assert_eq!(handle_binary(TokenType::Star, num(3.0), num(-2.0)), Ok(num(-6.0)));
    assert_eq!(handle_binary(TokenType::Slash, num(1.0), num(4.0)), Ok(num(0.25)));
    assert_eq!(handle_binary(TokenType::Greater, num(2.0), num(1.0)), Ok(Value::Bool(true)));
    assert_eq!(handle_unary(TokenType::Minus, num(2.0)), Ok(num(-2.0)));
    assert_eq!(handle_unary(TokenType::Minus, num(0.0)), Ok(num(-0.0)));
}

#[test]
fn environment_scopes() {
    let mut env = Environment::new();
    env.define_inner("a".to_string(), num(1.0));
    assert_eq!(env.get(&ident("a")), Ok(num(1.0)));
    assert_eq!(env.get(&ident("b")), Err(RuntimeError::UndefinedVariable));
    let mut env = Environment::new_enclosed(env);
    assert_eq!(env.depth(), 2);
    env.define_inner("a".to_string(), num(2.0));
    assert_eq!(env.get(&ident("a")), Ok(num(2.0)));
    env.pop_scope();
    assert_eq!(env.get(&ident("a")), Ok(num(1.0)));
    env.push_scope();
    assert_eq!(env.assign(&ident("a"), num(5.0)), Ok(()));
    assert_eq!(env.assign(&ident("c"), num(5.0)), Err(RuntimeError::UndefinedVariable));
    env.pop_scope();
    assert_eq!(env.get(&ident("a")), Ok(num(5.0)));
}

#[test]
fn expression_interpreted_on_its_own() {
    let sum = Expression::Binary(
        Box::new(Expression::Literal(num(2.0))),
        Token::new(TokenType::Plus, "+".to_string(), None, 1),
        Box::new(Expression::Literal(num(3.0))),
    );
    assert_eq!(sum.interpret(), Ok(num(5.0)));
    let read = Expression::Variable(ident("x"));
    assert_eq!(read.interpret(), Err(RuntimeError::UndefinedVariable));
}
