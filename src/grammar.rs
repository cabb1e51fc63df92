//! The grammar of the language as spec functions over a token sequence.
//!
//! Each function reads from a position and gives what it parsed with the
//! position after it, or a syntax error with the position where parsing
//! stopped. The last token is the end marker and is never consumed.
use vstd::prelude::*;
use crate::ast::{Expression, Statement};
use crate::errors::ParseError;
use crate::token::{Token, TokenType};
use crate::value::Value;

verus! {

/// A statement as a tree of sequences.
pub ghost enum StatementModel {
    Block(Seq<StatementModel>),
    Expression(Expression),
    If(Expression, Box<StatementModel>, Option<Box<StatementModel>>),
    Print(Expression),
    Var(Token, Option<Expression>),
    While(Expression, Box<StatementModel>),
}

/// The model of a statement.
pub open spec fn statement_view(s: Statement) -> StatementModel
    decreases s, 1nat,
{
    match s {
        Statement::Block(v) => StatementModel::Block(statements_view(v@, 0)),
        Statement::Expression(e) => StatementModel::Expression(e),
        Statement::If(c, t, e) => StatementModel::If(
            c,
            Box::new(statement_view(*t)),
            match e {
                Some(b) => Some(Box::new(statement_view(*b))),
                None => None,
            },
        ),
        Statement::Print(e) => StatementModel::Print(e),
        Statement::Var(n, i) => StatementModel::Var(n, i),
        Statement::While(c, b) => StatementModel::While(c, Box::new(statement_view(*b))),
    }
}

/// The models of the statements from index `i` on.
pub open spec fn statements_view(ss: Seq<Statement>, i: int) -> Seq<StatementModel>
    decreases ss, ss.len() - i,
{
    if i < 0 || i >= ss.len() {
        seq![]
    } else {
        seq![statement_view(ss[i])] + statements_view(ss, i + 1)
    }
}

/// A parse: what was parsed and the position after it, or an error and the
/// position where parsing stopped.
pub type Parsed<T> = Result<(T, int), (ParseError, int)>;

pub open spec fn at_end(toks: Seq<Token>, p: int) -> bool {
    p >= toks.len() - 1
}

pub open spec fn check(toks: Seq<Token>, p: int, t: TokenType) -> bool {
    !at_end(toks, p) && 0 <= p && toks[p].token_type == t
}

/// The line of the token before `p`, or of the first token at the start.
pub open spec fn prev_line(toks: Seq<Token>, p: int) -> u32 {
    if p <= 0 {
        toks[0].line
    } else {
        toks[p - 1].line
    }
}

/// Whether a parse that began at `p` ended at `q` after consuming tokens.
pub open spec fn progressed(toks: Seq<Token>, p: int, q: int) -> bool {
    0 <= p < q < toks.len()
}

/// The error given where a parse did not move forward.
pub open spec fn stalled<T>(q: int) -> Parsed<T> {
    Err((ParseError::TokenAccessError(q as usize), q))
}

/// The binary operators of each precedence level, loosest first: `or`, `and`,
/// equality, comparison, term, factor.
pub open spec fn level_op(level: nat, t: TokenType) -> bool {
    if level == 0 {
        t == TokenType::Or
    } else if level == 1 {
        t == TokenType::And
    } else if level == 2 {
        t == TokenType::BangEqual || t == TokenType::EqualEqual
    } else if level == 3 {
        t == TokenType::Greater || t == TokenType::GreaterEqual || t == TokenType::Less || t
            == TokenType::LessEqual
    } else if level == 4 {
        t == TokenType::Minus || t == TokenType::Plus
    } else {
        t == TokenType::Slash || t == TokenType::Star
    }
}

/// The number of binary precedence levels.
pub open spec fn levels() -> nat {
    6
}

/// A node joining two operands at a level: logical for `or` and `and`.
pub open spec fn join(level: nat, left: Expression, op: Token, right: Expression) -> Expression {
    if level < 2 {
        Expression::Logical(Box::new(left), op, Box::new(right))
    } else {
        Expression::Binary(Box::new(left), op, Box::new(right))
    }
}

pub open spec fn expression(toks: Seq<Token>, p: int) -> Parsed<Expression>
    decreases toks.len() - p, 10nat,
{
    assignment(toks, p)
}

/// An `or` expression, followed by `= value` where it names a variable.
pub open spec fn assignment(toks: Seq<Token>, p: int) -> Parsed<Expression>
    decreases toks.len() - p, 9nat,
{
    match binary(toks, 0, p) {
        Err(x) => Err(x),
        Ok((e, q)) => if !progressed(toks, p, q) {
            stalled(q)
        } else if check(toks, q, TokenType::Equal) {
            match assignment(toks, q + 1) {
                Err(x) => Err(x),
                Ok((v, q2)) => match e {
                    Expression::Variable(name) => Ok((Expression::Assign(name, Box::new(v)), q2)),
                    _ => Err((ParseError::InvalidAssignmentTarget, q2)),
                },
            }
        } else {
            Ok((e, q))
        },
    }
}

/// An expression at a precedence level: operands of the next level joined
/// left to right by the level's operators.
pub open spec fn binary(toks: Seq<Token>, level: nat, p: int) -> Parsed<Expression>
    decreases toks.len() - p, if level >= levels() { 2 } else { 8 - level },
{
    if level >= levels() {
        unary(toks, p)
    } else {
        match binary(toks, level + 1, p) {
            Err(x) => Err(x),
            Ok((e, q)) => if !progressed(toks, p, q) {
                stalled(q)
            } else {
                binary_rest(toks, level, e, q)
            },
        }
    }
}

/// The rest of a level's expression after its left operand `left`.
pub open spec fn binary_rest(toks: Seq<Token>, level: nat, left: Expression, p: int) -> Parsed<
    Expression,
>
    decreases toks.len() - p, 2nat,
{
    if level < levels() && !at_end(toks, p) && 0 <= p && level_op(level, toks[p].token_type) {
        match binary(toks, level + 1, p + 1) {
            Err(x) => Err(x),
            Ok((right, q)) => if !progressed(toks, p, q) {
                stalled(q)
            } else {
                binary_rest(toks, level, join(level, left, toks[p], right), q)
            },
        }
    } else {
        Ok((left, p))
    }
}

/// `!` or `-` applied to a unary expression, or a primary expression.
pub open spec fn unary(toks: Seq<Token>, p: int) -> Parsed<Expression>
    decreases toks.len() - p, 1nat,
{
    if check(toks, p, TokenType::Bang) || check(toks, p, TokenType::Minus) {
        match unary(toks, p + 1) {
            Err(x) => Err(x),
            Ok((e, q)) => Ok((Expression::Unary(toks[p], Box::new(e)), q)),
        }
    } else {
        primary(toks, p)
    }
}

/// A literal, a variable, or a parenthesised expression.
pub open spec fn primary(toks: Seq<Token>, p: int) -> Parsed<Expression>
    decreases toks.len() - p, 0nat,
{
    if check(toks, p, TokenType::False) {
        Ok((Expression::Literal(Value::Bool(false)), p + 1))
    } else if check(toks, p, TokenType::True) {
        Ok((Expression::Literal(Value::Bool(true)), p + 1))
    } else if check(toks, p, TokenType::Nil) {
        Ok((Expression::Literal(Value::Nil), p + 1))
    } else if check(toks, p, TokenType::String) || check(toks, p, TokenType::Number) {
        match toks[p].literal {
            Some(v) => Ok((Expression::Literal(v), p + 1)),
            None => Err((ParseError::NoLiteralOnToken(toks[p + 1].line), p + 1)),
        }
    } else if check(toks, p, TokenType::Identifier) {
        Ok((Expression::Variable(toks[p]), p + 1))
    } else if check(toks, p, TokenType::LeftParen) {
        match expression(toks, p + 1) {
            Err(x) => Err(x),
            Ok((e, q)) => if check(toks, q, TokenType::RightParen) {
                Ok((Expression::Grouping(Box::new(e)), q + 1))
            } else {
                Err((ParseError::UnterminatedGrouping(prev_line(toks, q)), q))
            },
        }
    } else {
        Err((ParseError::ExpectedExpression(prev_line(toks, p)), p))
    }
}

/// A declaration: `var` with its declaration, or a statement.
pub open spec fn declaration(toks: Seq<Token>, p: int) -> Parsed<StatementModel>
    decreases toks.len() - p, 14nat,
{
    if check(toks, p, TokenType::Var) {
        var_declaration(toks, p + 1)
    } else {
        statement(toks, p)
    }
}

/// The rest of a variable declaration after `var`.
pub open spec fn var_declaration(toks: Seq<Token>, p: int) -> Parsed<StatementModel>
    decreases toks.len() - p, 11nat,
{
    if !check(toks, p, TokenType::Identifier) {
        Err((ParseError::ExpectedIdentifier(prev_line(toks, p)), p))
    } else {
        let name = toks[p];
        let init: Parsed<Option<Expression>> = if check(toks, p + 1, TokenType::Equal) {
            match expression(toks, p + 2) {
                Err(x) => Err(x),
                Ok((e, q)) => Ok((Some(e), q)),
            }
        } else {
            Ok((None, p + 1))
        };
        match init {
            Err(x) => Err(x),
            Ok((i, q)) => if check(toks, q, TokenType::Semicolon) {
                Ok((StatementModel::Var(name, i), q + 1))
            } else {
                Err((ParseError::UnterminatedVarDeclaration(name.line), q))
            },
        }
    }
}

/// A statement.
pub open spec fn statement(toks: Seq<Token>, p: int) -> Parsed<StatementModel>
    decreases toks.len() - p, 13nat,
{
    if check(toks, p, TokenType::Print) {
        print_statement(toks, p + 1)
    } else if check(toks, p, TokenType::While) {
        while_statement(toks, p + 1)
    } else if check(toks, p, TokenType::For) {
        for_statement(toks, p + 1)
    } else if check(toks, p, TokenType::LeftBrace) {
        match block(toks, p + 1) {
            Err(x) => Err(x),
            Ok((ss, q)) => Ok((StatementModel::Block(ss), q)),
        }
    } else if check(toks, p, TokenType::If) {
        if_statement(toks, p + 1)
    } else {
        expression_statement(toks, p)
    }
}

/// The rest of an `if` statement after `if`; an `else` goes with the nearest `if`.
pub open spec fn if_statement(toks: Seq<Token>, p: int) -> Parsed<StatementModel>
    decreases toks.len() - p, 12nat,
{
    if !check(toks, p, TokenType::LeftParen) {
        Err((ParseError::ExprectedLeftParen(prev_line(toks, p)), p))
    } else {
        match expression(toks, p + 1) {
            Err(x) => Err(x),
            Ok((c, q)) => if !progressed(toks, p, q) {
                stalled(q)
            } else if !check(toks, q, TokenType::RightParen) {
                Err((ParseError::ExpectedRightParen(prev_line(toks, q)), q))
            } else {
                match statement(toks, q + 1) {
                    Err(x) => Err(x),
                    Ok((t, q2)) => if !progressed(toks, q, q2) {
                        stalled(q2)
                    } else if check(toks, q2, TokenType::Else) {
                        match statement(toks, q2 + 1) {
                            Err(x) => Err(x),
                            Ok((e, q3)) => Ok(
                                (StatementModel::If(c, Box::new(t), Some(Box::new(e))), q3),
                            ),
                        }
                    } else {
                        Ok((StatementModel::If(c, Box::new(t), None), q2))
                    },
                }
            },
        }
    }
}

/// The rest of a `print` statement after `print`.
pub open spec fn print_statement(toks: Seq<Token>, p: int) -> Parsed<StatementModel>
    decreases toks.len() - p, 11nat,
{
    match expression(toks, p) {
        Err(x) => Err(x),
        Ok((e, q)) => if check(toks, q, TokenType::Semicolon) {
            Ok((StatementModel::Print(e), q + 1))
        } else {
            Err((ParseError::UnterminatedPrintStatement(prev_line(toks, q)), q))
        },
    }
}

/// An expression followed by `;`.
pub open spec fn expression_statement(toks: Seq<Token>, p: int) -> Parsed<StatementModel>
    decreases toks.len() - p, 11nat,
{
    match expression(toks, p) {
        Err(x) => Err(x),
        Ok((e, q)) => if check(toks, q, TokenType::Semicolon) {
            Ok((StatementModel::Expression(e), q + 1))
        } else {
            Err((ParseError::UnterminatedExpressionStatement(prev_line(toks, q)), q))
        },
    }
}

/// The declarations of a block after `{`, up to and with the closing `}`.
pub open spec fn block(toks: Seq<Token>, p: int) -> Parsed<Seq<StatementModel>>
    decreases toks.len() - p, 15nat,
{
    if check(toks, p, TokenType::RightBrace) {
        Ok((seq![], p + 1))
    } else if at_end(toks, p) || p < 0 {
        Err((ParseError::UnterminatedBlock(prev_line(toks, p)), p))
    } else {
        match declaration(toks, p) {
            Err(x) => Err(x),
            Ok((s, q)) => if !progressed(toks, p, q) {
                stalled(q)
            } else {
                match block(toks, q) {
                    Err(x) => Err(x),
                    Ok((rest, q2)) => Ok((seq![s] + rest, q2)),
                }
            },
        }
    }
}

/// The rest of a `while` statement after `while`.
pub open spec fn while_statement(toks: Seq<Token>, p: int) -> Parsed<StatementModel>
    decreases toks.len() - p, 12nat,
{
    if !check(toks, p, TokenType::LeftParen) {
        Err((ParseError::ExprectedLeftParen(prev_line(toks, p)), p))
    } else {
        match expression(toks, p + 1) {
            Err(x) => Err(x),
            Ok((c, q)) => if !progressed(toks, p, q) {
                stalled(q)
            } else if !check(toks, q, TokenType::RightParen) {
                Err((ParseError::ExpectedRightParen(prev_line(toks, q)), q))
            } else {
                match statement(toks, q + 1) {
                    Err(x) => Err(x),
                    Ok((b, q2)) => Ok((StatementModel::While(c, Box::new(b)), q2)),
                }
            },
        }
    }
}

/// The loop that a `for` statement stands for: the initializer, then a
/// `while` over the condition (`true` where it is left out) whose body is the
/// original body followed by the increment.
pub open spec fn desugar_for(
    init: Option<StatementModel>,
    cond: Expression,
    incr: Option<Expression>,
    body: StatementModel,
) -> StatementModel {
    let inner = match incr {
        Some(e) => StatementModel::Block(seq![body, StatementModel::Expression(e)]),
        None => body,
    };
    let looped = StatementModel::While(cond, Box::new(inner));
    match init {
        Some(s) => StatementModel::Block(seq![s, looped]),
        None => looped,
    }
}

/// The initializer clause of a `for` statement with its `;`: none, a variable
/// declaration, or an expression statement.
pub open spec fn for_initializer(toks: Seq<Token>, p: int) -> Parsed<Option<StatementModel>>
    decreases toks.len() - p, 12nat,
{
    if check(toks, p, TokenType::Semicolon) {
        Ok((None, p + 1))
    } else if check(toks, p, TokenType::Var) {
        match var_declaration(toks, p + 1) {
            Err(x) => Err(x),
            Ok((s, q)) => Ok((Some(s), q)),
        }
    } else {
        match expression_statement(toks, p) {
            Err(x) => Err(x),
            Ok((s, q)) => Ok((Some(s), q)),
        }
    }
}

/// The condition clause of a `for` statement with its `;`; `true` where it is
/// left out.
pub open spec fn for_condition(toks: Seq<Token>, p: int) -> Parsed<Expression>
    decreases toks.len() - p, 11nat,
{
    let cond: Parsed<Expression> = if !check(toks, p, TokenType::Semicolon) {
        expression(toks, p)
    } else {
        Ok((Expression::Literal(Value::Bool(true)), p))
    };
    match cond {
        Err(x) => Err(x),
        Ok((c, q)) => if !check(toks, q, TokenType::Semicolon) {
            Err((ParseError::ExpectedSemicolon(prev_line(toks, q)), q))
        } else {
            Ok((c, q + 1))
        },
    }
}

/// The increment clause of a `for` statement with its `)`.
pub open spec fn for_increment(toks: Seq<Token>, p: int) -> Parsed<Option<Expression>>
    decreases toks.len() - p, 11nat,
{
    let incr: Parsed<Option<Expression>> = if !check(toks, p, TokenType::RightParen) {
        match expression(toks, p) {
            Err(x) => Err(x),
            Ok((e, q)) => Ok((Some(e), q)),
        }
    } else {
        Ok((None, p))
    };
    match incr {
        Err(x) => Err(x),
        Ok((i, q)) => if !check(toks, q, TokenType::RightParen) {
            Err((ParseError::ExpectedRightParen(prev_line(toks, q)), q))
        } else {
            Ok((i, q + 1))
        },
    }
}

/// The rest of a `for` statement after `for`.
pub open spec fn for_statement(toks: Seq<Token>, p: int) -> Parsed<StatementModel>
    decreases toks.len() - p, 12nat,
{
    if !check(toks, p, TokenType::LeftParen) {
        Err((ParseError::ExprectedLeftParen(prev_line(toks, p)), p))
    } else {
        match for_initializer(toks, p + 1) {
            Err(x) => Err(x),
            Ok((i, q1)) => if !progressed(toks, p, q1) {
                stalled(q1)
            } else {
                match for_condition(toks, q1) {
                    Err(x) => Err(x),
                    Ok((c, q2)) => if !progressed(toks, p, q2) {
                        stalled(q2)
                    } else {
                        match for_increment(toks, q2) {
                            Err(x) => Err(x),
                            Ok((inc, q3)) => if !progressed(toks, p, q3) {
                                stalled(q3)
                            } else {
                                match statement(toks, q3) {
                                    Err(x) => Err(x),
                                    Ok((b, q4)) => Ok((desugar_for(i, c, inc, b), q4)),
                                }
                            },
                        }
                    },
                }
            },
        }
    }
}

/// Whether a token begins a statement or declaration, where recovery stops.
pub open spec fn starts_statement(t: TokenType) -> bool {
    t == TokenType::Class || t == TokenType::For || t == TokenType::Fun || t == TokenType::If || t
        == TokenType::Print || t == TokenType::Return || t == TokenType::Var || t
        == TokenType::While
}

/// Where recovery after a syntax error at `p` resumes: past the offending
/// token, then on to just after a `;` or to a token that begins a statement,
/// or to the end.
pub open spec fn synchronize(toks: Seq<Token>, p: int) -> int {
    if at_end(toks, p) || p < 0 {
        p
    } else {
        sync_from(toks, p + 1)
    }
}

pub open spec fn sync_from(toks: Seq<Token>, q: int) -> int
    decreases toks.len() - q,
{
    if at_end(toks, q) || q < 1 {
        q
    } else if toks[q - 1].token_type == TokenType::Semicolon || starts_statement(
        toks[q].token_type,
    ) {
        q
    } else {
        sync_from(toks, q + 1)
    }
}

/// The declarations from `p` on and the syntax errors met, in order; after
/// each error parsing resumes where recovery stops.
pub open spec fn program_from(toks: Seq<Token>, p: int) -> (Seq<StatementModel>, Seq<ParseError>)
    decreases toks.len() - p,
{
    if at_end(toks, p) || p < 0 {
        (seq![], seq![])
    } else {
        match declaration(toks, p) {
            Ok((s, q)) => if !progressed(toks, p, q) {
                (seq![], seq![ParseError::TokenAccessError(q as usize)])
            } else {
                let (ss, es) = program_from(toks, q);
                (seq![s] + ss, es)
            },
            Err((e, q)) => {
                let r = synchronize(toks, q);
                if !progressed(toks, p, r) {
                    (seq![], seq![e])
                } else {
                    let (ss, es) = program_from(toks, r);
                    (ss, seq![e] + es)
                }
            },
        }
    }
}

} // verus!
