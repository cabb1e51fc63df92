//! The recursive-descent parser, proved to follow the grammar.
use vstd::prelude::*;
use crate::ast::{Expression, Statement};
use crate::errors::ParseError;
use crate::grammar::{
    assignment, at_end, binary, binary_rest, block, check, declaration, expression,
    desugar_for, expression_statement, for_condition, for_increment, for_initializer, for_statement,
    if_statement, join, level_op, prev_line,
    primary, print_statement, program_from, statement, statement_view, statements_view,
    starts_statement, sync_from, synchronize, unary, var_declaration, while_statement, Parsed,
    StatementModel,
};
use crate::token::{Token, TokenType};
use crate::value::Value;

verus! {

/// An expression parse seen as a grammar result.
pub open spec fn expr_outcome(r: Result<Expression, ParseError>, pos: usize) -> Parsed<Expression> {
    match r {
        Ok(e) => Ok((e, pos as int)),
        Err(x) => Err((x, pos as int)),
    }
}

/// A statement parse seen as a grammar result.
pub open spec fn stmt_outcome(r: Result<Statement, ParseError>, pos: usize) -> Parsed<
    StatementModel,
> {
    match r {
        Ok(s) => Ok((statement_view(s), pos as int)),
        Err(x) => Err((x, pos as int)),
    }
}

/// Adding a statement at the end adds its model at the end.
pub proof fn lemma_statements_view_push(ss: Seq<Statement>, s: Statement, i: int)
    requires
        0 <= i <= ss.len(),
    ensures
        statements_view(ss.push(s), i) == statements_view(ss, i).push(statement_view(s)),
    decreases ss.len() - i,
{
    if i < ss.len() {
        lemma_statements_view_push(ss, s, i + 1);
        assert(ss.push(s)[i] == ss[i]);
        assert(statements_view(ss.push(s), i) =~= statements_view(ss, i).push(statement_view(s)));
    } else {
        assert(statements_view(ss.push(s), i + 1) =~= Seq::<StatementModel>::empty());
        assert(statements_view(ss, i) =~= Seq::<StatementModel>::empty());
        assert(statements_view(ss.push(s), i) =~= statements_view(ss, i).push(statement_view(s)));
    }
}

/// A parser over a token sequence that ends with the end marker.
struct Parser {
    tokens: Vec<Token>,
    current: usize,
}

fn join_nodes(level: usize, left: Expression, op: Token, right: Expression) -> (r: Expression)
    ensures
        r == join(level as nat, left, op, right),
{
    if level < 2 {
        Expression::Logical(Box::new(left), op, Box::new(right))
    } else {
        Expression::Binary(Box::new(left), op, Box::new(right))
    }
}

fn is_level_op(level: usize, t: TokenType) -> (r: bool)
    ensures
        r == level_op(level as nat, t),
{
    match level {
        0 => t == TokenType::Or,
        1 => t == TokenType::And,
        2 => t == TokenType::BangEqual || t == TokenType::EqualEqual,
        3 => t == TokenType::Greater || t == TokenType::GreaterEqual || t == TokenType::Less || t
            == TokenType::LessEqual,
        4 => t == TokenType::Minus || t == TokenType::Plus,
        _ => t == TokenType::Slash || t == TokenType::Star,
    }
}

impl Parser {
    spec fn wf(&self) -> bool {
        1 <= self.tokens@.len() <= usize::MAX && self.current < self.tokens@.len()
    }

    spec fn toks(&self) -> Seq<Token> {
        self.tokens@
    }

    fn is_at_end(&self) -> (r: bool)
        requires
            self.wf(),
        ensures
            r == at_end(self.toks(), self.current as int),
    {
        self.current >= self.tokens.len() - 1
    }

    fn check(&self, t: TokenType) -> (r: bool)
        requires
            self.wf(),
        ensures
            r == check(self.toks(), self.current as int, t),
    {
        !self.is_at_end() && self.tokens[self.current].token_type == t
    }

    /// Consumes the current token when it has type `t`.
    fn match_token(&mut self, t: TokenType) -> (r: bool)
        requires
            old(self).wf(),
        ensures
            final(self).wf(),
            final(self).tokens == old(self).tokens,
            r == check(old(self).toks(), old(self).current as int, t),
            final(self).current == old(self).current + if r { 1int } else { 0int },
    {
        if self.check(t) {
            self.current = self.current + 1;
            true
        } else {
            false
        }
    }

    fn prev_line(&self) -> (r: u32)
        requires
            self.wf(),
        ensures
            r == prev_line(self.toks(), self.current as int),
    {
        if self.current == 0 {
            self.tokens[0].line
        } else {
            self.tokens[self.current - 1].line
        }
    }

    fn expression(&mut self) -> (r: Result<Expression, ParseError>)
        requires
            old(self).wf(),
        ensures
            final(self).wf(),
            final(self).tokens == old(self).tokens,
            final(self).current >= old(self).current,
            r is Ok ==> final(self).current > old(self).current,
            r matches Err(x) ==> !(x is TokenAccessError),
            expr_outcome(r, final(self).current) == expression(
                old(self).toks(),
                old(self).current as int,
            ),
        decreases old(self).tokens@.len() - old(self).current, 10nat,
    {
        self.assignment()
    }

    fn assignment(&mut self) -> (r: Result<Expression, ParseError>)
        requires
            old(self).wf(),
        ensures
            final(self).wf(),
            final(self).tokens == old(self).tokens,
            final(self).current >= old(self).current,
            r is Ok ==> final(self).current > old(self).current,
            r matches Err(x) ==> !(x is TokenAccessError),
            expr_outcome(r, final(self).current) == assignment(
                old(self).toks(),
                old(self).current as int,
            ),
        decreases old(self).tokens@.len() - old(self).current, 9nat,
    {
        let expr = self.binary(0)?;
        if self.match_token(TokenType::Equal) {
            let value = self.assignment()?;
            match expr {
                Expression::Variable(name) => Ok(Expression::Assign(name, Box::new(value))),
                _ => Err(ParseError::InvalidAssignmentTarget),
            }
        } else {
            Ok(expr)
        }
    }

    fn binary(&mut self, level: usize) -> (r: Result<Expression, ParseError>)
        requires
            old(self).wf(),
            level <= 6,
        ensures
            final(self).wf(),
            final(self).tokens == old(self).tokens,
            final(self).current >= old(self).current,
            r is Ok ==> final(self).current > old(self).current,
            r matches Err(x) ==> !(x is TokenAccessError),
            expr_outcome(r, final(self).current) == binary(
                old(self).toks(),
                level as nat,
                old(self).current as int,
            ),
        decreases old(self).tokens@.len() - old(self).current, if level >= 6 { 2int } else { 8 - level },
    {
        if level >= 6 {
            return self.unary();
        }
        let ghost start = self.current as int;
        let ghost toks = self.toks();
        let mut expr = self.binary(level + 1)?;
        let ghost total = binary(toks, level as nat, start);
        while !self.is_at_end() && is_level_op(level, self.tokens[self.current].token_type)
            invariant
                self.wf(),
                self.tokens == old(self).tokens,
                self.toks() == toks,
                start == old(self).current,
                level < 6,
                start < self.current,
                total == binary(toks, level as nat, start),
                total == binary_rest(toks, level as nat, expr, self.current as int),
            decreases self.tokens@.len() - self.current,
        {
            let op = self.tokens[self.current].duplicate();
            self.current = self.current + 1;
            let right = self.binary(level + 1)?;
            expr = join_nodes(level, expr, op, right);
        }
        Ok(expr)
    }

    fn unary(&mut self) -> (r: Result<Expression, ParseError>)
        requires
            old(self).wf(),
        ensures
            final(self).wf(),
            final(self).tokens == old(self).tokens,
            final(self).current >= old(self).current,
            r is Ok ==> final(self).current > old(self).current,
            r matches Err(x) ==> !(x is TokenAccessError),
            expr_outcome(r, final(self).current) == unary(old(self).toks(), old(self).current as int),
        decreases old(self).tokens@.len() - old(self).current, 1nat,
    {
        if self.check(TokenType::Bang) || self.check(TokenType::Minus) {
            let op = self.tokens[self.current].duplicate();
            self.current = self.current + 1;
            let right = self.unary()?;
            Ok(Expression::Unary(op, Box::new(right)))
        } else {
            self.primary()
        }
    }

    fn primary(&mut self) -> (r: Result<Expression, ParseError>)
        requires
            old(self).wf(),
        ensures
            final(self).wf(),
            final(self).tokens == old(self).tokens,
            final(self).current >= old(self).current,
            r is Ok ==> final(self).current > old(self).current,
            r matches Err(x) ==> !(x is TokenAccessError),
            expr_outcome(r, final(self).current) == primary(
                old(self).toks(),
                old(self).current as int,
            ),
        decreases old(self).tokens@.len() - old(self).current, 0nat,
    {
        if self.match_token(TokenType::False) {
            Ok(Expression::Literal(Value::Bool(false)))
        } else if self.match_token(TokenType::True) {
            Ok(Expression::Literal(Value::Bool(true)))
        } else if self.match_token(TokenType::Nil) {
            Ok(Expression::Literal(Value::Nil))
        } else if self.match_token(TokenType::String) || self.match_token(TokenType::Number) {
            match self.tokens[self.current - 1].literal() {
                Some(v) => Ok(Expression::Literal(v)),
                None => Err(ParseError::NoLiteralOnToken(self.tokens[self.current].line)),
            }
        } else if self.match_token(TokenType::Identifier) {
            Ok(Expression::Variable(self.tokens[self.current - 1].duplicate()))
        } else if self.match_token(TokenType::LeftParen) {
            let expr = self.expression()?;
            if self.match_token(TokenType::RightParen) {
                Ok(Expression::Grouping(Box::new(expr)))
            } else {
                Err(ParseError::UnterminatedGrouping(self.prev_line()))
            }
        } else {
            Err(ParseError::ExpectedExpression(self.prev_line()))
        }
    }

    fn declaration(&mut self) -> (r: Result<Statement, ParseError>)
        requires
            old(self).wf(),
        ensures
            final(self).wf(),
            final(self).tokens == old(self).tokens,
            final(self).current >= old(self).current,
            r is Ok ==> final(self).current > old(self).current,
            r matches Err(x) ==> !(x is TokenAccessError),
            stmt_outcome(r, final(self).current) == declaration(
                old(self).toks(),
                old(self).current as int,
            ),
        decreases old(self).tokens@.len() - old(self).current, 14nat,
    {
        if self.match_token(TokenType::Var) {
            self.var_declaration()
        } else {
            self.statement()
        }
    }

    fn var_declaration(&mut self) -> (r: Result<Statement, ParseError>)
        requires
            old(self).wf(),
        ensures
            final(self).wf(),
            final(self).tokens == old(self).tokens,
            final(self).current >= old(self).current,
            r is Ok ==> final(self).current > old(self).current,
            r matches Err(x) ==> !(x is TokenAccessError),
            stmt_outcome(r, final(self).current) == var_declaration(
                old(self).toks(),
                old(self).current as int,
            ),
        decreases old(self).tokens@.len() - old(self).current, 11nat,
    {
        if !self.check(TokenType::Identifier) {
            return Err(ParseError::ExpectedIdentifier(self.prev_line()));
        }
        let name = self.tokens[self.current].duplicate();
        self.current = self.current + 1;
        let initializer = if self.match_token(TokenType::Equal) {
            Some(self.expression()?)
        } else {
            None
        };
        if self.match_token(TokenType::Semicolon) {
            Ok(Statement::Var(name, initializer))
        } else {
            Err(ParseError::UnterminatedVarDeclaration(name.line))
        }
    }

    fn statement(&mut self) -> (r: Result<Statement, ParseError>)
        requires
            old(self).wf(),
        ensures
            final(self).wf(),
            final(self).tokens == old(self).tokens,
            final(self).current >= old(self).current,
            r is Ok ==> final(self).current > old(self).current,
            r matches Err(x) ==> !(x is TokenAccessError),
            stmt_outcome(r, final(self).current) == statement(
                old(self).toks(),
                old(self).current as int,
            ),
        decreases old(self).tokens@.len() - old(self).current, 13nat,
    {
        if self.match_token(TokenType::Print) {
            self.print_statement()
        } else if self.match_token(TokenType::While) {
            self.while_statement()
        } else if self.match_token(TokenType::For) {
            self.for_statement()
        } else if self.match_token(TokenType::LeftBrace) {
            let stmts = self.block()?;
            Ok(Statement::Block(stmts))
        } else if self.match_token(TokenType::If) {
            self.if_statement()
        } else {
            self.expression_statement()
        }
    }

    fn if_statement(&mut self) -> (r: Result<Statement, ParseError>)
        requires
            old(self).wf(),
        ensures
            final(self).wf(),
            final(self).tokens == old(self).tokens,
            final(self).current >= old(self).current,
            r is Ok ==> final(self).current > old(self).current,
            r matches Err(x) ==> !(x is TokenAccessError),
            stmt_outcome(r, final(self).current) == if_statement(
                old(self).toks(),
                old(self).current as int,
            ),
        decreases old(self).tokens@.len() - old(self).current, 12nat,
    {
        if !self.match_token(TokenType::LeftParen) {
            return Err(ParseError::ExprectedLeftParen(self.prev_line()));
        }
        let condition = self.expression()?;
        if !self.match_token(TokenType::RightParen) {
            return Err(ParseError::ExpectedRightParen(self.prev_line()));
        }
        let then_branch = self.statement()?;
        if self.match_token(TokenType::Else) {
            let else_branch = self.statement()?;
            Ok(Statement::If(condition, Box::new(then_branch), Some(Box::new(else_branch))))
        } else {
            Ok(Statement::If(condition, Box::new(then_branch), None))
        }
    }

    fn print_statement(&mut self) -> (r: Result<Statement, ParseError>)
        requires
            old(self).wf(),
        ensures
            final(self).wf(),
            final(self).tokens == old(self).tokens,
            final(self).current >= old(self).current,
            r is Ok ==> final(self).current > old(self).current,
            r matches Err(x) ==> !(x is TokenAccessError),
            stmt_outcome(r, final(self).current) == print_statement(
                old(self).toks(),
                old(self).current as int,
            ),
        decreases old(self).tokens@.len() - old(self).current, 11nat,
    {
        let expr = self.expression()?;
        if self.match_token(TokenType::Semicolon) {
            Ok(Statement::Print(expr))
        } else {
            Err(ParseError::UnterminatedPrintStatement(self.prev_line()))
        }
    }

    fn expression_statement(&mut self) -> (r: Result<Statement, ParseError>)
        requires
            old(self).wf(),
        ensures
            final(self).wf(),
            final(self).tokens == old(self).tokens,
            final(self).current >= old(self).current,
            r is Ok ==> final(self).current > old(self).current,
            r matches Err(x) ==> !(x is TokenAccessError),
            stmt_outcome(r, final(self).current) == expression_statement(
                old(self).toks(),
                old(self).current as int,
            ),
        decreases old(self).tokens@.len() - old(self).current, 11nat,
    {
        let expr = self.expression()?;
        if self.match_token(TokenType::Semicolon) {
            Ok(Statement::Expression(expr))
        } else {
            Err(ParseError::UnterminatedExpressionStatement(self.prev_line()))
        }
    }

    fn block(&mut self) -> (r: Result<Vec<Statement>, ParseError>)
        requires
            old(self).wf(),
        ensures
            final(self).wf(),
            final(self).tokens == old(self).tokens,
            final(self).current >= old(self).current,
            r is Ok ==> final(self).current > old(self).current,
            r matches Err(x) ==> !(x is TokenAccessError),
            block(old(self).toks(), old(self).current as int) == match r {
                Ok(v) => Ok((statements_view(v@, 0), final(self).current as int)),
                Err(x) => Err((x, final(self).current as int)),
            },
        decreases old(self).tokens@.len() - old(self).current, 15nat,
    {
        let ghost toks = self.toks();
        let ghost start = self.current as int;
        let ghost total = block(toks, start);
        let mut stmts: Vec<Statement> = Vec::new();
        assert(statements_view(stmts@, 0) =~= Seq::<StatementModel>::empty());
        assert(prefixed(statements_view(stmts@, 0), block(toks, start)) =~= total) by {
            match total {
                Ok((ss, q)) => {
                    assert(Seq::<StatementModel>::empty() + ss =~= ss);
                },
                Err(_) => {},
            }
        }
        while !self.check(TokenType::RightBrace) && !self.is_at_end()
            invariant
                self.wf(),
                self.tokens == old(self).tokens,
                self.toks() == toks,
                start == old(self).current,
                start <= self.current,
                total == block(toks, start),
                total == prefixed(statements_view(stmts@, 0), block(toks, self.current as int)),
            decreases self.tokens@.len() - self.current,
        {
            let ghost pre = statements_view(stmts@, 0);
            let s = self.declaration()?;
            proof {
                lemma_statements_view_push(stmts@, s, 0);
                let q = self.current as int;
                match block(toks, q) {
                    Ok((rest, q2)) => {
                        assert(pre + (seq![statement_view(s)] + rest) =~= pre.push(statement_view(s)) + rest);
                    },
                    Err(_) => {},
                }
            }
            stmts.push(s);
        }
        if self.match_token(TokenType::RightBrace) {
            proof {
                assert(statements_view(stmts@, 0) + Seq::<StatementModel>::empty() =~= statements_view(stmts@, 0));
            }
            Ok(stmts)
        } else {
            Err(ParseError::UnterminatedBlock(self.prev_line()))
        }
    }

    fn while_statement(&mut self) -> (r: Result<Statement, ParseError>)
        requires
            old(self).wf(),
        ensures
            final(self).wf(),
            final(self).tokens == old(self).tokens,
            final(self).current >= old(self).current,
            r is Ok ==> final(self).current > old(self).current,
            r matches Err(x) ==> !(x is TokenAccessError),
            stmt_outcome(r, final(self).current) == while_statement(
                old(self).toks(),
                old(self).current as int,
            ),
        decreases old(self).tokens@.len() - old(self).current, 12nat,
    {
        if !self.match_token(TokenType::LeftParen) {
            return Err(ParseError::ExprectedLeftParen(self.prev_line()));
        }
        let condition = self.expression()?;
        if !self.match_token(TokenType::RightParen) {
            return Err(ParseError::ExpectedRightParen(self.prev_line()));
        }
        let body = self.statement()?;
        Ok(Statement::While(condition, Box::new(body)))
    }

    fn for_initializer(&mut self) -> (r: Result<Option<Statement>, ParseError>)
        requires
            old(self).wf(),
        ensures
            final(self).wf(),
            final(self).tokens == old(self).tokens,
            final(self).current >= old(self).current,
            r is Ok ==> final(self).current > old(self).current,
            r matches Err(x) ==> !(x is TokenAccessError),
            for_initializer(old(self).toks(), old(self).current as int) == match r {
                Ok(Some(s)) => Ok((Some(statement_view(s)), final(self).current as int)),
                Ok(None) => Ok((None, final(self).current as int)),
                Err(x) => Err((x, final(self).current as int)),
            },
        decreases old(self).tokens@.len() - old(self).current, 12nat,
    {
        if self.match_token(TokenType::Semicolon) {
            Ok(None)
        } else if self.match_token(TokenType::Var) {
            Ok(Some(self.var_declaration()?))
        } else {
            Ok(Some(self.expression_statement()?))
        }
    }

    fn for_condition(&mut self) -> (r: Result<Expression, ParseError>)
        requires
            old(self).wf(),
        ensures
            final(self).wf(),
            final(self).tokens == old(self).tokens,
            final(self).current >= old(self).current,
            r is Ok ==> final(self).current > old(self).current,
            r matches Err(x) ==> !(x is TokenAccessError),
            expr_outcome(r, final(self).current) == for_condition(
                old(self).toks(),
                old(self).current as int,
            ),
        decreases old(self).tokens@.len() - old(self).current, 11nat,
    {
        let condition = if !self.check(TokenType::Semicolon) {
            self.expression()?
        } else {
            Expression::Literal(Value::Bool(true))
        };
        if !self.match_token(TokenType::Semicolon) {
            return Err(ParseError::ExpectedSemicolon(self.prev_line()));
        }
        Ok(condition)
    }

    fn for_increment(&mut self) -> (r: Result<Option<Expression>, ParseError>)
        requires
            old(self).wf(),
        ensures
            final(self).wf(),
            final(self).tokens == old(self).tokens,
            final(self).current >= old(self).current,
            r is Ok ==> final(self).current > old(self).current,
            r matches Err(x) ==> !(x is TokenAccessError),
            for_increment(old(self).toks(), old(self).current as int) == match r {
                Ok(i) => Ok((i, final(self).current as int)),
                Err(x) => Err((x, final(self).current as int)),
            },
        decreases old(self).tokens@.len() - old(self).current, 11nat,
    {
        let increment = if !self.check(TokenType::RightParen) {
            Some(self.expression()?)
        } else {
            None
        };
        if !self.match_token(TokenType::RightParen) {
            return Err(ParseError::ExpectedRightParen(self.prev_line()));
        }
        Ok(increment)
    }

    fn for_statement(&mut self) -> (r: Result<Statement, ParseError>)
        requires
            old(self).wf(),
        ensures
            final(self).wf(),
            final(self).tokens == old(self).tokens,
            final(self).current >= old(self).current,
            r is Ok ==> final(self).current > old(self).current,
            r matches Err(x) ==> !(x is TokenAccessError),
            stmt_outcome(r, final(self).current) == for_statement(
                old(self).toks(),
                old(self).current as int,
            ),
        decreases old(self).tokens@.len() - old(self).current, 12nat,
    {
        if !self.match_token(TokenType::LeftParen) {
            return Err(ParseError::ExprectedLeftParen(self.prev_line()));
        }
        let initializer = self.for_initializer()?;
        let condition = self.for_condition()?;
        let increment = self.for_increment()?;
        let body = self.statement()?;
        Ok(desugar_for_loop(initializer, condition, increment, body))
    }

    /// Skips tokens after a syntax error up to where a statement can begin.
    fn synchronize(&mut self)
        requires
            old(self).wf(),
        ensures
            final(self).wf(),
            final(self).tokens == old(self).tokens,
            final(self).current as int == synchronize(old(self).toks(), old(self).current as int),
            !at_end(old(self).toks(), old(self).current as int) ==> final(self).current > old(self).current,
    {
        if self.is_at_end() {
            return;
        }
        self.current = self.current + 1;
        while !self.is_at_end()
            invariant
                self.wf(),
                self.tokens == old(self).tokens,
                self.current > old(self).current,
                synchronize(old(self).toks(), old(self).current as int) == sync_from(self.toks(), self.current as int),
            decreases self.tokens@.len() - self.current,
        {
            if self.tokens[self.current - 1].token_type == TokenType::Semicolon {
                return;
            }
            if is_statement_start(self.tokens[self.current].token_type) {
                return;
            }
            self.current = self.current + 1;
        }
    }
}

/// The loop that a `for` statement stands for.
fn desugar_for_loop(
    initializer: Option<Statement>,
    condition: Expression,
    increment: Option<Expression>,
    body: Statement,
) -> (r: Statement)
    ensures
        statement_view(r) == desugar_for(
            match initializer {
                Some(s) => Some(statement_view(s)),
                None => None,
            },
            condition,
            increment,
            statement_view(body),
        ),
{
    let ghost incr = increment;
    let ghost inner_view = match incr {
        Some(e) => StatementModel::Block(seq![statement_view(body), StatementModel::Expression(e)]),
        None => statement_view(body),
    };
    let inner = match increment {
        Some(e) => {
            let v = vec![body, Statement::Expression(e)];
            proof {
                lemma_statements_view_two(v@);
            }
            Statement::Block(v)
        },
        None => body,
    };
    assert(statement_view(inner) == inner_view);
    let ghost cond = condition;
    let looped = Statement::While(condition, Box::new(inner));
    assert(statement_view(looped) == StatementModel::While(cond, Box::new(inner_view)));
    match initializer {
        Some(init) => {
            let v = vec![init, looped];
            proof {
                lemma_statements_view_two(v@);
                assert(v@[0] == init);
            }
            Statement::Block(v)
        },
        None => looped,
    }
}

/// Whether a token begins a statement or declaration.
fn is_statement_start(t: TokenType) -> (r: bool)
    ensures
        r == starts_statement(t),
{
    match t {
        TokenType::Class | TokenType::For | TokenType::Fun | TokenType::If | TokenType::Print
        | TokenType::Return | TokenType::Var | TokenType::While => true,
        _ => false,
    }
}

/// Statements in front of what a block parse gives.
pub open spec fn prefixed(pre: Seq<StatementModel>, r: Parsed<Seq<StatementModel>>) -> Parsed<
    Seq<StatementModel>,
> {
    match r {
        Ok((ss, q)) => Ok((pre + ss, q)),
        Err(x) => Err(x),
    }
}

proof fn lemma_statements_view_two(ss: Seq<Statement>)
    requires
        ss.len() == 2,
    ensures
        statements_view(ss, 0) == seq![statement_view(ss[0]), statement_view(ss[1])],
{
    assert(statements_view(ss, 2) =~= Seq::<StatementModel>::empty());
    assert(statements_view(ss, 1) =~= seq![statement_view(ss[1])]);
    assert(statements_view(ss, 0) =~= seq![statement_view(ss[0]), statement_view(ss[1])]);
}

/// What parsing a whole token sequence gives: the statements where no syntax
/// error was met, else every syntax error, in order.
pub open spec fn parse_outcome(toks: Seq<Token>) -> Result<Seq<StatementModel>, Seq<ParseError>> {
    let (ss, es) = program_from(toks, 0);
    if es.len() == 0 {
        Ok(ss)
    } else {
        Err(es)
    }
}

/// Parses a token sequence that ends with the end marker into statements.
/// Parsing goes on after a syntax error, past the statement it was met in;
/// the call fails with every error met where there was one.
#[verifier::rlimit(100)]
pub fn parse(tokens: Vec<Token>) -> (r: Result<Vec<Statement>, Vec<ParseError>>)
    requires
        tokens@.len() >= 1,
    ensures
        match r {
            Ok(v) => parse_outcome(tokens@) == Ok::<Seq<StatementModel>, Seq<ParseError>>(
                statements_view(v@, 0),
            ),
            Err(es) => parse_outcome(tokens@) == Err::<Seq<StatementModel>, Seq<ParseError>>(es@),
        },
        r matches Err(es) ==> forall|i: int| 0 <= i < es@.len() ==> !(es@[i] is TokenAccessError),
{
    let ghost toks = tokens@;
    let n = tokens.len();
    let mut parser = Parser { tokens, current: 0 };
    let mut statements: Vec<Statement> = Vec::new();
    let mut errors: Vec<ParseError> = Vec::new();
    let ghost total = program_from(toks, 0);
    assert(statements_view(statements@, 0) =~= Seq::<StatementModel>::empty());
    assert(Seq::<StatementModel>::empty() + total.0 =~= total.0);
    assert(Seq::<ParseError>::empty() + total.1 =~= total.1);
    while !parser.is_at_end()
        invariant
            parser.wf(),
            parser.toks() == toks,
            total == program_from(toks, 0),
            total.0 == statements_view(statements@, 0) + program_from(toks, parser.current as int).0,
            total.1 == errors@ + program_from(toks, parser.current as int).1,
            forall|i: int| 0 <= i < errors@.len() ==> !(errors@[i] is TokenAccessError),
        decreases parser.tokens@.len() - parser.current,
    {
        let ghost pre = statements_view(statements@, 0);
        let ghost errs = errors@;
        match parser.declaration() {
            Ok(s) => {
                proof {
                    lemma_statements_view_push(statements@, s, 0);
                    let rest = program_from(toks, parser.current as int);
                    assert(pre + (seq![statement_view(s)] + rest.0) =~= pre.push(statement_view(s)) + rest.0);
                }
                statements.push(s);
            },
            Err(e) => {
                parser.synchronize();
                proof {
                    let rest = program_from(toks, parser.current as int);
                    assert(errs + (seq![e] + rest.1) =~= errs.push(e) + rest.1);
                }
                errors.push(e);
            },
        }
    }
    assert(statements_view(statements@, 0) + Seq::<StatementModel>::empty() =~= statements_view(statements@, 0));
    assert(errors@ + Seq::<ParseError>::empty() =~= errors@);
    if errors.len() == 0 {
        Ok(statements)
    } else {
        Err(errors)
    }
}

} // verus!
