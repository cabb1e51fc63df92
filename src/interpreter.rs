//! The tree-walking evaluator: the meaning of expressions and statements as
//! spec functions, and the executable interpreter proved against them.
use vstd::prelude::*;
use crate::ast::{Expression, Statement};
use crate::environment::{assigned, defined, lookup, Environment, ScopeModel};
use crate::errors::RuntimeError;
use crate::number::{
    float_difference, float_negate, float_order, float_product, float_quotient, float_sum, num_add,
    num_compare, num_div, num_mul, num_negate, num_sub,
};
use crate::token::{Token, TokenType};
use crate::value::{is_equal, is_truthy, truthy, values_equal, Value, ValueModel};

verus! {

/// The scopes of a run, global scope first.
pub type EnvModel = Seq<ScopeModel>;

/// What statements do: their result, the scopes after them, and the values
/// they print, in order.
pub type ExecModel = (Result<(), RuntimeError>, EnvModel, Seq<ValueModel>);

/// The value that a binary operator gives on two operand values.
pub open spec fn binary_result(op: TokenType, l: ValueModel, r: ValueModel) -> Result<
    ValueModel,
    RuntimeError,
> {
    match op {
        TokenType::Plus => match (l, r) {
            (ValueModel::Number(a), ValueModel::Number(b)) => Ok(
                ValueModel::Number(float_sum(a, b)),
            ),
            (ValueModel::String(a), ValueModel::String(b)) => Ok(ValueModel::String(a + b)),
            _ => Err(RuntimeError::IncompatibleTypes),
        },
        TokenType::BangEqual => Ok(ValueModel::Bool(!values_equal(l, r))),
        TokenType::EqualEqual => Ok(ValueModel::Bool(values_equal(l, r))),
        TokenType::Minus | TokenType::Slash | TokenType::Star | TokenType::Greater
        | TokenType::GreaterEqual | TokenType::Less | TokenType::LessEqual => match (l, r) {
            (ValueModel::Number(a), ValueModel::Number(b)) => Ok(numeric_result(op, a, b)),
            _ => Err(RuntimeError::NumberOperand),
        },
        _ => Err(RuntimeError::Unknown),
    }
}

/// The value of an arithmetic or comparison operator on two numbers.
pub open spec fn numeric_result(op: TokenType, a: u64, b: u64) -> ValueModel {
    let ord = float_order(a, b);
    match op {
        TokenType::Minus => ValueModel::Number(float_difference(a, b)),
        TokenType::Slash => ValueModel::Number(float_quotient(a, b)),
        TokenType::Star => ValueModel::Number(float_product(a, b)),
        TokenType::Greater => ValueModel::Bool(ord == Some(core::cmp::Ordering::Greater)),
        TokenType::GreaterEqual => ValueModel::Bool(
            ord == Some(core::cmp::Ordering::Greater) || ord == Some(core::cmp::Ordering::Equal),
        ),
        TokenType::Less => ValueModel::Bool(ord == Some(core::cmp::Ordering::Less)),
        _ => ValueModel::Bool(
            ord == Some(core::cmp::Ordering::Less) || ord == Some(core::cmp::Ordering::Equal),
        ),
    }
}

/// The value that a unary operator gives on its operand's value.
pub open spec fn unary_result(op: TokenType, v: ValueModel) -> Result<ValueModel, RuntimeError> {
    match op {
        TokenType::Minus => match v {
            ValueModel::Number(a) => Ok(ValueModel::Number(float_negate(a))),
            _ => Err(RuntimeError::NumberOperand),
        },
        TokenType::Bang => Ok(ValueModel::Bool(!truthy(v))),
        _ => Err(RuntimeError::Unknown),
    }
}

/// The value of an expression and the scopes after evaluating it. Operands are
/// evaluated left to right; `and` and `or` evaluate their right operand only
/// when the left one does not decide.
pub open spec fn eval(e: Expression, env: EnvModel) -> (Result<ValueModel, RuntimeError>, EnvModel)
    decreases e,
{
    match e {
        Expression::Assign(name, value) => {
            let (r, env1) = eval(*value, env);
            match r {
                Err(err) => (Err(err), env1),
                Ok(v) => match assigned(env1, name.lexeme@, v) {
                    Some(env2) => (Ok(v), env2),
                    None => (Err(RuntimeError::UndefinedVariable), env1),
                },
            }
        },
        Expression::Binary(left, op, right) => {
            let (rl, env1) = eval(*left, env);
            match rl {
                Err(err) => (Err(err), env1),
                Ok(a) => {
                    let (rr, env2) = eval(*right, env1);
                    match rr {
                        Err(err) => (Err(err), env2),
                        Ok(b) => (binary_result(op.token_type, a, b), env2),
                    }
                },
            }
        },
        Expression::Grouping(inner) => eval(*inner, env),
        Expression::Literal(v) => (Ok(v@), env),
        Expression::Logical(left, op, right) => {
            let (rl, env1) = eval(*left, env);
            match rl {
                Err(err) => (Err(err), env1),
                Ok(a) => if (op.token_type == TokenType::Or) == truthy(a) {
                    (Ok(a), env1)
                } else {
                    eval(*right, env1)
                },
            }
        },
        Expression::Unary(op, operand) => {
            let (r, env1) = eval(*operand, env);
            match r {
                Err(err) => (Err(err), env1),
                Ok(v) => (unary_result(op.token_type, v), env1),
            }
        },
        Expression::Variable(name) => match lookup(env, name.lexeme@) {
            Some(v) => (Ok(v), env),
            None => (Err(RuntimeError::UndefinedVariable), env),
        },
    }
}

/// `and` and `or` leave their right operand unevaluated when the left one
/// decides: the result is the left operand's value, and the right operand may
/// be anything, even a read of an undefined name.
pub proof fn lemma_short_circuit(left: Expression, op: Token, right: Expression, env: EnvModel)
    requires
        eval(left, env).0 is Ok,
        (op.token_type == TokenType::Or) == truthy(eval(left, env).0->Ok_0),
    ensures
        eval(Expression::Logical(Box::new(left), op, Box::new(right)), env) == eval(left, env),
{
}

/// What a statement does. `fuel` bounds the iterations of each loop, and one
/// less for the loops in a loop's body; a loop that would go past it fails.
pub open spec fn exec(s: Statement, env: EnvModel, fuel: nat) -> ExecModel
    decreases fuel, s,
{
    match s {
        Statement::Block(stmts) => {
            let (r, env1, out) = exec_from(stmts@, 0, env.push(ScopeModel::empty()), fuel);
            (r, env1.drop_last(), out)
        },
        Statement::Expression(e) => {
            let (r, env1) = eval(e, env);
            match r {
                Err(err) => (Err(err), env1, seq![]),
                Ok(_) => (Ok(()), env1, seq![]),
            }
        },
        Statement::If(cond, then_branch, else_branch) => {
            let (r, env1) = eval(cond, env);
            match r {
                Err(err) => (Err(err), env1, seq![]),
                Ok(c) => if truthy(c) {
                    exec(*then_branch, env1, fuel)
                } else {
                    match else_branch {
                        Some(b) => exec(*b, env1, fuel),
                        None => (Ok(()), env1, seq![]),
                    }
                },
            }
        },
        Statement::Print(e) => {
            let (r, env1) = eval(e, env);
            match r {
                Err(err) => (Err(err), env1, seq![]),
                Ok(v) => (Ok(()), env1, seq![v]),
            }
        },
        Statement::Var(name, init) => match init {
            None => (Ok(()), defined(env, name.lexeme@, ValueModel::Nil), seq![]),
            Some(e) => {
                let (r, env1) = eval(e, env);
                match r {
                    Err(err) => (Err(err), env1, seq![]),
                    Ok(v) => (Ok(()), defined(env1, name.lexeme@, v), seq![]),
                }
            },
        },
        Statement::While(cond, body) => exec_while(cond, *body, env, fuel),
    }
}

/// What a loop does from its next test of the condition on.
pub open spec fn exec_while(cond: Expression, body: Statement, env: EnvModel, fuel: nat) -> ExecModel
    decreases fuel, body,
{
    let (r, env1) = eval(cond, env);
    match r {
        Err(err) => (Err(err), env1, seq![]),
        Ok(c) => if !truthy(c) {
            (Ok(()), env1, seq![])
        } else if fuel == 0 {
            (Err(RuntimeError::LoopLimit), env1, seq![])
        } else {
            let (rb, env2, out1) = exec(body, env1, (fuel - 1) as nat);
            match rb {
                Err(err) => (Err(err), env2, out1),
                Ok(_) => {
                    let (r3, env3, out2) = exec_while(cond, body, env2, (fuel - 1) as nat);
                    (r3, env3, out1 + out2)
                },
            }
        },
    }
}

/// What the statements from index `i` on do, run in order until one fails.
pub open spec fn exec_from(stmts: Seq<Statement>, i: int, env: EnvModel, fuel: nat) -> ExecModel
    decreases fuel, stmts, stmts.len() - i,
{
    if i < 0 || i >= stmts.len() {
        (Ok(()), env, seq![])
    } else {
        let (r, env1, out1) = exec(stmts[i], env, fuel);
        match r {
            Err(err) => (Err(err), env1, out1),
            Ok(_) => {
                let (r2, env2, out2) = exec_from(stmts, i + 1, env1, fuel);
                (r2, env2, out1 + out2)
            },
        }
    }
}

/// What a program does when run from an empty global scope.
pub open spec fn run_program(stmts: Seq<Statement>, fuel: nat) -> ExecModel {
    exec_from(stmts, 0, seq![ScopeModel::empty()], fuel)
}

/// The values of a sequence of runtime values.
pub open spec fn values_view(vs: Seq<Value>) -> Seq<ValueModel> {
    vs.map_values(|v: Value| v@)
}

/// A result with its value seen through its view.
pub open spec fn result_view(r: Result<Value, RuntimeError>) -> Result<ValueModel, RuntimeError> {
    match r {
        Ok(v) => Ok(v@),
        Err(e) => Err(e),
    }
}

/// The state of a run: the active scopes and what has been printed.
pub struct Interpreter {
    environment: Environment,
    printed: Vec<Value>,
}

fn number_operand(value: &Value) -> (r: Result<u64, RuntimeError>)
    ensures
        match value@ {
            ValueModel::Number(n) => r == Ok::<u64, RuntimeError>(n),
            _ => r == Err::<u64, RuntimeError>(RuntimeError::NumberOperand),
        },
{
    match value {
        Value::Number(n) => Ok(*n),
        _ => Err(RuntimeError::NumberOperand),
    }
}

/// Applies a binary operator to two values.
pub fn handle_binary(op: TokenType, left: Value, right: Value) -> (r: Result<Value, RuntimeError>)
    ensures
        result_view(r) == binary_result(op, left@, right@),
{
    match op {
        TokenType::Plus => match (left, right) {
            (Value::Number(a), Value::Number(b)) => Ok(Value::Number(num_add(a, b))),
            (Value::String(a), Value::String(b)) => Ok(Value::String(a.concat(b.as_str()))),
            _ => Err(RuntimeError::IncompatibleTypes),
        },
        TokenType::BangEqual => Ok(Value::Bool(!is_equal(&left, &right))),
        TokenType::EqualEqual => Ok(Value::Bool(is_equal(&left, &right))),
        TokenType::Minus | TokenType::Slash | TokenType::Star | TokenType::Greater
        | TokenType::GreaterEqual | TokenType::Less | TokenType::LessEqual => {
            let a = number_operand(&left)?;
            let b = number_operand(&right)?;
            match op {
                TokenType::Minus => Ok(Value::Number(num_sub(a, b))),
                TokenType::Slash => Ok(Value::Number(num_div(a, b))),
                TokenType::Star => Ok(Value::Number(num_mul(a, b))),
                _ => {
                    let ord = num_compare(a, b);
                    let less = matches!(ord, Some(core::cmp::Ordering::Less));
                    let equal = matches!(ord, Some(core::cmp::Ordering::Equal));
                    let greater = matches!(ord, Some(core::cmp::Ordering::Greater));
                    let holds = match op {
                        TokenType::Greater => greater,
                        TokenType::GreaterEqual => greater || equal,
                        TokenType::Less => less,
                        _ => less || equal,
                    };
                    Ok(Value::Bool(holds))
                },
            }
        },
        _ => Err(RuntimeError::Unknown),
    }
}

/// Applies a unary operator to a value.
pub fn handle_unary(op: TokenType, operand: Value) -> (r: Result<Value, RuntimeError>)
    ensures
        result_view(r) == unary_result(op, operand@),
{
    match op {
        TokenType::Minus => {
            let a = number_operand(&operand)?;
            Ok(Value::Number(num_negate(a)))
        },
        TokenType::Bang => Ok(Value::Bool(!is_truthy(&operand))),
        _ => Err(RuntimeError::Unknown),
    }
}

impl Interpreter {
    /// The active scopes, global scope first.
    pub closed spec fn scopes(&self) -> EnvModel {
        self.environment@
    }

    /// What has been printed so far.
    pub closed spec fn output(&self) -> Seq<ValueModel> {
        values_view(self.printed@)
    }

    /// The interpreter holds at least the global scope.
    pub closed spec fn wf(&self) -> bool {
        self.environment.wf()
    }

    /// An interpreter with an empty global scope that has printed nothing.
    pub fn new() -> (r: Interpreter)
        ensures
            r.wf(),
            r.scopes() == seq![ScopeModel::empty()],
            r.output() == Seq::<ValueModel>::empty(),
    {
        let r = Interpreter { environment: Environment::new(), printed: Vec::new() };
        assert(r.output() =~= Seq::<ValueModel>::empty());
        r
    }

    /// The values printed, in order.
    pub fn into_printed(self) -> (r: Vec<Value>)
        ensures
            values_view(r@) == self.output(),
    {
        self.printed
    }

    fn print(&mut self, v: Value)
        ensures
            final(self).environment == old(self).environment,
            final(self).output() == old(self).output().push(v@),
    {
        self.printed.push(v);
        assert(self.output() =~= old(self).output().push(v@));
    }

    /// Evaluates an expression in the active scopes.
    pub fn evaluate_expression(&mut self, expr: &Expression) -> (r: Result<Value, RuntimeError>)
        requires
            old(self).wf(),
        ensures
            final(self).wf(),
            final(self).scopes().len() == old(self).scopes().len(),
            final(self).output() == old(self).output(),
            (result_view(r), final(self).scopes()) == eval(*expr, old(self).scopes()),
        decreases expr,
    {
        match expr {
            Expression::Assign(name, value) => {
                let v = self.evaluate_expression(value)?;
                proof {
                    crate::environment::lemma_assigned_shape(self.scopes(), name.lexeme@, v@);
                }
                self.environment.assign(name, v.duplicate())?;
                Ok(v)
            },
            Expression::Binary(left, op, right) => {
                let a = self.evaluate_expression(left)?;
                let b = self.evaluate_expression(right)?;
                handle_binary(op.token_type, a, b)
            },
            Expression::Grouping(inner) => self.evaluate_expression(inner),
            Expression::Literal(v) => Ok(v.duplicate()),
            Expression::Logical(left, op, right) => {
                let a = self.evaluate_expression(left)?;
                if (op.token_type == TokenType::Or) == is_truthy(&a) {
                    Ok(a)
                } else {
                    self.evaluate_expression(right)
                }
            },
            Expression::Unary(op, operand) => {
                let v = self.evaluate_expression(operand)?;
                handle_unary(op.token_type, v)
            },
            Expression::Variable(name) => self.environment.get(name),
        }
    }

    /// Executes a statement; `fuel` bounds the iterations of its loops.
    pub fn execute_statement(&mut self, stmt: &Statement, fuel: u64) -> (r: Result<(), RuntimeError>)
        requires
            old(self).wf(),
        ensures
            final(self).wf(),
            final(self).scopes().len() == old(self).scopes().len(),
            ({
                let (er, env, out) = exec(*stmt, old(self).scopes(), fuel as nat);
                &&& r == er
                &&& final(self).scopes() == env
                &&& final(self).output() == old(self).output() + out
            }),
        decreases fuel, *stmt,
    {
        match stmt {
            Statement::Block(stmts) => {
                self.environment.push_scope();
                let r = self.execute_sequence(stmts, fuel);
                self.environment.pop_scope();
                r
            },
            Statement::Expression(e) => {
                let ghost out0 = self.output();
                self.evaluate_expression(e)?;
                assert(self.output() =~= out0 + seq![]);
                Ok(())
            },
            Statement::If(cond, then_branch, else_branch) => {
                let ghost out0 = self.output();
                let c = self.evaluate_expression(cond)?;
                if is_truthy(&c) {
                    self.execute_statement(then_branch, fuel)
                } else {
                    match else_branch {
                        Some(b) => self.execute_statement(b, fuel),
                        None => {
                            assert(self.output() =~= out0 + seq![]);
                            Ok(())
                        },
                    }
                }
            },
            Statement::Print(e) => {
                let ghost out0 = self.output();
                let v = self.evaluate_expression(e)?;
                self.print(v);
                assert(self.output() =~= out0 + seq![v@]);
                Ok(())
            },
            Statement::Var(name, init) => {
                let ghost out0 = self.output();
                let v = match init {
                    Some(e) => self.evaluate_expression(e)?,
                    None => Value::Nil,
                };
                self.environment.define_inner(name.lexeme.clone(), v);
                assert(self.output() =~= out0 + seq![]);
                Ok(())
            },
            Statement::While(cond, body) => self.execute_while(cond, body, fuel),
        }
    }

    fn execute_while(&mut self, cond: &Expression, body: &Statement, fuel: u64) -> (r: Result<(), RuntimeError>)
        requires
            old(self).wf(),
        ensures
            final(self).wf(),
            final(self).scopes().len() == old(self).scopes().len(),
            ({
                let (er, env, out) = exec_while(*cond, *body, old(self).scopes(), fuel as nat);
                &&& r == er
                &&& final(self).scopes() == env
                &&& final(self).output() == old(self).output() + out
            }),
        decreases fuel, *body, 1nat,
    {
        let ghost env0 = self.scopes();
        let ghost out0 = self.output();
        let ghost total = exec_while(*cond, *body, env0, fuel as nat);
        let mut k: u64 = fuel;
        loop
            invariant
                self.wf(),
                env0 == old(self).scopes(),
                out0 == old(self).output(),
                total == exec_while(*cond, *body, env0, fuel as nat),
                self.scopes().len() == env0.len(),
                k <= fuel,
                self.output().len() >= out0.len(),
                self.output().subrange(0, out0.len() as int) == out0,
                ({
                    let (er, env, out) = exec_while(*cond, *body, self.scopes(), k as nat);
                    &&& total.0 == er
                    &&& total.1 == env
                    &&& total.2 == self.output().subrange(out0.len() as int, self.output().len() as int) + out
                }),
            decreases k,
        {
            let ghost before = self.output();
            let c = match self.evaluate_expression(cond) {
                Ok(c) => c,
                Err(e) => {
                    assert(self.output() =~= out0 + total.2);
                    return Err(e);
                }
            };
            if !is_truthy(&c) {
                assert(self.output() =~= out0 + total.2);
                return Ok(());
            }
            if k == 0 {
                assert(self.output() =~= out0 + total.2);
                return Err(RuntimeError::LoopLimit);
            }
            k = k - 1;
            match self.execute_statement(body, k) {
                Ok(()) => {},
                Err(e) => {
                    assert(self.output() =~= out0 + total.2);
                    return Err(e);
                }
            }
            assert(self.output().subrange(0, out0.len() as int) =~= out0);
            assert(self.output().subrange(out0.len() as int, self.output().len() as int) =~=
                before.subrange(out0.len() as int, before.len() as int) + self.output().subrange(before.len() as int, self.output().len() as int));
        }
    }

    /// Executes statements in order, stopping at the first that fails.
    pub fn execute_sequence(&mut self, stmts: &Vec<Statement>, fuel: u64) -> (r: Result<(), RuntimeError>)
        requires
            old(self).wf(),
        ensures
            final(self).wf(),
            final(self).scopes().len() == old(self).scopes().len(),
            ({
                let (er, env, out) = exec_from(stmts@, 0, old(self).scopes(), fuel as nat);
                &&& r == er
                &&& final(self).scopes() == env
                &&& final(self).output() == old(self).output() + out
            }),
        decreases fuel, stmts@, 0nat,
    {
        let ghost env0 = self.scopes();
        let ghost out0 = self.output();
        let ghost total = exec_from(stmts@, 0, env0, fuel as nat);
        let mut i: usize = 0;
        while i < stmts.len()
            invariant
                self.wf(),
                env0 == old(self).scopes(),
                out0 == old(self).output(),
                total == exec_from(stmts@, 0, env0, fuel as nat),
                self.scopes().len() == env0.len(),
                i <= stmts@.len(),
                self.output().len() >= out0.len(),
                self.output().subrange(0, out0.len() as int) == out0,
                ({
                    let (er, env, out) = exec_from(stmts@, i as int, self.scopes(), fuel as nat);
                    &&& total.0 == er
                    &&& total.1 == env
                    &&& total.2 == self.output().subrange(out0.len() as int, self.output().len() as int) + out
                }),
            decreases stmts@.len() - i,
        {
            let ghost before = self.output();
            proof {
                assert(decreases_to!(stmts@ => stmts@[i as int]));
            }
            match self.execute_statement(&stmts[i], fuel) {
                Ok(()) => {},
                Err(e) => {
                    assert(self.output() =~= out0 + total.2);
                    return Err(e);
                }
            }
            i = i + 1;
            assert(self.output().subrange(0, out0.len() as int) =~= out0);
            assert(self.output().subrange(out0.len() as int, self.output().len() as int) =~=
                before.subrange(out0.len() as int, before.len() as int) + self.output().subrange(before.len() as int, self.output().len() as int));
        }
        assert(self.output() =~= out0 + total.2);
        Ok(())
    }
}

impl Expression {
    /// The value of the expression on its own, where no name is defined.
    pub fn interpret(&self) -> (r: Result<Value, RuntimeError>)
        ensures
            result_view(r) == eval(*self, seq![ScopeModel::empty()]).0,
    {
        let mut interpreter = Interpreter::new();
        interpreter.evaluate_expression(self)
    }
}

/// Runs a program from an empty global scope. `loop_limit` bounds the
/// iterations of each loop. Gives the values printed, in order, and the
/// error that stopped the run, if one did.
pub fn interpret(statements: &Vec<Statement>, loop_limit: u64) -> (r: (Vec<Value>, Result<(), RuntimeError>))
    ensures
        ({
            let (er, _, out) = run_program(statements@, loop_limit as nat);
            &&& r.1 == er
            &&& values_view(r.0@) == out
        }),
{
    let mut interpreter = Interpreter::new();
    let result = interpreter.execute_sequence(statements, loop_limit);
    assert(interpreter.output() =~= Seq::<ValueModel>::empty() + run_program(statements@, loop_limit as nat).2);
    (interpreter.into_printed(), result)
}

} // verus!
