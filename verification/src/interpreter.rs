//! The tree-walking evaluator: statements of a line against a mutable
//! environment.
//!
//! The meaning of every construct is written out by the specification
//! functions here — [`eval_expr`] for expressions, [`exec_stat`] and
//! [`exec_stats_from`] for statements — over the environment's
//! mathematical contents, and each evaluator is proved to produce exactly
//! that meaning. Evaluation is left to right; the first error aborts the
//! rest of the line and every change already applied stays, including
//! those made by the failing statement's own subexpressions.

use vstd::prelude::*;
use crate::ast::{Expression, Operator, Statement, Value, Line};
use crate::environment::{Environment, clamp_line, is_global_name, lookup};
use crate::errors::{EvaluationError, EvaluationErrorKind};
use crate::literal_value::{
    LiteralValue,
    ValV,
    lv_eq,
    lv_lt,
    lv_add,
    lv_sub,
    lv_mul,
    lv_div,
    lv_rem,
    lv_pow,
};
use crate::number::{YololNumber, SCALE, sat64, abs1};
use crate::number::power::{pow_v, sqrt_v};
use crate::number::trig::{sin_spec, cos_spec, tan_v, asin_v, acos_v, atan_v};

verus! {

/// The environment's mathematical contents as evaluation sees them: the
/// two namespaces and the next-line cursor.
pub struct EnvV {
    pub locals: Map<Seq<char>, ValV>,
    pub globals: Map<Seq<char>, ValV>,
    pub next_line: int,
}

/// What evaluating an expression yields: the environment afterward and a
/// value, or the environment at the error and the error's kind.
pub enum EvalR {
    Value(EnvV, ValV),
    Fault(EnvV, EvaluationErrorKind),
}

/// What executing a statement yields: the environment afterward, or the
/// environment at the error and the error's kind.
pub enum StepR {
    Done(EnvV),
    Fault(EnvV, EvaluationErrorKind),
}

/// The evaluation view of an environment.
pub open spec fn env_of(e: &Environment) -> EnvV {
    EnvV { locals: e.locals(), globals: e.globals(), next_line: e.next_line as int }
}

/// A variable read, routed by the name's first character.
pub open spec fn route_get(env: EnvV, name: Seq<char>) -> ValV {
    if is_global_name(name) {
        lookup(env.globals, name)
    } else {
        lookup(env.locals, name)
    }
}

/// A variable write, routed the same way.
pub open spec fn route_set(env: EnvV, name: Seq<char>, v: ValV) -> EnvV {
    if is_global_name(name) {
        EnvV { locals: env.locals, globals: env.globals.insert(name, v), next_line: env.next_line }
    } else {
        EnvV { locals: env.locals.insert(name, v), globals: env.globals, next_line: env.next_line }
    }
}

/// The numeric value a truth value evaluates to.
pub open spec fn truthy_of(b: bool) -> ValV {
    if b {
        ValV::Num(SCALE as int)
    } else {
        ValV::Num(0)
    }
}

/// Whether the operator is a pre- or post-increment or decrement.
pub open spec fn is_incdec(op: Operator) -> bool {
    match op {
        Operator::PreInc | Operator::PostInc | Operator::PreDec | Operator::PostDec => true,
        _ => false,
    }
}

/// A binary operator applied to two evaluated operands: the comparison
/// and logical operators always yield a truth number, addition and
/// subtraction are total, the remaining arithmetic demands numbers.
pub open spec fn apply_bin(env: EnvV, op: Operator, l: ValV, r: ValV) -> EvalR {
    match op {
        Operator::Lesser => EvalR::Value(env, truthy_of(lv_lt(l, r))),
        Operator::Greater => EvalR::Value(env, truthy_of(lv_lt(r, l))),
        Operator::LesserEq => EvalR::Value(env, truthy_of(!lv_lt(r, l))),
        Operator::GreaterEq => EvalR::Value(env, truthy_of(!lv_lt(l, r))),
        Operator::Equal => EvalR::Value(env, truthy_of(lv_eq(l, r))),
        Operator::NotEqual => EvalR::Value(env, truthy_of(!lv_eq(l, r))),
        Operator::And => EvalR::Value(
            env,
            truthy_of(!lv_eq(l, ValV::Num(0)) && !lv_eq(r, ValV::Num(0))),
        ),
        Operator::Or => EvalR::Value(
            env,
            truthy_of(!lv_eq(l, ValV::Num(0)) || !lv_eq(r, ValV::Num(0))),
        ),
        Operator::Add => EvalR::Value(env, lv_add(l, r)),
        Operator::Sub => EvalR::Value(env, lv_sub(l, r)),
        Operator::Mul => match lv_mul(l, r) {
            Some(v) => EvalR::Value(env, v),
            None => EvalR::Fault(env, EvaluationErrorKind::OperatorError),
        },
        Operator::Div => match lv_div(l, r) {
            Some(v) => EvalR::Value(env, v),
            None => EvalR::Fault(env, EvaluationErrorKind::OperatorError),
        },
        Operator::Mod => match lv_rem(l, r) {
            Some(v) => EvalR::Value(env, v),
            None => EvalR::Fault(env, EvaluationErrorKind::OperatorError),
        },
        Operator::Pow => match lv_pow(l, r) {
            Some(v) => EvalR::Value(env, v),
            None => EvalR::Fault(env, EvaluationErrorKind::OperatorError),
        },
        _ => EvalR::Fault(env, EvaluationErrorKind::NonExhaustivePattern),
    }
}

/// A non-increment unary operator applied to an evaluated operand: the
/// mathematical operators demand a number — a string operand is an
/// operator error — and respect their domains; logical negation is
/// defined for both shapes; only an operator foreign to unary position
/// reaches no defined behaviour.
pub open spec fn apply_un(env: EnvV, op: Operator, v: ValV) -> EvalR {
    match v {
        ValV::Num(x) => match op {
            Operator::Negate => EvalR::Value(env, ValV::Num(sat64(-x))),
            Operator::Fact => EvalR::Fault(env, EvaluationErrorKind::OperatorError),
            Operator::Abs => EvalR::Value(env, ValV::Num(sat64(abs1(x)))),
            Operator::Sqrt => if x >= 0 {
                EvalR::Value(env, ValV::Num(sqrt_v(x)))
            } else {
                EvalR::Fault(env, EvaluationErrorKind::OperatorError)
            },
            Operator::Sin => EvalR::Value(env, ValV::Num(sin_spec(x))),
            Operator::Cos => EvalR::Value(env, ValV::Num(cos_spec(x))),
            Operator::Tan => EvalR::Value(env, ValV::Num(tan_v(x))),
            Operator::Arcsin => if -(SCALE as int) <= x <= SCALE as int {
                EvalR::Value(env, ValV::Num(asin_v(x)))
            } else {
                EvalR::Fault(env, EvaluationErrorKind::OperatorError)
            },
            Operator::Arccos => if -(SCALE as int) <= x <= SCALE as int {
                EvalR::Value(env, ValV::Num(acos_v(x)))
            } else {
                EvalR::Fault(env, EvaluationErrorKind::OperatorError)
            },
            Operator::Arctan => EvalR::Value(env, ValV::Num(atan_v(x))),
            Operator::Not => EvalR::Value(env, truthy_of(x == 0)),
            _ => EvalR::Fault(env, EvaluationErrorKind::NonExhaustivePattern),
        },
        ValV::Str(_) => match op {
            Operator::Negate | Operator::Fact | Operator::Abs | Operator::Sqrt | Operator::Sin
            | Operator::Cos | Operator::Tan | Operator::Arcsin | Operator::Arccos
            | Operator::Arctan => EvalR::Fault(env, EvaluationErrorKind::OperatorError),
            Operator::Not => EvalR::Value(env, truthy_of(false)),
            _ => EvalR::Fault(env, EvaluationErrorKind::NonExhaustivePattern),
        },
    }
}

/// An increment or decrement on a named variable: the stored value (the
/// zero default when unset) moved by one, written back; the prefix forms
/// yield the new value, the postfix forms the prior one.
pub open spec fn apply_incdec(env: EnvV, op: Operator, name: Seq<char>) -> EvalR {
    let cur = route_get(env, name);
    let one = ValV::Num(SCALE as int);
    match op {
        Operator::PreInc => {
            let nv = lv_add(cur, one);
            EvalR::Value(route_set(env, name, nv), nv)
        },
        Operator::PostInc => {
            let nv = lv_add(cur, one);
            EvalR::Value(route_set(env, name, nv), cur)
        },
        Operator::PreDec => {
            let nv = lv_sub(cur, one);
            EvalR::Value(route_set(env, name, nv), nv)
        },
        Operator::PostDec => {
            let nv = lv_sub(cur, one);
            EvalR::Value(route_set(env, name, nv), cur)
        },
        _ => EvalR::Fault(env, EvaluationErrorKind::NonExhaustivePattern),
    }
}

/// The value and environment an expression evaluates to: a binary node
/// evaluates left, right, then the operator; an increment or decrement
/// demands a named operand and works on the store; any other unary
/// operator evaluates its operand first.
pub open spec fn eval_expr(env: EnvV, e: Expression) -> EvalR
    decreases e,
{
    match e {
        Expression::BinaryOp(op, l, r) => match eval_expr(env, *l) {
            EvalR::Fault(e2, k) => EvalR::Fault(e2, k),
            EvalR::Value(env1, lv) => match eval_expr(env1, *r) {
                EvalR::Fault(e2, k) => EvalR::Fault(e2, k),
                EvalR::Value(env2, rv) => apply_bin(env2, op, lv, rv),
            },
        },
        Expression::UnaryOp(op, t) => if is_incdec(op) {
            match *t {
                Expression::Value(Value::LocalVar(s)) => apply_incdec(env, op, s@),
                Expression::Value(Value::DataField(s)) => apply_incdec(env, op, s@),
                _ => EvalR::Fault(env, EvaluationErrorKind::OperatorError),
            }
        } else {
            match eval_expr(env, *t) {
                EvalR::Fault(e2, k) => EvalR::Fault(e2, k),
                EvalR::Value(env1, v) => apply_un(env1, op, v),
            }
        },
        Expression::Value(v) => eval_value(env, v),
    }
}

/// The value and environment a leaf evaluates to: a group evaluates its
/// inner expression, a reference reads its namespace, a literal is
/// itself.
pub open spec fn eval_value(env: EnvV, v: Value) -> EvalR
    decreases v,
{
    match v {
        Value::Group(e) => eval_expr(env, *e),
        Value::LocalVar(s) => EvalR::Value(env, route_get(env, s@)),
        Value::DataField(s) => EvalR::Value(env, route_get(env, s@)),
        Value::NumberVal(n) => EvalR::Value(env, ValV::Num(n@)),
        Value::StringVal(s) => EvalR::Value(env, ValV::Str(s@)),
    }
}

/// The assignment combination: the plain form takes the evaluated value;
/// a compound form combines the target's prior value with it under the
/// matching binary operator.
pub open spec fn combine_assign(op: Operator, cur: ValV, v: ValV) -> Option<ValV> {
    match op {
        Operator::Assign => Some(v),
        Operator::AddAssign => Some(lv_add(cur, v)),
        Operator::SubAssign => Some(lv_sub(cur, v)),
        Operator::MulAssign => lv_mul(cur, v),
        Operator::DivAssign => lv_div(cur, v),
        Operator::ModAssign => lv_rem(cur, v),
        Operator::PowAssign => lv_pow(cur, v),
        _ => None,
    }
}

/// The environment a statement executes to, or the error that aborts it.
pub open spec fn exec_stat(env: EnvV, s: Statement) -> StepR
    decreases s, 1int,
{
    match s {
        Statement::Comment(_) => StepR::Done(env),
        Statement::If(c, body, else_body) => match eval_expr(env, *c) {
            EvalR::Fault(e2, k) => StepR::Fault(e2, k),
            EvalR::Value(env1, v) => if lv_eq(v, ValV::Num(0)) {
                match else_body {
                    Some(eb) => exec_stats_from(env1, eb@, 0),
                    None => StepR::Done(env1),
                }
            } else {
                exec_stats_from(env1, body@, 0)
            },
        },
        Statement::Goto(t) => match eval_expr(env, *t) {
            EvalR::Fault(e2, k) => StepR::Fault(e2, k),
            EvalR::Value(env1, v) => match v {
                ValV::Num(x) => StepR::Done(
                    EnvV { locals: env1.locals, globals: env1.globals, next_line: clamp_line(x) },
                ),
                ValV::Str(_) => StepR::Fault(env1, EvaluationErrorKind::Misc),
            },
        },
        Statement::Assignment(target, op, e) => match target {
            Value::LocalVar(s) => exec_assign(env, s@, op, *e),
            Value::DataField(s) => exec_assign(env, s@, op, *e),
            _ => StepR::Fault(env, EvaluationErrorKind::OperatorError),
        },
        Statement::Expression(e) => match eval_expr(env, *e) {
            EvalR::Fault(e2, k) => StepR::Fault(e2, k),
            EvalR::Value(env1, _) => StepR::Done(env1),
        },
    }
}

/// An assignment to a named target: the target's prior value is read
/// before the right side evaluates, the combination is stored.
pub open spec fn exec_assign(env: EnvV, name: Seq<char>, op: Operator, e: Expression) -> StepR {
    let cur = route_get(env, name);
    if !crate::ast::is_assign_op(op) {
        StepR::Fault(env, EvaluationErrorKind::OperatorError)
    } else {
        match eval_expr(env, e) {
            EvalR::Fault(e2, k) => StepR::Fault(e2, k),
            EvalR::Value(env1, v) => match combine_assign(op, cur, v) {
                Some(nv) => StepR::Done(route_set(env1, name, nv)),
                None => StepR::Fault(env1, EvaluationErrorKind::OperatorError),
            },
        }
    }
}

/// The statements of a list from position `i` on, executed in order until
/// the first error.
pub open spec fn exec_stats_from(env: EnvV, ss: Seq<Statement>, i: int) -> StepR
    decreases ss, ss.len() - i,
{
    if i < 0 || i >= ss.len() {
        StepR::Done(env)
    } else {
        match exec_stat(env, ss[i]) {
            StepR::Fault(e2, k) => StepR::Fault(e2, k),
            StepR::Done(env1) => exec_stats_from(env1, ss, i + 1),
        }
    }
}

/// Evaluates each statement of a line in order, stopping at the first
/// error; changes already applied stay.
pub fn evaluate_line(env: &mut Environment, input: &Line) -> (r: Result<(), EvaluationError>)
    requires
        old(env).wf(),
    ensures
        final(env).wf(),
        final(env).error == old(env).error,
        final(env).name == old(env).name,
        final(env).version == old(env).version,
        match exec_stats_from(env_of(old(env)), input.0@, 0) {
            StepR::Done(e2) => r is Ok && env_of(final(env)) == e2,
            StepR::Fault(e2, k) => (r matches Err(err) && err.kind == k) && env_of(final(env)) == e2,
        },
{
    evaluate_statements(env, &input.0)
}

/// Evaluates a statement list in order, stopping at the first error.
pub fn evaluate_statements(env: &mut Environment, ss: &Vec<Statement>) -> (r: Result<
    (),
    EvaluationError,
>)
    requires
        old(env).wf(),
    ensures
        final(env).wf(),
        final(env).error == old(env).error,
        final(env).name == old(env).name,
        final(env).version == old(env).version,
        match exec_stats_from(env_of(old(env)), ss@, 0) {
            StepR::Done(e2) => r is Ok && env_of(final(env)) == e2,
            StepR::Fault(e2, k) => (r matches Err(err) && err.kind == k) && env_of(final(env)) == e2,
        },
    decreases ss@, 0int,
{
    let n = ss.len();
    let mut i: usize = 0;
    while i < n
        invariant
            i <= n,
            n == ss@.len(),
            env.wf(),
            env.error == old(env).error,
            env.name == old(env).name,
            env.version == old(env).version,
            exec_stats_from(env_of(old(env)), ss@, 0) == exec_stats_from(env_of(env), ss@, i as int),
        decreases n - i,
    {
        let step = evaluate_statement(env, &ss[i]);
        match step {
            Err(e) => {
                return Err(e);
            },
            Ok(()) => {},
        }
        i = i + 1;
    }
    Ok(())
}

/// Evaluates one statement.
pub fn evaluate_statement(env: &mut Environment, input: &Statement) -> (r: Result<
    (),
    EvaluationError,
>)
    requires
        old(env).wf(),
    ensures
        final(env).wf(),
        final(env).error == old(env).error,
        final(env).name == old(env).name,
        final(env).version == old(env).version,
        match exec_stat(env_of(old(env)), *input) {
            StepR::Done(e2) => r is Ok && env_of(final(env)) == e2,
            StepR::Fault(e2, k) => (r matches Err(err) && err.kind == k) && env_of(final(env)) == e2,
        },
    decreases *input, 2int,
{
    match input {
        Statement::Comment(_) => Ok(()),
        Statement::If(_, _, _) => evaluate_if(env, input),
        Statement::Goto(target) => evaluate_goto(env, &**target),
        Statement::Assignment(target, op, expr) => evaluate_assignment(env, target, *op, &**expr),
        Statement::Expression(expr) => {
            match evaluate_expression(env, &**expr) {
                Ok(_) => Ok(()),
                Err(e) => Err(e),
            }
        },
    }
}

/// Evaluates a conditional: the condition decides which branch's
/// statements run, the false value selecting the else branch when there
/// is one.
fn evaluate_if(env: &mut Environment, input: &Statement) -> (r: Result<(), EvaluationError>)
    requires
        old(env).wf(),
        *input is If,
    ensures
        final(env).wf(),
        final(env).error == old(env).error,
        final(env).name == old(env).name,
        final(env).version == old(env).version,
        match exec_stat(env_of(old(env)), *input) {
            StepR::Done(e2) => r is Ok && env_of(final(env)) == e2,
            StepR::Fault(e2, k) => (r matches Err(err) && err.kind == k) && env_of(final(env)) == e2,
        },
    decreases *input, 1int,
{
    match input {
        Statement::If(cond, body, else_body) => {
            let cond_result = match evaluate_expression(env, &**cond) {
                Ok(v) => v,
                Err(e) => {
                    return Err(e);
                },
            };
            if cond_result.is_false() {
                match else_body {
                    Some(eb) => evaluate_statements(env, eb),
                    None => Ok(()),
                }
            } else {
                evaluate_statements(env, body)
            }
        },
        _ => Ok(()),
    }
}

/// Evaluates a goto: a numeric target moves the next-line cursor to its
/// whole part clamped into the line range; a string target is an error.
pub fn evaluate_goto(env: &mut Environment, target: &Expression) -> (r: Result<
    (),
    EvaluationError,
>)
    requires
        old(env).wf(),
    ensures
        final(env).wf(),
        final(env).error == old(env).error,
        final(env).name == old(env).name,
        final(env).version == old(env).version,
        match eval_expr(env_of(old(env)), *target) {
            EvalR::Fault(e2, k) => (r matches Err(err) && err.kind == k) && env_of(final(env)) == e2,
            EvalR::Value(env1, v) => match v {
                ValV::Num(x) => r is Ok && env_of(final(env)) == (EnvV {
                    locals: env1.locals,
                    globals: env1.globals,
                    next_line: clamp_line(x),
                }),
                ValV::Str(_) => (r matches Err(err) && err.kind == EvaluationErrorKind::Misc)
                    && env_of(final(env)) == env1,
            },
        },
{
    let value = match evaluate_expression(env, target) {
        Ok(v) => v,
        Err(e) => {
            return Err(e);
        },
    };
    match value {
        LiteralValue::NumberVal(num) => {
            env.set_next_line(num);
            Ok(())
        },
        LiteralValue::StringVal(_) => Err(
            EvaluationError::new(
                EvaluationErrorKind::Misc,
                "a goto cannot take a string value as its target",
            ),
        ),
    }
}

/// Evaluates an assignment: the target must be a variable reference; its
/// prior value is read first, the right side evaluates, and the plain or
/// compound combination is stored.
pub fn evaluate_assignment(
    env: &mut Environment,
    target: &Value,
    op: Operator,
    expr: &Expression,
) -> (r: Result<(), EvaluationError>)
    requires
        old(env).wf(),
    ensures
        final(env).wf(),
        final(env).error == old(env).error,
        final(env).name == old(env).name,
        final(env).version == old(env).version,
        match *target {
            Value::LocalVar(s) => step_matches(
                exec_assign(env_of(old(env)), s@, op, *expr),
                r,
                env_of(final(env)),
            ),
            Value::DataField(s) => step_matches(
                exec_assign(env_of(old(env)), s@, op, *expr),
                r,
                env_of(final(env)),
            ),
            _ => (r matches Err(err) && err.kind == EvaluationErrorKind::OperatorError) && env_of(
                final(env),
            ) == env_of(old(env)),
        },
{
    let ident: &String = match target {
        Value::LocalVar(s) => s,
        Value::DataField(s) => s,
        _ => {
            return Err(
                EvaluationError::new(
                    EvaluationErrorKind::OperatorError,
                    "an assignment needs an identifier on its left side",
                ),
            );
        },
    };
    let current_value = env.get_value(ident.as_str());
    let is_plain = match op {
        Operator::Assign => true,
        _ => false,
    };
    let is_compound = match op {
        Operator::AddAssign | Operator::SubAssign | Operator::MulAssign | Operator::DivAssign
        | Operator::ModAssign | Operator::PowAssign => true,
        _ => false,
    };
    if !is_plain && !is_compound {
        return Err(
            EvaluationError::new(
                EvaluationErrorKind::OperatorError,
                "an assignment needs an assignment operator",
            ),
        );
    }
    let value = match evaluate_expression(env, expr) {
        Ok(v) => v,
        Err(e) => {
            return Err(e);
        },
    };
    let new_value = if is_plain {
        value
    } else {
        let combined = match op {
            Operator::AddAssign => current_value.op_add(value),
            Operator::SubAssign => current_value.op_sub(value),
            Operator::MulAssign => current_value.op_mul(value),
            Operator::DivAssign => current_value.op_div(value),
            Operator::ModAssign => current_value.op_rem(value),
            _ => current_value.pow(value),
        };
        match combined {
            Ok(v) => v,
            Err(e) => {
                return Err(EvaluationError::from_operator_error(e));
            },
        }
    };
    env.set_value(ident.clone(), new_value);
    Ok(())
}

/// Assigning through a compound operator to a previously unset variable
/// combines with the numeric zero default: the prior value every
/// assignment and increment reads for an unset name is that default, in
/// whichever namespace the name routes to.
pub proof fn lemma_unset_prior_value_is_zero(env: EnvV, name: Seq<char>)
    requires
        is_global_name(name) ==> !env.globals.contains_key(name),
        !is_global_name(name) ==> !env.locals.contains_key(name),
    ensures
        route_get(env, name) == ValV::Num(0),
{
}

/// How an execution outcome shows up in an evaluator's result.
pub open spec fn step_matches(step: StepR, r: Result<(), EvaluationError>, after: EnvV) -> bool {
    match step {
        StepR::Done(e2) => r is Ok && after == e2,
        StepR::Fault(e2, k) => (r matches Err(err) && err.kind == k) && after == e2,
    }
}

/// Evaluates an expression for its value; increments and decrements move
/// the store as they go.
pub fn evaluate_expression(env: &mut Environment, input: &Expression) -> (r: Result<
    LiteralValue,
    EvaluationError,
>)
    requires
        old(env).wf(),
    ensures
        final(env).wf(),
        final(env).error == old(env).error,
        final(env).name == old(env).name,
        final(env).version == old(env).version,
        match eval_expr(env_of(old(env)), *input) {
            EvalR::Value(e2, v) => (r matches Ok(val) && val@ == v) && env_of(final(env)) == e2,
            EvalR::Fault(e2, k) => (r matches Err(err) && err.kind == k) && env_of(final(env)) == e2,
        },
    decreases *input, 1int,
{
    match input {
        Expression::BinaryOp(_, _, _) => evaluate_binary_op(env, input),
        Expression::UnaryOp(_, _) => evaluate_unary_op(env, input),
        Expression::Value(v) => evaluate_value(env, v),
    }
}

/// Evaluates a binary node: left operand, right operand, then the
/// operator.
#[verifier::rlimit(60)]
pub fn evaluate_binary_op(env: &mut Environment, input: &Expression) -> (r: Result<
    LiteralValue,
    EvaluationError,
>)
    requires
        old(env).wf(),
        *input is BinaryOp,
    ensures
        final(env).wf(),
        final(env).error == old(env).error,
        final(env).name == old(env).name,
        final(env).version == old(env).version,
        match eval_expr(env_of(old(env)), *input) {
            EvalR::Value(e2, v) => (r matches Ok(val) && val@ == v) && env_of(final(env)) == e2,
            EvalR::Fault(e2, k) => (r matches Err(err) && err.kind == k) && env_of(final(env)) == e2,
        },
    decreases *input, 0int,
{
    match input {
        Expression::BinaryOp(op, left, right) => {
            let left_value = match evaluate_expression(env, &**left) {
                Ok(v) => v,
                Err(e) => {
                    return Err(e);
                },
            };
            let right_value = match evaluate_expression(env, &**right) {
                Ok(v) => v,
                Err(e) => {
                    return Err(e);
                },
            };
            apply_binary(*op, left_value, right_value)
        },
        _ => Err(
            EvaluationError::new(
                EvaluationErrorKind::NonExhaustivePattern,
                "a binary evaluation needs a binary node",
            ),
        ),
    }
}

/// Applies a binary operator to two evaluated operands.
fn apply_binary(op: Operator, l: LiteralValue, r: LiteralValue) -> (res: Result<
    LiteralValue,
    EvaluationError,
>)
    ensures
        ({
            let probe = EnvV {
                locals: Map::<Seq<char>, ValV>::empty(),
                globals: Map::<Seq<char>, ValV>::empty(),
                next_line: 0,
            };
            match apply_bin(probe, op, l@, r@) {
                EvalR::Value(_, v) => res matches Ok(val) && val@ == v,
                EvalR::Fault(_, k) => res matches Err(err) && err.kind == k,
            }
        }),
{
    match op {
        Operator::Lesser => Ok(truthy_value(l.less_than(&r))),
        Operator::Greater => Ok(truthy_value(r.less_than(&l))),
        Operator::LesserEq => Ok(truthy_value(!r.less_than(&l))),
        Operator::GreaterEq => Ok(truthy_value(!l.less_than(&r))),
        Operator::Equal => Ok(truthy_value(l.eq_value(&r))),
        Operator::NotEqual => Ok(truthy_value(!l.eq_value(&r))),
        Operator::And => Ok(truthy_value(!l.is_false() && !r.is_false())),
        Operator::Or => Ok(truthy_value(!l.is_false() || !r.is_false())),
        Operator::Add => lift_operator(l.op_add(r)),
        Operator::Sub => lift_operator(l.op_sub(r)),
        Operator::Mul => lift_operator(l.op_mul(r)),
        Operator::Div => lift_operator(l.op_div(r)),
        Operator::Mod => lift_operator(l.op_rem(r)),
        Operator::Pow => lift_operator(l.pow(r)),
        _ => Err(
            EvaluationError::new(
                EvaluationErrorKind::NonExhaustivePattern,
                "no behaviour matches this operator in a binary position",
            ),
        ),
    }
}

/// The literal truth value of a test.
fn truthy_value(b: bool) -> (r: LiteralValue)
    ensures
        r@ == truthy_of(b),
{
    if b {
        LiteralValue::get_true()
    } else {
        LiteralValue::get_false()
    }
}

/// Lifts a value-layer result to the evaluation level.
fn lift_operator(r: Result<LiteralValue, crate::errors::OperatorError>) -> (res: Result<
    LiteralValue,
    EvaluationError,
>)
    ensures
        r matches Ok(v) ==> (res matches Ok(v2) && v2 == v),
        r is Err ==> (res matches Err(err) && err.kind == EvaluationErrorKind::OperatorError),
{
    match r {
        Ok(v) => Ok(v),
        Err(e) => Err(EvaluationError::from_operator_error(e)),
    }
}

/// Evaluates a unary node: an increment or decrement requires a named
/// operand and moves the store; any other operator evaluates its operand
/// first.
pub fn evaluate_unary_op(env: &mut Environment, input: &Expression) -> (r: Result<
    LiteralValue,
    EvaluationError,
>)
    requires
        old(env).wf(),
        *input is UnaryOp,
    ensures
        final(env).wf(),
        final(env).error == old(env).error,
        final(env).name == old(env).name,
        final(env).version == old(env).version,
        match eval_expr(env_of(old(env)), *input) {
            EvalR::Value(e2, v) => (r matches Ok(val) && val@ == v) && env_of(final(env)) == e2,
            EvalR::Fault(e2, k) => (r matches Err(err) && err.kind == k) && env_of(final(env)) == e2,
        },
    decreases *input, 0int,
{
    match input {
        Expression::UnaryOp(op, target) => {
            let incdec = match op {
                Operator::PreInc | Operator::PostInc | Operator::PreDec | Operator::PostDec
                    => true,
                _ => false,
            };
            if incdec {
                let ident: &String = match &**target {
                    Expression::Value(Value::LocalVar(s)) => s,
                    Expression::Value(Value::DataField(s)) => s,
                    _ => {
                        return Err(
                            EvaluationError::new(
                                EvaluationErrorKind::OperatorError,
                                "an increment or decrement needs an identifier operand",
                            ),
                        );
                    },
                };
                let original = env.get_value(ident.as_str());
                let one = LiteralValue::NumberVal(YololNumber::from_whole(1));
                let stepped = match op {
                    Operator::PreInc | Operator::PostInc => original.duplicate().op_add(one),
                    _ => original.duplicate().op_sub(one),
                };
                let new_value = match stepped {
                    Ok(v) => v,
                    Err(e) => {
                        return Err(EvaluationError::from_operator_error(e));
                    },
                };
                let back = match op {
                    Operator::PreInc | Operator::PreDec => new_value.duplicate(),
                    _ => original,
                };
                env.set_value(ident.clone(), new_value);
                Ok(back)
            } else {
                let value = match evaluate_expression(env, &**target) {
                    Ok(v) => v,
                    Err(e) => {
                        return Err(e);
                    },
                };
                apply_unary(*op, value)
            }
        },
        _ => Err(
            EvaluationError::new(
                EvaluationErrorKind::NonExhaustivePattern,
                "a unary evaluation needs a unary node",
            ),
        ),
    }
}

/// Applies a non-increment unary operator to an evaluated operand.
fn apply_unary(op: Operator, v: LiteralValue) -> (res: Result<LiteralValue, EvaluationError>)
    ensures
        ({
            let probe = EnvV {
                locals: Map::<Seq<char>, ValV>::empty(),
                globals: Map::<Seq<char>, ValV>::empty(),
                next_line: 0,
            };
            match apply_un(probe, op, v@) {
                EvalR::Value(_, out) => res matches Ok(val) && val@ == out,
                EvalR::Fault(_, k) => res matches Err(err) && err.kind == k,
            }
        }),
{
    match op {
        Operator::Negate => lift_operator(v.op_neg()),
        Operator::Fact => lift_operator(v.factorial()),
        Operator::Abs => lift_operator(v.abs()),
        Operator::Sqrt => lift_operator(v.sqrt()),
        Operator::Sin => lift_operator(v.sin()),
        Operator::Cos => lift_operator(v.cos()),
        Operator::Tan => lift_operator(v.tan()),
        Operator::Arcsin => lift_operator(v.arcsin()),
        Operator::Arccos => lift_operator(v.arccos()),
        Operator::Arctan => lift_operator(v.arctan()),
        Operator::Not => lift_operator(v.op_not()),
        _ => Err(
            EvaluationError::new(
                EvaluationErrorKind::NonExhaustivePattern,
                "no behaviour matches this operator in a unary position",
            ),
        ),
    }
}

/// Evaluates a leaf.
pub fn evaluate_value(env: &mut Environment, input: &Value) -> (r: Result<
    LiteralValue,
    EvaluationError,
>)
    requires
        old(env).wf(),
    ensures
        final(env).wf(),
        final(env).error == old(env).error,
        final(env).name == old(env).name,
        final(env).version == old(env).version,
        match eval_value(env_of(old(env)), *input) {
            EvalR::Value(e2, v) => (r matches Ok(val) && val@ == v) && env_of(final(env)) == e2,
            EvalR::Fault(e2, k) => (r matches Err(err) && err.kind == k) && env_of(final(env)) == e2,
        },
    decreases *input, 1int,
{
    match input {
        Value::Group(expr) => evaluate_expression(env, &**expr),
        Value::LocalVar(ident) => Ok(env.get_value(ident.as_str())),
        Value::DataField(ident) => Ok(env.get_value(ident.as_str())),
        Value::NumberVal(number) => Ok(LiteralValue::NumberVal(*number)),
        Value::StringVal(string) => Ok(LiteralValue::StringVal(string.clone())),
    }
}

} // verus!
