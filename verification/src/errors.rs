//! The error taxonomy: lexical errors live with the tokenizer; here are
//! the parse errors (with the partially built node they carry for
//! diagnostics) and the evaluation errors.

use vstd::prelude::*;
use vstd::string::StringExecFns;
use crate::ast::{Expression, Statement, Operator};
use crate::literal_value::LiteralValue;

verus! {

/// Why a parse attempt stopped.
#[derive(Debug, PartialEq, Eq, Structural, Clone, Copy)]
pub enum ParseErrorKind {
    /// No grammar production matched at all.
    NoParseRuleMatch,
    /// A second `else` for the same `if`.
    RepeatedElseTokens,
    /// An opening parenthesis without its closing one.
    UnbalancedParenthesis,
    /// A binary or postfix extension found no matching operator.
    NoExtensionAvailable,
}

/// A failed expression parse: the dangling partial expression, the kind,
/// and a human-readable reason.
#[derive(Debug)]
pub struct ExprError {
    pub input_expr: Option<Expression>,
    pub kind: ParseErrorKind,
    pub error_text: String,
}

impl ExprError {
    /// Packs up a failed expression parse.
    pub fn new(expr: Option<Expression>, kind: ParseErrorKind, error_text: &str) -> (r: ExprError)
        ensures
            r.input_expr == expr,
            r.kind == kind,
            r.error_text@ == error_text@,
    {
        ExprError { input_expr: expr, kind, error_text: string_of(error_text) }
    }
}

/// A failed statement parse: the dangling partial statement, the kind,
/// and a human-readable reason.
#[derive(Debug)]
pub struct StatError {
    pub input_stat: Option<Statement>,
    pub kind: ParseErrorKind,
    pub error_text: String,
}

impl StatError {
    /// Packs up a failed statement parse.
    pub fn new(stat: Option<Statement>, kind: ParseErrorKind, error_text: &str) -> (r: StatError)
        ensures
            r.input_stat == stat,
            r.kind == kind,
            r.error_text@ == error_text@,
    {
        StatError { input_stat: stat, kind, error_text: string_of(error_text) }
    }

    /// Lifts a failed expression parse into a failed statement parse, the
    /// dangling expression becoming a bare expression statement.
    pub fn from_expr_error(error: ExprError) -> (r: StatError)
        ensures
            r.kind == error.kind,
            r.error_text == error.error_text,
            match error.input_expr {
                Some(e) => r.input_stat == Some(Statement::Expression(Box::new(e))),
                None => r.input_stat is None,
            },
    {
        let ExprError { input_expr, kind, error_text } = error;
        let stat = match input_expr {
            Some(expr) => Some(Statement::Expression(Box::new(expr))),
            None => None,
        };
        StatError { input_stat: stat, kind, error_text }
    }
}

/// Why evaluating a statement failed.
#[derive(Debug, PartialEq, Eq, Structural, Clone, Copy)]
pub enum EvaluationErrorKind {
    /// A wrong operand type or arity, or a domain violation.
    OperatorError,
    /// An operator reached a branch with no defined behaviour.
    NonExhaustivePattern,
    /// Control reached a goto.
    HitGoto,
    Misc,
}

/// A failed evaluation: its kind and a human-readable reason.
#[derive(Debug)]
pub struct EvaluationError {
    pub kind: EvaluationErrorKind,
    pub error_text: String,
}

impl EvaluationError {
    /// Packs up a failed evaluation.
    pub fn new(kind: EvaluationErrorKind, error_text: &str) -> (r: EvaluationError)
        ensures
            r.kind == kind,
            r.error_text@ == error_text@,
    {
        EvaluationError { kind, error_text: string_of(error_text) }
    }

    /// Lifts an operator error to the statement level, keeping its text.
    pub fn from_operator_error(error: OperatorError) -> (r: EvaluationError)
        ensures
            r.kind == EvaluationErrorKind::OperatorError,
            r.error_text == error.error_text,
    {
        EvaluationError { kind: EvaluationErrorKind::OperatorError, error_text: error.error_text }
    }
}

/// A failed operator application: the operator, snapshots of the operands
/// it saw, and a human-readable reason.
#[derive(Debug)]
pub struct OperatorError {
    pub op: Operator,
    pub left: Option<LiteralValue>,
    pub right: Option<LiteralValue>,
    pub error_text: String,
}

impl OperatorError {
    /// Packs up a failed operator application.
    pub fn new(op: Operator, left: Option<LiteralValue>, right: Option<LiteralValue>, error_text: String) -> (r:
        OperatorError)
        ensures
            r.op == op,
            r.left == left,
            r.right == right,
            r.error_text == error_text,
    {
        OperatorError { op, left, right, error_text }
    }
}

/// Copies borrowed text into an owned string.
pub fn string_of(text: &str) -> (r: String)
    ensures
        r@ == text@,
{
    String::from_str(text)
}

} // verus!
