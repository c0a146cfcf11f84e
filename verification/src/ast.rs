//! The grammar's tree types: operators, leaf values, expressions,
//! statements, lines and programs, with their structural well-formedness.
//!
//! Operator and arity pairing is fixed by construction: a well-formed tree
//! never holds a unary operator in a binary node or an assignment operator
//! inside an expression.

use vstd::prelude::*;
use crate::number::YololNumber;
use crate::token::Token;

verus! {

/// Every operator of the language: assignment forms, unary forms (sign,
/// increments, factorial, the keyword functions), comparisons and logical
/// connectives, and binary arithmetic.
#[derive(Debug, PartialEq, Eq, Structural, Clone, Copy)]
pub enum Operator {
    Assign,
    AddAssign,
    SubAssign,
    MulAssign,
    DivAssign,
    ModAssign,
    PowAssign,
    Negate,
    PreInc,
    PostInc,
    PreDec,
    PostDec,
    Fact,
    Abs,
    Sqrt,
    Sin,
    Cos,
    Tan,
    Arcsin,
    Arccos,
    Arctan,
    Not,
    Lesser,
    Greater,
    LesserEq,
    GreaterEq,
    Equal,
    NotEqual,
    And,
    Or,
    Add,
    Sub,
    Mul,
    Div,
    Mod,
    Pow,
}

/// Whether the operator may appear in an assignment statement.
pub open spec fn is_assign_op(op: Operator) -> bool {
    match op {
        Operator::Assign
        | Operator::AddAssign
        | Operator::SubAssign
        | Operator::MulAssign
        | Operator::DivAssign
        | Operator::ModAssign
        | Operator::PowAssign => true,
        _ => false,
    }
}

/// Whether the operator is a boolean-producing binary operator.
pub open spec fn is_bool_op(op: Operator) -> bool {
    match op {
        Operator::Lesser
        | Operator::Greater
        | Operator::LesserEq
        | Operator::GreaterEq
        | Operator::Equal
        | Operator::NotEqual
        | Operator::And
        | Operator::Or => true,
        _ => false,
    }
}

/// Whether the operator is an arithmetic binary operator.
pub open spec fn is_arith_op(op: Operator) -> bool {
    match op {
        Operator::Add | Operator::Sub | Operator::Mul | Operator::Div | Operator::Mod
        | Operator::Pow => true,
        _ => false,
    }
}

/// Whether the operator may stand in a binary expression node.
pub open spec fn is_binary_op(op: Operator) -> bool {
    is_bool_op(op) || is_arith_op(op)
}

/// Whether the operator may stand in a unary expression node.
pub open spec fn is_unary_op(op: Operator) -> bool {
    match op {
        Operator::Negate | Operator::PreInc | Operator::PostInc | Operator::PreDec
        | Operator::PostDec | Operator::Fact | Operator::Abs | Operator::Sqrt | Operator::Sin
        | Operator::Cos | Operator::Tan | Operator::Arcsin | Operator::Arccos | Operator::Arctan
        | Operator::Not => true,
        _ => false,
    }
}

/// A leaf of the expression grammar: a parenthesized group, a variable
/// reference in one of the two namespaces, or a literal.
#[derive(Debug, PartialEq, Eq)]
pub enum Value {
    Group(Box<Expression>),
    LocalVar(String),
    DataField(String),
    NumberVal(YololNumber),
    StringVal(String),
}

/// An expression tree: a binary operation, a unary operation, or a leaf.
#[derive(Debug, PartialEq, Eq)]
pub enum Expression {
    BinaryOp(Operator, Box<Expression>, Box<Expression>),
    UnaryOp(Operator, Box<Expression>),
    Value(Value),
}

/// One statement of a line.
#[derive(Debug, PartialEq, Eq)]
pub enum Statement {
    Comment(String),
    If(Box<Expression>, Vec<Statement>, Option<Vec<Statement>>),
    Goto(Box<Expression>),
    Assignment(Value, Operator, Box<Expression>),
    Expression(Box<Expression>),
}

/// One line: its statements in execution order.
#[derive(Debug)]
pub struct Line(pub Vec<Statement>);

/// A program: its lines in order.
#[derive(Debug)]
pub struct Program(pub Vec<Line>);

/// Structural well-formedness of an expression: operator arity respected
/// everywhere, on every nesting level.
pub open spec fn wf_expr(e: Expression) -> bool
    decreases e,
{
    match e {
        Expression::BinaryOp(op, l, r) => is_binary_op(op) && wf_expr(*l) && wf_expr(*r),
        Expression::UnaryOp(op, t) => is_unary_op(op) && wf_expr(*t),
        Expression::Value(v) => wf_value(v),
    }
}

/// Structural well-formedness of a leaf.
pub open spec fn wf_value(v: Value) -> bool
    decreases v,
{
    match v {
        Value::Group(e) => wf_expr(*e),
        _ => true,
    }
}

/// Structural well-formedness of a statement: expressions well formed,
/// assignment operators only in assignments, and an assignment target that
/// is a variable reference.
pub open spec fn wf_stat(s: Statement) -> bool
    decreases s,
{
    match s {
        Statement::Comment(_) => true,
        Statement::If(c, body, else_body) => wf_expr(*c) && wf_stats(body@) && match else_body {
            Some(eb) => wf_stats(eb@),
            None => true,
        },
        Statement::Goto(e) => wf_expr(*e),
        Statement::Assignment(target, op, e) => is_assign_op(op) && wf_expr(*e) && match target {
            Value::LocalVar(_) => true,
            Value::DataField(_) => true,
            _ => false,
        },
        Statement::Expression(e) => wf_expr(*e),
    }
}

/// Structural well-formedness of a statement list.
pub open spec fn wf_stats(ss: Seq<Statement>) -> bool
    decreases ss,
{
    forall|i: int| 0 <= i < ss.len() ==> wf_stat(#[trigger] ss[i])
}

impl Value {
    /// The leaf a primary token stands for: identifiers and data fields
    /// become references in their own namespace, literals become literal
    /// leaves.
    pub fn from_token(t: &Token) -> (r: Value)
        requires
            t@ matches crate::token::TokenV::Identifier(_) || t@
                matches crate::token::TokenV::DataField(_) || t@
                matches crate::token::TokenV::StringToken(_) || t@
                matches crate::token::TokenV::YololNum(_),
        ensures
            match t@ {
                crate::token::TokenV::Identifier(s) => r matches Value::LocalVar(n) && n@ == s,
                crate::token::TokenV::DataField(s) => r matches Value::DataField(n) && n@ == s,
                crate::token::TokenV::StringToken(s) => r matches Value::StringVal(n) && n@ == s,
                crate::token::TokenV::YololNum(x) => r matches Value::NumberVal(n) && n@ == x,
                _ => false,
            },
            wf_value(r),
    {
        match t {
            Token::Identifier(s) => Value::LocalVar(s.clone()),
            Token::DataField(s) => Value::DataField(s.clone()),
            Token::StringToken(s) => Value::StringVal(s.clone()),
            Token::YololNum(n) => Value::NumberVal(*n),
            _ => Value::NumberVal(YololNumber::new(0)),
        }
    }
}

/// The mathematical shape of a leaf: names and texts as character
/// sequences, the number as its scaled representation.
pub enum ValueV {
    Group(Box<ExprV>),
    LocalVar(Seq<char>),
    DataField(Seq<char>),
    Number(int),
    Text(Seq<char>),
}

/// The mathematical shape of an expression tree.
pub enum ExprV {
    Binary(Operator, Box<ExprV>, Box<ExprV>),
    Unary(Operator, Box<ExprV>),
    Leaf(ValueV),
}

/// The mathematical shape of a statement.
pub enum StatV {
    Comment(Seq<char>),
    If(ExprV, Seq<StatV>, Option<Seq<StatV>>),
    Goto(ExprV),
    Assignment(ValueV, Operator, ExprV),
    Expr(ExprV),
}

/// The shape of a leaf.
pub open spec fn value_v(v: Value) -> ValueV
    decreases v,
{
    match v {
        Value::Group(e) => ValueV::Group(Box::new(expr_v(*e))),
        Value::LocalVar(s) => ValueV::LocalVar(s@),
        Value::DataField(s) => ValueV::DataField(s@),
        Value::NumberVal(n) => ValueV::Number(n@),
        Value::StringVal(s) => ValueV::Text(s@),
    }
}

/// The shape of an expression.
pub open spec fn expr_v(e: Expression) -> ExprV
    decreases e,
{
    match e {
        Expression::BinaryOp(op, l, r) => ExprV::Binary(
            op,
            Box::new(expr_v(*l)),
            Box::new(expr_v(*r)),
        ),
        Expression::UnaryOp(op, t) => ExprV::Unary(op, Box::new(expr_v(*t))),
        Expression::Value(v) => ExprV::Leaf(value_v(v)),
    }
}

/// The shape of a statement.
pub open spec fn stat_v(s: Statement) -> StatV
    decreases s,
{
    match s {
        Statement::Comment(c) => StatV::Comment(c@),
        Statement::If(cond, body, else_body) => StatV::If(
            expr_v(*cond),
            stats_v(body@),
            match else_body {
                Some(eb) => Some(stats_v(eb@)),
                None => None,
            },
        ),
        Statement::Goto(e) => StatV::Goto(expr_v(*e)),
        Statement::Assignment(target, op, e) => StatV::Assignment(
            value_v(target),
            op,
            expr_v(*e),
        ),
        Statement::Expression(e) => StatV::Expr(expr_v(*e)),
    }
}

/// The shapes of a statement list, in order.
pub open spec fn stats_v(ss: Seq<Statement>) -> Seq<StatV>
    decreases ss,
{
    if ss.len() == 0 {
        Seq::<StatV>::empty()
    } else {
        stats_v(ss.drop_last()).push(stat_v(ss.last()))
    }
}

/// A statement list and its shapes have the same length.
pub proof fn lemma_stats_v_len(ss: Seq<Statement>)
    ensures
        stats_v(ss).len() == ss.len(),
    decreases ss.len(),
{
    if ss.len() > 0 {
        lemma_stats_v_len(ss.drop_last());
    }
}

/// Appending one statement appends its shape.
pub proof fn lemma_stats_v_push(ss: Seq<Statement>, s: Statement)
    ensures
        stats_v(ss.push(s)) == stats_v(ss).push(stat_v(s)),
{
    assert(ss.push(s).drop_last() =~= ss);
    assert(ss.push(s).last() == s);
}


} // verus!
