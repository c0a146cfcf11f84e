//! The interchange form of the syntax tree: a tagged-tree document with a
//! program root of ordered lines, each holding an optional comment and
//! typed statement nodes whose expressions carry operator spellings as
//! text. The core builds and consumes values of exactly this shape; how a
//! collaborator encodes them on a wire or disk is its own concern.

use vstd::prelude::*;
use crate::ast::{Expression, Operator, Statement, Value, Line, Program, wf_expr, wf_stat,
    wf_stats, wf_value, ExprV, StatV, ValueV, expr_v, stat_v, stats_v, value_v};
use crate::chars::str_eq;
use crate::errors::string_of;
use crate::number::YololNumber;
use vstd::string::StrSliceExecFns;
use vstd::string::StringExecFns;

verus! {

/// The interchange program root: its lines in order.
pub struct CylonProg {
    pub lines: Vec<CylonLine>,
}

/// One interchange line: its comment (empty when absent) and its
/// statement nodes in order.
pub struct CylonLine {
    pub comment: String,
    pub code: Vec<CylonStat>,
}

/// One interchange statement node.
pub enum CylonStat {
    Goto { expression: CylonExpr },
    If { condition: CylonExpr, body: Vec<CylonStat>, else_body: Vec<CylonStat> },
    Assignment { identifier: String, operator: String, value: CylonExpr },
    Expression { expression: CylonExpr },
}

/// One interchange expression node; operators stand as their canonical
/// text spellings.
pub enum CylonExpr {
    Group { group: Box<CylonExpr> },
    BinaryOp { operator: String, left: Box<CylonExpr>, right: Box<CylonExpr> },
    UnaryOp { operator: String, operand: Box<CylonExpr> },
    Number { num: String },
    Text { str: String },
    Identifier { name: String },
}

/// The mathematical shape of an interchange expression node: spellings
/// and texts as character sequences.
pub enum CyExprV {
    Group(Box<CyExprV>),
    Binary(Seq<char>, Box<CyExprV>, Box<CyExprV>),
    Unary(Seq<char>, Box<CyExprV>),
    Number(Seq<char>),
    Text(Seq<char>),
    Ident(Seq<char>),
}

/// The mathematical shape of an interchange statement node.
pub enum CyStatV {
    Goto(CyExprV),
    If(CyExprV, Seq<CyStatV>, Seq<CyStatV>),
    Assignment(Seq<char>, Seq<char>, CyExprV),
    Expr(CyExprV),
}

/// The shape of an interchange expression node.
pub open spec fn cy_expr_v(c: CylonExpr) -> CyExprV
    decreases c,
{
    match c {
        CylonExpr::Group { group } => CyExprV::Group(Box::new(cy_expr_v(*group))),
        CylonExpr::BinaryOp { operator, left, right } => CyExprV::Binary(
            operator@,
            Box::new(cy_expr_v(*left)),
            Box::new(cy_expr_v(*right)),
        ),
        CylonExpr::UnaryOp { operator, operand } => CyExprV::Unary(
            operator@,
            Box::new(cy_expr_v(*operand)),
        ),
        CylonExpr::Number { num } => CyExprV::Number(num@),
        CylonExpr::Text { str } => CyExprV::Text(str@),
        CylonExpr::Identifier { name } => CyExprV::Ident(name@),
    }
}

/// The shape of an interchange statement node.
pub open spec fn cy_stat_v(c: CylonStat) -> CyStatV
    decreases c,
{
    match c {
        CylonStat::Goto { expression } => CyStatV::Goto(cy_expr_v(expression)),
        CylonStat::If { condition, body, else_body } => CyStatV::If(
            cy_expr_v(condition),
            cy_stats_v(body@),
            cy_stats_v(else_body@),
        ),
        CylonStat::Assignment { identifier, operator, value } => CyStatV::Assignment(
            identifier@,
            operator@,
            cy_expr_v(value),
        ),
        CylonStat::Expression { expression } => CyStatV::Expr(cy_expr_v(expression)),
    }
}

/// The shapes of an interchange statement list, in order.
pub open spec fn cy_stats_v(cs: Seq<CylonStat>) -> Seq<CyStatV>
    decreases cs,
{
    if cs.len() == 0 {
        Seq::<CyStatV>::empty()
    } else {
        cy_stats_v(cs.drop_last()).push(cy_stat_v(cs.last()))
    }
}

/// An interchange statement list and its shapes have the same length.
pub proof fn lemma_cy_stats_v_len(cs: Seq<CylonStat>)
    ensures
        cy_stats_v(cs).len() == cs.len(),
    decreases cs.len(),
{
    if cs.len() > 0 {
        lemma_cy_stats_v_len(cs.drop_last());
    }
}

/// An interchange statement list and its shapes agree pointwise.
pub proof fn lemma_cy_stats_v_at(cs: Seq<CylonStat>, i: int)
    requires
        0 <= i < cs.len(),
    ensures
        cy_stats_v(cs).len() == cs.len(),
        cy_stats_v(cs)[i] == cy_stat_v(cs[i]),
    decreases cs.len(),
{
    lemma_cy_stats_v_len(cs);
    lemma_cy_stats_v_len(cs.drop_last());
    if i + 1 < cs.len() {
        lemma_cy_stats_v_at(cs.drop_last(), i);
    }
}

/// Appending one interchange node appends its shape.
pub proof fn lemma_cy_stats_v_push(cs: Seq<CylonStat>, c: CylonStat)
    ensures
        cy_stats_v(cs.push(c)) == cy_stats_v(cs).push(cy_stat_v(c)),
{
    assert(cs.push(c).drop_last() =~= cs);
    assert(cs.push(c).last() == c);
}

/// The canonical spelling of a binary operator, as a sequence.
pub open spec fn bin_text(op: Operator) -> Seq<char> {
    match op {
        Operator::Lesser => "<"@,
        Operator::Greater => ">"@,
        Operator::LesserEq => "<="@,
        Operator::GreaterEq => ">="@,
        Operator::Equal => "=="@,
        Operator::NotEqual => "!="@,
        Operator::And => "and"@,
        Operator::Or => "or"@,
        Operator::Add => "+"@,
        Operator::Sub => "-"@,
        Operator::Mul => "*"@,
        Operator::Div => "/"@,
        Operator::Mod => "%"@,
        _ => "^"@,
    }
}

/// The canonical spelling of a unary operator, as a sequence.
pub open spec fn un_text(op: Operator) -> Seq<char> {
    match op {
        Operator::Negate => "-"@,
        Operator::PreInc => "++a"@,
        Operator::PostInc => "a++"@,
        Operator::PreDec => "--a"@,
        Operator::PostDec => "a--"@,
        Operator::Fact => "!"@,
        Operator::Abs => "abs"@,
        Operator::Sqrt => "sqrt"@,
        Operator::Sin => "sin"@,
        Operator::Cos => "cos"@,
        Operator::Tan => "tan"@,
        Operator::Arcsin => "asin"@,
        Operator::Arccos => "acos"@,
        Operator::Not => "not"@,
        _ => "atan"@,
    }
}

/// The canonical spelling of an assignment operator, as a sequence.
pub open spec fn asg_text(op: Operator) -> Seq<char> {
    match op {
        Operator::Assign => "="@,
        Operator::AddAssign => "+="@,
        Operator::SubAssign => "-="@,
        Operator::MulAssign => "*="@,
        Operator::DivAssign => "/="@,
        Operator::ModAssign => "%="@,
        _ => "^="@,
    }
}

/// The binary operator a spelling sequence stands for.
pub open spec fn cy_bin_op(t: Seq<char>) -> Option<Operator> {
    if t == "<"@ {
        Some(Operator::Lesser)
    } else if t == ">"@ {
        Some(Operator::Greater)
    } else if t == "<="@ {
        Some(Operator::LesserEq)
    } else if t == ">="@ {
        Some(Operator::GreaterEq)
    } else if t == "=="@ {
        Some(Operator::Equal)
    } else if t == "!="@ {
        Some(Operator::NotEqual)
    } else if t == "and"@ {
        Some(Operator::And)
    } else if t == "or"@ {
        Some(Operator::Or)
    } else if t == "+"@ {
        Some(Operator::Add)
    } else if t == "-"@ {
        Some(Operator::Sub)
    } else if t == "*"@ {
        Some(Operator::Mul)
    } else if t == "/"@ {
        Some(Operator::Div)
    } else if t == "%"@ {
        Some(Operator::Mod)
    } else if t == "^"@ {
        Some(Operator::Pow)
    } else {
        None
    }
}

/// The unary operator a spelling sequence stands for.
pub open spec fn cy_un_op(t: Seq<char>) -> Option<Operator> {
    if t == "-"@ {
        Some(Operator::Negate)
    } else if t == "++a"@ {
        Some(Operator::PreInc)
    } else if t == "a++"@ {
        Some(Operator::PostInc)
    } else if t == "--a"@ {
        Some(Operator::PreDec)
    } else if t == "a--"@ {
        Some(Operator::PostDec)
    } else if t == "!"@ {
        Some(Operator::Fact)
    } else if t == "abs"@ {
        Some(Operator::Abs)
    } else if t == "sqrt"@ {
        Some(Operator::Sqrt)
    } else if t == "sin"@ {
        Some(Operator::Sin)
    } else if t == "cos"@ {
        Some(Operator::Cos)
    } else if t == "tan"@ {
        Some(Operator::Tan)
    } else if t == "asin"@ {
        Some(Operator::Arcsin)
    } else if t == "acos"@ {
        Some(Operator::Arccos)
    } else if t == "atan"@ {
        Some(Operator::Arctan)
    } else if t == "not"@ {
        Some(Operator::Not)
    } else {
        None
    }
}

/// The assignment operator a spelling sequence stands for.
pub open spec fn cy_asg_op(t: Seq<char>) -> Option<Operator> {
    if t == "="@ {
        Some(Operator::Assign)
    } else if t == "+="@ {
        Some(Operator::AddAssign)
    } else if t == "-="@ {
        Some(Operator::SubAssign)
    } else if t == "*="@ {
        Some(Operator::MulAssign)
    } else if t == "/="@ {
        Some(Operator::DivAssign)
    } else if t == "%="@ {
        Some(Operator::ModAssign)
    } else if t == "^="@ {
        Some(Operator::PowAssign)
    } else {
        None
    }
}

/// The interchange shape a leaf is written as.
pub open spec fn cy_of_value(v: ValueV) -> CyExprV
    decreases v,
{
    match v {
        ValueV::Group(e) => CyExprV::Group(Box::new(cy_of_expr(*e))),
        ValueV::LocalVar(s) => CyExprV::Ident(s),
        ValueV::DataField(s) => CyExprV::Ident(s),
        ValueV::Number(n) => CyExprV::Number(crate::number::text::render(n)),
        ValueV::Text(s) => CyExprV::Text(s),
    }
}

/// The interchange shape an expression is written as.
pub open spec fn cy_of_expr(e: ExprV) -> CyExprV
    decreases e,
{
    match e {
        ExprV::Binary(op, l, r) => CyExprV::Binary(
            bin_text(op),
            Box::new(cy_of_expr(*l)),
            Box::new(cy_of_expr(*r)),
        ),
        ExprV::Unary(op, t) => CyExprV::Unary(un_text(op), Box::new(cy_of_expr(*t))),
        ExprV::Leaf(v) => cy_of_value(v),
    }
}

/// The name under which an assignment target is written.
pub open spec fn target_name(v: ValueV) -> Seq<char> {
    match v {
        ValueV::LocalVar(s) => s,
        ValueV::DataField(s) => s,
        _ => Seq::<char>::empty(),
    }
}

/// The interchange shape a statement is written as. A comment never
/// reaches this point: the line's comment slot carries it.
pub open spec fn cy_of_stat(s: StatV) -> CyStatV
    decreases s,
{
    match s {
        StatV::Comment(_) => CyStatV::Expr(CyExprV::Number(Seq::<char>::empty())),
        StatV::If(c, body, else_body) => CyStatV::If(
            cy_of_expr(c),
            cy_of_stats(body),
            match else_body {
                Some(eb) => cy_of_stats(eb),
                None => Seq::<CyStatV>::empty(),
            },
        ),
        StatV::Goto(e) => CyStatV::Goto(cy_of_expr(e)),
        StatV::Assignment(t, op, e) => CyStatV::Assignment(target_name(t), asg_text(op), cy_of_expr(e)),
        StatV::Expr(e) => CyStatV::Expr(cy_of_expr(e)),
    }
}

/// The interchange shapes a statement list is written as: the comments
/// drop out, the rest keep their order.
pub open spec fn cy_of_stats(ss: Seq<StatV>) -> Seq<CyStatV>
    decreases ss,
{
    if ss.len() == 0 {
        Seq::<CyStatV>::empty()
    } else if ss.last() is Comment {
        cy_of_stats(ss.drop_last())
    } else {
        cy_of_stats(ss.drop_last()).push(cy_of_stat(ss.last()))
    }
}

/// The text of the last comment among the statements, or empty when none
/// stands there: what the line's comment slot receives.
pub open spec fn last_comment(ss: Seq<StatV>) -> Seq<char>
    decreases ss,
{
    if ss.len() == 0 {
        Seq::<char>::empty()
    } else {
        match ss.last() {
            StatV::Comment(c) => c,
            _ => last_comment(ss.drop_last()),
        }
    }
}

/// The expression an interchange shape reads back as, or nothing when an
/// operator spelling is unknown or a numeral is malformed.
pub open spec fn parse_cy_expr(c: CyExprV) -> Option<ExprV>
    decreases c,
{
    match c {
        CyExprV::Group(g) => match parse_cy_expr(*g) {
            Some(e) => Some(ExprV::Leaf(ValueV::Group(Box::new(e)))),
            None => None,
        },
        CyExprV::Binary(t, l, r) => match cy_bin_op(t) {
            Some(op) => match (parse_cy_expr(*l), parse_cy_expr(*r)) {
                (Some(le), Some(re)) => Some(ExprV::Binary(op, Box::new(le), Box::new(re))),
                _ => None,
            },
            None => None,
        },
        CyExprV::Unary(t, o) => match cy_un_op(t) {
            Some(op) => match parse_cy_expr(*o) {
                Some(oe) => Some(ExprV::Unary(op, Box::new(oe))),
                None => None,
            },
            None => None,
        },
        CyExprV::Number(txt) => match crate::number::text::parse_num(txt) {
            Some(v) => Some(ExprV::Leaf(ValueV::Number(v))),
            None => None,
        },
        CyExprV::Text(s) => Some(ExprV::Leaf(ValueV::Text(s))),
        CyExprV::Ident(n) => Some(
            ExprV::Leaf(
                if crate::environment::is_global_name(n) {
                    ValueV::DataField(n)
                } else {
                    ValueV::LocalVar(n)
                },
            ),
        ),
    }
}

/// The statement an interchange shape reads back as.
pub open spec fn parse_cy_stat(c: CyStatV) -> Option<StatV>
    decreases c,
{
    match c {
        CyStatV::Goto(e) => match parse_cy_expr(e) {
            Some(ev) => Some(StatV::Goto(ev)),
            None => None,
        },
        CyStatV::If(c, body, else_body) => match parse_cy_expr(c) {
            Some(cv) => match (parse_cy_stats(body), parse_cy_stats(else_body)) {
                (Some(bs), Some(es)) => Some(
                    StatV::If(
                        cv,
                        bs,
                        if es.len() == 0 {
                            None
                        } else {
                            Some(es)
                        },
                    ),
                ),
                _ => None,
            },
            None => None,
        },
        CyStatV::Assignment(id, opt, e) => match cy_asg_op(opt) {
            Some(op) => match parse_cy_expr(e) {
                Some(ev) => Some(
                    StatV::Assignment(
                        if crate::environment::is_global_name(id) {
                            ValueV::DataField(id)
                        } else {
                            ValueV::LocalVar(id)
                        },
                        op,
                        ev,
                    ),
                ),
                None => None,
            },
            None => None,
        },
        CyStatV::Expr(e) => match parse_cy_expr(e) {
            Some(ev) => Some(StatV::Expr(ev)),
            None => None,
        },
    }
}

/// The statement list an interchange shape list reads back as: every
/// node must read back.
pub open spec fn parse_cy_stats(cs: Seq<CyStatV>) -> Option<Seq<StatV>>
    decreases cs,
{
    if cs.len() == 0 {
        Some(Seq::<StatV>::empty())
    } else {
        match (parse_cy_stats(cs.drop_last()), parse_cy_stat(cs.last())) {
            (Some(ss), Some(s)) => Some(ss.push(s)),
            _ => None,
        }
    }
}

/// The statement list an interchange line reads back as: its nodes, then
/// a trailing comment when the comment slot is nonempty.
pub open spec fn parse_cy_line(comment: Seq<char>, code: Seq<CyStatV>) -> Option<Seq<StatV>> {
    match parse_cy_stats(code) {
        Some(ss) => Some(
            if comment.len() > 0 {
                ss.push(StatV::Comment(comment))
            } else {
                ss
            },
        ),
        None => None,
    }
}

/// Appending one shape extends what the list reads back as: both parts
/// must read back, and the results join.
pub proof fn lemma_parse_cy_stats_push(cs: Seq<CyStatV>, c: CyStatV)
    ensures
        parse_cy_stats(cs.push(c)) == (match (parse_cy_stats(cs), parse_cy_stat(c)) {
            (Some(ss), Some(s)) => Some(ss.push(s)),
            _ => None::<Seq<StatV>>,
        }),
{
    assert(cs.push(c).drop_last() =~= cs);
    assert(cs.push(c).last() == c);
}

/// One unreadable node makes the whole list unreadable.
pub proof fn lemma_parse_cy_stats_bad(cs: Seq<CyStatV>, i: int)
    requires
        0 <= i < cs.len(),
        parse_cy_stat(cs[i]) is None,
    ensures
        parse_cy_stats(cs) is None,
    decreases cs.len(),
{
    if i + 1 < cs.len() {
        lemma_parse_cy_stats_bad(cs.drop_last(), i);
    }
}

/// Appending one statement shape extends what the list is written as:
/// a comment adds nothing, any other shape appends its node.
pub proof fn lemma_cy_of_stats_push(ss: Seq<StatV>, sv: StatV)
    ensures
        cy_of_stats(ss.push(sv)) == (if sv is Comment {
            cy_of_stats(ss)
        } else {
            cy_of_stats(ss).push(cy_of_stat(sv))
        }),
{
    assert(ss.push(sv).drop_last() =~= ss);
    assert(ss.push(sv).last() == sv);
}

/// Appending one statement shape updates the last comment: a comment
/// replaces it, any other shape leaves it.
pub proof fn lemma_last_comment_push(ss: Seq<StatV>, sv: StatV)
    ensures
        last_comment(ss.push(sv)) == (match sv {
            StatV::Comment(c) => c,
            _ => last_comment(ss),
        }),
{
    assert(ss.push(sv).drop_last() =~= ss);
    assert(ss.push(sv).last() == sv);
}

/// The canonical spelling of a binary operator.
fn binary_op_text(op: Operator) -> (r: String)
    ensures
        r@ == bin_text(op),
        r@.len() > 0,
{
    proof {
        reveal_strlit("<");
        reveal_strlit(">");
        reveal_strlit("<=");
        reveal_strlit(">=");
        reveal_strlit("==");
        reveal_strlit("!=");
        reveal_strlit("and");
        reveal_strlit("or");
        reveal_strlit("+");
        reveal_strlit("-");
        reveal_strlit("*");
        reveal_strlit("/");
        reveal_strlit("%");
        reveal_strlit("^");
    }
    match op {
        Operator::Lesser => String::from_str("<"),
        Operator::Greater => String::from_str(">"),
        Operator::LesserEq => String::from_str("<="),
        Operator::GreaterEq => String::from_str(">="),
        Operator::Equal => String::from_str("=="),
        Operator::NotEqual => String::from_str("!="),
        Operator::And => String::from_str("and"),
        Operator::Or => String::from_str("or"),
        Operator::Add => String::from_str("+"),
        Operator::Sub => String::from_str("-"),
        Operator::Mul => String::from_str("*"),
        Operator::Div => String::from_str("/"),
        Operator::Mod => String::from_str("%"),
        _ => String::from_str("^"),
    }
}

/// The canonical spelling of a unary operator; the increment and
/// decrement forms carry their position around a placeholder operand.
fn unary_op_text(op: Operator) -> (r: String)
    ensures
        r@ == un_text(op),
        r@.len() > 0,
{
    proof {
        reveal_strlit("-");
        reveal_strlit("++a");
        reveal_strlit("a++");
        reveal_strlit("--a");
        reveal_strlit("a--");
        reveal_strlit("!");
        reveal_strlit("abs");
        reveal_strlit("sqrt");
        reveal_strlit("sin");
        reveal_strlit("cos");
        reveal_strlit("tan");
        reveal_strlit("asin");
        reveal_strlit("acos");
        reveal_strlit("atan");
        reveal_strlit("not");
    }
    match op {
        Operator::Negate => String::from_str("-"),
        Operator::PreInc => String::from_str("++a"),
        Operator::PostInc => String::from_str("a++"),
        Operator::PreDec => String::from_str("--a"),
        Operator::PostDec => String::from_str("a--"),
        Operator::Fact => String::from_str("!"),
        Operator::Abs => String::from_str("abs"),
        Operator::Sqrt => String::from_str("sqrt"),
        Operator::Sin => String::from_str("sin"),
        Operator::Cos => String::from_str("cos"),
        Operator::Tan => String::from_str("tan"),
        Operator::Arcsin => String::from_str("asin"),
        Operator::Arccos => String::from_str("acos"),
        Operator::Not => String::from_str("not"),
        _ => String::from_str("atan"),
    }
}

/// The canonical spelling of an assignment operator.
fn assign_op_text(op: Operator) -> (r: String)
    ensures
        r@ == asg_text(op),
        r@.len() > 0,
{
    proof {
        reveal_strlit("=");
        reveal_strlit("+=");
        reveal_strlit("-=");
        reveal_strlit("*=");
        reveal_strlit("/=");
        reveal_strlit("%=");
        reveal_strlit("^=");
    }
    match op {
        Operator::Assign => String::from_str("="),
        Operator::AddAssign => String::from_str("+="),
        Operator::SubAssign => String::from_str("-="),
        Operator::MulAssign => String::from_str("*="),
        Operator::DivAssign => String::from_str("/="),
        Operator::ModAssign => String::from_str("%="),
        _ => String::from_str("^="),
    }
}

/// The binary operator a spelling stands for.
fn binary_op_of(text: &str) -> (r: Option<Operator>)
    ensures
        r == cy_bin_op(text@),
        r matches Some(op) ==> crate::ast::is_binary_op(op),
{
    if str_eq(text, "<") {
        Some(Operator::Lesser)
    } else if str_eq(text, ">") {
        Some(Operator::Greater)
    } else if str_eq(text, "<=") {
        Some(Operator::LesserEq)
    } else if str_eq(text, ">=") {
        Some(Operator::GreaterEq)
    } else if str_eq(text, "==") {
        Some(Operator::Equal)
    } else if str_eq(text, "!=") {
        Some(Operator::NotEqual)
    } else if str_eq(text, "and") {
        Some(Operator::And)
    } else if str_eq(text, "or") {
        Some(Operator::Or)
    } else if str_eq(text, "+") {
        Some(Operator::Add)
    } else if str_eq(text, "-") {
        Some(Operator::Sub)
    } else if str_eq(text, "*") {
        Some(Operator::Mul)
    } else if str_eq(text, "/") {
        Some(Operator::Div)
    } else if str_eq(text, "%") {
        Some(Operator::Mod)
    } else if str_eq(text, "^") {
        Some(Operator::Pow)
    } else {
        None
    }
}

/// The unary operator a spelling stands for.
fn unary_op_of(text: &str) -> (r: Option<Operator>)
    ensures
        r == cy_un_op(text@),
        r matches Some(op) ==> crate::ast::is_unary_op(op),
{
    if str_eq(text, "-") {
        Some(Operator::Negate)
    } else if str_eq(text, "++a") {
        Some(Operator::PreInc)
    } else if str_eq(text, "a++") {
        Some(Operator::PostInc)
    } else if str_eq(text, "--a") {
        Some(Operator::PreDec)
    } else if str_eq(text, "a--") {
        Some(Operator::PostDec)
    } else if str_eq(text, "!") {
        Some(Operator::Fact)
    } else if str_eq(text, "abs") {
        Some(Operator::Abs)
    } else if str_eq(text, "sqrt") {
        Some(Operator::Sqrt)
    } else if str_eq(text, "sin") {
        Some(Operator::Sin)
    } else if str_eq(text, "cos") {
        Some(Operator::Cos)
    } else if str_eq(text, "tan") {
        Some(Operator::Tan)
    } else if str_eq(text, "asin") {
        Some(Operator::Arcsin)
    } else if str_eq(text, "acos") {
        Some(Operator::Arccos)
    } else if str_eq(text, "atan") {
        Some(Operator::Arctan)
    } else if str_eq(text, "not") {
        Some(Operator::Not)
    } else {
        None
    }
}

/// The assignment operator a spelling stands for.
fn assign_op_of(text: &str) -> (r: Option<Operator>)
    ensures
        r == cy_asg_op(text@),
        r matches Some(op) ==> crate::ast::is_assign_op(op),
{
    if str_eq(text, "=") {
        Some(Operator::Assign)
    } else if str_eq(text, "+=") {
        Some(Operator::AddAssign)
    } else if str_eq(text, "-=") {
        Some(Operator::SubAssign)
    } else if str_eq(text, "*=") {
        Some(Operator::MulAssign)
    } else if str_eq(text, "/=") {
        Some(Operator::DivAssign)
    } else if str_eq(text, "%=") {
        Some(Operator::ModAssign)
    } else if str_eq(text, "^=") {
        Some(Operator::PowAssign)
    } else {
        None
    }
}

/// Whether a name carries the field marker up front.
fn name_is_field(name: &str) -> (r: bool)
    ensures
        r == crate::environment::is_global_name(name@),
{
    let n = name.unicode_len();
    if n == 0 {
        false
    } else {
        name.get_char(0) == ':'
    }
}

impl Expression {
    /// The interchange node this expression stands for.
    pub fn to_cylon(&self) -> (r: CylonExpr)
        ensures
            cy_expr_v(r) == cy_of_expr(expr_v(*self)),
        decreases *self, 1int,
    {
        match self {
            Expression::BinaryOp(op, left, right) => CylonExpr::BinaryOp {
                operator: binary_op_text(*op),
                left: Box::new(left.to_cylon()),
                right: Box::new(right.to_cylon()),
            },
            Expression::UnaryOp(op, operand) => CylonExpr::UnaryOp {
                operator: unary_op_text(*op),
                operand: Box::new(operand.to_cylon()),
            },
            Expression::Value(v) => v.to_cylon(),
        }
    }

    /// The expression an interchange node stands for, or the unknown
    /// spelling or malformed numeral that stops the reading.
    #[verifier::rlimit(100)]
    #[verifier::spinoff_prover]
    pub fn from_cylon(input: &CylonExpr) -> (r: Result<Expression, String>)
        ensures
            match parse_cy_expr(cy_expr_v(*input)) {
                Some(ev) => r matches Ok(e) && expr_v(e) == ev && wf_expr(e),
                None => r is Err,
            },
        decreases *input,
    {
        match input {
            CylonExpr::Group { group } => {
                let inner = match Expression::from_cylon(&**group) {
                    Ok(e) => e,
                    Err(error) => {
                        return Err(error);
                    },
                };
                let v = Value::Group(Box::new(inner));
                proof {
                    assert(wf_value(v));
                    assert(wf_expr(Expression::Value(v)));
                    assert(value_v(v) == ValueV::Group(Box::new(expr_v(inner))));
                    assert(expr_v(Expression::Value(v)) == ExprV::Leaf(value_v(v)));
                    assert(cy_expr_v(*input) == CyExprV::Group(Box::new(cy_expr_v(**group))));
                    assert(parse_cy_expr(cy_expr_v(*input)) == Some(expr_v(Expression::Value(v))));
                }
                Ok(Expression::Value(v))
            },
            CylonExpr::BinaryOp { operator, left, right } => {
                let op = match binary_op_of(operator.as_str()) {
                    Some(op) => op,
                    None => {
                        return Err(string_of("no binary operator has this spelling"));
                    },
                };
                let l = match Expression::from_cylon(&**left) {
                    Ok(e) => e,
                    Err(error) => {
                        return Err(error);
                    },
                };
                let rr = match Expression::from_cylon(&**right) {
                    Ok(e) => e,
                    Err(error) => {
                        return Err(error);
                    },
                };
                let result = Expression::BinaryOp(op, Box::new(l), Box::new(rr));
                proof {
                    assert(parse_cy_expr(cy_expr_v(*input)) == Some(expr_v(result)));
                }
                Ok(result)
            },
            CylonExpr::UnaryOp { operator, operand } => {
                let op = match unary_op_of(operator.as_str()) {
                    Some(op) => op,
                    None => {
                        return Err(string_of("no unary operator has this spelling"));
                    },
                };
                let t = match Expression::from_cylon(&**operand) {
                    Ok(e) => e,
                    Err(error) => {
                        return Err(error);
                    },
                };
                let result = Expression::UnaryOp(op, Box::new(t));
                proof {
                    assert(parse_cy_expr(cy_expr_v(*input)) == Some(expr_v(result)));
                }
                Ok(result)
            },
            CylonExpr::Number { num } => {
                let value = match YololNumber::from_text(num.as_str()) {
                    Ok(n) => n,
                    Err(error) => {
                        return Err(error);
                    },
                };
                let v = Value::NumberVal(value);
                proof {
                    assert(wf_value(v));
                    assert(wf_expr(Expression::Value(v)));
                    assert(value_v(v) == ValueV::Number(value@));
                    assert(expr_v(Expression::Value(v)) == ExprV::Leaf(ValueV::Number(value@)));
                    assert(cy_expr_v(*input) == CyExprV::Number(num@));
                    assert(crate::number::text::parse_num(num@) == Some(value@));
                    assert(parse_cy_expr(cy_expr_v(*input)) == Some(expr_v(Expression::Value(v))));
                }
                Ok(Expression::Value(v))
            },
            CylonExpr::Text { str } => {
                let v = Value::StringVal(str.clone());
                proof {
                    assert(wf_value(v));
                    assert(wf_expr(Expression::Value(v)));
                    assert(value_v(v) == ValueV::Text(str@));
                    assert(expr_v(Expression::Value(v)) == ExprV::Leaf(ValueV::Text(str@)));
                    assert(cy_expr_v(*input) == CyExprV::Text(str@));
                    assert(parse_cy_expr(CyExprV::Text(str@)) == Some(ExprV::Leaf(ValueV::Text(str@))));
                    assert(parse_cy_expr(cy_expr_v(*input)) == Some(expr_v(Expression::Value(v))));
                }
                Ok(Expression::Value(v))
            },
            CylonExpr::Identifier { name } => {
                let v = if name_is_field(name.as_str()) {
                    Value::DataField(name.clone())
                } else {
                    Value::LocalVar(name.clone())
                };
                proof {
                    assert(wf_value(v));
                    assert(wf_expr(Expression::Value(v)));
                    assert(cy_expr_v(*input) == CyExprV::Ident(name@));
                    if crate::environment::is_global_name(name@) {
                        assert(value_v(v) == ValueV::DataField(name@));
                    } else {
                        assert(value_v(v) == ValueV::LocalVar(name@));
                    }
                    assert(expr_v(Expression::Value(v)) == ExprV::Leaf(value_v(v)));
                    assert(parse_cy_expr(cy_expr_v(*input)) == Some(expr_v(Expression::Value(v))));
                }
                Ok(Expression::Value(v))
            },
        }
    }
}

impl Value {
    /// The interchange node this leaf stands for.
    pub fn to_cylon(&self) -> (r: CylonExpr)
        ensures
            cy_expr_v(r) == cy_of_value(value_v(*self)),
        decreases *self, 0int,
    {
        match self {
            Value::Group(expr) => CylonExpr::Group { group: Box::new(expr.to_cylon()) },
            Value::LocalVar(ident) => CylonExpr::Identifier { name: ident.clone() },
            Value::DataField(ident) => CylonExpr::Identifier { name: ident.clone() },
            Value::NumberVal(num) => CylonExpr::Number { num: num.to_text() },
            Value::StringVal(text) => CylonExpr::Text { str: text.clone() },
        }
    }
}

impl Statement {
    /// The interchange node this statement stands for. Comments do not
    /// stand alone in the interchange form; the line carries them.
    pub fn to_cylon(&self) -> (r: CylonStat)
        requires
            !(*self is Comment),
            wf_stat(*self),
        ensures
            cy_stat_v(r) == cy_of_stat(stat_v(*self)),
        decreases *self, 2int,
    {
        match self {
            Statement::If(cond, body, else_body) => {
                let converted_body = statements_to_cylon(body);
                let converted_else = match else_body {
                    Some(eb) => statements_to_cylon(eb),
                    None => Vec::new(),
                };
                CylonStat::If {
                    condition: cond.to_cylon(),
                    body: converted_body,
                    else_body: converted_else,
                }
            },
            Statement::Goto(expr) => CylonStat::Goto { expression: expr.to_cylon() },
            Statement::Assignment(ident, op, expr) => {
                let identifier = match ident {
                    Value::LocalVar(s) => s.clone(),
                    Value::DataField(s) => s.clone(),
                    _ => String::new(),
                };
                CylonStat::Assignment {
                    identifier,
                    operator: assign_op_text(*op),
                    value: expr.to_cylon(),
                }
            },
            Statement::Expression(expr) => CylonStat::Expression { expression: expr.to_cylon() },
            // Unreachable: the precondition keeps comments out, since the
            // line's comment slot carries them.
            Statement::Comment(_) => CylonStat::Expression {
                expression: CylonExpr::Number { num: String::new() },
            },
        }
    }

    /// The statement an interchange node stands for.
    pub fn from_cylon(input: &CylonStat) -> (r: Result<Statement, String>)
        ensures
            match parse_cy_stat(cy_stat_v(*input)) {
                Some(sv) => r matches Ok(st) && stat_v(st) == sv && wf_stat(st),
                None => r is Err,
            },
        decreases *input, 2int,
    {
        match input {
            CylonStat::Goto { expression } => {
                let expr = match Expression::from_cylon(expression) {
                    Ok(e) => e,
                    Err(error) => {
                        return Err(error);
                    },
                };
                Ok(Statement::Goto(Box::new(expr)))
            },
            CylonStat::If { condition, body, else_body } => {
                let cond = match Expression::from_cylon(condition) {
                    Ok(e) => e,
                    Err(error) => {
                        return Err(error);
                    },
                };
                let ast_body = match statements_from_cylon(body) {
                    Ok(ss) => ss,
                    Err(error) => {
                        return Err(error);
                    },
                };
                let ast_else = match statements_from_cylon(else_body) {
                    Ok(ss) => ss,
                    Err(error) => {
                        return Err(error);
                    },
                };
                if ast_else.len() == 0 {
                    Ok(Statement::If(Box::new(cond), ast_body, None))
                } else {
                    Ok(Statement::If(Box::new(cond), ast_body, Some(ast_else)))
                }
            },
            CylonStat::Assignment { identifier, operator, value } => {
                let ident = if name_is_field(identifier.as_str()) {
                    Value::DataField(identifier.clone())
                } else {
                    Value::LocalVar(identifier.clone())
                };
                let op = match assign_op_of(operator.as_str()) {
                    Some(op) => op,
                    None => {
                        return Err(string_of("no assignment operator has this spelling"));
                    },
                };
                let expr = match Expression::from_cylon(value) {
                    Ok(e) => e,
                    Err(error) => {
                        return Err(error);
                    },
                };
                Ok(Statement::Assignment(ident, op, Box::new(expr)))
            },
            CylonStat::Expression { expression } => {
                let expr = match Expression::from_cylon(expression) {
                    Ok(e) => e,
                    Err(error) => {
                        return Err(error);
                    },
                };
                Ok(Statement::Expression(Box::new(expr)))
            },
        }
    }
}

/// Converts a statement list into interchange nodes; comments are left
/// out, as the line carries them.
fn statements_to_cylon(ss: &Vec<Statement>) -> (r: Vec<CylonStat>)
    requires
        wf_stats(ss@),
    ensures
        cy_stats_v(r@) == cy_of_stats(stats_v(ss@)),
    decreases ss@, 1int,
{
    let mut out: Vec<CylonStat> = Vec::new();
    let n = ss.len();
    let mut i: usize = 0;
    while i < n
        invariant
            i <= n,
            n == ss@.len(),
            wf_stats(ss@),
            cy_stats_v(out@) == cy_of_stats(stats_v(ss@.take(i as int))),
        decreases n - i,
    {
        proof {
            assert(ss@.take(i + 1) =~= ss@.take(i as int).push(ss@[i as int]));
            crate::ast::lemma_stats_v_push(ss@.take(i as int), ss@[i as int]);
            lemma_cy_of_stats_push(stats_v(ss@.take(i as int)), stat_v(ss@[i as int]));
        }
        let keep = match &ss[i] {
            Statement::Comment(_) => false,
            _ => true,
        };
        if keep {
            proof {
                assert(wf_stat(ss@[i as int]));
            }
            let node = ss[i].to_cylon();
            proof {
                lemma_cy_stats_v_push(out@, node);
            }
            out.push(node);
        }
        i = i + 1;
    }
    proof {
        assert(ss@.take(n as int) =~= ss@);
    }
    out
}

/// Reads a statement list back from interchange nodes.
fn statements_from_cylon(code: &Vec<CylonStat>) -> (r: Result<Vec<Statement>, String>)
    ensures
        match parse_cy_stats(cy_stats_v(code@)) {
            Some(svs) => r matches Ok(ss) && stats_v(ss@) == svs && wf_stats(ss@),
            None => r is Err,
        },
    decreases code@, 1int,
{
    let mut out: Vec<Statement> = Vec::new();
    let n = code.len();
    let mut i: usize = 0;
    while i < n
        invariant
            i <= n,
            n == code@.len(),
            wf_stats(out@),
            parse_cy_stats(cy_stats_v(code@.take(i as int))) == Some(stats_v(out@)),
        decreases n - i,
    {
        proof {
            lemma_cy_stats_v_at(code@, i as int);
        }
        let statement = match Statement::from_cylon(&code[i]) {
            Ok(s) => s,
            Err(error) => {
                proof {
                    lemma_parse_cy_stats_bad(cy_stats_v(code@), i as int);
                }
                return Err(error);
            },
        };
        proof {
            assert(code@.take(i + 1) =~= code@.take(i as int).push(code@[i as int]));
            lemma_cy_stats_v_push(code@.take(i as int), code@[i as int]);
            lemma_parse_cy_stats_push(cy_stats_v(code@.take(i as int)), cy_stat_v(code@[i as int]));
            crate::ast::lemma_stats_v_push(out@, statement);
        }
        out.push(statement);
        i = i + 1;
    }
    proof {
        assert(code@.take(n as int) =~= code@);
    }
    Ok(out)
}

impl Line {
    /// The interchange line this line stands for: its comment, if one
    /// stands among its statements, moves into the comment slot.
    pub fn to_cylon(&self) -> (r: CylonLine)
        requires
            wf_stats(self.0@),
        ensures
            r.comment@ == last_comment(stats_v(self.0@)),
            cy_stats_v(r.code@) == cy_of_stats(stats_v(self.0@)),
    {
        let mut comment = String::new();
        let n = self.0.len();
        let mut i: usize = 0;
        while i < n
            invariant
                i <= n,
                n == self.0@.len(),
                wf_stats(self.0@),
                comment@ == last_comment(stats_v(self.0@.take(i as int))),
            decreases n - i,
        {
            proof {
                assert(self.0@.take(i + 1) =~= self.0@.take(i as int).push(self.0@[i as int]));
                crate::ast::lemma_stats_v_push(self.0@.take(i as int), self.0@[i as int]);
                lemma_last_comment_push(stats_v(self.0@.take(i as int)), stat_v(self.0@[i as int]));
            }
            match &self.0[i] {
                Statement::Comment(text) => {
                    comment = text.clone();
                },
                _ => {},
            }
            i = i + 1;
        }
        proof {
            assert(self.0@.take(n as int) =~= self.0@);
        }
        CylonLine { comment, code: statements_to_cylon(&self.0) }
    }

    /// The line an interchange line stands for: a nonempty comment slot
    /// becomes a trailing comment statement.
    pub fn from_cylon(input: &CylonLine) -> (r: Result<Line, String>)
        ensures
            match parse_cy_line(input.comment@, cy_stats_v(input.code@)) {
                Some(svs) => r matches Ok(l) && stats_v(l.0@) == svs && wf_stats(l.0@),
                None => r is Err,
            },
    {
        let mut statements = match statements_from_cylon(&input.code) {
            Ok(ss) => ss,
            Err(error) => {
                return Err(error);
            },
        };
        if input.comment.as_str().unicode_len() > 0 {
            let tail = Statement::Comment(input.comment.clone());
            proof {
                crate::ast::lemma_stats_v_push(statements@, tail);
            }
            statements.push(tail);
        }
        Ok(Line(statements))
    }
}

impl Program {
    /// The interchange document this program stands for.
    pub fn to_cylon(&self) -> (r: CylonProg)
        requires
            forall|i: int| 0 <= i < self.0@.len() ==> wf_stats((#[trigger] self.0@[i]).0@),
        ensures
            r.lines@.len() == self.0@.len(),
            forall|i: int|
                0 <= i < self.0@.len() ==> ((#[trigger] r.lines@[i]).comment@ == last_comment(
                    stats_v(self.0@[i].0@),
                ) && cy_stats_v(r.lines@[i].code@) == cy_of_stats(stats_v(self.0@[i].0@))),
    {
        let mut lines: Vec<CylonLine> = Vec::new();
        let n = self.0.len();
        let mut i: usize = 0;
        while i < n
            invariant
                i <= n,
                n == self.0@.len(),
                forall|j: int| 0 <= j < n ==> wf_stats((#[trigger] self.0@[j]).0@),
                lines@.len() == i,
                forall|j: int|
                    0 <= j < i ==> ((#[trigger] lines@[j]).comment@ == last_comment(
                        stats_v(self.0@[j].0@),
                    ) && cy_stats_v(lines@[j].code@) == cy_of_stats(stats_v(self.0@[j].0@))),
            decreases n - i,
        {
            lines.push(self.0[i].to_cylon());
            i = i + 1;
        }
        CylonProg { lines }
    }

    /// The program an interchange document stands for.
    pub fn from_cylon(input: &CylonProg) -> (r: Result<Program, String>)
        ensures
            r matches Ok(p) ==> (p.0@.len() == input.lines@.len() && forall|i: int|
                0 <= i < p.0@.len() ==> (wf_stats((#[trigger] p.0@[i]).0@) && parse_cy_line(
                    input.lines@[i].comment@,
                    cy_stats_v(input.lines@[i].code@),
                ) == Some(stats_v(p.0@[i].0@)))),
            r is Err ==> exists|i: int|
                0 <= i < input.lines@.len() && parse_cy_line(
                    (#[trigger] input.lines@[i]).comment@,
                    cy_stats_v(input.lines@[i].code@),
                ) is None,
    {
        let mut lines: Vec<Line> = Vec::new();
        let n = input.lines.len();
        let mut i: usize = 0;
        while i < n
            invariant
                i <= n,
                n == input.lines@.len(),
                lines@.len() == i,
                forall|j: int|
                    0 <= j < i ==> (wf_stats((#[trigger] lines@[j]).0@) && parse_cy_line(
                        input.lines@[j].comment@,
                        cy_stats_v(input.lines@[j].code@),
                    ) == Some(stats_v(lines@[j].0@))),
            decreases n - i,
        {
            let line = match Line::from_cylon(&input.lines[i]) {
                Ok(l) => l,
                Err(error) => {
                    return Err(error);
                },
            };
            lines.push(line);
            i = i + 1;
        }
        Ok(Program(lines))
    }
}

/// Reading back the written spelling of a binary operator yields it.
#[verifier::rlimit(100)]
#[verifier::spinoff_prover]
pub proof fn lemma_bin_spelling(op: Operator)
    requires
        crate::ast::is_binary_op(op),
    ensures
        cy_bin_op(bin_text(op)) == Some(op),
{
    reveal_strlit("<");
    reveal_strlit(">");
    reveal_strlit("<=");
    reveal_strlit(">=");
    reveal_strlit("==");
    reveal_strlit("!=");
    reveal_strlit("and");
    reveal_strlit("or");
    reveal_strlit("+");
    reveal_strlit("-");
    reveal_strlit("*");
    reveal_strlit("/");
    reveal_strlit("%");
    reveal_strlit("^");
    assert("<"@.len() == 1);
    assert("<"@[0] == '<');
    assert(">"@.len() == 1);
    assert(">"@[0] == '>');
    assert("<="@.len() == 2);
    assert("<="@[0] == '<');
    assert("<="@[1] == '=');
    assert(">="@.len() == 2);
    assert(">="@[0] == '>');
    assert(">="@[1] == '=');
    assert("=="@.len() == 2);
    assert("=="@[0] == '=');
    assert("=="@[1] == '=');
    assert("!="@.len() == 2);
    assert("!="@[0] == '!');
    assert("!="@[1] == '=');
    assert("and"@.len() == 3);
    assert("and"@[0] == 'a');
    assert("and"@[1] == 'n');
    assert("and"@[2] == 'd');
    assert("or"@.len() == 2);
    assert("or"@[0] == 'o');
    assert("or"@[1] == 'r');
    assert("+"@.len() == 1);
    assert("+"@[0] == '+');
    assert("-"@.len() == 1);
    assert("-"@[0] == '-');
    assert("*"@.len() == 1);
    assert("*"@[0] == '*');
    assert("/"@.len() == 1);
    assert("/"@[0] == '/');
    assert("%"@.len() == 1);
    assert("%"@[0] == '%');
    assert("^"@.len() == 1);
    assert("^"@[0] == '^');
}

/// Reading back the written spelling of a unary operator yields it.
#[verifier::rlimit(100)]
#[verifier::spinoff_prover]
pub proof fn lemma_un_spelling(op: Operator)
    requires
        crate::ast::is_unary_op(op),
    ensures
        cy_un_op(un_text(op)) == Some(op),
{
    reveal_strlit("-");
    reveal_strlit("++a");
    reveal_strlit("a++");
    reveal_strlit("--a");
    reveal_strlit("a--");
    reveal_strlit("!");
    reveal_strlit("abs");
    reveal_strlit("sqrt");
    reveal_strlit("sin");
    reveal_strlit("cos");
    reveal_strlit("tan");
    reveal_strlit("asin");
    reveal_strlit("acos");
    reveal_strlit("atan");
    reveal_strlit("not");
    assert("-"@.len() == 1);
    assert("-"@[0] == '-');
    assert("++a"@.len() == 3);
    assert("++a"@[0] == '+');
    assert("++a"@[1] == '+');
    assert("++a"@[2] == 'a');
    assert("a++"@.len() == 3);
    assert("a++"@[0] == 'a');
    assert("a++"@[1] == '+');
    assert("a++"@[2] == '+');
    assert("--a"@.len() == 3);
    assert("--a"@[0] == '-');
    assert("--a"@[1] == '-');
    assert("--a"@[2] == 'a');
    assert("a--"@.len() == 3);
    assert("a--"@[0] == 'a');
    assert("a--"@[1] == '-');
    assert("a--"@[2] == '-');
    assert("!"@.len() == 1);
    assert("!"@[0] == '!');
    assert("abs"@.len() == 3);
    assert("abs"@[0] == 'a');
    assert("abs"@[1] == 'b');
    assert("abs"@[2] == 's');
    assert("sqrt"@.len() == 4);
    assert("sqrt"@[0] == 's');
    assert("sqrt"@[1] == 'q');
    assert("sqrt"@[2] == 'r');
    assert("sqrt"@[3] == 't');
    assert("sin"@.len() == 3);
    assert("sin"@[0] == 's');
    assert("sin"@[1] == 'i');
    assert("sin"@[2] == 'n');
    assert("cos"@.len() == 3);
    assert("cos"@[0] == 'c');
    assert("cos"@[1] == 'o');
    assert("cos"@[2] == 's');
    assert("tan"@.len() == 3);
    assert("tan"@[0] == 't');
    assert("tan"@[1] == 'a');
    assert("tan"@[2] == 'n');
    assert("asin"@.len() == 4);
    assert("asin"@[0] == 'a');
    assert("asin"@[1] == 's');
    assert("asin"@[2] == 'i');
    assert("asin"@[3] == 'n');
    assert("acos"@.len() == 4);
    assert("acos"@[0] == 'a');
    assert("acos"@[1] == 'c');
    assert("acos"@[2] == 'o');
    assert("acos"@[3] == 's');
    assert("atan"@.len() == 4);
    assert("atan"@[0] == 'a');
    assert("atan"@[1] == 't');
    assert("atan"@[2] == 'a');
    assert("atan"@[3] == 'n');
    assert("not"@.len() == 3);
    assert("not"@[0] == 'n');
    assert("not"@[1] == 'o');
    assert("not"@[2] == 't');
}

/// Reading back the written spelling of an assignment operator yields it.
#[verifier::rlimit(100)]
#[verifier::spinoff_prover]
pub proof fn lemma_asg_spelling(op: Operator)
    requires
        crate::ast::is_assign_op(op),
    ensures
        cy_asg_op(asg_text(op)) == Some(op),
{
    reveal_strlit("=");
    reveal_strlit("+=");
    reveal_strlit("-=");
    reveal_strlit("*=");
    reveal_strlit("/=");
    reveal_strlit("%=");
    reveal_strlit("^=");
    assert("="@.len() == 1);
    assert("="@[0] == '=');
    assert("+="@.len() == 2);
    assert("+="@[0] == '+');
    assert("+="@[1] == '=');
    assert("-="@.len() == 2);
    assert("-="@[0] == '-');
    assert("-="@[1] == '=');
    assert("*="@.len() == 2);
    assert("*="@[0] == '*');
    assert("*="@[1] == '=');
    assert("/="@.len() == 2);
    assert("/="@[0] == '/');
    assert("/="@[1] == '=');
    assert("%="@.len() == 2);
    assert("%="@[0] == '%');
    assert("%="@[1] == '=');
    assert("^="@.len() == 2);
    assert("^="@[0] == '^');
    assert("^="@[1] == '=');
}

/// A leaf whose written form reads back as itself: number literals are
/// nonnegative (a negative value renders without a usable sign), and
/// each name sits in the namespace its spelling selects.
pub open spec fn faithful_value(v: Value) -> bool
    decreases v,
{
    match v {
        Value::Group(e) => faithful_expr(*e),
        Value::LocalVar(s) => !crate::environment::is_global_name(s@),
        Value::DataField(s) => crate::environment::is_global_name(s@),
        Value::NumberVal(n) => n@ >= 0,
        Value::StringVal(_) => true,
    }
}

/// An expression whose written form reads back as itself: every leaf
/// faithful.
pub open spec fn faithful_expr(e: Expression) -> bool
    decreases e,
{
    match e {
        Expression::BinaryOp(_, l, r) => faithful_expr(*l) && faithful_expr(*r),
        Expression::UnaryOp(_, t) => faithful_expr(*t),
        Expression::Value(v) => faithful_value(v),
    }
}

/// A statement whose written form reads back as itself: no comment (the
/// written form drops them), no empty else branch (an empty branch reads
/// back as no branch), and every expression and target faithful.
pub open spec fn faithful_stat(s: Statement) -> bool
    decreases s,
{
    match s {
        Statement::Comment(_) => false,
        Statement::If(c, body, else_body) => faithful_expr(*c) && faithful_stats(body@) && match else_body {
            Some(eb) => eb@.len() > 0 && faithful_stats(eb@),
            None => true,
        },
        Statement::Goto(e) => faithful_expr(*e),
        Statement::Assignment(target, _, e) => faithful_value(target) && faithful_expr(*e),
        Statement::Expression(e) => faithful_expr(*e),
    }
}

/// A statement list whose written form reads back as itself.
pub open spec fn faithful_stats(ss: Seq<Statement>) -> bool
    decreases ss,
{
    forall|i: int| 0 <= i < ss.len() ==> faithful_stat(#[trigger] ss[i])
}

/// A nonnegative number renders to a numeral that parses back to it.
proof fn lemma_nonneg_render_round_trip(n: int)
    requires
        0 <= n <= i64::MAX,
    ensures
        crate::number::text::parse_num(crate::number::text::render(n)) == Some(n),
{
    let w = n / (crate::number::SCALE as int);
    let d = n % (crate::number::SCALE as int);
    vstd::arithmetic::div_mod::lemma_fundamental_div_mod(n, crate::number::SCALE as int);
    assert(n == (crate::number::SCALE as int) * w + d);
    crate::number::text::lemma_text_round_trip(w, d);
    assert(crate::number::sat64(w * (crate::number::SCALE as int)) == w * (crate::number::SCALE as int));
    assert(crate::number::sat64(crate::number::sat64(w * (crate::number::SCALE as int)) + d) == n);
}

/// Writing an expression out and reading it back rebuilds its shape:
/// the round trip is the identity on well-formed, faithful expressions.
#[verifier::rlimit(100)]
#[verifier::spinoff_prover]
pub proof fn lemma_interchange_expr_round_trip(e: Expression)
    requires
        wf_expr(e),
        faithful_expr(e),
    ensures
        parse_cy_expr(cy_of_expr(expr_v(e))) == Some(expr_v(e)),
    decreases e,
{
    reveal_with_fuel(wf_expr, 3);
    reveal_with_fuel(faithful_expr, 3);
    reveal_with_fuel(expr_v, 3);
    reveal_with_fuel(cy_of_expr, 3);
    reveal_with_fuel(parse_cy_expr, 3);
    match e {
        Expression::BinaryOp(op, l, r) => {
            lemma_bin_spelling(op);
            lemma_interchange_expr_round_trip(*l);
            lemma_interchange_expr_round_trip(*r);
        },
        Expression::UnaryOp(op, t) => {
            lemma_un_spelling(op);
            lemma_interchange_expr_round_trip(*t);
        },
        Expression::Value(v) => {
            match v {
                Value::Group(inner) => {
                    lemma_interchange_expr_round_trip(*inner);
                    assert(cy_of_expr(expr_v(e)) == CyExprV::Group(
                        Box::new(cy_of_expr(expr_v(*inner))),
                    ));
                },
                Value::LocalVar(_) => {},
                Value::DataField(_) => {},
                Value::NumberVal(n) => {
                    crate::number::lemma_number_bounds(n);
                    lemma_nonneg_render_round_trip(n@);
                },
                Value::StringVal(_) => {},
            }
        },
    }
}

/// Writing a statement out and reading it back rebuilds its shape: the
/// round trip is the identity on well-formed, faithful statements.
#[verifier::rlimit(100)]
#[verifier::spinoff_prover]
pub proof fn lemma_interchange_stat_round_trip(s: Statement)
    requires
        wf_stat(s),
        faithful_stat(s),
    ensures
        parse_cy_stat(cy_of_stat(stat_v(s))) == Some(stat_v(s)),
    decreases s, 1int,
{
    match s {
        Statement::Comment(_) => {},
        Statement::If(c, body, else_body) => {
            lemma_interchange_expr_round_trip(*c);
            lemma_interchange_stats_round_trip(body@);
            crate::ast::lemma_stats_v_len(body@);
            match else_body {
                Some(eb) => {
                    lemma_interchange_stats_round_trip(eb@);
                    crate::ast::lemma_stats_v_len(eb@);
                },
                None => {
                    assert(cy_of_stats(Seq::<StatV>::empty()) =~= Seq::<CyStatV>::empty());
                },
            }
        },
        Statement::Goto(e) => {
            lemma_interchange_expr_round_trip(*e);
        },
        Statement::Assignment(target, op, e) => {
            lemma_asg_spelling(op);
            assert(wf_value(target));
            assert(wf_expr(Expression::Value(target)));
            assert(faithful_value(target));
            assert(faithful_expr(Expression::Value(target)));
            lemma_interchange_expr_round_trip(Expression::Value(target));
            lemma_interchange_expr_round_trip(*e);
        },
        Statement::Expression(e) => {
            lemma_interchange_expr_round_trip(*e);
        },
    }
}

/// Writing a statement list out and reading it back rebuilds the shapes
/// of its statements, in order.
#[verifier::rlimit(100)]
#[verifier::spinoff_prover]
pub proof fn lemma_interchange_stats_round_trip(ss: Seq<Statement>)
    requires
        wf_stats(ss),
        faithful_stats(ss),
    ensures
        parse_cy_stats(cy_of_stats(stats_v(ss))) == Some(stats_v(ss)),
    decreases ss, 0int,
{
    if ss.len() > 0 {
        assert(wf_stat(ss[ss.len() - 1]));
        assert(faithful_stat(ss[ss.len() - 1]));
        assert(forall|i: int| 0 <= i < ss.drop_last().len() ==> ss.drop_last()[i] == ss[i]);
        lemma_interchange_stats_round_trip(ss.drop_last());
        lemma_interchange_stat_round_trip(ss.last());
        assert(stats_v(ss) == stats_v(ss.drop_last()).push(stat_v(ss.last())));
        lemma_cy_of_stats_push(stats_v(ss.drop_last()), stat_v(ss.last()));
        assert(!(stat_v(ss.last()) is Comment));
        lemma_parse_cy_stats_push(
            cy_of_stats(stats_v(ss.drop_last())),
            cy_of_stat(stat_v(ss.last())),
        );
    }
}

/// A statement list whose written line form reads back as itself: its
/// statements faithful, except that one final comment with nonempty text
/// may close the line (the comment slot carries and restores it).
pub open spec fn faithful_line(ss: Seq<Statement>) -> bool {
    if ss.len() > 0 && ss.last() is Comment {
        faithful_stats(ss.drop_last()) && (ss.last() matches Statement::Comment(c) && c@.len()
            > 0)
    } else {
        faithful_stats(ss)
    }
}

/// A list without comments leaves the line's comment slot empty.
proof fn lemma_no_comment_empty(ss: Seq<Statement>)
    requires
        faithful_stats(ss),
    ensures
        last_comment(stats_v(ss)).len() == 0,
    decreases ss,
{
    if ss.len() > 0 {
        assert(faithful_stat(ss[ss.len() - 1]));
        assert(forall|i: int| 0 <= i < ss.drop_last().len() ==> ss.drop_last()[i] == ss[i]);
        assert(stats_v(ss).last() == stat_v(ss.last()));
        assert(stats_v(ss).drop_last() =~= stats_v(ss.drop_last()));
        lemma_no_comment_empty(ss.drop_last());
    }
}

/// Writing a line out and reading it back rebuilds the shapes of its
/// statements, a final comment included.
#[verifier::rlimit(100)]
#[verifier::spinoff_prover]
pub proof fn lemma_interchange_line_round_trip(l: Line)
    requires
        wf_stats(l.0@),
        faithful_line(l.0@),
    ensures
        parse_cy_line(last_comment(stats_v(l.0@)), cy_of_stats(stats_v(l.0@))) == Some(
            stats_v(l.0@),
        ),
{
    let ss = l.0@;
    if ss.len() > 0 && ss.last() is Comment {
        let prefix = ss.drop_last();
        assert(wf_stats(prefix)) by {
            assert(forall|i: int| 0 <= i < prefix.len() ==> prefix[i] == ss[i]);
        }
        lemma_interchange_stats_round_trip(prefix);
        assert(stats_v(ss) == stats_v(prefix).push(stat_v(ss.last())));
        assert(stat_v(ss.last()) is Comment);
        lemma_cy_of_stats_push(stats_v(prefix), stat_v(ss.last()));
        lemma_last_comment_push(stats_v(prefix), stat_v(ss.last()));
    } else {
        lemma_interchange_stats_round_trip(ss);
        lemma_no_comment_empty(ss);
    }
}

} // verus!
