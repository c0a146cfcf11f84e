//! The recursive-descent parser: one line's token sequence to its ordered
//! statement list.
//!
//! The top-level loop collects statements until a newline or the end of
//! input; a bare newline ends collection. Multi-character operators are
//! read here from adjacent single-character tokens by two- and three-token
//! lookahead. The expression grammar climbs from logical connectives
//! through equality, relation, addition, multiplication and the
//! right-associative exponent to the postfix factorial, the prefix keyword
//! functions, sign and increment forms, and the primary values.
//!
//! The grammar's meaning is written out by specification functions over
//! the token shapes: [`p_expr`] and the levels below it fix, for every
//! position, the exact tree a parse yields or the error kind, the carried
//! partial tree and the stopping position, and each expression parser is
//! proved to produce exactly that outcome. The statement layer's meaning
//! is written out the same way by [`p_stat`], [`p_if`] and [`p_line`];
//! the statement parsers themselves are proved to keep the token window
//! sound and forward-moving, to consume on success, to answer their
//! leading token, and to build only well-formed trees — operator arity
//! respected in every node.

use vstd::prelude::*;
use crate::ast::{Expression, Operator, Statement, Value, wf_expr, wf_stat, wf_stats, wf_value,
    ExprV, StatV, ValueV, expr_v, stat_v, stats_v, value_v};
use crate::token::TokenV;
use crate::tokenizer::token_views;
use crate::errors::{ExprError, ParseErrorKind, StatError};
use crate::token::Token;
use crate::window::VecWindow;

verus! {

/// The window conditions every parser maintains: soundness, the same
/// items, and a cursor that moved only forward.
pub open spec fn window_steps(
    pre: VecWindow<Token>,
    post: VecWindow<Token>,
) -> bool {
    &&& post.wf()
    &&& post.items() == pre.items()
    &&& pre.pos() <= post.pos()
}


/// What parsing an expression from a position yields: the expression's
/// shape and the position after it, or the error's kind, the dangling
/// partial shape it carries, and the position the parse stopped at.
pub enum PExpr {
    Good(ExprV, int),
    Bad(ParseErrorKind, Option<ExprV>, int),
}

/// The same for one statement.
pub enum PStat {
    Good(StatV, int),
    Bad(ParseErrorKind, Option<StatV>, int),
}

/// The same for a whole line's statement list.
pub enum PLine {
    Good(Seq<StatV>, int),
    Bad(ParseErrorKind, Option<StatV>, int),
}

/// A failed expression parse seen at the statement level: the dangling
/// expression becomes a bare expression statement.
pub open spec fn stat_partial(p: Option<ExprV>) -> Option<StatV> {
    match p {
        Some(e) => Some(StatV::Expr(e)),
        None => None,
    }
}

/// A sub-parse's resulting position, kept between its lower bound and the
/// end of the tokens so the recursion below is well founded. Every parse
/// moves forward within the tokens, so on reachable results this is the
/// identity.
pub open spec fn next_pos(lo: int, j: int, len: int) -> int {
    if j < lo {
        lo
    } else if j > len {
        len
    } else {
        j
    }
}

/// A primary value: a literal, an identifier, a data field, or a
/// parenthesized group.
#[verifier::opaque]
pub open spec fn p_value(ts: Seq<TokenV>, i: int) -> PExpr
    decreases ts.len() - i, 0int
        when 0 <= i <= ts.len()
{
    if i < 0 || i >= ts.len() {
        PExpr::Bad(ParseErrorKind::NoParseRuleMatch, None, i)
    } else {
        match ts[i] {
            TokenV::StringToken(t) => PExpr::Good(ExprV::Leaf(ValueV::Text(t)), i + 1),
            TokenV::YololNum(n) => PExpr::Good(ExprV::Leaf(ValueV::Number(n)), i + 1),
            TokenV::Identifier(n) => PExpr::Good(ExprV::Leaf(ValueV::LocalVar(n)), i + 1),
            TokenV::DataField(n) => PExpr::Good(ExprV::Leaf(ValueV::DataField(n)), i + 1),
            TokenV::LParen => match p_expr(ts, i + 1) {
                PExpr::Bad(k, p, j) => PExpr::Bad(k, p, j),
                PExpr::Good(e, j) => if 0 <= j < ts.len() && ts[j] is RParen {
                    PExpr::Good(ExprV::Leaf(ValueV::Group(Box::new(e))), j + 1)
                } else {
                    PExpr::Bad(ParseErrorKind::UnbalancedParenthesis, Some(e), j)
                },
            },
            _ => PExpr::Bad(ParseErrorKind::NoParseRuleMatch, None, i),
        }
    }
}

/// The increment and decrement forms on an identifier, by three-token
/// lookahead, before the general primary rule.
#[verifier::opaque]
pub open spec fn p_ident(ts: Seq<TokenV>, i: int) -> PExpr
    decreases ts.len() - i, 1int
        when 0 <= i <= ts.len()
{
    if 0 <= i && i + 2 < ts.len() && ts[i] is Identifier && ts[i + 1] is Plus && ts[i + 2]
        is Plus {
        PExpr::Good(
            ExprV::Unary(
                Operator::PostInc,
                Box::new(ExprV::Leaf(ValueV::LocalVar(ts[i]->Identifier_0))),
            ),
            i + 3,
        )
    } else if 0 <= i && i + 2 < ts.len() && ts[i] is Identifier && ts[i + 1] is Minus && ts[i + 2]
        is Minus {
        PExpr::Good(
            ExprV::Unary(
                Operator::PostDec,
                Box::new(ExprV::Leaf(ValueV::LocalVar(ts[i]->Identifier_0))),
            ),
            i + 3,
        )
    } else if 0 <= i && i + 2 < ts.len() && ts[i] is Plus && ts[i + 1] is Plus && ts[i + 2]
        is Identifier {
        PExpr::Good(
            ExprV::Unary(
                Operator::PreInc,
                Box::new(ExprV::Leaf(ValueV::LocalVar(ts[i + 2]->Identifier_0))),
            ),
            i + 3,
        )
    } else if 0 <= i && i + 2 < ts.len() && ts[i] is Minus && ts[i + 1] is Minus && ts[i + 2]
        is Identifier {
        PExpr::Good(
            ExprV::Unary(
                Operator::PreDec,
                Box::new(ExprV::Leaf(ValueV::LocalVar(ts[i + 2]->Identifier_0))),
            ),
            i + 3,
        )
    } else {
        p_value(ts, i)
    }
}

/// The unary sign, recursing so signs stack; it steps in only where the
/// rule below matched nothing at all.
#[verifier::opaque]
pub open spec fn p_neg(ts: Seq<TokenV>, i: int) -> PExpr
    decreases ts.len() - i, 2int
        when 0 <= i <= ts.len()
{
    match p_ident(ts, i) {
        PExpr::Bad(ParseErrorKind::NoParseRuleMatch, _, j) => {
            let j2 = next_pos(i, j, ts.len() as int);
            if j2 < ts.len() && ts[j2] is Minus {
                match p_neg(ts, j2 + 1) {
                    PExpr::Good(e, k) => PExpr::Good(
                        ExprV::Unary(Operator::Negate, Box::new(e)),
                        k,
                    ),
                    PExpr::Bad(k2, p, k3) => PExpr::Bad(k2, p, k3),
                }
            } else {
                PExpr::Bad(ParseErrorKind::NoParseRuleMatch, None, j2)
            }
        },
        other => other,
    }
}

/// The keyword a prefix-function token stands for.
pub open spec fn keyword_un_op(t: TokenV) -> Option<Operator> {
    match t {
        TokenV::Abs => Some(Operator::Abs),
        TokenV::Sqrt => Some(Operator::Sqrt),
        TokenV::Sin => Some(Operator::Sin),
        TokenV::Cos => Some(Operator::Cos),
        TokenV::Tan => Some(Operator::Tan),
        TokenV::Arcsin => Some(Operator::Arcsin),
        TokenV::Arccos => Some(Operator::Arccos),
        TokenV::Arctan => Some(Operator::Arctan),
        TokenV::Not => Some(Operator::Not),
        _ => None,
    }
}

/// The prefix keyword functions, recursing at their own level so they
/// stack; they step in only where the rule below matched nothing at all.
#[verifier::opaque]
pub open spec fn p_keyword(ts: Seq<TokenV>, i: int) -> PExpr
    decreases ts.len() - i, 3int
        when 0 <= i <= ts.len()
{
    match p_neg(ts, i) {
        PExpr::Bad(ParseErrorKind::NoParseRuleMatch, _, j) => {
            let j2 = next_pos(i, j, ts.len() as int);
            if j2 < ts.len() && keyword_un_op(ts[j2]) is Some {
                match p_keyword(ts, j2 + 1) {
                    PExpr::Good(e, k) => PExpr::Good(
                        ExprV::Unary(keyword_un_op(ts[j2])->Some_0, Box::new(e)),
                        k,
                    ),
                    PExpr::Bad(k2, p, k3) => PExpr::Bad(k2, p, k3),
                }
            } else {
                PExpr::Bad(ParseErrorKind::NoParseRuleMatch, None, j2)
            }
        },
        other => other,
    }
}

/// The postfix factorial, stacking left to right.
#[verifier::opaque]
pub open spec fn ext_fact(ts: Seq<TokenV>, acc: ExprV, i: int) -> PExpr
    decreases ts.len() - i, 4int
        when 0 <= i <= ts.len()
{
    if 0 <= i && i < ts.len() && ts[i] is Exclam {
        ext_fact(ts, ExprV::Unary(Operator::Fact, Box::new(acc)), i + 1)
    } else {
        PExpr::Good(acc, i)
    }
}

/// The postfix level.
#[verifier::opaque]
pub open spec fn p_postfix(ts: Seq<TokenV>, i: int) -> PExpr
    decreases ts.len() - i, 5int
        when 0 <= i <= ts.len()
{
    match p_keyword(ts, i) {
        PExpr::Good(e, j) => ext_fact(ts, e, next_pos(i, j, ts.len() as int)),
        bad => bad,
    }
}

/// The exponent, right-associative by direct recursion; an error in the
/// right operand passes through unchanged.
#[verifier::opaque]
pub open spec fn p_exponent(ts: Seq<TokenV>, i: int) -> PExpr
    decreases ts.len() - i, 6int
        when 0 <= i <= ts.len()
{
    match p_postfix(ts, i) {
        PExpr::Good(e, j) => {
            let j2 = next_pos(i, j, ts.len() as int);
            if j2 < ts.len() && ts[j2] is Caret {
                match p_exponent(ts, j2 + 1) {
                    PExpr::Good(r, k) => PExpr::Good(
                        ExprV::Binary(Operator::Pow, Box::new(e), Box::new(r)),
                        k,
                    ),
                    bad => bad,
                }
            } else {
                PExpr::Good(e, j2)
            }
        },
        bad => bad,
    }
}

/// The multiplicative operator a token stands for.
pub open spec fn mul_op(t: TokenV) -> Option<Operator> {
    match t {
        TokenV::Slash => Some(Operator::Div),
        TokenV::Star => Some(Operator::Mul),
        TokenV::Percent => Some(Operator::Mod),
        _ => None,
    }
}

/// Left-associative extension at the multiplicative level; a failing
/// right operand becomes the no-extension error carrying the left tree.
#[verifier::opaque]
pub open spec fn ext_mul(ts: Seq<TokenV>, acc: ExprV, i: int) -> PExpr
    decreases ts.len() - i, 7int
        when 0 <= i <= ts.len()
{
    if 0 <= i && i < ts.len() && mul_op(ts[i]) is Some {
        match p_exponent(ts, i + 1) {
            PExpr::Good(r, j) => ext_mul(
                ts,
                ExprV::Binary(mul_op(ts[i])->Some_0, Box::new(acc), Box::new(r)),
                next_pos(i + 1, j, ts.len() as int),
            ),
            PExpr::Bad(_, _, j) => PExpr::Bad(
                ParseErrorKind::NoExtensionAvailable,
                Some(acc),
                j,
            ),
        }
    } else {
        PExpr::Good(acc, i)
    }
}

/// The multiplicative level.
#[verifier::opaque]
pub open spec fn p_mul(ts: Seq<TokenV>, i: int) -> PExpr
    decreases ts.len() - i, 8int
        when 0 <= i <= ts.len()
{
    match p_exponent(ts, i) {
        PExpr::Good(e, j) => ext_mul(ts, e, next_pos(i, j, ts.len() as int)),
        bad => bad,
    }
}

/// The additive operator a token stands for.
pub open spec fn add_op(t: TokenV) -> Option<Operator> {
    match t {
        TokenV::Plus => Some(Operator::Add),
        TokenV::Minus => Some(Operator::Sub),
        _ => None,
    }
}

/// Left-associative extension at the additive level.
#[verifier::opaque]
pub open spec fn ext_add(ts: Seq<TokenV>, acc: ExprV, i: int) -> PExpr
    decreases ts.len() - i, 9int
        when 0 <= i <= ts.len()
{
    if 0 <= i && i < ts.len() && add_op(ts[i]) is Some {
        match p_mul(ts, i + 1) {
            PExpr::Good(r, j) => ext_add(
                ts,
                ExprV::Binary(add_op(ts[i])->Some_0, Box::new(acc), Box::new(r)),
                next_pos(i + 1, j, ts.len() as int),
            ),
            PExpr::Bad(_, _, j) => PExpr::Bad(
                ParseErrorKind::NoExtensionAvailable,
                Some(acc),
                j,
            ),
        }
    } else {
        PExpr::Good(acc, i)
    }
}

/// The additive level.
#[verifier::opaque]
pub open spec fn p_add(ts: Seq<TokenV>, i: int) -> PExpr
    decreases ts.len() - i, 10int
        when 0 <= i <= ts.len()
{
    match p_mul(ts, i) {
        PExpr::Good(e, j) => ext_add(ts, e, next_pos(i, j, ts.len() as int)),
        bad => bad,
    }
}

/// The relational operator one or two adjacent tokens stand for, with how
/// many tokens it takes.
pub open spec fn ord_op(ts: Seq<TokenV>, i: int) -> Option<(Operator, int)> {
    if 0 <= i && i + 1 < ts.len() && ts[i] is LAngleBrak && ts[i + 1] is Equal {
        Some((Operator::LesserEq, 2))
    } else if 0 <= i && i + 1 < ts.len() && ts[i] is RAngleBrak && ts[i + 1] is Equal {
        Some((Operator::GreaterEq, 2))
    } else if 0 <= i && i < ts.len() && ts[i] is LAngleBrak {
        Some((Operator::Lesser, 1))
    } else if 0 <= i && i < ts.len() && ts[i] is RAngleBrak {
        Some((Operator::Greater, 1))
    } else {
        None
    }
}

/// Left-associative extension at the relational level.
#[verifier::opaque]
pub open spec fn ext_ord(ts: Seq<TokenV>, acc: ExprV, i: int) -> PExpr
    decreases ts.len() - i, 11int
        when 0 <= i <= ts.len()
{
    match ord_op(ts, i) {
        Some((op, w)) => match p_add(ts, i + w) {
            PExpr::Good(r, j) => ext_ord(
                ts,
                ExprV::Binary(op, Box::new(acc), Box::new(r)),
                next_pos(i + 1, j, ts.len() as int),
            ),
            PExpr::Bad(_, _, j) => PExpr::Bad(
                ParseErrorKind::NoExtensionAvailable,
                Some(acc),
                j,
            ),
        },
        None => PExpr::Good(acc, i),
    }
}

/// The relational level.
#[verifier::opaque]
pub open spec fn p_ord(ts: Seq<TokenV>, i: int) -> PExpr
    decreases ts.len() - i, 12int
        when 0 <= i <= ts.len()
{
    match p_add(ts, i) {
        PExpr::Good(e, j) => ext_ord(ts, e, next_pos(i, j, ts.len() as int)),
        bad => bad,
    }
}

/// The equality operator two adjacent tokens stand for.
pub open spec fn eq_op(ts: Seq<TokenV>, i: int) -> Option<Operator> {
    if 0 <= i && i + 1 < ts.len() && ts[i] is Equal && ts[i + 1] is Equal {
        Some(Operator::Equal)
    } else if 0 <= i && i + 1 < ts.len() && ts[i] is Exclam && ts[i + 1] is Equal {
        Some(Operator::NotEqual)
    } else {
        None
    }
}

/// Left-associative extension at the equality level; both spellings take
/// two adjacent tokens.
#[verifier::opaque]
pub open spec fn ext_eq(ts: Seq<TokenV>, acc: ExprV, i: int) -> PExpr
    decreases ts.len() - i, 13int
        when 0 <= i <= ts.len()
{
    match eq_op(ts, i) {
        Some(op) => match p_ord(ts, i + 2) {
            PExpr::Good(r, j) => ext_eq(
                ts,
                ExprV::Binary(op, Box::new(acc), Box::new(r)),
                next_pos(i + 1, j, ts.len() as int),
            ),
            PExpr::Bad(_, _, j) => PExpr::Bad(
                ParseErrorKind::NoExtensionAvailable,
                Some(acc),
                j,
            ),
        },
        None => PExpr::Good(acc, i),
    }
}

/// The equality level.
#[verifier::opaque]
pub open spec fn p_eq(ts: Seq<TokenV>, i: int) -> PExpr
    decreases ts.len() - i, 14int
        when 0 <= i <= ts.len()
{
    match p_ord(ts, i) {
        PExpr::Good(e, j) => ext_eq(ts, e, next_pos(i, j, ts.len() as int)),
        bad => bad,
    }
}

/// Left-associative extension at the logical-or level.
#[verifier::opaque]
pub open spec fn ext_or(ts: Seq<TokenV>, acc: ExprV, i: int) -> PExpr
    decreases ts.len() - i, 17int
        when 0 <= i <= ts.len()
{
    if 0 <= i && i < ts.len() && ts[i] is Or {
        match p_and(ts, i + 1) {
            PExpr::Good(r, j) => ext_or(
                ts,
                ExprV::Binary(Operator::Or, Box::new(acc), Box::new(r)),
                next_pos(i + 1, j, ts.len() as int),
            ),
            PExpr::Bad(_, _, j) => PExpr::Bad(
                ParseErrorKind::NoExtensionAvailable,
                Some(acc),
                j,
            ),
        }
    } else {
        PExpr::Good(acc, i)
    }
}

/// The logical-or level.
#[verifier::opaque]
pub open spec fn p_or(ts: Seq<TokenV>, i: int) -> PExpr
    decreases ts.len() - i, 18int
        when 0 <= i <= ts.len()
{
    match p_and(ts, i) {
        PExpr::Good(e, j) => ext_or(ts, e, next_pos(i, j, ts.len() as int)),
        bad => bad,
    }
}

/// Left-associative extension at the logical-and level.
#[verifier::opaque]
pub open spec fn ext_and(ts: Seq<TokenV>, acc: ExprV, i: int) -> PExpr
    decreases ts.len() - i, 15int
        when 0 <= i <= ts.len()
{
    if 0 <= i && i < ts.len() && ts[i] is And {
        match p_eq(ts, i + 1) {
            PExpr::Good(r, j) => ext_and(
                ts,
                ExprV::Binary(Operator::And, Box::new(acc), Box::new(r)),
                next_pos(i + 1, j, ts.len() as int),
            ),
            PExpr::Bad(_, _, j) => PExpr::Bad(
                ParseErrorKind::NoExtensionAvailable,
                Some(acc),
                j,
            ),
        }
    } else {
        PExpr::Good(acc, i)
    }
}

/// The logical-and level, the expression grammar's lowest.
#[verifier::opaque]
pub open spec fn p_and(ts: Seq<TokenV>, i: int) -> PExpr
    decreases ts.len() - i, 16int
        when 0 <= i <= ts.len()
{
    match p_eq(ts, i) {
        PExpr::Good(e, j) => ext_and(ts, e, next_pos(i, j, ts.len() as int)),
        bad => bad,
    }
}

/// One whole expression.
#[verifier::opaque]
pub open spec fn p_expr(ts: Seq<TokenV>, i: int) -> PExpr
    decreases ts.len() - i, 19int
        when 0 <= i <= ts.len()
{
    p_or(ts, i)
}

/// The compound-assignment operator two adjacent tokens stand for.
pub open spec fn compound_op(ts: Seq<TokenV>, i: int) -> Option<Operator> {
    if !(0 <= i && i + 1 < ts.len()) {
        None
    } else if ts[i] is Plus && ts[i + 1] is Equal {
        Some(Operator::AddAssign)
    } else if ts[i] is Minus && ts[i + 1] is Equal {
        Some(Operator::SubAssign)
    } else if ts[i] is Star && ts[i + 1] is Equal {
        Some(Operator::MulAssign)
    } else if ts[i] is Slash && ts[i + 1] is Equal {
        Some(Operator::DivAssign)
    } else if ts[i] is Percent && ts[i + 1] is Equal {
        Some(Operator::ModAssign)
    } else if ts[i] is Caret && ts[i + 1] is Equal {
        Some(Operator::PowAssign)
    } else {
        None
    }
}

/// Whether a plain assignment starts here: `=` not followed by a second
/// `=`, so that equality keeps its spelling.
pub open spec fn plain_assign_at(ts: Seq<TokenV>, i: int) -> bool {
    0 <= i && i < ts.len() && ts[i] is Equal && (i + 1 >= ts.len() || !(ts[i + 1] is Equal))
}

/// The assignment target a leading token stands for.
pub open spec fn assign_target(t: TokenV) -> Option<ValueV> {
    match t {
        TokenV::Identifier(n) => Some(ValueV::LocalVar(n)),
        TokenV::DataField(n) => Some(ValueV::DataField(n)),
        _ => None,
    }
}

/// One statement: a comment, a goto, a conditional, an assignment found
/// by two- or three-token lookahead, or a bare expression.
#[verifier::opaque]
pub open spec fn p_stat(ts: Seq<TokenV>, i: int) -> PStat
    decreases ts.len() - i, 21int
        when 0 <= i <= ts.len()
{
    if 0 <= i && i < ts.len() && ts[i] is Comment {
        PStat::Good(StatV::Comment(ts[i]->Comment_0), i + 1)
    } else if 0 <= i && i < ts.len() && ts[i] is Goto {
        match p_expr(ts, i + 1) {
            PExpr::Good(e, j) => PStat::Good(StatV::Goto(e), j),
            PExpr::Bad(k, p, j) => PStat::Bad(k, stat_partial(p), j),
        }
    } else if 0 <= i && i < ts.len() && ts[i] is If {
        p_if(ts, i + 1)
    } else if 0 <= i && i < ts.len() && assign_target(ts[i]) is Some && compound_op(ts, i + 1)
        is Some {
        match p_expr(ts, i + 3) {
            PExpr::Good(e, j) => PStat::Good(
                StatV::Assignment(assign_target(ts[i])->Some_0, compound_op(ts, i + 1)->Some_0, e),
                j,
            ),
            PExpr::Bad(k, p, j) => PStat::Bad(k, stat_partial(p), j),
        }
    } else if 0 <= i && i < ts.len() && assign_target(ts[i]) is Some && plain_assign_at(
        ts,
        i + 1,
    ) {
        match p_expr(ts, i + 2) {
            PExpr::Good(e, j) => PStat::Good(
                StatV::Assignment(assign_target(ts[i])->Some_0, Operator::Assign, e),
                j,
            ),
            PExpr::Bad(k, p, j) => PStat::Bad(k, stat_partial(p), j),
        }
    } else {
        match p_expr(ts, i) {
            PExpr::Good(e, j) => PStat::Good(StatV::Expr(e), j),
            PExpr::Bad(k, p, j) => PStat::Bad(k, stat_partial(p), j),
        }
    }
}

/// The rest of a conditional after its `if` token: the condition, a
/// required `then`, and the bodies to the closing `end`.
#[verifier::opaque]
pub open spec fn p_if(ts: Seq<TokenV>, i: int) -> PStat
    decreases ts.len() - i, 20int
        when 0 <= i <= ts.len()
{
    match p_expr(ts, i) {
        PExpr::Bad(k, p, j) => PStat::Bad(k, stat_partial(p), j),
        PExpr::Good(cond, j) => {
            let j2 = next_pos(i, j, ts.len() as int);
            if j2 < ts.len() && ts[j2] is Then {
                p_if_tail(ts, cond, Seq::<StatV>::empty(), Seq::<StatV>::empty(), false, j2 + 1)
            } else {
                PStat::Bad(ParseErrorKind::NoExtensionAvailable, None, j2)
            }
        },
    }
}

/// The conditional's bodies: statements collect into the branch the last
/// `else` selected, until `end` or the input runs out; a second `else` is
/// its own error carrying the conditional built so far.
#[verifier::opaque]
pub open spec fn p_if_tail(
    ts: Seq<TokenV>,
    cond: ExprV,
    body: Seq<StatV>,
    els: Seq<StatV>,
    in_else: bool,
    i: int,
) -> PStat
    decreases ts.len() - i, 22int
        when 0 <= i <= ts.len()
{
    if !(0 <= i && i < ts.len()) {
        PStat::Good(assemble_if(cond, body, els), i)
    } else if ts[i] is Else {
        if in_else {
            PStat::Bad(
                ParseErrorKind::RepeatedElseTokens,
                Some(StatV::If(cond, body, Some(els))),
                i,
            )
        } else {
            p_if_tail(ts, cond, body, els, true, i + 1)
        }
    } else if ts[i] is End {
        PStat::Good(assemble_if(cond, body, els), i + 1)
    } else {
        match p_stat(ts, i) {
            PStat::Bad(k, p, j) => PStat::Bad(k, p, j),
            PStat::Good(s, j) => if in_else {
                p_if_tail(ts, cond, body, els.push(s), in_else, next_pos(i + 1, j, ts.len() as int))
            } else {
                p_if_tail(ts, cond, body.push(s), els, in_else, next_pos(i + 1, j, ts.len() as int))
            },
        }
    }
}

/// A finished conditional: the else branch is present exactly when it
/// collected a statement.
pub open spec fn assemble_if(cond: ExprV, body: Seq<StatV>, els: Seq<StatV>) -> StatV {
    StatV::If(
        cond,
        body,
        if els.len() > 0 {
            Some(els)
        } else {
            None
        },
    )
}

/// One line's statements: they collect in source order until a bare
/// newline (consumed) or the end of input, and the first failing
/// statement's error is the line's.
#[verifier::opaque]
pub open spec fn p_line(ts: Seq<TokenV>, i: int) -> PLine
    decreases ts.len() - i, 23int
        when 0 <= i <= ts.len()
{
    if !(0 <= i && i < ts.len()) {
        PLine::Good(Seq::<StatV>::empty(), i)
    } else if ts[i] is Newline {
        PLine::Good(Seq::<StatV>::empty(), i + 1)
    } else {
        match p_stat(ts, i) {
            PStat::Bad(k, p, j) => PLine::Bad(k, p, j),
            PStat::Good(s, j) => match p_line(ts, next_pos(i + 1, j, ts.len() as int)) {
                PLine::Good(rest, k) => PLine::Good(seq![s] + rest, k),
                PLine::Bad(k2, p, k3) => PLine::Bad(k2, p, k3),
            },
        }
    }
}

/// How an expression parse's outcome shows in an evaluator result and the
/// window it leaves behind.
pub open spec fn expr_outcome(
    out: PExpr,
    r: Result<Expression, ExprError>,
    w: VecWindow<Token>,
) -> bool {
    match out {
        PExpr::Good(ev, j) => (r matches Ok(e) && expr_v(e) == ev) && w.pos() == j,
        PExpr::Bad(k, pv, j) => (r matches Err(err) && err.kind == k && opt_expr_v(
            err.input_expr,
        ) == pv) && w.pos() == j,
    }
}

/// How a primary-value parse's outcome shows in its result and window:
/// the mirror wraps the leaf into its expression shape.
pub open spec fn value_outcome(
    out: PExpr,
    r: Result<Value, ExprError>,
    w: VecWindow<Token>,
) -> bool {
    match out {
        PExpr::Good(ev, j) => (r matches Ok(v) && ExprV::Leaf(value_v(v)) == ev) && w.pos() == j,
        PExpr::Bad(k, pv, j) => (r matches Err(err) && err.kind == k && opt_expr_v(
            err.input_expr,
        ) == pv) && w.pos() == j,
    }
}

/// The token shapes of a sequence, one by one.
pub proof fn lemma_view_at(items: Seq<Token>, i: int)
    requires
        0 <= i < items.len(),
    ensures
        token_views(items)[i] == items[i]@,
{
    reveal(token_views);
}

/// A token sequence and its shapes have the same length.
pub proof fn lemma_views_len(items: Seq<Token>)
    ensures
        token_views(items).len() == items.len(),
{
    reveal(token_views);
}


/// Entry into the p_and level: a failing lower parse passes through.
#[verifier::rlimit(100)]
#[verifier::spinoff_prover]
proof fn lemma_p_and_err(ts: Seq<TokenV>, i: int)
    requires
        0 <= i <= ts.len(),
        p_eq(ts, i) is Bad,
    ensures
        p_and(ts, i) == p_eq(ts, i),
{
    reveal_with_fuel(p_and, 2);
}

/// Entry into the p_and level: a successful lower parse hands its tree to
/// the extension.
#[verifier::rlimit(100)]
#[verifier::spinoff_prover]
proof fn lemma_p_and_good(ts: Seq<TokenV>, i: int, e: ExprV, j: int)
    requires
        0 <= i <= ts.len(),
        p_eq(ts, i) == PExpr::Good(e, j),
        i <= j <= ts.len(),
    ensures
        p_and(ts, i) == ext_and(ts, e, j),
{
    reveal(p_and);
}

/// Entry into the p_or level: a failing lower parse passes through.
#[verifier::rlimit(100)]
#[verifier::spinoff_prover]
proof fn lemma_p_or_err(ts: Seq<TokenV>, i: int)
    requires
        0 <= i <= ts.len(),
        p_and(ts, i) is Bad,
    ensures
        p_or(ts, i) == p_and(ts, i),
{
    reveal_with_fuel(p_or, 2);
}

/// Entry into the p_or level: a successful lower parse hands its tree to
/// the extension.
#[verifier::rlimit(100)]
#[verifier::spinoff_prover]
proof fn lemma_p_or_good(ts: Seq<TokenV>, i: int, e: ExprV, j: int)
    requires
        0 <= i <= ts.len(),
        p_and(ts, i) == PExpr::Good(e, j),
        i <= j <= ts.len(),
    ensures
        p_or(ts, i) == ext_or(ts, e, j),
{
    reveal(p_or);
}

/// Entry into the p_eq level: a failing lower parse passes through.
#[verifier::rlimit(100)]
#[verifier::spinoff_prover]
proof fn lemma_p_eq_err(ts: Seq<TokenV>, i: int)
    requires
        0 <= i <= ts.len(),
        p_ord(ts, i) is Bad,
    ensures
        p_eq(ts, i) == p_ord(ts, i),
{
    reveal_with_fuel(p_eq, 2);
}

/// Entry into the p_eq level: a successful lower parse hands its tree to
/// the extension.
#[verifier::rlimit(100)]
#[verifier::spinoff_prover]
proof fn lemma_p_eq_good(ts: Seq<TokenV>, i: int, e: ExprV, j: int)
    requires
        0 <= i <= ts.len(),
        p_ord(ts, i) == PExpr::Good(e, j),
        i <= j <= ts.len(),
    ensures
        p_eq(ts, i) == ext_eq(ts, e, j),
{
    reveal(p_eq);
}

/// Entry into the p_ord level: a failing lower parse passes through.
#[verifier::rlimit(100)]
#[verifier::spinoff_prover]
proof fn lemma_p_ord_err(ts: Seq<TokenV>, i: int)
    requires
        0 <= i <= ts.len(),
        p_add(ts, i) is Bad,
    ensures
        p_ord(ts, i) == p_add(ts, i),
{
    reveal_with_fuel(p_ord, 2);
}

/// Entry into the p_ord level: a successful lower parse hands its tree to
/// the extension.
#[verifier::rlimit(100)]
#[verifier::spinoff_prover]
proof fn lemma_p_ord_good(ts: Seq<TokenV>, i: int, e: ExprV, j: int)
    requires
        0 <= i <= ts.len(),
        p_add(ts, i) == PExpr::Good(e, j),
        i <= j <= ts.len(),
    ensures
        p_ord(ts, i) == ext_ord(ts, e, j),
{
    reveal(p_ord);
}

/// Entry into the p_add level: a failing lower parse passes through.
#[verifier::rlimit(100)]
#[verifier::spinoff_prover]
proof fn lemma_p_add_err(ts: Seq<TokenV>, i: int)
    requires
        0 <= i <= ts.len(),
        p_mul(ts, i) is Bad,
    ensures
        p_add(ts, i) == p_mul(ts, i),
{
    reveal(p_add);
}

/// Entry into the p_add level: a successful lower parse hands its tree to
/// the extension.
#[verifier::rlimit(100)]
#[verifier::spinoff_prover]
proof fn lemma_p_add_good(ts: Seq<TokenV>, i: int, e: ExprV, j: int)
    requires
        0 <= i <= ts.len(),
        p_mul(ts, i) == PExpr::Good(e, j),
        i <= j <= ts.len(),
    ensures
        p_add(ts, i) == ext_add(ts, e, j),
{
    reveal(p_add);
}

/// Entry into the p_mul level: a failing lower parse passes through.
#[verifier::rlimit(100)]
#[verifier::spinoff_prover]
proof fn lemma_p_mul_err(ts: Seq<TokenV>, i: int)
    requires
        0 <= i <= ts.len(),
        p_exponent(ts, i) is Bad,
    ensures
        p_mul(ts, i) == p_exponent(ts, i),
{
    reveal(p_mul);
}

/// Entry into the p_mul level: a successful lower parse hands its tree to
/// the extension.
#[verifier::rlimit(100)]
#[verifier::spinoff_prover]
proof fn lemma_p_mul_good(ts: Seq<TokenV>, i: int, e: ExprV, j: int)
    requires
        0 <= i <= ts.len(),
        p_exponent(ts, i) == PExpr::Good(e, j),
        i <= j <= ts.len(),
    ensures
        p_mul(ts, i) == ext_mul(ts, e, j),
{
    reveal(p_mul);
}

/// Entry into the p_postfix level: a failing lower parse passes through.
#[verifier::rlimit(100)]
#[verifier::spinoff_prover]
proof fn lemma_p_postfix_err(ts: Seq<TokenV>, i: int)
    requires
        0 <= i <= ts.len(),
        p_keyword(ts, i) is Bad,
    ensures
        p_postfix(ts, i) == p_keyword(ts, i),
{
    reveal(p_postfix);
}

/// Entry into the p_postfix level: a successful lower parse hands its tree to
/// the extension.
#[verifier::rlimit(100)]
#[verifier::spinoff_prover]
proof fn lemma_p_postfix_good(ts: Seq<TokenV>, i: int, e: ExprV, j: int)
    requires
        0 <= i <= ts.len(),
        p_keyword(ts, i) == PExpr::Good(e, j),
        i <= j <= ts.len(),
    ensures
        p_postfix(ts, i) == ext_fact(ts, e, j),
{
    reveal(p_postfix);
}

/// The ext_add extension stops where no operator stands.
#[verifier::rlimit(100)]
#[verifier::spinoff_prover]
proof fn lemma_ext_add_stop(ts: Seq<TokenV>, acc: ExprV, i: int)
    requires
        0 <= i <= ts.len(),
        !(0 <= i && i < ts.len() && add_op(ts[i]) is Some),
    ensures
        ext_add(ts, acc, i) == PExpr::Good(acc, i),
{
    reveal(ext_add);
}

/// The ext_add extension takes one step over its operator.
#[verifier::rlimit(100)]
#[verifier::spinoff_prover]
proof fn lemma_ext_add_step(ts: Seq<TokenV>, acc: ExprV, i: int, r: ExprV, j: int)
    requires
        0 <= i <= ts.len(),
        0 <= i && i < ts.len() && add_op(ts[i]) is Some,
        p_mul(ts, i + 1) == PExpr::Good(r, j),
        i + 1 <= j <= ts.len(),
    ensures
        ext_add(ts, acc, i) == ext_add(
            ts,
            ExprV::Binary(add_op(ts[i])->Some_0, Box::new(acc), Box::new(r)),
            j,
        ),
{
    reveal(ext_add);
}

/// A failing right operand turns the ext_add extension into the no-extension
/// error carrying the left tree.
#[verifier::rlimit(100)]
#[verifier::spinoff_prover]
proof fn lemma_ext_add_fail(ts: Seq<TokenV>, acc: ExprV, i: int, k: ParseErrorKind, pv: Option<
    ExprV,
>, j: int)
    requires
        0 <= i <= ts.len(),
        0 <= i && i < ts.len() && add_op(ts[i]) is Some,
        p_mul(ts, i + 1) == PExpr::Bad(k, pv, j),
    ensures
        ext_add(ts, acc, i) == PExpr::Bad(ParseErrorKind::NoExtensionAvailable, Some(acc), j),
{
    reveal(ext_add);
}

/// The ext_mul extension stops where no operator stands.
#[verifier::rlimit(100)]
#[verifier::spinoff_prover]
proof fn lemma_ext_mul_stop(ts: Seq<TokenV>, acc: ExprV, i: int)
    requires
        0 <= i <= ts.len(),
        !(0 <= i && i < ts.len() && mul_op(ts[i]) is Some),
    ensures
        ext_mul(ts, acc, i) == PExpr::Good(acc, i),
{
    reveal(ext_mul);
}

/// The ext_mul extension takes one step over its operator.
#[verifier::rlimit(100)]
#[verifier::spinoff_prover]
proof fn lemma_ext_mul_step(ts: Seq<TokenV>, acc: ExprV, i: int, r: ExprV, j: int)
    requires
        0 <= i <= ts.len(),
        0 <= i && i < ts.len() && mul_op(ts[i]) is Some,
        p_exponent(ts, i + 1) == PExpr::Good(r, j),
        i + 1 <= j <= ts.len(),
    ensures
        ext_mul(ts, acc, i) == ext_mul(
            ts,
            ExprV::Binary(mul_op(ts[i])->Some_0, Box::new(acc), Box::new(r)),
            j,
        ),
{
    reveal(ext_mul);
}

/// A failing right operand turns the ext_mul extension into the no-extension
/// error carrying the left tree.
#[verifier::rlimit(100)]
#[verifier::spinoff_prover]
proof fn lemma_ext_mul_fail(ts: Seq<TokenV>, acc: ExprV, i: int, k: ParseErrorKind, pv: Option<
    ExprV,
>, j: int)
    requires
        0 <= i <= ts.len(),
        0 <= i && i < ts.len() && mul_op(ts[i]) is Some,
        p_exponent(ts, i + 1) == PExpr::Bad(k, pv, j),
    ensures
        ext_mul(ts, acc, i) == PExpr::Bad(ParseErrorKind::NoExtensionAvailable, Some(acc), j),
{
    reveal(ext_mul);
}


/// The logical-and extension stops where no `and` stands.
#[verifier::rlimit(100)]
#[verifier::spinoff_prover]
proof fn lemma_ext_and_stop(ts: Seq<TokenV>, acc: ExprV, i: int)
    requires
        0 <= i <= ts.len(),
        !(0 <= i && i < ts.len() && ts[i] is And),
    ensures
        ext_and(ts, acc, i) == PExpr::Good(acc, i),
{
    reveal(ext_and);
}

/// The logical-and extension takes one step over its operator.
#[verifier::rlimit(100)]
#[verifier::spinoff_prover]
proof fn lemma_ext_and_step(ts: Seq<TokenV>, acc: ExprV, i: int, r: ExprV, j: int)
    requires
        0 <= i <= ts.len(),
        0 <= i && i < ts.len() && ts[i] is And,
        p_eq(ts, i + 1) == PExpr::Good(r, j),
        i + 1 <= j <= ts.len(),
    ensures
        ext_and(ts, acc, i) == ext_and(
            ts,
            ExprV::Binary(Operator::And, Box::new(acc), Box::new(r)),
            j,
        ),
{
    reveal(ext_and);
}

/// A failing right operand turns the logical-and extension into the
/// no-extension error carrying the left tree.
#[verifier::rlimit(100)]
#[verifier::spinoff_prover]
proof fn lemma_ext_and_fail(ts: Seq<TokenV>, acc: ExprV, i: int, k: ParseErrorKind, pv: Option<
    ExprV,
>, j: int)
    requires
        0 <= i <= ts.len(),
        0 <= i && i < ts.len() && ts[i] is And,
        p_eq(ts, i + 1) == PExpr::Bad(k, pv, j),
    ensures
        ext_and(ts, acc, i) == PExpr::Bad(ParseErrorKind::NoExtensionAvailable, Some(acc), j),
{
    reveal(ext_and);
}


/// The logical-or extension stops where no `or` stands.
#[verifier::rlimit(100)]
proof fn lemma_ext_or_stop(ts: Seq<TokenV>, acc: ExprV, i: int)
    requires
        0 <= i <= ts.len(),
        !(i < ts.len() && ts[i] is Or),
    ensures
        ext_or(ts, acc, i) == PExpr::Good(acc, i),
{
    reveal(ext_or);
}

/// The logical-or extension takes one step over its operator.
#[verifier::rlimit(100)]
#[verifier::spinoff_prover]
proof fn lemma_ext_or_step(ts: Seq<TokenV>, acc: ExprV, i: int, r: ExprV, j: int)
    requires
        0 <= i < ts.len() && ts[i] is Or,
        p_and(ts, i + 1) == PExpr::Good(r, j),
        i + 1 <= j <= ts.len(),
    ensures
        ext_or(ts, acc, i) == ext_or(
            ts,
            ExprV::Binary(Operator::Or, Box::new(acc), Box::new(r)),
            j,
        ),
{
    reveal(ext_or);
}

/// A failing right operand turns the logical-or extension into the
/// no-extension error carrying the left tree.
#[verifier::rlimit(100)]
#[verifier::spinoff_prover]
proof fn lemma_ext_or_fail(ts: Seq<TokenV>, acc: ExprV, i: int, k: ParseErrorKind, pv: Option<
    ExprV,
>, j: int)
    requires
        0 <= i < ts.len() && ts[i] is Or,
        p_and(ts, i + 1) == PExpr::Bad(k, pv, j),
    ensures
        ext_or(ts, acc, i) == PExpr::Bad(ParseErrorKind::NoExtensionAvailable, Some(acc), j),
{
    reveal(ext_or);
}

/// The equality extension stops where no doubled spelling stands.
#[verifier::rlimit(100)]
proof fn lemma_ext_eq_stop(ts: Seq<TokenV>, acc: ExprV, i: int)
    requires
        0 <= i <= ts.len(),
        eq_op(ts, i) is None,
    ensures
        ext_eq(ts, acc, i) == PExpr::Good(acc, i),
{
    reveal(ext_eq);
}

/// The equality extension takes one step over its two tokens.
#[verifier::rlimit(100)]
#[verifier::spinoff_prover]
proof fn lemma_ext_eq_step(ts: Seq<TokenV>, acc: ExprV, i: int, r: ExprV, j: int)
    requires
        0 <= i <= ts.len(),
        eq_op(ts, i) is Some,
        p_ord(ts, i + 2) == PExpr::Good(r, j),
        i + 1 <= j <= ts.len(),
    ensures
        ext_eq(ts, acc, i) == ext_eq(
            ts,
            ExprV::Binary(eq_op(ts, i)->Some_0, Box::new(acc), Box::new(r)),
            j,
        ),
{
    reveal(ext_eq);
}

/// A failing right operand turns the equality extension into the
/// no-extension error carrying the left tree.
#[verifier::rlimit(100)]
#[verifier::spinoff_prover]
proof fn lemma_ext_eq_fail(ts: Seq<TokenV>, acc: ExprV, i: int, k: ParseErrorKind, pv: Option<
    ExprV,
>, j: int)
    requires
        0 <= i <= ts.len(),
        eq_op(ts, i) is Some,
        p_ord(ts, i + 2) == PExpr::Bad(k, pv, j),
    ensures
        ext_eq(ts, acc, i) == PExpr::Bad(ParseErrorKind::NoExtensionAvailable, Some(acc), j),
{
    reveal(ext_eq);
}

/// The relational extension stops where no comparison stands.
#[verifier::rlimit(100)]
proof fn lemma_ext_ord_stop(ts: Seq<TokenV>, acc: ExprV, i: int)
    requires
        0 <= i <= ts.len(),
        ord_op(ts, i) is None,
    ensures
        ext_ord(ts, acc, i) == PExpr::Good(acc, i),
{
    reveal(ext_ord);
}

/// The relational extension takes one step over its one or two tokens.
#[verifier::rlimit(100)]
#[verifier::spinoff_prover]
proof fn lemma_ext_ord_step(ts: Seq<TokenV>, acc: ExprV, i: int, r: ExprV, j: int)
    requires
        0 <= i <= ts.len(),
        ord_op(ts, i) is Some,
        p_add(ts, i + ord_op(ts, i)->Some_0.1) == PExpr::Good(r, j),
        i + 1 <= j <= ts.len(),
    ensures
        ext_ord(ts, acc, i) == ext_ord(
            ts,
            ExprV::Binary(ord_op(ts, i)->Some_0.0, Box::new(acc), Box::new(r)),
            j,
        ),
{
    reveal(ext_ord);
}

/// A failing right operand turns the relational extension into the
/// no-extension error carrying the left tree.
#[verifier::rlimit(100)]
#[verifier::spinoff_prover]
proof fn lemma_ext_ord_fail(ts: Seq<TokenV>, acc: ExprV, i: int, k: ParseErrorKind, pv: Option<
    ExprV,
>, j: int)
    requires
        0 <= i <= ts.len(),
        ord_op(ts, i) is Some,
        p_add(ts, i + ord_op(ts, i)->Some_0.1) == PExpr::Bad(k, pv, j),
    ensures
        ext_ord(ts, acc, i) == PExpr::Bad(ParseErrorKind::NoExtensionAvailable, Some(acc), j),
{
    reveal(ext_ord);
}

/// The factorial extension stops where no mark stands.
#[verifier::rlimit(100)]
proof fn lemma_ext_fact_stop(ts: Seq<TokenV>, acc: ExprV, i: int)
    requires
        0 <= i <= ts.len(),
        !(i < ts.len() && ts[i] is Exclam),
    ensures
        ext_fact(ts, acc, i) == PExpr::Good(acc, i),
{
    reveal(ext_fact);
}

/// The factorial extension takes one step over its mark.
#[verifier::rlimit(100)]
proof fn lemma_ext_fact_step(ts: Seq<TokenV>, acc: ExprV, i: int)
    requires
        0 <= i < ts.len() && ts[i] is Exclam,
    ensures
        ext_fact(ts, acc, i) == ext_fact(ts, ExprV::Unary(Operator::Fact, Box::new(acc)), i + 1),
{
    reveal(ext_fact);
}


/// The shape of an optional partial statement.
pub open spec fn opt_stat_v(o: Option<Statement>) -> Option<StatV> {
    match o {
        Some(s) => Some(stat_v(s)),
        None => None,
    }
}

/// How a statement parse's outcome shows in its result and the window it
/// leaves behind.
pub open spec fn stat_outcome(
    out: PStat,
    r: Result<Statement, StatError>,
    w: VecWindow<Token>,
) -> bool {
    match out {
        PStat::Good(sv, j) => (r matches Ok(s) && stat_v(s) == sv) && w.pos() == j,
        PStat::Bad(k, pv, j) => (r matches Err(err) && err.kind == k && opt_stat_v(
            err.input_stat,
        ) == pv) && w.pos() == j,
    }
}

/// A line outcome with statement shapes already collected in front of it.
pub open spec fn pl_append(prefix: Seq<StatV>, out: PLine) -> PLine {
    match out {
        PLine::Good(rest, k) => PLine::Good(prefix + rest, k),
        bad => bad,
    }
}

/// A comment token gives its comment statement.
#[verifier::rlimit(100)]
proof fn lemma_p_stat_comment(ts: Seq<TokenV>, i: int)
    requires
        0 <= i < ts.len(),
        ts[i] is Comment,
    ensures
        p_stat(ts, i) == PStat::Good(StatV::Comment(ts[i]->Comment_0), i + 1),
{
    reveal(p_stat);
}

/// A goto token wraps the expression parsed after it.
#[verifier::rlimit(100)]
proof fn lemma_p_stat_goto(ts: Seq<TokenV>, i: int)
    requires
        0 <= i < ts.len(),
        ts[i] is Goto,
    ensures
        p_stat(ts, i) == match p_expr(ts, i + 1) {
            PExpr::Good(e, j) => PStat::Good(StatV::Goto(e), j),
            PExpr::Bad(k, p, j) => PStat::Bad(k, stat_partial(p), j),
        },
{
    reveal(p_stat);
}

/// An if token hands over to the conditional's own rule.
#[verifier::rlimit(100)]
proof fn lemma_p_stat_if(ts: Seq<TokenV>, i: int)
    requires
        0 <= i < ts.len(),
        ts[i] is If,
    ensures
        p_stat(ts, i) == p_if(ts, i + 1),
{
    reveal(p_stat);
    reveal(p_if);
}

/// A compound-assignment lookahead takes its three tokens and wraps the
/// expression parsed after them.
#[verifier::rlimit(100)]
proof fn lemma_p_stat_compound(ts: Seq<TokenV>, i: int)
    requires
        0 <= i < ts.len(),
        !(ts[i] is Comment) && !(ts[i] is Goto) && !(ts[i] is If),
        assign_target(ts[i]) is Some,
        compound_op(ts, i + 1) is Some,
    ensures
        p_stat(ts, i) == match p_expr(ts, i + 3) {
            PExpr::Good(e, j) => PStat::Good(
                StatV::Assignment(assign_target(ts[i])->Some_0, compound_op(ts, i + 1)->Some_0, e),
                j,
            ),
            PExpr::Bad(k, p, j) => PStat::Bad(k, stat_partial(p), j),
        },
{
    reveal(p_stat);
}

/// A plain-assignment lookahead takes its two tokens and wraps the
/// expression parsed after them.
#[verifier::rlimit(100)]
proof fn lemma_p_stat_plain(ts: Seq<TokenV>, i: int)
    requires
        0 <= i < ts.len(),
        !(ts[i] is Comment) && !(ts[i] is Goto) && !(ts[i] is If),
        assign_target(ts[i]) is Some,
        compound_op(ts, i + 1) is None,
        plain_assign_at(ts, i + 1),
    ensures
        p_stat(ts, i) == match p_expr(ts, i + 2) {
            PExpr::Good(e, j) => PStat::Good(
                StatV::Assignment(assign_target(ts[i])->Some_0, Operator::Assign, e),
                j,
            ),
            PExpr::Bad(k, p, j) => PStat::Bad(k, stat_partial(p), j),
        },
{
    reveal(p_stat);
}

/// Anything else is a bare expression statement.
#[verifier::rlimit(100)]
proof fn lemma_p_stat_bare(ts: Seq<TokenV>, i: int)
    requires
        0 <= i <= ts.len(),
        i < ts.len() ==> !(ts[i] is Comment) && !(ts[i] is Goto) && !(ts[i] is If),
        i < ts.len() ==> (assign_target(ts[i]) is None || (compound_op(ts, i + 1) is None
            && !plain_assign_at(ts, i + 1))),
    ensures
        p_stat(ts, i) == match p_expr(ts, i) {
            PExpr::Good(e, j) => PStat::Good(StatV::Expr(e), j),
            PExpr::Bad(k, p, j) => PStat::Bad(k, stat_partial(p), j),
        },
{
    reveal(p_stat);
}


/// A failing condition passes through the conditional's rule.
#[verifier::rlimit(100)]
proof fn lemma_p_if_cond_bad(ts: Seq<TokenV>, i: int)
    requires
        0 <= i <= ts.len(),
        p_expr(ts, i) is Bad,
    ensures
        p_if(ts, i) == (match p_expr(ts, i) {
            PExpr::Bad(k, p, j) => PStat::Bad(k, stat_partial(p), j),
            good => PStat::Bad(ParseErrorKind::NoParseRuleMatch, None, i),
        }),
{
    reveal(p_if);
}

/// A parsed condition not followed by `then` is the no-extension error.
#[verifier::rlimit(100)]
proof fn lemma_p_if_no_then(ts: Seq<TokenV>, i: int, cond: ExprV, j: int)
    requires
        0 <= i <= ts.len(),
        p_expr(ts, i) == PExpr::Good(cond, j),
        i <= j <= ts.len(),
        !(j < ts.len() && ts[j] is Then),
    ensures
        p_if(ts, i) == PStat::Bad(ParseErrorKind::NoExtensionAvailable, None, j),
{
    reveal(p_if);
}

/// A parsed condition followed by `then` hands over to the body rule.
#[verifier::rlimit(100)]
proof fn lemma_p_if_then(ts: Seq<TokenV>, i: int, cond: ExprV, j: int)
    requires
        0 <= i <= ts.len(),
        p_expr(ts, i) == PExpr::Good(cond, j),
        i <= j <= ts.len(),
        j < ts.len() && ts[j] is Then,
    ensures
        p_if(ts, i) == p_if_tail(ts, cond, Seq::<StatV>::empty(), Seq::<StatV>::empty(), false, j
            + 1),
{
    reveal(p_if);
    reveal(p_if_tail);
}

/// The bodies end with the input.
#[verifier::rlimit(100)]
proof fn lemma_tail_input_end(ts: Seq<TokenV>, cond: ExprV, body: Seq<StatV>, els: Seq<StatV>, in_else: bool, i: int)
    requires
        0 <= i <= ts.len(),
        i >= ts.len(),
    ensures
        p_if_tail(ts, cond, body, els, in_else, i) == PStat::Good(assemble_if(cond, body, els), i),
{
    reveal(p_if_tail);
}

/// A first `else` switches collection to the else branch.
#[verifier::rlimit(100)]
proof fn lemma_tail_else(ts: Seq<TokenV>, cond: ExprV, body: Seq<StatV>, els: Seq<StatV>, i: int)
    requires
        0 <= i < ts.len(),
        ts[i] is Else,
    ensures
        p_if_tail(ts, cond, body, els, false, i) == p_if_tail(ts, cond, body, els, true, i + 1),
{
    reveal(p_if_tail);
}

/// A second `else` is its own error, carrying the conditional so far.
#[verifier::rlimit(100)]
proof fn lemma_tail_else_again(ts: Seq<TokenV>, cond: ExprV, body: Seq<StatV>, els: Seq<StatV>, i: int)
    requires
        0 <= i < ts.len(),
        ts[i] is Else,
    ensures
        p_if_tail(ts, cond, body, els, true, i) == PStat::Bad(
            ParseErrorKind::RepeatedElseTokens,
            Some(StatV::If(cond, body, Some(els))),
            i,
        ),
{
    reveal(p_if_tail);
}

/// `end` closes the conditional.
#[verifier::rlimit(100)]
proof fn lemma_tail_end(ts: Seq<TokenV>, cond: ExprV, body: Seq<StatV>, els: Seq<StatV>, in_else: bool, i: int)
    requires
        0 <= i < ts.len(),
        ts[i] is End,
    ensures
        p_if_tail(ts, cond, body, els, in_else, i) == PStat::Good(
            assemble_if(cond, body, els),
            i + 1,
        ),
{
    reveal(p_if_tail);
}

/// A parsed statement joins the branch collection currently open.
#[verifier::rlimit(100)]
proof fn lemma_tail_stat_good(ts: Seq<TokenV>, cond: ExprV, body: Seq<StatV>, els: Seq<StatV>, in_else: bool, i: int, sv: StatV, j: int)
    requires
        0 <= i < ts.len(),
        !(ts[i] is Else) && !(ts[i] is End),
        p_stat(ts, i) == PStat::Good(sv, j),
        i + 1 <= j <= ts.len(),
    ensures
        p_if_tail(ts, cond, body, els, in_else, i) == (if in_else {
            p_if_tail(ts, cond, body, els.push(sv), in_else, j)
        } else {
            p_if_tail(ts, cond, body.push(sv), els, in_else, j)
        }),
{
    reveal(p_if_tail);
    reveal(p_stat);
}

/// A failing statement is the conditional's own failure.
#[verifier::rlimit(100)]
proof fn lemma_tail_stat_bad(ts: Seq<TokenV>, cond: ExprV, body: Seq<StatV>, els: Seq<StatV>, in_else: bool, i: int)
    requires
        0 <= i < ts.len(),
        !(ts[i] is Else) && !(ts[i] is End),
        p_stat(ts, i) is Bad,
    ensures
        p_if_tail(ts, cond, body, els, in_else, i) == (match p_stat(ts, i) {
            PStat::Bad(k, p, j) => PStat::Bad(k, p, j),
            good => p_if_tail(ts, cond, body, els, in_else, i),
        }),
{
    reveal(p_if_tail);
    reveal(p_stat);
}


/// A line ends with its input.
#[verifier::rlimit(100)]
proof fn lemma_p_line_end(ts: Seq<TokenV>, i: int)
    requires
        0 <= i <= ts.len(),
        i >= ts.len(),
    ensures
        p_line(ts, i) == PLine::Good(Seq::<StatV>::empty(), i),
{
    reveal(p_line);
}

/// A bare newline ends the line's collection, consumed.
#[verifier::rlimit(100)]
proof fn lemma_p_line_newline(ts: Seq<TokenV>, i: int)
    requires
        0 <= i < ts.len(),
        ts[i] is Newline,
    ensures
        p_line(ts, i) == PLine::Good(Seq::<StatV>::empty(), i + 1),
{
    reveal(p_line);
}

/// A parsed statement goes in front of the rest of the line.
#[verifier::rlimit(100)]
proof fn lemma_p_line_stat_good(ts: Seq<TokenV>, i: int, sv: StatV, j: int)
    requires
        0 <= i < ts.len(),
        !(ts[i] is Newline),
        p_stat(ts, i) == PStat::Good(sv, j),
        i + 1 <= j <= ts.len(),
    ensures
        p_line(ts, i) == pl_append(seq![sv], p_line(ts, j)),
{
    reveal(p_line);
}

/// A failing statement is the line's own failure.
#[verifier::rlimit(100)]
proof fn lemma_p_line_stat_bad(ts: Seq<TokenV>, i: int)
    requires
        0 <= i < ts.len(),
        !(ts[i] is Newline),
        p_stat(ts, i) is Bad,
    ensures
        p_line(ts, i) == (match p_stat(ts, i) {
            PStat::Bad(k, p, j) => PLine::Bad(k, p, j),
            good => p_line(ts, i),
        }),
{
    reveal(p_line);
    reveal(p_stat);
}

/// The shape of an optional partial expression.
pub open spec fn opt_expr_v(o: Option<Expression>) -> Option<ExprV> {
    match o {
        Some(e) => Some(expr_v(e)),
        None => None,
    }
}

/// Parses the statements of one line: statements collect in source order
/// until a bare newline (consumed) or the end of input; the result is
/// exactly what the line grammar fixes, the first failing statement's
/// error being the line's.
#[verifier::rlimit(100)]
#[verifier::spinoff_prover]
pub fn parse(input: Vec<Token>) -> (r: Result<Vec<Statement>, StatError>)
    ensures
        r matches Err(e) ==> e.error_text@.len() > 0,
        r matches Ok(ss) ==> wf_stats(ss@),
        match p_line(token_views(input@), 0) {
            PLine::Good(svs, _) => r matches Ok(ss) && stats_v(ss@) == svs,
            PLine::Bad(k, pv, _) => (r matches Err(e) && e.kind == k && opt_stat_v(e.input_stat)
                == pv),
        },
{
    let ghost tvs = token_views(input@);
    let mut output_vec: Vec<Statement> = Vec::new();
    let mut window = VecWindow::new(&input, 0);
    proof {
        lemma_views_len(input@);
        match p_line(tvs, 0) {
            PLine::Good(rest, k) => {
                assert(Seq::<StatV>::empty() + rest =~= rest);
            },
            PLine::Bad(_, _, _) => {},
        }
        assert(pl_append(stats_v(output_vec@), p_line(tvs, 0)) == p_line(tvs, 0));
    }
    let mut finished = false;
    while !finished
        invariant
            window.wf(),
            window.items() == input@,
            tvs == token_views(input@),
            wf_stats(output_vec@),
            !finished ==> pl_append(stats_v(output_vec@), p_line(tvs, window.pos() as int))
                == p_line(tvs, 0),
            finished ==> (match p_line(tvs, 0) {
                PLine::Good(svs, _) => svs == stats_v(output_vec@),
                PLine::Bad(_, _, _) => false,
            }),
        decreases window.items().len() - window.pos() + (if finished {
            0int
        } else {
            1int
        }),
    {
        proof {
            lemma_views_len(input@);
            if window.pos() < window.items().len() {
                lemma_view_at(window.items(), window.pos());
            }
        }
        if window.remaining_length() == 0 {
            proof {
                lemma_p_line_end(tvs, window.pos() as int);
                assert(stats_v(output_vec@) + Seq::<StatV>::empty() =~= stats_v(output_vec@));
            }
            finished = true;
        } else {
            let ended = match window.get_value(0) {
                Some(Token::Newline) => true,
                _ => false,
            };
            if ended {
                proof {
                    lemma_p_line_newline(tvs, window.pos() as int);
                    assert(stats_v(output_vec@) + Seq::<StatV>::empty() =~= stats_v(
                        output_vec@,
                    ));
                }
                window.move_view(1);
                finished = true;
            } else {
                let ghost at = window.pos();
                let statement = match parse_statement(&mut window) {
                    Ok(stat) => stat,
                    Err(error) => {
                        proof {
                            lemma_p_line_stat_bad(tvs, at);
                        }
                        return Err(error);
                    },
                };
                proof {
                    lemma_p_line_stat_good(tvs, at, stat_v(statement), window.pos() as int);
                    crate::ast::lemma_stats_v_push(output_vec@, statement);
                    match p_line(tvs, window.pos() as int) {
                        PLine::Good(rest, k) => {
                            assert(stats_v(output_vec@).push(stat_v(statement)) + rest
                                =~= stats_v(output_vec@) + (seq![stat_v(statement)] + rest));
                        },
                        PLine::Bad(_, _, _) => {},
                    }
                }
                output_vec.push(statement);
            }
        }
    }
    Ok(output_vec)
}

/// The statement a parse yields answers to the token it started on: a
/// comment token gives that comment, the goto and conditional keywords
/// give their statement forms, and an assignment's target carries the
/// name of the identifier or data field the lookahead saw.
pub open spec fn statement_answers_head(t: Token, s: Statement) -> bool {
    &&& (t matches Token::Comment(c) ==> s matches Statement::Comment(c2) && c2@ == c@)
    &&& (t is Goto ==> s is Goto)
    &&& (t is If ==> s is If)
    &&& (s matches Statement::Assignment(target, _, _) ==> match t {
        Token::Identifier(n) => target matches Value::LocalVar(m) && m@ == n@,
        Token::DataField(n) => target matches Value::DataField(m) && m@ == n@,
        _ => false,
    })
}

/// Parses one statement: a comment, a goto, a conditional, an assignment
/// recognized by two- or three-token lookahead, or a bare expression; the
/// result is exactly what the statement grammar fixes.
#[verifier::rlimit(100)]
#[verifier::spinoff_prover]
pub fn parse_statement(window: &mut VecWindow<Token>) -> (r: Result<Statement, StatError>)
    requires
        old(window).wf(),
    ensures
        r matches Err(e) ==> e.error_text@.len() > 0,
        window_steps(*old(window), *final(window)),
        r matches Ok(s) ==> wf_stat(s) && final(window).pos() > old(window).pos(),
        r matches Ok(s) ==> old(window).pos() < old(window).items().len()
            && statement_answers_head(old(window).items()[old(window).pos()], s),
        stat_outcome(
            p_stat(token_views(old(window).items()), old(window).pos()),
            r,
            *final(window),
        ),
    decreases old(window).items().len() - old(window).pos(), 20int,
{
    let ghost tvs = token_views(old(window).items());
    proof {
        lemma_views_len(old(window).items());
        let items = old(window).items();
        let i = old(window).pos();
        if i < items.len() {
            lemma_view_at(items, i);
        }
        if i + 1 < items.len() {
            lemma_view_at(items, i + 1);
        }
        if i + 2 < items.len() {
            lemma_view_at(items, i + 2);
        }
    }
    let is_comment = match window.get_value(0) {
        Some(Token::Comment(_)) => true,
        _ => false,
    };
    if is_comment {
        let comment_string = match window.get_value(0) {
            Some(Token::Comment(c)) => c.clone(),
            _ => String::new(),
        };
        window.move_view(1);
        proof {
            lemma_p_stat_comment(tvs, old(window).pos());
        }
        return Ok(Statement::Comment(comment_string));
    }
    let head_kind: u8 = match window.get_value(0) {
        Some(Token::Goto) => 1,
        Some(Token::If) => 2,
        _ => 0,
    };
    if head_kind == 1 {
        proof {
            lemma_p_stat_goto(tvs, old(window).pos());
        }
        window.move_view(1);
        let target = match parse_expression(window) {
            Ok(e) => e,
            Err(error) => {
                return Err(StatError::from_expr_error(error));
            },
        };
        return Ok(Statement::Goto(Box::new(target)));
    }
    if head_kind == 2 {
        proof {
            lemma_p_stat_if(tvs, old(window).pos());
        }
        window.move_view(1);
        return extend_if(window);
    }
    // Assignment lookahead: an identifier or data field, then either `=`
    // not followed by a second `=`, or a compound operator written as two
    // adjacent single-character tokens.
    let is_ident = match window.get_value(0) {
        Some(Token::Identifier(_)) => true,
        Some(Token::DataField(_)) => true,
        _ => false,
    };
    if is_ident {
        let compound: Option<Operator> = match (window.get_value(1), window.get_value(2)) {
            (Some(Token::Plus), Some(Token::Equal)) => Some(Operator::AddAssign),
            (Some(Token::Minus), Some(Token::Equal)) => Some(Operator::SubAssign),
            (Some(Token::Star), Some(Token::Equal)) => Some(Operator::MulAssign),
            (Some(Token::Slash), Some(Token::Equal)) => Some(Operator::DivAssign),
            (Some(Token::Percent), Some(Token::Equal)) => Some(Operator::ModAssign),
            (Some(Token::Caret), Some(Token::Equal)) => Some(Operator::PowAssign),
            _ => None,
        };
        let plain: bool = match (window.get_value(1), window.get_value(2)) {
            (Some(Token::Equal), Some(t)) => match t {
                Token::Equal => false,
                _ => true,
            },
            (Some(Token::Equal), None) => true,
            _ => false,
        };
        proof {
            assert(compound == compound_op(tvs, old(window).pos() + 1));
            assert(plain == plain_assign_at(tvs, old(window).pos() + 1));
        }
        if compound.is_some() || plain {
            let value = match window.get_value(0) {
                Some(t) => Value::from_token(t),
                None => Value::NumberVal(crate::number::YololNumber::new(0)),
            };
            proof {
                assert(Some(value_v(value)) == assign_target(tvs[old(window).pos()]));
                if compound is Some {
                    lemma_p_stat_compound(tvs, old(window).pos());
                } else {
                    lemma_p_stat_plain(tvs, old(window).pos());
                }
            }
            let op = match compound {
                Some(op) => {
                    window.move_view(3);
                    op
                },
                None => {
                    window.move_view(2);
                    Operator::Assign
                },
            };
            let expr = match parse_expression(window) {
                Ok(e) => e,
                Err(error) => {
                    return Err(StatError::from_expr_error(error));
                },
            };
            proof {
                assert(stat_v(Statement::Assignment(value, op, Box::new(expr)))
                    == StatV::Assignment(value_v(value), op, expr_v(expr)));
            }
            return Ok(Statement::Assignment(value, op, Box::new(expr)));
        }
    }
    proof {
        lemma_p_stat_bare(tvs, old(window).pos());
    }
    match parse_expression(window) {
        Ok(e) => Ok(Statement::Expression(Box::new(e))),
        Err(error) => Err(StatError::from_expr_error(error)),
    }
}

/// Parses the rest of a conditional after its `if` token: the condition,
/// a required `then`, the body statements, an optional `else` branch, and
/// the closing `end`; the result is exactly what the conditional's
/// grammar rule fixes, a second `else` carrying the partially built
/// conditional in its error.
#[verifier::rlimit(100)]
#[verifier::spinoff_prover]
fn extend_if(window: &mut VecWindow<Token>) -> (r: Result<Statement, StatError>)
    requires
        old(window).wf(),
    ensures
        r matches Err(e) ==> e.error_text@.len() > 0,
        window_steps(*old(window), *final(window)),
        r matches Ok(s) ==> wf_stat(s) && final(window).pos() > old(window).pos() && s is If,
        stat_outcome(
            p_if(token_views(old(window).items()), old(window).pos()),
            r,
            *final(window),
        ),
    decreases old(window).items().len() - old(window).pos(), 19int,
{
    let ghost tvs = token_views(old(window).items());
    proof {
        lemma_views_len(old(window).items());
    }
    let condition = match parse_expression(window) {
        Ok(e) => e,
        Err(error) => {
            proof {
                lemma_p_if_cond_bad(tvs, old(window).pos());
            }
            return Err(StatError::from_expr_error(error));
        },
    };
    let ghost cv = expr_v(condition);
    proof {
        if window.pos() < window.items().len() {
            lemma_view_at(window.items(), window.pos());
        }
    }
    let then_found = match window.get_value(0) {
        Some(Token::Then) => true,
        _ => false,
    };
    if !then_found {
        proof {
            lemma_p_if_no_then(tvs, old(window).pos(), cv, window.pos() as int);
            reveal_strlit("a conditional needs a then after its condition");
        }
        return Err(
            StatError::new(
                None,
                ParseErrorKind::NoExtensionAvailable,
                "a conditional needs a then after its condition",
            ),
        );
    }
    proof {
        lemma_p_if_then(tvs, old(window).pos(), cv, window.pos() as int);
    }
    window.move_view(1);
    let ghost target = p_if_tail(
        tvs,
        cv,
        Seq::<StatV>::empty(),
        Seq::<StatV>::empty(),
        false,
        window.pos() as int,
    );
    let mut body: Vec<Statement> = Vec::new();
    let mut else_body: Vec<Statement> = Vec::new();
    let mut parsing_else = false;
    let mut closed = false;
    while !closed && window.remaining_length() > 0
        invariant
            window.wf(),
            window.items() == old(window).items(),
            tvs == token_views(old(window).items()),
            old(window).pos() < window.pos(),
            wf_expr(condition),
            cv == expr_v(condition),
            wf_stats(body@),
            wf_stats(else_body@),
            p_if(tvs, old(window).pos()) == target,
            !closed ==> p_if_tail(
                tvs,
                cv,
                stats_v(body@),
                stats_v(else_body@),
                parsing_else,
                window.pos() as int,
            ) == target,
            closed ==> target == PStat::Good(
                assemble_if(cv, stats_v(body@), stats_v(else_body@)),
                window.pos() as int,
            ),
        decreases window.items().len() - window.pos() + (if closed {
            0int
        } else {
            1int
        }),
    {
        proof {
            lemma_views_len(old(window).items());
            if window.pos() < window.items().len() {
                lemma_view_at(window.items(), window.pos());
            }
        }
        let head: u8 = match window.get_value(0) {
            Some(Token::Else) => 1,
            Some(Token::End) => 2,
            _ => 0,
        };
        if head == 1 {
            if parsing_else {
                proof {
                    lemma_tail_else_again(
                        tvs,
                        cv,
                        stats_v(body@),
                        stats_v(else_body@),
                        window.pos() as int,
                    );
                    reveal_strlit("a conditional cannot take a second else");
                }
                let ghost bb = stats_v(body@);
                let ghost eb = stats_v(else_body@);
                let error_stat = Statement::If(Box::new(condition), body, Some(else_body));
                proof {
                    assert(stat_v(error_stat) == StatV::If(cv, bb, Some(eb)));
                }
                return Err(
                    StatError::new(
                        Some(error_stat),
                        ParseErrorKind::RepeatedElseTokens,
                        "a conditional cannot take a second else",
                    ),
                );
            }
            proof {
                lemma_tail_else(tvs, cv, stats_v(body@), stats_v(else_body@), window.pos() as int);
            }
            window.move_view(1);
            parsing_else = true;
        } else if head == 2 {
            proof {
                lemma_tail_end(
                    tvs,
                    cv,
                    stats_v(body@),
                    stats_v(else_body@),
                    parsing_else,
                    window.pos() as int,
                );
            }
            window.move_view(1);
            closed = true;
        } else {
            let ghost at = window.pos();
            let statement = match parse_statement(window) {
                Ok(s) => s,
                Err(error) => {
                    proof {
                        lemma_tail_stat_bad(
                            tvs,
                            cv,
                            stats_v(body@),
                            stats_v(else_body@),
                            parsing_else,
                            at,
                        );
                    }
                    return Err(error);
                },
            };
            proof {
                lemma_tail_stat_good(
                    tvs,
                    cv,
                    stats_v(body@),
                    stats_v(else_body@),
                    parsing_else,
                    at,
                    stat_v(statement),
                    window.pos() as int,
                );
                if parsing_else {
                    crate::ast::lemma_stats_v_push(else_body@, statement);
                } else {
                    crate::ast::lemma_stats_v_push(body@, statement);
                }
            }
            if parsing_else {
                else_body.push(statement);
            } else {
                body.push(statement);
            }
        }
    }
    proof {
        if !closed {
            lemma_tail_input_end(
                tvs,
                cv,
                stats_v(body@),
                stats_v(else_body@),
                parsing_else,
                window.pos() as int,
            );
        }
        crate::ast::lemma_stats_v_len(else_body@);
    }
    let ghost bb = stats_v(body@);
    let ghost eb = stats_v(else_body@);
    let final_else = if else_body.len() > 0 {
        Some(else_body)
    } else {
        None
    };
    let built = Statement::If(Box::new(condition), body, final_else);
    proof {
        assert(stat_v(built) == assemble_if(cv, bb, eb));
    }
    Ok(built)
}

/// Parses one expression, from the grammar's lowest level.
#[verifier::rlimit(100)]
#[verifier::spinoff_prover]
pub fn parse_expression(window: &mut VecWindow<Token>) -> (r: Result<Expression, ExprError>)
    requires
        old(window).wf(),
    ensures
        r matches Err(e) ==> e.error_text@.len() > 0,
        window_steps(*old(window), *final(window)),
        r matches Ok(e) ==> wf_expr(e) && final(window).pos() > old(window).pos(),
        expr_outcome(
            p_expr(token_views(old(window).items()), old(window).pos()),
            r,
            *final(window),
        ),
    decreases old(window).items().len() - old(window).pos(), 18int,
{
    let outcome = expr_or(window);
    proof {
        lemma_views_len(old(window).items());
        reveal(p_expr);
    }
    outcome
}

/// Logical and, extending left-associatively.
#[verifier::rlimit(100)]
#[verifier::spinoff_prover]
fn expr_and(window: &mut VecWindow<Token>) -> (r: Result<Expression, ExprError>)
    requires
        old(window).wf(),
    ensures
        r matches Err(e) ==> e.error_text@.len() > 0,
        window_steps(*old(window), *final(window)),
        r matches Ok(e) ==> wf_expr(e) && final(window).pos() > old(window).pos(),
        expr_outcome(
            p_and(token_views(old(window).items()), old(window).pos()),
            r,
            *final(window),
        ),
    decreases old(window).items().len() - old(window).pos(), 16int,
{
    let ghost tvs = token_views(old(window).items());
    proof {
        lemma_views_len(old(window).items());
    }
    let lower = expr_equality(window);
    let mut expr = match lower {
        Ok(e) => e,
        Err(error) => {
            proof {
                lemma_p_and_err(tvs, old(window).pos());
            }
            return Err(error);
        },
    };
    let ghost target = ext_and(tvs, expr_v(expr), window.pos() as int);
    proof {
        lemma_p_and_good(tvs, old(window).pos(), expr_v(expr), window.pos() as int);
    }
    let mut done = false;
    while !done
        invariant
            window.wf(),
            window.items() == old(window).items(),
            tvs == token_views(old(window).items()),
            old(window).pos() < window.pos(),
            wf_expr(expr),
            p_and(tvs, old(window).pos()) == target,
            !done ==> ext_and(tvs, expr_v(expr), window.pos() as int) == target,
            done ==> target == PExpr::Good(expr_v(expr), window.pos() as int),
        decreases window.items().len() - window.pos() + (if done {
            0int
        } else {
            1int
        }),
    {
        proof {
            lemma_views_len(old(window).items());
            if window.pos() < window.items().len() {
                lemma_view_at(window.items(), window.pos());
            }
        }
        let extend = match window.get_value(0) {
            Some(Token::And) => true,
            _ => false,
        };
        if !extend {
            proof {
                lemma_ext_and_stop(tvs, expr_v(expr), window.pos() as int);
            }
            done = true;
        } else {
            let ghost at = window.pos();
            window.move_view(1);
            let right = match expr_equality(window) {
                Ok(e) => e,
                Err(_) => {
                    proof {
                        let bad = p_eq(tvs, at + 1);
                        lemma_ext_and_fail(
                            tvs,
                            expr_v(expr),
                            at,
                            bad->Bad_0,
                            bad->Bad_1,
                            bad->Bad_2,
                        );
                    }
                    proof {
                        reveal_strlit("no right operand follows this and");
                    }
                    return Err(
                        ExprError::new(
                            Some(expr),
                            ParseErrorKind::NoExtensionAvailable,
                            "no right operand follows this and",
                        ),
                    );
                },
            };
            proof {
                lemma_ext_and_step(
                    tvs,
                    expr_v(expr),
                    at,
                    expr_v(right),
                    window.pos() as int,
                );
            }
            expr = Expression::BinaryOp(Operator::And, Box::new(expr), Box::new(right));
        }
    }
    Ok(expr)
}

/// Logical or, extending left-associatively.
#[verifier::rlimit(100)]
#[verifier::spinoff_prover]
fn expr_or(window: &mut VecWindow<Token>) -> (r: Result<Expression, ExprError>)
    requires
        old(window).wf(),
    ensures
        r matches Err(e) ==> e.error_text@.len() > 0,
        window_steps(*old(window), *final(window)),
        r matches Ok(e) ==> wf_expr(e) && final(window).pos() > old(window).pos(),
        expr_outcome(
            p_or(token_views(old(window).items()), old(window).pos()),
            r,
            *final(window),
        ),
    decreases old(window).items().len() - old(window).pos(), 17int,
{
    let ghost tvs = token_views(old(window).items());
    proof {
        lemma_views_len(old(window).items());
    }
    let lower = expr_and(window);
    let mut expr = match lower {
        Ok(e) => e,
        Err(error) => {
            proof {
                lemma_p_or_err(tvs, old(window).pos());
            }
            return Err(error);
        },
    };
    let ghost target = ext_or(tvs, expr_v(expr), window.pos() as int);
    proof {
        lemma_p_or_good(tvs, old(window).pos(), expr_v(expr), window.pos() as int);
    }
    let mut done = false;
    while !done
        invariant
            window.wf(),
            window.items() == old(window).items(),
            tvs == token_views(old(window).items()),
            old(window).pos() < window.pos(),
            wf_expr(expr),
            p_or(tvs, old(window).pos()) == target,
            !done ==> ext_or(tvs, expr_v(expr), window.pos() as int) == target,
            done ==> target == PExpr::Good(expr_v(expr), window.pos() as int),
        decreases window.items().len() - window.pos() + (if done {
            0int
        } else {
            1int
        }),
    {
        proof {
            lemma_views_len(old(window).items());
            if window.pos() < window.items().len() {
                lemma_view_at(window.items(), window.pos());
            }
        }
        let op: Option<Operator> = match window.get_value(0) {
            Some(Token::Or) => Some(Operator::Or),
            _ => None,
        };
        match op {
            None => {
                proof {
                    lemma_ext_or_stop(tvs, expr_v(expr), window.pos() as int);
                }
                done = true;
            },
            Some(binary) => {
                let ghost at = window.pos();
                window.move_view(1);
                let right = match expr_and(window) {
                    Ok(e) => e,
                    Err(_) => {
                        proof {
                            let bad = p_and(tvs, at + 1);
                            lemma_ext_or_fail(
                                tvs,
                                expr_v(expr),
                                at,
                                bad->Bad_0,
                                bad->Bad_1,
                                bad->Bad_2,
                            );
                        }
                        proof {
                            reveal_strlit("no right operand follows this or");
                        }
                        return Err(
                            ExprError::new(
                                Some(expr),
                                ParseErrorKind::NoExtensionAvailable,
                                "no right operand follows this or",
                            ),
                        );
                    },
                };
                proof {
                    lemma_ext_or_step(
                        tvs,
                        expr_v(expr),
                        at,
                        expr_v(right),
                        window.pos() as int,
                    );
                }
                expr = Expression::BinaryOp(binary, Box::new(expr), Box::new(right));
            },
        }
    }
    Ok(expr)
}

/// Equality and inequality, each spelled as two adjacent tokens,
/// extending left-associatively.
#[verifier::rlimit(100)]
#[verifier::spinoff_prover]
fn expr_equality(window: &mut VecWindow<Token>) -> (r: Result<Expression, ExprError>)
    requires
        old(window).wf(),
    ensures
        r matches Err(e) ==> e.error_text@.len() > 0,
        window_steps(*old(window), *final(window)),
        r matches Ok(e) ==> wf_expr(e) && final(window).pos() > old(window).pos(),
        expr_outcome(
            p_eq(token_views(old(window).items()), old(window).pos()),
            r,
            *final(window),
        ),
    decreases old(window).items().len() - old(window).pos(), 15int,
{
    let ghost tvs = token_views(old(window).items());
    proof {
        lemma_views_len(old(window).items());
    }
    let lower = expr_order(window);
    let mut expr = match lower {
        Ok(e) => e,
        Err(error) => {
            proof {
                lemma_p_eq_err(tvs, old(window).pos());
            }
            return Err(error);
        },
    };
    let ghost target = ext_eq(tvs, expr_v(expr), window.pos() as int);
    proof {
        lemma_p_eq_good(tvs, old(window).pos(), expr_v(expr), window.pos() as int);
    }
    let mut done = false;
    while !done
        invariant
            window.wf(),
            window.items() == old(window).items(),
            tvs == token_views(old(window).items()),
            old(window).pos() < window.pos(),
            wf_expr(expr),
            p_eq(tvs, old(window).pos()) == target,
            !done ==> ext_eq(tvs, expr_v(expr), window.pos() as int) == target,
            done ==> target == PExpr::Good(expr_v(expr), window.pos() as int),
        decreases window.items().len() - window.pos() + (if done {
            0int
        } else {
            1int
        }),
    {
        proof {
            lemma_views_len(old(window).items());
            if window.pos() < window.items().len() {
                lemma_view_at(window.items(), window.pos());
            }
            if window.pos() + 1 < window.items().len() {
                lemma_view_at(window.items(), window.pos() + 1);
            }
        }
        let op: Option<Operator> = match (window.get_value(0), window.get_value(1)) {
            (Some(Token::Equal), Some(Token::Equal)) => Some(Operator::Equal),
            (Some(Token::Exclam), Some(Token::Equal)) => Some(Operator::NotEqual),
            _ => None,
        };
        match op {
            None => {
                proof {
                    lemma_ext_eq_stop(tvs, expr_v(expr), window.pos() as int);
                }
                done = true;
            },
            Some(binary) => {
                let ghost at = window.pos();
                window.move_view(2);
                let right = match expr_order(window) {
                    Ok(e) => e,
                    Err(_) => {
                        proof {
                            let bad = p_ord(tvs, at + 2);
                            lemma_ext_eq_fail(
                                tvs,
                                expr_v(expr),
                                at,
                                bad->Bad_0,
                                bad->Bad_1,
                                bad->Bad_2,
                            );
                        }
                        proof {
                            reveal_strlit("no right operand follows this equality");
                        }
                        return Err(
                            ExprError::new(
                                Some(expr),
                                ParseErrorKind::NoExtensionAvailable,
                                "no right operand follows this equality",
                            ),
                        );
                    },
                };
                proof {
                    lemma_ext_eq_step(
                        tvs,
                        expr_v(expr),
                        at,
                        expr_v(right),
                        window.pos() as int,
                    );
                }
                expr = Expression::BinaryOp(binary, Box::new(expr), Box::new(right));
            },
        }
    }
    Ok(expr)
}

/// The relational comparisons, `<=` and `>=` spelled as two adjacent
/// tokens, extending left-associatively.
#[verifier::rlimit(100)]
#[verifier::spinoff_prover]
fn expr_order(window: &mut VecWindow<Token>) -> (r: Result<Expression, ExprError>)
    requires
        old(window).wf(),
    ensures
        r matches Err(e) ==> e.error_text@.len() > 0,
        window_steps(*old(window), *final(window)),
        r matches Ok(e) ==> wf_expr(e) && final(window).pos() > old(window).pos(),
        expr_outcome(
            p_ord(token_views(old(window).items()), old(window).pos()),
            r,
            *final(window),
        ),
    decreases old(window).items().len() - old(window).pos(), 14int,
{
    let ghost tvs = token_views(old(window).items());
    proof {
        lemma_views_len(old(window).items());
    }
    let lower = expr_additive(window);
    let mut expr = match lower {
        Ok(e) => e,
        Err(error) => {
            proof {
                lemma_p_ord_err(tvs, old(window).pos());
            }
            return Err(error);
        },
    };
    let ghost target = ext_ord(tvs, expr_v(expr), window.pos() as int);
    proof {
        lemma_p_ord_good(tvs, old(window).pos(), expr_v(expr), window.pos() as int);
    }
    let mut done = false;
    while !done
        invariant
            window.wf(),
            window.items() == old(window).items(),
            tvs == token_views(old(window).items()),
            old(window).pos() < window.pos(),
            wf_expr(expr),
            p_ord(tvs, old(window).pos()) == target,
            !done ==> ext_ord(tvs, expr_v(expr), window.pos() as int) == target,
            done ==> target == PExpr::Good(expr_v(expr), window.pos() as int),
        decreases window.items().len() - window.pos() + (if done {
            0int
        } else {
            1int
        }),
    {
        proof {
            lemma_views_len(old(window).items());
            if window.pos() < window.items().len() {
                lemma_view_at(window.items(), window.pos());
            }
            if window.pos() + 1 < window.items().len() {
                lemma_view_at(window.items(), window.pos() + 1);
            }
        }
        let wide: Option<Operator> = match (window.get_value(0), window.get_value(1)) {
            (Some(Token::LAngleBrak), Some(Token::Equal)) => Some(Operator::LesserEq),
            (Some(Token::RAngleBrak), Some(Token::Equal)) => Some(Operator::GreaterEq),
            _ => None,
        };
        let narrow: Option<Operator> = match window.get_value(0) {
            Some(Token::LAngleBrak) => Some(Operator::Lesser),
            Some(Token::RAngleBrak) => Some(Operator::Greater),
            _ => None,
        };
        let picked: Option<(Operator, bool)> = match wide {
            Some(o) => Some((o, true)),
            None => match narrow {
                Some(o) => Some((o, false)),
                None => None,
            },
        };
        match picked {
            None => {
                proof {
                    lemma_ext_ord_stop(tvs, expr_v(expr), window.pos() as int);
                }
                done = true;
            },
            Some((binary, two)) => {
                let ghost at = window.pos();
                if two {
                    window.move_view(2);
                } else {
                    window.move_view(1);
                }
                let right = match expr_additive(window) {
                    Ok(e) => e,
                    Err(_) => {
                        proof {
                            let bad = p_add(tvs, at + ord_op(tvs, at)->Some_0.1);
                            lemma_ext_ord_fail(
                                tvs,
                                expr_v(expr),
                                at,
                                bad->Bad_0,
                                bad->Bad_1,
                                bad->Bad_2,
                            );
                        }
                        proof {
                            reveal_strlit("no right operand follows this comparison");
                        }
                        return Err(
                            ExprError::new(
                                Some(expr),
                                ParseErrorKind::NoExtensionAvailable,
                                "no right operand follows this comparison",
                            ),
                        );
                    },
                };
                proof {
                    lemma_ext_ord_step(
                        tvs,
                        expr_v(expr),
                        at,
                        expr_v(right),
                        window.pos() as int,
                    );
                }
                expr = Expression::BinaryOp(binary, Box::new(expr), Box::new(right));
            },
        }
    }
    Ok(expr)
}

/// Addition and subtraction, extending left-associatively.
#[verifier::rlimit(100)]
#[verifier::spinoff_prover]
fn expr_additive(window: &mut VecWindow<Token>) -> (r: Result<Expression, ExprError>)
    requires
        old(window).wf(),
    ensures
        r matches Err(e) ==> e.error_text@.len() > 0,
        window_steps(*old(window), *final(window)),
        r matches Ok(e) ==> wf_expr(e) && final(window).pos() > old(window).pos(),
        expr_outcome(
            p_add(token_views(old(window).items()), old(window).pos()),
            r,
            *final(window),
        ),
    decreases old(window).items().len() - old(window).pos(), 13int,
{
    let ghost tvs = token_views(old(window).items());
    proof {
        lemma_views_len(old(window).items());
    }
    let lower = expr_multiply(window);
    let mut expr = match lower {
        Ok(e) => e,
        Err(error) => {
            proof {
                lemma_p_add_err(tvs, old(window).pos());
            }
            return Err(error);
        },
    };
    let ghost target = ext_add(tvs, expr_v(expr), window.pos() as int);
    proof {
        lemma_p_add_good(tvs, old(window).pos(), expr_v(expr), window.pos() as int);
    }
    let mut done = false;
    while !done
        invariant
            window.wf(),
            window.items() == old(window).items(),
            tvs == token_views(old(window).items()),
            old(window).pos() < window.pos(),
            wf_expr(expr),
            p_add(tvs, old(window).pos()) == target,
            !done ==> ext_add(tvs, expr_v(expr), window.pos() as int) == target,
            done ==> target == PExpr::Good(expr_v(expr), window.pos() as int),
        decreases window.items().len() - window.pos() + (if done {
            0int
        } else {
            1int
        }),
    {
        proof {
            lemma_views_len(old(window).items());
            if window.pos() < window.items().len() {
                lemma_view_at(window.items(), window.pos());
            }
        }
        let op: Option<Operator> = match window.get_value(0) {
            Some(Token::Plus) => Some(Operator::Add),
            Some(Token::Minus) => Some(Operator::Sub),
            _ => None,
        };
        match op {
            None => {
                proof {
                    lemma_ext_add_stop(tvs, expr_v(expr), window.pos() as int);
                }
                done = true;
            },
            Some(binary) => {
                let ghost at = window.pos();
                window.move_view(1);
                let right = match expr_multiply(window) {
                    Ok(e) => e,
                    Err(_) => {
                        proof {
                            let bad = p_mul(tvs, at + 1);
                            lemma_ext_add_fail(
                                tvs,
                                expr_v(expr),
                                at,
                                bad->Bad_0,
                                bad->Bad_1,
                                bad->Bad_2,
                            );
                        }
                        proof {
                            reveal_strlit("no right operand follows this additive operator");
                        }
                        return Err(
                            ExprError::new(
                                Some(expr),
                                ParseErrorKind::NoExtensionAvailable,
                                "no right operand follows this additive operator",
                            ),
                        );
                    },
                };
                proof {
                    lemma_ext_add_step(
                        tvs,
                        expr_v(expr),
                        at,
                        expr_v(right),
                        window.pos() as int,
                    );
                }
                expr = Expression::BinaryOp(binary, Box::new(expr), Box::new(right));
            },
        }
    }
    Ok(expr)
}

/// Multiplication, division and remainder, extending left-associatively.
#[verifier::rlimit(100)]
#[verifier::spinoff_prover]
fn expr_multiply(window: &mut VecWindow<Token>) -> (r: Result<Expression, ExprError>)
    requires
        old(window).wf(),
    ensures
        r matches Err(e) ==> e.error_text@.len() > 0,
        window_steps(*old(window), *final(window)),
        r matches Ok(e) ==> wf_expr(e) && final(window).pos() > old(window).pos(),
        expr_outcome(
            p_mul(token_views(old(window).items()), old(window).pos()),
            r,
            *final(window),
        ),
    decreases old(window).items().len() - old(window).pos(), 12int,
{
    let ghost tvs = token_views(old(window).items());
    proof {
        lemma_views_len(old(window).items());
    }
    let lower = expr_exponent(window);
    let mut expr = match lower {
        Ok(e) => e,
        Err(error) => {
            proof {
                lemma_p_mul_err(tvs, old(window).pos());
            }
            return Err(error);
        },
    };
    let ghost target = ext_mul(tvs, expr_v(expr), window.pos() as int);
    proof {
        lemma_p_mul_good(tvs, old(window).pos(), expr_v(expr), window.pos() as int);
    }
    let mut done = false;
    while !done
        invariant
            window.wf(),
            window.items() == old(window).items(),
            tvs == token_views(old(window).items()),
            old(window).pos() < window.pos(),
            wf_expr(expr),
            p_mul(tvs, old(window).pos()) == target,
            !done ==> ext_mul(tvs, expr_v(expr), window.pos() as int) == target,
            done ==> target == PExpr::Good(expr_v(expr), window.pos() as int),
        decreases window.items().len() - window.pos() + (if done {
            0int
        } else {
            1int
        }),
    {
        proof {
            lemma_views_len(old(window).items());
            if window.pos() < window.items().len() {
                lemma_view_at(window.items(), window.pos());
            }
        }
        let op: Option<Operator> = match window.get_value(0) {
            Some(Token::Slash) => Some(Operator::Div),
            Some(Token::Star) => Some(Operator::Mul),
            Some(Token::Percent) => Some(Operator::Mod),
            _ => None,
        };
        match op {
            None => {
                proof {
                    lemma_ext_mul_stop(tvs, expr_v(expr), window.pos() as int);
                }
                done = true;
            },
            Some(binary) => {
                let ghost at = window.pos();
                window.move_view(1);
                let right = match expr_exponent(window) {
                    Ok(e) => e,
                    Err(_) => {
                        proof {
                            let bad = p_exponent(tvs, at + 1);
                            lemma_ext_mul_fail(
                                tvs,
                                expr_v(expr),
                                at,
                                bad->Bad_0,
                                bad->Bad_1,
                                bad->Bad_2,
                            );
                        }
                        proof {
                            reveal_strlit("no right operand follows this multiplicative operator");
                        }
                        return Err(
                            ExprError::new(
                                Some(expr),
                                ParseErrorKind::NoExtensionAvailable,
                                "no right operand follows this multiplicative operator",
                            ),
                        );
                    },
                };
                proof {
                    lemma_ext_mul_step(
                        tvs,
                        expr_v(expr),
                        at,
                        expr_v(right),
                        window.pos() as int,
                    );
                }
                expr = Expression::BinaryOp(binary, Box::new(expr), Box::new(right));
            },
        }
    }
    Ok(expr)
}

/// The exponent, right-associative by direct recursion.
#[verifier::rlimit(100)]
#[verifier::spinoff_prover]
fn expr_exponent(window: &mut VecWindow<Token>) -> (r: Result<Expression, ExprError>)
    requires
        old(window).wf(),
    ensures
        r matches Err(e) ==> e.error_text@.len() > 0,
        window_steps(*old(window), *final(window)),
        r matches Ok(e) ==> wf_expr(e) && final(window).pos() > old(window).pos(),
        expr_outcome(
            p_exponent(token_views(old(window).items()), old(window).pos()),
            r,
            *final(window),
        ),
    decreases old(window).items().len() - old(window).pos(), 11int,
{
    reveal(p_exponent);
    proof {
        lemma_views_len(old(window).items());
    }
    let expr = match expr_postfix(window) {
        Ok(e) => e,
        Err(error) => {
            return Err(error);
        },
    };
    proof {
        let tvs = token_views(old(window).items());
        lemma_views_len(old(window).items());
        assert(next_pos(old(window).pos(), window.pos() as int, tvs.len() as int)
            == window.pos());
        if window.pos() < window.items().len() {
            lemma_view_at(window.items(), window.pos());
        }
    }
    let extend = match window.get_value(0) {
        Some(Token::Caret) => true,
        _ => false,
    };
    if !extend {
        return Ok(expr);
    }
    window.move_view(1);
    let right = match expr_exponent(window) {
        Ok(e) => e,
        Err(error) => {
            return Err(error);
        },
    };
    Ok(Expression::BinaryOp(Operator::Pow, Box::new(expr), Box::new(right)))
}

/// The postfix factorial, stacking left to right.
#[verifier::rlimit(100)]
#[verifier::spinoff_prover]
fn expr_postfix(window: &mut VecWindow<Token>) -> (r: Result<Expression, ExprError>)
    requires
        old(window).wf(),
    ensures
        r matches Err(e) ==> e.error_text@.len() > 0,
        window_steps(*old(window), *final(window)),
        r matches Ok(e) ==> wf_expr(e) && final(window).pos() > old(window).pos(),
        expr_outcome(
            p_postfix(token_views(old(window).items()), old(window).pos()),
            r,
            *final(window),
        ),
    decreases old(window).items().len() - old(window).pos(), 10int,
{
    proof {
        lemma_views_len(old(window).items());
    }
    let ghost tvs = token_views(old(window).items());
    let lower = expr_keyword(window);
    let mut expr = match lower {
        Ok(e) => e,
        Err(error) => {
            proof {
                lemma_p_postfix_err(tvs, old(window).pos());
            }
            return Err(error);
        },
    };
    let ghost target = ext_fact(tvs, expr_v(expr), window.pos() as int);
    proof {
        lemma_views_len(old(window).items());
        lemma_p_postfix_good(tvs, old(window).pos(), expr_v(expr), window.pos() as int);
    }
    let mut done = false;
    while !done
        invariant
            window.wf(),
            window.items() == old(window).items(),
            tvs == token_views(old(window).items()),
            old(window).pos() < window.pos(),
            wf_expr(expr),
            p_postfix(tvs, old(window).pos()) == target,
            !done ==> ext_fact(tvs, expr_v(expr), window.pos() as int) == target,
            done ==> target == PExpr::Good(expr_v(expr), window.pos() as int),
        decreases window.items().len() - window.pos() + (if done {
            0int
        } else {
            1int
        }),
    {
        proof {
            lemma_views_len(old(window).items());
            if window.pos() < window.items().len() {
                lemma_view_at(window.items(), window.pos());
            }
        }
        let extend = match window.get_value(0) {
            Some(Token::Exclam) => true,
            _ => false,
        };
        if !extend {
            proof {
                lemma_ext_fact_stop(tvs, expr_v(expr), window.pos() as int);
            }
            done = true;
        } else {
            proof {
                lemma_ext_fact_step(tvs, expr_v(expr), window.pos() as int);
            }
            window.move_view(1);
            expr = Expression::UnaryOp(Operator::Fact, Box::new(expr));
        }
    }
    Ok(expr)
}

/// The prefix keyword functions, each recursing at its own level so they
/// stack.
#[verifier::rlimit(100)]
#[verifier::spinoff_prover]
fn expr_keyword(window: &mut VecWindow<Token>) -> (r: Result<Expression, ExprError>)
    requires
        old(window).wf(),
    ensures
        r matches Err(e) ==> e.error_text@.len() > 0,
        window_steps(*old(window), *final(window)),
        r matches Ok(e) ==> wf_expr(e) && final(window).pos() > old(window).pos(),
        expr_outcome(
            p_keyword(token_views(old(window).items()), old(window).pos()),
            r,
            *final(window),
        ),
    decreases old(window).items().len() - old(window).pos(), 9int,
{
    reveal(p_keyword);
    proof {
        lemma_views_len(old(window).items());
    }
    let lower = expr_neg(window);
    let unmatched = match &lower {
        Err(e) => match e.kind {
            ParseErrorKind::NoParseRuleMatch => true,
            _ => false,
        },
        Ok(_) => false,
    };
    if !unmatched {
        return lower;
    }
    proof {
        lemma_views_len(old(window).items());
        if window.pos() < window.items().len() {
            lemma_view_at(window.items(), window.pos());
        }
    }
    let op: Option<Operator> = match window.get_value(0) {
        Some(Token::Abs) => Some(Operator::Abs),
        Some(Token::Sqrt) => Some(Operator::Sqrt),
        Some(Token::Sin) => Some(Operator::Sin),
        Some(Token::Cos) => Some(Operator::Cos),
        Some(Token::Tan) => Some(Operator::Tan),
        Some(Token::Arcsin) => Some(Operator::Arcsin),
        Some(Token::Arccos) => Some(Operator::Arccos),
        Some(Token::Arctan) => Some(Operator::Arctan),
        Some(Token::Not) => Some(Operator::Not),
        _ => None,
    };
    let unary = match op {
        Some(o) => o,
        None => {
            proof {
                reveal_strlit("no keyword operator stands where a value was expected");
            }
            return Err(
                ExprError::new(
                    None,
                    ParseErrorKind::NoParseRuleMatch,
                    "no keyword operator stands where a value was expected",
                ),
            );
        },
    };
    window.move_view(1);
    let operand = match expr_keyword(window) {
        Ok(e) => e,
        Err(error) => {
            return Err(error);
        },
    };
    Ok(Expression::UnaryOp(unary, Box::new(operand)))
}

/// The unary sign, recursing so signs stack.
#[verifier::rlimit(100)]
#[verifier::spinoff_prover]
fn expr_neg(window: &mut VecWindow<Token>) -> (r: Result<Expression, ExprError>)
    requires
        old(window).wf(),
    ensures
        r matches Err(e) ==> e.error_text@.len() > 0,
        window_steps(*old(window), *final(window)),
        r matches Ok(e) ==> wf_expr(e) && final(window).pos() > old(window).pos(),
        expr_outcome(
            p_neg(token_views(old(window).items()), old(window).pos()),
            r,
            *final(window),
        ),
    decreases old(window).items().len() - old(window).pos(), 8int,
{
    reveal(p_neg);
    proof {
        lemma_views_len(old(window).items());
    }
    let lower = expr_ident(window);
    let unmatched = match &lower {
        Err(e) => match e.kind {
            ParseErrorKind::NoParseRuleMatch => true,
            _ => false,
        },
        Ok(_) => false,
    };
    if !unmatched {
        return lower;
    }
    proof {
        lemma_views_len(old(window).items());
        if window.pos() < window.items().len() {
            lemma_view_at(window.items(), window.pos());
        }
    }
    let minus = match window.get_value(0) {
        Some(Token::Minus) => true,
        _ => false,
    };
    if !minus {
        proof {
            reveal_strlit("no sign stands where a value was expected");
        }
        return Err(
            ExprError::new(
                None,
                ParseErrorKind::NoParseRuleMatch,
                "no sign stands where a value was expected",
            ),
        );
    }
    window.move_view(1);
    let operand = match expr_neg(window) {
        Ok(e) => e,
        Err(error) => {
            return Err(error);
        },
    };
    Ok(Expression::UnaryOp(Operator::Negate, Box::new(operand)))
}

/// The increment and decrement forms on an identifier, by three-token
/// lookahead, before the general primary rule.
#[verifier::rlimit(100)]
#[verifier::spinoff_prover]
fn expr_ident(window: &mut VecWindow<Token>) -> (r: Result<Expression, ExprError>)
    requires
        old(window).wf(),
    ensures
        r matches Err(e) ==> e.error_text@.len() > 0,
        window_steps(*old(window), *final(window)),
        r matches Ok(e) ==> wf_expr(e) && final(window).pos() > old(window).pos(),
        expr_outcome(
            p_ident(token_views(old(window).items()), old(window).pos()),
            r,
            *final(window),
        ),
    decreases old(window).items().len() - old(window).pos(), 7int,
{
    reveal(p_ident);
    proof {
        lemma_views_len(old(window).items());
        let items = old(window).items();
        let i = old(window).pos();
        if i < items.len() {
            lemma_view_at(items, i);
        }
        if i + 1 < items.len() {
            lemma_view_at(items, i + 1);
        }
        if i + 2 < items.len() {
            lemma_view_at(items, i + 2);
        }
    }
    // Postfix forms: an identifier followed by a doubled sign.
    let postfix: Option<Operator> = match (
        window.get_value(0),
        window.get_value(1),
        window.get_value(2),
    ) {
        (Some(Token::Identifier(_)), Some(Token::Plus), Some(Token::Plus)) => Some(
            Operator::PostInc,
        ),
        (Some(Token::Identifier(_)), Some(Token::Minus), Some(Token::Minus)) => Some(
            Operator::PostDec,
        ),
        _ => None,
    };
    match postfix {
        Some(op) => {
            let value = match window.get_value(0) {
                Some(t) => Value::from_token(t),
                None => Value::NumberVal(crate::number::YololNumber::new(0)),
            };
            window.move_view(3);
            proof {
                assert(wf_expr(Expression::Value(value)));
                assert(expr_v(Expression::Value(value)) == ExprV::Leaf(value_v(value)));
            }
            return Ok(Expression::UnaryOp(op, Box::new(Expression::Value(value))));
        },
        None => {},
    }
    // Prefix forms: a doubled sign followed by an identifier.
    let prefix: Option<Operator> = match (
        window.get_value(0),
        window.get_value(1),
        window.get_value(2),
    ) {
        (Some(Token::Plus), Some(Token::Plus), Some(Token::Identifier(_))) => Some(
            Operator::PreInc,
        ),
        (Some(Token::Minus), Some(Token::Minus), Some(Token::Identifier(_))) => Some(
            Operator::PreDec,
        ),
        _ => None,
    };
    match prefix {
        Some(op) => {
            let value = match window.get_value(2) {
                Some(t) => Value::from_token(t),
                None => Value::NumberVal(crate::number::YololNumber::new(0)),
            };
            window.move_view(3);
            proof {
                assert(wf_expr(Expression::Value(value)));
                assert(expr_v(Expression::Value(value)) == ExprV::Leaf(value_v(value)));
            }
            return Ok(Expression::UnaryOp(op, Box::new(Expression::Value(value))));
        },
        None => {},
    }
    match parse_value(window) {
        Ok(v) => Ok(Expression::Value(v)),
        Err(error) => Err(error),
    }
}

/// A primary value: a literal, an identifier, a data field, or a
/// parenthesized group whose closing parenthesis is required.
#[verifier::rlimit(100)]
#[verifier::spinoff_prover]
fn parse_value(window: &mut VecWindow<Token>) -> (r: Result<Value, ExprError>)
    requires
        old(window).wf(),
    ensures
        r matches Err(e) ==> e.error_text@.len() > 0,
        window_steps(*old(window), *final(window)),
        r matches Ok(v) ==> wf_value(v) && final(window).pos() > old(window).pos(),
        value_outcome(
            p_value(token_views(old(window).items()), old(window).pos()),
            r,
            *final(window),
        ),
    decreases old(window).items().len() - old(window).pos(), 6int,
{
    reveal(p_value);
    proof {
        lemma_views_len(old(window).items());
        if old(window).pos() < old(window).items().len() {
            lemma_view_at(old(window).items(), old(window).pos());
        }
    }
    let leaf = match window.get_value(0) {
        Some(t) => match t {
            Token::StringToken(_) => true,
            Token::YololNum(_) => true,
            Token::Identifier(_) => true,
            Token::DataField(_) => true,
            _ => false,
        },
        None => false,
    };
    if leaf {
        let value = match window.get_value(0) {
            Some(t) => Value::from_token(t),
            None => Value::NumberVal(crate::number::YololNumber::new(0)),
        };
        window.move_view(1);
        return Ok(value);
    }
    let group = match window.get_value(0) {
        Some(Token::LParen) => true,
        _ => false,
    };
    if group {
        window.move_view(1);
        let output = match parse_expression(window) {
            Ok(e) => e,
            Err(error) => {
                return Err(error);
            },
        };
        proof {
            lemma_views_len(old(window).items());
            if window.pos() < window.items().len() {
                lemma_view_at(window.items(), window.pos());
            }
        }
        let closed = match window.get_value(0) {
            Some(Token::RParen) => true,
            _ => false,
        };
        if closed {
            window.move_view(1);
            return Ok(Value::Group(Box::new(output)));
        }
        proof {
            reveal_strlit("an opened group never closes its parenthesis");
        }
        return Err(
            ExprError::new(
                Some(output),
                ParseErrorKind::UnbalancedParenthesis,
                "an opened group never closes its parenthesis",
            ),
        );
    }
    proof {
        reveal_strlit("no rule matches where a value was expected");
    }
    Err(
        ExprError::new(
            None,
            ParseErrorKind::NoParseRuleMatch,
            "no rule matches where a value was expected",
        ),
    )
}

} // verus!
