//! The runtime value: a number or a string, with the mixed arithmetic the
//! language defines between them.
//!
//! Addition concatenates when a string is involved, the number rendering
//! into its display format first. Subtraction with a string involved
//! removes the last occurrence of the right text from the left text.
//! Comparison is numeric between numbers and lexicographic otherwise, a
//! number again comparing through its display text. The remaining
//! arithmetic and the unary mathematical operators demand numbers and
//! report an operator error otherwise; a negative radicand and an inverse
//! sine or cosine operand of magnitude above one are domain operator
//! errors, while the arctangent is defined for every number.

use vstd::prelude::*;
use vstd::string::StringExecFns;
use crate::ast::Operator;
use crate::chars::{to_chars, from_chars};
use crate::errors::{OperatorError, string_of};
use crate::number::{YololNumber, SCALE, sat64, tdiv, trem};
use crate::number::text::render;
use crate::number::trig::{sin_spec, cos_spec, tan_v, asin_v, acos_v, atan_v};
use crate::number::power::{pow_v, sqrt_v};

verus! {

/// The mathematical shape of a runtime value: a scaled number or a
/// character sequence.
pub enum ValV {
    Num(int),
    Str(Seq<char>),
}

/// A runtime value: a number or a string.
#[derive(Debug, Clone)]
pub enum LiteralValue {
    NumberVal(YololNumber),
    StringVal(String),
}

impl View for LiteralValue {
    type V = ValV;

    open spec fn view(&self) -> ValV {
        match self {
            LiteralValue::NumberVal(n) => ValV::Num(n@),
            LiteralValue::StringVal(s) => ValV::Str(s@),
        }
    }
}

/// Equality of runtime values: numbers by value, strings by contents,
/// never across the two shapes.
pub open spec fn lv_eq(a: ValV, b: ValV) -> bool {
    match (a, b) {
        (ValV::Num(x), ValV::Num(y)) => x == y,
        (ValV::Str(s), ValV::Str(t)) => s == t,
        _ => false,
    }
}

/// The text a value compares and concatenates as: a string is itself, a
/// number is its display rendering.
pub open spec fn text_of(v: ValV) -> Seq<char> {
    match v {
        ValV::Num(n) => render(n),
        ValV::Str(s) => s,
    }
}

/// Strict lexicographic order on character sequences, by code point; a
/// proper prefix comes first.
pub open spec fn seq_lt(a: Seq<char>, b: Seq<char>) -> bool
    decreases a.len(),
{
    if b.len() == 0 {
        false
    } else if a.len() == 0 {
        true
    } else if a[0] < b[0] {
        true
    } else if b[0] < a[0] {
        false
    } else {
        seq_lt(a.skip(1), b.skip(1))
    }
}

/// Strict order on runtime values: numeric between numbers, lexicographic
/// on the texts otherwise.
pub open spec fn lv_lt(a: ValV, b: ValV) -> bool {
    match (a, b) {
        (ValV::Num(x), ValV::Num(y)) => x < y,
        _ => seq_lt(text_of(a), text_of(b)),
    }
}

/// Addition: numeric between numbers, concatenation of the texts when a
/// string is involved.
pub open spec fn lv_add(a: ValV, b: ValV) -> ValV {
    match (a, b) {
        (ValV::Num(x), ValV::Num(y)) => ValV::Num(sat64(x + y)),
        _ => ValV::Str(text_of(a) + text_of(b)),
    }
}

/// Whether the needle occurs in the haystack at this position.
pub open spec fn is_match_at(at: Seq<char>, bt: Seq<char>, i: int) -> bool {
    0 <= i && i + bt.len() <= at.len() && at.subrange(i, i + bt.len() as int) == bt
}

/// The last occurrence of the needle at or before `from`, if any.
pub open spec fn rfind(at: Seq<char>, bt: Seq<char>, from: int) -> Option<int>
    decreases from + 1 when from >= -1
{
    if from < 0 {
        None
    } else if is_match_at(at, bt, from) {
        Some(from)
    } else {
        rfind(at, bt, from - 1)
    }
}

/// Subtraction with a string involved: the last occurrence of the right
/// text is removed from the left text; without one the left text stands.
pub open spec fn lv_sub_str(a: ValV, b: ValV) -> ValV {
    let at = text_of(a);
    let bt = text_of(b);
    if at.len() < bt.len() {
        ValV::Str(at)
    } else {
        match rfind(at, bt, at.len() - bt.len()) {
            None => ValV::Str(at),
            Some(i) => ValV::Str(at.subrange(0, i) + at.subrange(i + bt.len(), at.len() as int)),
        }
    }
}

/// Subtraction: numeric between numbers, last-occurrence removal
/// otherwise.
pub open spec fn lv_sub(a: ValV, b: ValV) -> ValV {
    match (a, b) {
        (ValV::Num(x), ValV::Num(y)) => ValV::Num(sat64(x - y)),
        _ => lv_sub_str(a, b),
    }
}

/// Multiplication, defined only between numbers.
pub open spec fn lv_mul(a: ValV, b: ValV) -> Option<ValV> {
    match (a, b) {
        (ValV::Num(x), ValV::Num(y)) => Some(ValV::Num(sat64(tdiv(x * y, SCALE as int)))),
        _ => None,
    }
}

/// Division, defined only between numbers; a zero divisor yields zero.
pub open spec fn lv_div(a: ValV, b: ValV) -> Option<ValV> {
    match (a, b) {
        (ValV::Num(x), ValV::Num(y)) => Some(
            ValV::Num(
                if y == 0 {
                    0
                } else {
                    sat64(tdiv(x * SCALE as int, y))
                },
            ),
        ),
        _ => None,
    }
}

/// Exponentiation, defined only between numbers.
pub open spec fn lv_pow(a: ValV, b: ValV) -> Option<ValV> {
    match (a, b) {
        (ValV::Num(x), ValV::Num(y)) => Some(ValV::Num(crate::number::power::pow_v(x, y))),
        _ => None,
    }
}

/// Remainder, defined only between numbers; a zero divisor yields zero.
pub open spec fn lv_rem(a: ValV, b: ValV) -> Option<ValV> {
    match (a, b) {
        (ValV::Num(x), ValV::Num(y)) => Some(
            ValV::Num(
                if y == 0 {
                    0
                } else {
                    trem(x, y)
                },
            ),
        ),
        _ => None,
    }
}

impl LiteralValue {
    /// The canonical false value, the number zero.
    pub fn get_false() -> (r: Self)
        ensures
            r@ == ValV::Num(0),
    {
        LiteralValue::NumberVal(YololNumber::falsy())
    }

    /// The canonical true value, the number one.
    pub fn get_true() -> (r: Self)
        ensures
            r@ == ValV::Num(SCALE as int),
    {
        LiteralValue::NumberVal(YololNumber::truthy())
    }

    /// An owned copy with the same contents.
    pub fn duplicate(&self) -> (r: Self)
        ensures
            r == *self,
    {
        match self {
            LiteralValue::NumberVal(n) => LiteralValue::NumberVal(*n),
            LiteralValue::StringVal(s) => LiteralValue::StringVal(s.clone()),
        }
    }

    /// Whether the value is the canonical false value.
    pub fn is_false(&self) -> (r: bool)
        ensures
            r == lv_eq(self@, ValV::Num(0)),
    {
        match self {
            LiteralValue::NumberVal(n) => n.to_inner() == 0,
            LiteralValue::StringVal(_) => false,
        }
    }

    /// Equality test, numbers by value and strings by contents.
    pub fn eq_value(&self, other: &Self) -> (r: bool)
        ensures
            r == lv_eq(self@, other@),
    {
        match (self, other) {
            (LiteralValue::NumberVal(a), LiteralValue::NumberVal(b)) => a.to_inner()
                == b.to_inner(),
            (LiteralValue::StringVal(s), LiteralValue::StringVal(t)) => s.eq(t),
            _ => false,
        }
    }

    /// Strict order test, numeric between numbers and lexicographic on the
    /// texts otherwise.
    pub fn less_than(&self, other: &Self) -> (r: bool)
        ensures
            r == lv_lt(self@, other@),
    {
        match (self, other) {
            (LiteralValue::NumberVal(a), LiteralValue::NumberVal(b)) => a.to_inner()
                < b.to_inner(),
            _ => {
                let at = text_chars(self);
                let bt = text_chars(other);
                seq_less(&at, &bt)
            },
        }
    }

    /// Addition; it is defined for every pair of values.
    pub fn op_add(self, other: Self) -> (r: Result<LiteralValue, OperatorError>)
        ensures
            r matches Ok(v) && v@ == lv_add(self@, other@),
    {
        match (self, other) {
            (LiteralValue::NumberVal(a), LiteralValue::NumberVal(b)) => Ok(
                LiteralValue::NumberVal(a.sat_add(b)),
            ),
            (LiteralValue::NumberVal(a), LiteralValue::StringVal(t)) => Ok(
                LiteralValue::StringVal(a.to_text().concat(t.as_str())),
            ),
            (LiteralValue::StringVal(s), LiteralValue::StringVal(t)) => Ok(
                LiteralValue::StringVal(s.concat(t.as_str())),
            ),
            (LiteralValue::StringVal(s), LiteralValue::NumberVal(b)) => Ok(
                LiteralValue::StringVal(s.concat(b.to_text().as_str())),
            ),
        }
    }

    /// Subtraction; it is defined for every pair of values.
    pub fn op_sub(self, other: Self) -> (r: Result<LiteralValue, OperatorError>)
        ensures
            r matches Ok(v) && v@ == lv_sub(self@, other@),
    {
        match (self, other) {
            (LiteralValue::NumberVal(a), LiteralValue::NumberVal(b)) => Ok(
                LiteralValue::NumberVal(a.sat_sub(b)),
            ),
            (left, right) => Ok(left.string_sub(right)),
        }
    }

    /// The last-occurrence removal that subtraction performs when a string
    /// is involved.
    fn string_sub(self, other: Self) -> (r: LiteralValue)
        ensures
            r@ == lv_sub_str(self@, other@),
    {
        let at = text_chars(&self);
        let bt = text_chars(&other);
        if at.len() < bt.len() {
            return LiteralValue::StringVal(from_chars(&at));
        }
        match rfind_chars(&at, &bt) {
            None => LiteralValue::StringVal(from_chars(&at)),
            Some(i) => {
                let mut out: Vec<char> = Vec::new();
                let mut k: usize = 0;
                while k < i
                    invariant
                        k <= i,
                        i + bt@.len() <= at@.len(),
                        out@ == at@.subrange(0, k as int),
                    decreases i - k,
                {
                    out.push(at[k]);
                    proof {
                        assert(out@ =~= at@.subrange(0, k + 1));
                    }
                    k = k + 1;
                }
                let mut k2: usize = i + bt.len();
                while k2 < at.len()
                    invariant
                        i + bt@.len() <= k2 <= at@.len(),
                        out@ == at@.subrange(0, i as int) + at@.subrange(
                            i + bt@.len(),
                            k2 as int,
                        ),
                    decreases at@.len() - k2,
                {
                    out.push(at[k2]);
                    proof {
                        assert(out@ =~= at@.subrange(0, i as int) + at@.subrange(
                            i + bt@.len(),
                            k2 + 1,
                        ));
                    }
                    k2 = k2 + 1;
                }
                LiteralValue::StringVal(from_chars(&out))
            },
        }
    }

    /// Multiplication: numbers only; anything else is an operator error
    /// carrying both operands.
    pub fn op_mul(self, other: Self) -> (r: Result<LiteralValue, OperatorError>)
        ensures
            match lv_mul(self@, other@) {
                Some(v) => r matches Ok(out) && out@ == v,
                None => r matches Err(e) && e.op == Operator::Mul && (e.left matches Some(l) && l@
                    == self@) && (e.right matches Some(rr) && rr@ == other@),
            },
    {
        match (self, other) {
            (LiteralValue::NumberVal(a), LiteralValue::NumberVal(b)) => Ok(
                LiteralValue::NumberVal(a.sat_mul(b)),
            ),
            (left, right) => Err(
                OperatorError::new(
                    Operator::Mul,
                    Some(left),
                    Some(right),
                    string_of("multiplication needs two number values"),
                ),
            ),
        }
    }

    /// Division: numbers only, a zero divisor yielding zero; anything else
    /// is an operator error carrying both operands.
    pub fn op_div(self, other: Self) -> (r: Result<LiteralValue, OperatorError>)
        ensures
            match lv_div(self@, other@) {
                Some(v) => r matches Ok(out) && out@ == v,
                None => r matches Err(e) && e.op == Operator::Div && (e.left matches Some(l) && l@
                    == self@) && (e.right matches Some(rr) && rr@ == other@),
            },
    {
        match (self, other) {
            (LiteralValue::NumberVal(a), LiteralValue::NumberVal(b)) => Ok(
                LiteralValue::NumberVal(a.div(b)),
            ),
            (left, right) => Err(
                OperatorError::new(
                    Operator::Div,
                    Some(left),
                    Some(right),
                    string_of("division needs two number values"),
                ),
            ),
        }
    }

    /// Remainder: numbers only, a zero divisor yielding zero; anything
    /// else is an operator error carrying both operands.
    pub fn op_rem(self, other: Self) -> (r: Result<LiteralValue, OperatorError>)
        ensures
            match lv_rem(self@, other@) {
                Some(v) => r matches Ok(out) && out@ == v,
                None => r matches Err(e) && e.op == Operator::Mod && (e.left matches Some(l) && l@
                    == self@) && (e.right matches Some(rr) && rr@ == other@),
            },
    {
        match (self, other) {
            (LiteralValue::NumberVal(a), LiteralValue::NumberVal(b)) => Ok(
                LiteralValue::NumberVal(a.rem(b)),
            ),
            (left, right) => Err(
                OperatorError::new(
                    Operator::Mod,
                    Some(left),
                    Some(right),
                    string_of("remainder needs two number values"),
                ),
            ),
        }
    }

    /// Negation: numbers only.
    pub fn op_neg(self) -> (r: Result<LiteralValue, OperatorError>)
        ensures
            self@ matches ValV::Num(x) ==> (r matches Ok(v) && v@ == ValV::Num(sat64(-x))),
            self@ matches ValV::Str(_) ==> (r matches Err(e) && e.op == Operator::Negate && (e.left
                matches Some(l) && l@ == self@) && e.right is None),
    {
        match self {
            LiteralValue::NumberVal(a) => Ok(LiteralValue::NumberVal(a.neg())),
            left => Err(
                OperatorError::new(
                    Operator::Negate,
                    Some(left),
                    None,
                    string_of("negation needs a number value"),
                ),
            ),
        }
    }

    /// Logical negation: true for the canonical false value, false for
    /// every other value of either shape.
    pub fn op_not(self) -> (r: Result<LiteralValue, OperatorError>)
        ensures
            r matches Ok(v) && v@ == ValV::Num(
                if lv_eq(self@, ValV::Num(0)) {
                    SCALE as int
                } else {
                    0
                },
            ),
    {
        if self.is_false() {
            Ok(LiteralValue::get_true())
        } else {
            Ok(LiteralValue::get_false())
        }
    }

    /// Exponentiation: numbers only; the number layer fixes the exact
    /// cases of the power itself.
    pub fn pow(self, other: Self) -> (r: Result<LiteralValue, OperatorError>)
        ensures
            self@ matches ValV::Num(x) ==> (other@ matches ValV::Num(y) ==> (r matches Ok(v) && v@
                == ValV::Num(pow_v(x, y)))),
            !(self@ is Num && other@ is Num) ==> (r matches Err(e) && e.op == Operator::Pow && (
            e.left matches Some(l) && l@ == self@) && (e.right matches Some(rr) && rr@ == other@)),
    {
        match (self, other) {
            (LiteralValue::NumberVal(a), LiteralValue::NumberVal(b)) => Ok(
                LiteralValue::NumberVal(a.pow(b)),
            ),
            (left, right) => Err(
                OperatorError::new(
                    Operator::Pow,
                    Some(left),
                    Some(right),
                    string_of("exponentiation needs two number values"),
                ),
            ),
        }
    }

    /// The factorial operator has no defined behaviour yet and reports an
    /// operator error for every operand, as the game's own runtime does.
    pub fn factorial(self) -> (r: Result<LiteralValue, OperatorError>)
        ensures
            r matches Err(e) && e.op == Operator::Fact && (e.left matches Some(l) && l@ == self@)
                && e.right is None,
    {
        Err(
            OperatorError::new(
                Operator::Fact,
                Some(self),
                None,
                string_of("the factorial operator is not defined"),
            ),
        )
    }

    /// The absolute value: numbers only.
    pub fn abs(self) -> (r: Result<LiteralValue, OperatorError>)
        ensures
            self@ matches ValV::Num(x) ==> (r matches Ok(v) && v@ == ValV::Num(
                sat64(
                    if x < 0 {
                        -x
                    } else {
                        x
                    },
                ),
            )),
            self@ matches ValV::Str(_) ==> (r matches Err(e) && e.op == Operator::Abs && (e.left
                matches Some(l) && l@ == self@) && e.right is None),
    {
        match self {
            LiteralValue::NumberVal(a) => Ok(LiteralValue::NumberVal(a.abs())),
            left => Err(
                OperatorError::new(
                    Operator::Abs,
                    Some(left),
                    None,
                    string_of("the absolute value needs a number value"),
                ),
            ),
        }
    }

    /// The square root: numbers at least zero; a negative radicand or a
    /// string is an operator error.
    pub fn sqrt(self) -> (r: Result<LiteralValue, OperatorError>)
        ensures
            self@ matches ValV::Num(x) ==> (x >= 0 ==> (r matches Ok(v) && v@ == ValV::Num(
                sqrt_v(x),
            ))),
            self@ matches ValV::Num(x) ==> (x < 0 ==> (r matches Err(e) && e.op
                == Operator::Sqrt && e.right is None)),
            self@ matches ValV::Str(_) ==> (r matches Err(e) && e.op == Operator::Sqrt && e.right
                is None),
    {
        match self {
            LiteralValue::NumberVal(a) => {
                let output = a.sqrt();
                if output.is_negative() {
                    Err(
                        OperatorError::new(
                            Operator::Sqrt,
                            Some(LiteralValue::NumberVal(a)),
                            None,
                            string_of("the square root of a negative value is not defined"),
                        ),
                    )
                } else {
                    Ok(LiteralValue::NumberVal(output))
                }
            },
            left => Err(
                OperatorError::new(
                    Operator::Sqrt,
                    Some(left),
                    None,
                    string_of("the square root needs a number value"),
                ),
            ),
        }
    }

    /// The sine of the value taken as degrees: numbers only.
    pub fn sin(self) -> (r: Result<LiteralValue, OperatorError>)
        ensures
            self@ matches ValV::Num(x) ==> (r matches Ok(v) && v@ == ValV::Num(sin_spec(x))),
            self@ matches ValV::Str(_) ==> (r matches Err(e) && e.op == Operator::Sin && e.right
                is None),
    {
        match self {
            LiteralValue::NumberVal(a) => Ok(LiteralValue::NumberVal(a.sin())),
            left => Err(
                OperatorError::new(
                    Operator::Sin,
                    Some(left),
                    None,
                    string_of("the sine needs a number value"),
                ),
            ),
        }
    }

    /// The cosine of the value taken as degrees: numbers only.
    pub fn cos(self) -> (r: Result<LiteralValue, OperatorError>)
        ensures
            self@ matches ValV::Num(x) ==> (r matches Ok(v) && v@ == ValV::Num(cos_spec(x))),
            self@ matches ValV::Str(_) ==> (r matches Err(e) && e.op == Operator::Cos && e.right
                is None),
    {
        match self {
            LiteralValue::NumberVal(a) => Ok(LiteralValue::NumberVal(a.cos())),
            left => Err(
                OperatorError::new(
                    Operator::Cos,
                    Some(left),
                    None,
                    string_of("the cosine needs a number value"),
                ),
            ),
        }
    }

    /// The tangent of the value taken as degrees: numbers only.
    pub fn tan(self) -> (r: Result<LiteralValue, OperatorError>)
        ensures
            self@ matches ValV::Num(x) ==> (r matches Ok(v) && v@ == ValV::Num(tan_v(x))),
            self@ matches ValV::Str(_) ==> (r matches Err(e) && e.op == Operator::Tan && e.right
                is None),
    {
        match self {
            LiteralValue::NumberVal(a) => Ok(LiteralValue::NumberVal(a.tan())),
            left => Err(
                OperatorError::new(
                    Operator::Tan,
                    Some(left),
                    None,
                    string_of("the tangent needs a number value"),
                ),
            ),
        }
    }

    /// The arcsine in whole degrees, negative for negative operands. A
    /// string or an operand of magnitude above one is a domain operator
    /// error.
    pub fn arcsin(self) -> (r: Result<LiteralValue, OperatorError>)
        ensures
            self@ matches ValV::Num(x) ==> (-(SCALE as int) <= x <= SCALE as int ==> (r
                matches Ok(v) && v@ == ValV::Num(asin_v(x)))),
            self@ matches ValV::Num(x) ==> ((x > SCALE as int || x < -(SCALE as int)) ==> (r
                matches Err(e) && e.op == Operator::Arcsin && e.right is None)),
            self@ matches ValV::Str(_) ==> (r matches Err(e) && e.op == Operator::Arcsin
                && e.right is None),
    {
        match self {
            LiteralValue::NumberVal(a) => {
                let inner = a.to_inner();
                if inner > SCALE || inner < -SCALE {
                    Err(
                        OperatorError::new(
                            Operator::Arcsin,
                            Some(LiteralValue::NumberVal(a)),
                            None,
                            string_of("the arcsine's operand was out of its domain"),
                        ),
                    )
                } else {
                    Ok(LiteralValue::NumberVal(a.arcsin()))
                }
            },
            left => Err(
                OperatorError::new(
                    Operator::Arcsin,
                    Some(left),
                    None,
                    string_of("the arcsine needs a number value"),
                ),
            ),
        }
    }

    /// The arccosine in whole degrees. A string or an operand of
    /// magnitude above one is a domain operator error.
    pub fn arccos(self) -> (r: Result<LiteralValue, OperatorError>)
        ensures
            self@ matches ValV::Num(x) ==> (-(SCALE as int) <= x <= SCALE as int ==> (r
                matches Ok(v) && v@ == ValV::Num(acos_v(x)))),
            self@ matches ValV::Num(x) ==> ((x > SCALE as int || x < -(SCALE as int)) ==> (r
                matches Err(e) && e.op == Operator::Arccos && e.right is None)),
            self@ matches ValV::Str(_) ==> (r matches Err(e) && e.op == Operator::Arccos
                && e.right is None),
    {
        match self {
            LiteralValue::NumberVal(a) => {
                let inner = a.to_inner();
                if inner > SCALE || inner < -SCALE {
                    Err(
                        OperatorError::new(
                            Operator::Arccos,
                            Some(LiteralValue::NumberVal(a)),
                            None,
                            string_of("the arccosine's operand was out of its domain"),
                        ),
                    )
                } else {
                    Ok(LiteralValue::NumberVal(a.arccos()))
                }
            },
            left => Err(
                OperatorError::new(
                    Operator::Arccos,
                    Some(left),
                    None,
                    string_of("the arccosine needs a number value"),
                ),
            ),
        }
    }

    /// The arctangent in whole degrees, negative for negative operands;
    /// it is defined for every number, and only a string is an operator
    /// error.
    pub fn arctan(self) -> (r: Result<LiteralValue, OperatorError>)
        ensures
            self@ matches ValV::Num(x) ==> (r matches Ok(v) && v@ == ValV::Num(atan_v(x))),
            self@ matches ValV::Str(_) ==> (r matches Err(e) && e.op == Operator::Arctan
                && e.right is None),
    {
        match self {
            LiteralValue::NumberVal(a) => Ok(LiteralValue::NumberVal(a.arctan())),
            left => Err(
                OperatorError::new(
                    Operator::Arctan,
                    Some(left),
                    None,
                    string_of("the arctangent needs a number value"),
                ),
            ),
        }
    }
}

/// The comparison text of a value, as characters.
fn text_chars(v: &LiteralValue) -> (r: Vec<char>)
    ensures
        r@ == text_of(v@),
{
    match v {
        LiteralValue::NumberVal(n) => {
            let s = n.to_text();
            to_chars(s.as_str())
        },
        LiteralValue::StringVal(s) => to_chars(s.as_str()),
    }
}

/// Lexicographic strict order over character vectors.
fn seq_less(x: &Vec<char>, y: &Vec<char>) -> (r: bool)
    ensures
        r == seq_lt(x@, y@),
{
    let xn = x.len();
    let yn = y.len();
    proof {
        assert(x@.skip(0) =~= x@);
        assert(y@.skip(0) =~= y@);
    }
    let mut i: usize = 0;
    while i < xn && i < yn && x[i] == y[i]
        invariant
            i <= xn,
            i <= yn,
            xn == x@.len(),
            yn == y@.len(),
            seq_lt(x@, y@) == seq_lt(x@.skip(i as int), y@.skip(i as int)),
            forall|j: int| 0 <= j < i ==> x@[j] == y@[j],
        decreases xn - i,
    {
        proof {
            assert(x@.skip(i as int).skip(1) =~= x@.skip(i + 1));
            assert(y@.skip(i as int).skip(1) =~= y@.skip(i + 1));
            assert(x@.skip(i as int)[0] == x@[i as int]);
            assert(y@.skip(i as int)[0] == y@[i as int]);
        }
        i = i + 1;
    }
    proof {
        assert(x@.skip(i as int).len() == x@.len() - i);
        assert(y@.skip(i as int).len() == y@.len() - i);
        if i < xn && i < yn {
            assert(x@.skip(i as int)[0] == x@[i as int]);
            assert(y@.skip(i as int)[0] == y@[i as int]);
        }
    }
    if i >= yn {
        false
    } else if i >= xn {
        true
    } else {
        x[i] < y[i]
    }
}

/// Whether the needle matches the haystack at a position.
fn match_at(at: &Vec<char>, bt: &Vec<char>, i: usize) -> (r: bool)
    requires
        i + bt@.len() <= at@.len(),
    ensures
        r == is_match_at(at@, bt@, i as int),
{
    let n = at.len();
    let m = bt.len();
    let mut k: usize = 0;
    while k < m
        invariant
            k <= m,
            m == bt@.len(),
            i + m <= at@.len(),
            at@.len() <= usize::MAX as int,
            forall|j: int| 0 <= j < k ==> at@[i + j] == bt@[j],
        decreases m - k,
    {
        if at[i + k] != bt[k] {
            proof {
                assert(at@.subrange(i as int, i + m)[k as int] == at@[i + k]);
                assert(at@.subrange(i as int, i + m) != bt@);
            }
            return false;
        }
        k = k + 1;
    }
    proof {
        assert(at@.subrange(i as int, i + m) =~= bt@);
    }
    true
}

/// The last occurrence of the needle in the haystack, searching down from
/// the last place it could start.
fn rfind_chars(at: &Vec<char>, bt: &Vec<char>) -> (r: Option<usize>)
    requires
        bt@.len() <= at@.len(),
    ensures
        match r {
            Some(i) => rfind(at@, bt@, at@.len() - bt@.len()) == Some(i as int) && i + bt@.len()
                <= at@.len(),
            None => rfind(at@, bt@, at@.len() - bt@.len()) is None,
        },
{
    let start: usize = at.len() - bt.len();
    let mut i: usize = start;
    loop
        invariant
            i <= start,
            start == at@.len() - bt@.len(),
            bt@.len() <= at@.len(),
            rfind(at@, bt@, start as int) == rfind(at@, bt@, i as int),
        decreases i + 1,
    {
        if match_at(at, bt, i) {
            return Some(i);
        }
        if i == 0 {
            proof {
                assert(rfind(at@, bt@, 0) == rfind(at@, bt@, -1));
            }
            return None;
        }
        proof {
            assert(rfind(at@, bt@, i as int) == rfind(at@, bt@, i - 1));
        }
        i = i - 1;
    }
}

} // verus!
