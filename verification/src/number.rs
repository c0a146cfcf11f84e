//! The YOLOL fixed-point number: a signed value stored as a 64-bit integer
//! scaled by 10,000 (four decimal digits of precision).
//!
//! All arithmetic saturates at the `i64` range instead of wrapping or
//! panicking; division and modulo by zero produce zero; multiplication and
//! division rescale around the 10,000 scale factor through a 128-bit
//! intermediate so no precision is lost before the final saturation.

pub mod power;
pub mod text;
pub mod trig;

use vstd::prelude::*;

verus! {

/// The fixed scale factor: one unit of the scaled representation is 1/10000.
pub const SCALE: i64 = 10000;

/// Clamps a mathematical integer into the `i64` range.
pub open spec fn sat64(x: int) -> int {
    if x > i64::MAX {
        i64::MAX as int
    } else if x < i64::MIN {
        i64::MIN as int
    } else {
        x
    }
}

/// Division truncating toward zero, the rounding Rust's `/` uses.
/// Unspecified when `b == 0`.
pub open spec fn tdiv(a: int, b: int) -> int {
    if a >= 0 && b > 0 {
        a / b
    } else if a < 0 && b < 0 {
        (-a) / (-b)
    } else if a < 0 {
        -((-a) / b)
    } else {
        -(a / (-b))
    }
}

/// Remainder with the sign of the dividend, the rounding Rust's `%` uses.
/// Unspecified when `b == 0`.
pub open spec fn trem(a: int, b: int) -> int {
    a - b * tdiv(a, b)
}

/// The absolute value of a mathematical integer.
pub open spec fn abs1(x: int) -> int {
    if x < 0 {
        -x
    } else {
        x
    }
}

/// A YOLOL number: the scaled representation `n` stands for the value
/// `n / 10000`. The view of a `YololNumber` is its scaled representation as
/// a mathematical integer.
#[derive(Clone, Copy, PartialEq, Eq, Structural, Debug, Hash)]
pub struct YololNumber(i64);

impl View for YololNumber {
    type V = int;

    closed spec fn view(&self) -> int {
        self.0 as int
    }
}

/// The value a number stands for always fits the machine word it is
/// stored in.
pub proof fn lemma_number_bounds(n: YololNumber)
    ensures
        i64::MIN <= n@ <= i64::MAX,
{
}

impl YololNumber {
    /// Wraps a raw scaled representation.
    pub fn new(inner: i64) -> (r: YololNumber)
        ensures
            r@ == inner as int,
    {
        YololNumber(inner)
    }

    /// Builds a number from a whole part and a fractional numerator already
    /// scaled to four digits, saturating on overflow.
    pub fn from_split(main: i64, decimal: i64) -> (r: YololNumber)
        ensures
            r@ == sat64(sat64(main * SCALE) + decimal),
    {
        YololNumber(sat_add_i64(sat_mul_i64(main, SCALE), decimal))
    }

    /// The raw scaled representation.
    pub fn to_inner(self) -> (r: i64)
        ensures
            r as int == self@,
    {
        self.0
    }

    /// The whole part, truncated toward zero.
    pub fn whole_part(self) -> (r: i64)
        ensures
            r as int == tdiv(self@, SCALE as int),
    {
        self.0 / SCALE
    }

    /// True when the value is strictly below zero.
    pub fn is_negative(self) -> (r: bool)
        ensures
            r == (self@ < 0),
    {
        self.0 < 0
    }

    /// Drops the fractional digits, truncating toward zero.
    pub fn floor(self) -> (r: YololNumber)
        ensures
            r@ == tdiv(self@, SCALE as int) * SCALE,
    {
        YololNumber::from_whole(self.0 / SCALE)
    }

    /// Rounds up to the least whole value at or above the number,
    /// saturating at the top of the range.
    pub fn ceiling(self) -> (r: YololNumber)
        ensures
            r@ == sat64(
                if trem(self@, SCALE as int) == 0 {
                    self@
                } else {
                    tdiv(self@, SCALE as int) * SCALE as int + if self@ > 0 {
                        SCALE as int
                    } else {
                        0
                    }
                },
            ),
    {
        let first_decimal = self.0 % SCALE;
        if first_decimal == 0 {
            self
        } else if self.0 > 0 {
            YololNumber(sat_add_i64(self.0 - first_decimal, SCALE))
        } else {
            proof {
                lemma_trem_abs(self@, SCALE as int);
            }
            YololNumber(self.0 - first_decimal)
        }
    }

    /// Clamps the value between the whole numbers `min` and `max`.
    pub fn clamp(self, min: i64, max: i64) -> (r: YololNumber)
        ensures
            r@ == if self@ < sat64(min * SCALE) {
                sat64(min * SCALE)
            } else if self@ > sat64(max * SCALE) {
                sat64(max * SCALE)
            } else {
                self@
            },
    {
        if self.0 < sat_mul_i64(min, SCALE) {
            YololNumber::from_whole(min)
        } else if self.0 > sat_mul_i64(max, SCALE) {
            YololNumber::from_whole(max)
        } else {
            self
        }
    }

    /// The absolute value, saturating on the minimum representation.
    pub fn abs(self) -> (r: YololNumber)
        ensures
            r@ == sat64(if self@ < 0 {
                -self@
            } else {
                self@
            }),
    {
        if self.0 == i64::MIN {
            YololNumber(i64::MAX)
        } else if self.0 < 0 {
            YololNumber(-self.0)
        } else {
            self
        }
    }

    /// Converts a whole number into its scaled representation, saturating.
    pub fn from_whole(input: i64) -> (r: YololNumber)
        ensures
            r@ == sat64(input * SCALE),
    {
        YololNumber(sat_mul_i64(input, SCALE))
    }

    /// Saturating addition.
    pub fn sat_add(self, other: Self) -> (r: Self)
        ensures
            r@ == sat64(self@ + other@),
    {
        YololNumber(sat_add_i64(self.0, other.0))
    }

    /// Saturating subtraction.
    pub fn sat_sub(self, other: Self) -> (r: Self)
        ensures
            r@ == sat64(self@ - other@),
    {
        YololNumber(sat_sub_i64(self.0, other.0))
    }

    /// Saturating multiplication, rescaled around the scale factor with a
    /// wide intermediate: the result is the truncated product, saturated.
    pub fn sat_mul(self, other: Self) -> (r: Self)
        ensures
            r@ == sat64(tdiv(self@ * other@, SCALE as int)),
    {
        let negative = (self.0 < 0) != (other.0 < 0);
        let ua: u128 = abs_u128(self.0);
        let ub: u128 = abs_u128(other.0);
        proof {
            assert(ua * ub <= 0x40000000000000000000000000000000) by (nonlinear_arith)
                requires
                    ua <= 0x8000000000000000,
                    ub <= 0x8000000000000000,
            ;
            assert((((self@ * other@) < 0) <==> ((self@ < 0) != (other@ < 0) && self@ != 0
                && other@ != 0)) && abs1(self@ * other@) == abs1(self@) * abs1(other@))
                by (nonlinear_arith);
            lemma_tdiv_abs(self@ * other@, SCALE as int);
        }
        let product: u128 = ua * ub;
        let scaled: u128 = product / (SCALE as u128);
        if negative {
            sat_neg_narrow(scaled)
        } else {
            sat_pos_narrow(scaled)
        }
    }

    /// Division: zero when the divisor is zero, otherwise the truncated
    /// quotient of the rescaled dividend, computed wide and saturated.
    pub fn div(self, other: Self) -> (r: Self)
        ensures
            other@ == 0 ==> r@ == 0,
            other@ != 0 ==> r@ == sat64(tdiv(self@ * SCALE as int, other@)),
    {
        if other.0 == 0 {
            YololNumber(0)
        } else {
            let negative = (self.0 < 0) != (other.0 < 0);
            let ua: u128 = abs_u128(self.0);
            let ub: u128 = abs_u128(other.0);
            proof {
                assert(ua * (SCALE as u128) <= 0x40000000000000000000000000000000)
                    by (nonlinear_arith)
                    requires
                        ua <= 0x8000000000000000,
                ;
                assert((((self@ * SCALE as int) < 0) <==> (self@ < 0)) && abs1(
                    self@ * SCALE as int,
                ) == abs1(self@) * SCALE as int) by (nonlinear_arith);
                lemma_tdiv_abs(self@ * SCALE as int, other@);
            }
            let scaled: u128 = ua * (SCALE as u128);
            let quotient: u128 = scaled / ub;
            if negative {
                sat_neg_narrow(quotient)
            } else {
                sat_pos_narrow(quotient)
            }
        }
    }

    /// Remainder: zero when the divisor is zero, otherwise the remainder
    /// with the sign of the dividend (no rescaling is needed).
    pub fn rem(self, other: Self) -> (r: Self)
        ensures
            other@ == 0 ==> r@ == 0,
            other@ != 0 ==> r@ == trem(self@, other@),
    {
        if other.0 == 0 {
            YololNumber(0)
        } else {
            let ua: u128 = abs_u128(self.0);
            let ub: u128 = abs_u128(other.0);
            proof {
                lemma_trem_abs(self@, other@);
            }
            let um: u128 = ua % ub;
            if self.0 < 0 {
                sat_neg_narrow(um)
            } else {
                sat_pos_narrow(um)
            }
        }
    }

    /// Saturating negation.
    pub fn neg(self) -> (r: Self)
        ensures
            r@ == sat64(-self@),
    {
        if self.0 == i64::MIN {
            YololNumber(i64::MAX)
        } else {
            YololNumber(-self.0)
        }
    }

    /// Logical negation: one when the value is zero, zero otherwise.
    pub fn not(self) -> (r: Self)
        ensures
            self@ == 0 ==> r@ == SCALE as int,
            self@ != 0 ==> r@ == 0,
    {
        if self.0 == 0 {
            YololNumber(SCALE)
        } else {
            YololNumber(0)
        }
    }

    /// The canonical false value, zero.
    pub fn falsy() -> (r: Self)
        ensures
            r@ == 0,
    {
        YololNumber(0)
    }

    /// The canonical true value, one.
    pub fn truthy() -> (r: Self)
        ensures
            r@ == SCALE as int,
    {
        YololNumber(SCALE)
    }
}

/// Saturating `i64` addition.
pub(crate) fn sat_add_i64(a: i64, b: i64) -> (r: i64)
    ensures
        r as int == sat64(a + b),
{
    match a.checked_add(b) {
        Some(v) => v,
        None => if b > 0 {
            i64::MAX
        } else {
            i64::MIN
        },
    }
}

/// Saturating `i64` subtraction.
fn sat_sub_i64(a: i64, b: i64) -> (r: i64)
    ensures
        r as int == sat64(a - b),
{
    match a.checked_sub(b) {
        Some(v) => v,
        None => if b < 0 {
            i64::MAX
        } else {
            i64::MIN
        },
    }
}

/// Saturating `i64` multiplication.
pub(crate) fn sat_mul_i64(a: i64, b: i64) -> (r: i64)
    ensures
        r as int == sat64(a * b),
{
    match a.checked_mul(b) {
        Some(v) => v,
        None => {
            proof {
                lemma_mul_sign(a as int, b as int);
            }
            if (a > 0) == (b > 0) {
                i64::MAX
            } else {
                i64::MIN
            }
        },
    }
}

/// The magnitude of an `i64`, computed without overflow.
fn abs_u128(x: i64) -> (r: u128)
    ensures
        r == abs1(x as int),
        r <= 0x8000000000000000,
{
    if x < 0 {
        (-(x as i128)) as u128
    } else {
        x as u128
    }
}

/// Narrows a nonnegative wide magnitude into a saturated number.
fn sat_pos_narrow(wide: u128) -> (r: YololNumber)
    ensures
        r@ == sat64(wide as int),
{
    if wide > i64::MAX as u128 {
        YololNumber(i64::MAX)
    } else {
        YololNumber(wide as i64)
    }
}

/// Narrows a wide magnitude, negated, into a saturated number.
fn sat_neg_narrow(wide: u128) -> (r: YololNumber)
    ensures
        r@ == sat64(-(wide as int)),
{
    if wide > i64::MAX as u128 {
        YololNumber(i64::MIN)
    } else {
        YololNumber(-(wide as i64))
    }
}

/// The sign of a product follows the signs of its factors.
proof fn lemma_mul_sign(a: int, b: int)
    by (nonlinear_arith)
    ensures
        a > 0 && b > 0 ==> a * b > 0,
        a < 0 && b < 0 ==> a * b > 0,
        a > 0 && b < 0 ==> a * b < 0,
        a < 0 && b > 0 ==> a * b < 0,
        a == 0 || b == 0 ==> a * b == 0,
{
}

/// Truncating division expressed through the magnitudes of its operands.
proof fn lemma_tdiv_abs(a: int, b: int)
    requires
        b != 0,
    ensures
        tdiv(a, b) == if (a < 0) != (b < 0) {
            -(abs1(a) / abs1(b))
        } else {
            abs1(a) / abs1(b)
        },
{
}

/// The truncating remainder expressed through magnitudes: it carries the
/// sign of the dividend and stays strictly below the divisor's magnitude.
pub(crate) proof fn lemma_trem_abs(a: int, b: int)
    requires
        b != 0,
    ensures
        trem(a, b) == if a < 0 {
            -(abs1(a) % abs1(b))
        } else {
            abs1(a) % abs1(b)
        },
        abs1(trem(a, b)) < abs1(b),
{
    let m = abs1(b);
    lemma_tdiv_abs(a, b);
    vstd::arithmetic::div_mod::lemma_fundamental_div_mod(abs1(a), m);
    vstd::arithmetic::div_mod::lemma_mod_bound(abs1(a), m);
    if a >= 0 {
        if b > 0 {
            assert(b * tdiv(a, b) == m * (a / m));
        } else {
            assert(b * tdiv(a, b) == m * (a / m)) by (nonlinear_arith)
                requires
                    b == -m,
                    tdiv(a, b) == -(a / m),
            ;
        }
    } else {
        if b > 0 {
            assert(b * tdiv(a, b) == -(m * ((-a) / m))) by (nonlinear_arith)
                requires
                    b == m,
                    tdiv(a, b) == -((-a) / m),
            ;
        } else {
            assert(b * tdiv(a, b) == -(m * ((-a) / m))) by (nonlinear_arith)
                requires
                    b == -m,
                    tdiv(a, b) == (-a) / m,
            ;
        }
    }
}

} // verus!
