//! Square root and exponentiation over the fixed-point numbers.
//!
//! The square root is the exact integer square root of the truncated whole
//! part; a negative radicand yields the negative-one sentinel that the value
//! layer reports as a domain error.
//!
//! Exponentiation mirrors the in-game behaviour: the result is always a
//! whole number (the real power is truncated toward zero) or a saturated
//! bound, and it is a function of the operands alone, written out by
//! [`pow_v`]: forced cases — a zero base or exponent, a base of magnitude
//! at most one against a whole exponent, a negative base with a fractional
//! exponent — exactly, the rest by binary exponentiation and binary
//! logarithm/exponential in fixed point, an approximation of the real
//! power. The game's own runtime computes these with
//! floating-point exponentiation, so bit-exact agreement there is an
//! accepted approximation either way.

use vstd::prelude::*;
use crate::number::{YololNumber, SCALE, sat64, tdiv, trem, abs1, sat_mul_i64};

verus! {

/// Whether `k` is the integer square root of `q`.
pub open spec fn is_isqrt(q: int, k: int) -> bool {
    0 <= k && k * k <= q && q < (k + 1) * (k + 1)
}

/// The integer square root of a nonnegative value.
pub open spec fn isqrt_v(q: int) -> int {
    choose|k: int| is_isqrt(q, k)
}

/// The square root of a scaled value: the integer square root of the
/// truncated whole part, rescaled; negative input yields negative one.
pub open spec fn sqrt_v(x: int) -> int {
    if x < 0 {
        -(SCALE as int)
    } else {
        isqrt_v(tdiv(x, SCALE as int)) * SCALE as int
    }
}

/// At most one integer square root exists.
proof fn lemma_isqrt_unique(q: int, k1: int, k2: int)
    by (nonlinear_arith)
    requires
        0 <= k1,
        0 <= k2,
        k1 * k1 <= q < (k1 + 1) * (k1 + 1),
        k2 * k2 <= q < (k2 + 1) * (k2 + 1),
    ensures
        k1 == k2,
{
}

impl YololNumber {
    /// The square root: the integer square root of the truncated whole
    /// part, as a whole number; negative input yields negative one, the
    /// domain sentinel.
    pub fn sqrt(self) -> (r: Self)
        ensures
            r@ == sqrt_v(self@),
            self@ < 0 ==> r@ == -(SCALE as int),
            self@ >= 0 ==> ({
                let k = r@ / SCALE as int;
                &&& r@ == k * SCALE as int
                &&& k * k <= tdiv(self@, SCALE as int)
                &&& tdiv(self@, SCALE as int) < (k + 1) * (k + 1)
            }),
            self@ >= 0 ==> r@ >= 0 && r@ % (SCALE as int) == 0,
    {
        let inner = self.to_inner();
        if inner < 0 {
            YololNumber::new(-SCALE)
        } else {
            let q: u64 = (inner / SCALE) as u64;
            let k: u64 = isqrt_u64(q);
            proof {
                assert(k * k <= q < (k + 1) * (k + 1));
                assert(k < 0x100000000) by (nonlinear_arith)
                    requires
                        k * k <= q,
                        q < 0x10000000000000000,
                ;
                assert((k as int) * (SCALE as int) < 0x7fffffffffffffff) by (nonlinear_arith)
                    requires
                        k < 0x100000000,
                ;
                assert(sat64(k as int * SCALE as int) == k as int * SCALE as int);
                assert((k as int * SCALE as int) / (SCALE as int) == k as int)
                    by (nonlinear_arith);
                vstd::arithmetic::div_mod::lemma_mod_multiples_basic(k as int, SCALE as int);
                assert(is_isqrt(q as int, k as int));
                let kk = isqrt_v(q as int);
                assert(is_isqrt(q as int, kk));
                lemma_isqrt_unique(q as int, k as int, kk);
            }
            YololNumber::from_whole(k as i64)
        }
    }

    /// Exponentiation: the value [`pow_v`] fixes for the operands. The
    /// relational clauses restate its load-bearing corners: the result is
    /// a whole number or a saturated bound, forced cases are exact, signs
    /// follow the operands, and a base of magnitude above one against a
    /// whole positive exponent keeps a magnitude of at least one.
    pub fn pow(self, other: Self) -> (r: Self)
        ensures
            r@ == pow_v(self@, other@),
            r@ == i64::MAX || r@ == i64::MIN || r@ % (SCALE as int) == 0,
            other@ == 0 ==> r@ == SCALE as int,
            self@ == 0 && other@ > 0 ==> r@ == 0,
            self@ == 0 && other@ < 0 ==> r@ == i64::MAX,
            self@ == SCALE as int ==> r@ == SCALE as int,
            self@ < 0 && other@ % (SCALE as int) != 0 ==> r@ == 0,
            ({
                // A whole exponent against a base of magnitude below one.
                let n = tdiv(other@, SCALE as int);
                &&& (other@ != 0 && other@ % (SCALE as int) == 0 && -(SCALE as int) < self@
                    < SCALE as int && self@ != 0 && n > 0 ==> r@ == 0)
                &&& (other@ % (SCALE as int) == 0 && (self@ > SCALE as int || self@ < -(
                SCALE as int)) && n < 0 ==> r@ == 0)
                &&& (self@ == -(SCALE as int) && other@ % (SCALE as int) == 0 ==> r@ == (if n % 2
                    == 0 {
                    SCALE as int
                } else {
                    -(SCALE as int)
                }))
            }),
            self@ > 0 ==> r@ >= 0,
            ({
                // A whole positive exponent against a base of magnitude
                // above one keeps the base's sign pattern and a magnitude
                // of at least one.
                let n = tdiv(other@, SCALE as int);
                other@ > 0 && other@ % (SCALE as int) == 0 && (self@ > SCALE as int || self@ < -(
                SCALE as int)) ==> (if self@ > 0 || n % 2 == 0 {
                    r@ >= SCALE as int
                } else {
                    r@ <= -(SCALE as int)
                })
            }),
    {
        let a = self.to_inner();
        let b = other.to_inner();
        if b == 0 {
            return YololNumber::new(SCALE);
        }
        if a == 0 {
            if b > 0 {
                return YololNumber::new(0);
            } else {
                return YololNumber::new(i64::MAX);
            }
        }
        if a == SCALE {
            return YololNumber::new(SCALE);
        }
        if b % SCALE == 0 {
            // A whole exponent. The smallest representable value is not a
            // whole multiple of the scale, so negation is safe here.
            proof {
                assert(b != i64::MIN);
                lemma_trem_zero(b as int, SCALE as int);
            }
            let n_neg = b < 0;
            let n_mag: u64 = if b < 0 {
                ((-b) / SCALE) as u64
            } else {
                (b / SCALE) as u64
            };
            proof {
                assert(n_mag as int == abs1(tdiv(b as int, SCALE as int)));
            }
            let n_even = n_mag % 2 == 0;
            proof {
                lemma_neg_mod2(n_mag as int);
            }
            if a == -SCALE {
                if n_even {
                    return YololNumber::new(SCALE);
                } else {
                    return YololNumber::new(-SCALE);
                }
            }
            let a_mag: u64 = if a < 0 {
                if a == i64::MIN {
                    0x8000000000000000u64
                } else {
                    (-a) as u64
                }
            } else {
                a as u64
            };
            proof {
                assert(a_mag as int == abs1(a as int));
            }
            let negative = a < 0 && !n_even;
            if !n_neg {
                if a_mag < SCALE as u64 {
                    return YololNumber::new(0);
                }
                // |base| above one: the magnitude grows with the exponent.
                let m: i64 = pow_mag(a_mag, n_mag);
                if negative {
                    return YololNumber::new(sat_mul_i64(-m, SCALE));
                } else {
                    return YololNumber::new(sat_mul_i64(m, SCALE));
                }
            } else {
                if a_mag > SCALE as u64 {
                    return YololNumber::new(0);
                }
                // |base| below one: the reciprocal's magnitude grows.
                proof {
                    assert(1 <= a_mag < SCALE as u64);
                    vstd::arithmetic::div_mod::lemma_div_multiples_vanish(
                        1000000000,
                        a_mag as int * 100000,
                    );
                    vstd::arithmetic::div_mod::lemma_div_is_ordered(
                        1000000000 * (a_mag as int * 100000),
                        1000000000000000000,
                        a_mag as int * 100000,
                    );
                }
                let recip: u64 = 1000000000000000000u64 / (a_mag * 100000);
                let m: i64 = pow_mag_scaled(recip, n_mag);
                if negative {
                    return YololNumber::new(sat_mul_i64(-m, SCALE));
                } else {
                    return YololNumber::new(sat_mul_i64(m, SCALE));
                }
            }
        } else {
            // A fractional exponent.
            if a < 0 {
                return YololNumber::new(0);
            }
            let m: i64 = pow_frac(a as u64, b);
            return YololNumber::new(sat_mul_i64(m, SCALE));
        }
    }
}

/// The value of exponentiation, written out over the branch structure the
/// implementation follows.
pub open spec fn pow_v(a: int, b: int) -> int {
    if b == 0 {
        SCALE as int
    } else if a == 0 {
        if b > 0 {
            0
        } else {
            i64::MAX as int
        }
    } else if a == SCALE as int {
        SCALE as int
    } else if trem(b, SCALE as int) == 0 {
        let nm = abs1(tdiv(b, SCALE as int));
        let neven = nm % 2 == 0;
        if a == -(SCALE as int) {
            if neven {
                SCALE as int
            } else {
                -(SCALE as int)
            }
        } else {
            let am = abs1(a);
            let neg = a < 0 && !neven;
            if b > 0 {
                if am < SCALE as int {
                    0
                } else {
                    let m = pow_mag_v(am, nm);
                    if neg {
                        sat64(-m * SCALE as int)
                    } else {
                        sat64(m * SCALE as int)
                    }
                }
            } else {
                if am > SCALE as int {
                    0
                } else {
                    let recip = 1000000000000000000int / (am * 100000);
                    let m = pow_mag_scaled_v(recip, nm);
                    if neg {
                        sat64(-m * SCALE as int)
                    } else {
                        sat64(m * SCALE as int)
                    }
                }
            }
        }
    } else {
        if a < 0 {
            0
        } else {
            sat64(pow_frac_v(a, b) * SCALE as int)
        }
    }
}

/// The truncating remainder vanishes exactly when the Euclidean one does.
proof fn lemma_trem_zero(a: int, c: int)
    requires
        c > 0,
    ensures
        (trem(a, c) == 0) <==> (a % c == 0),
{
    if a >= 0 {
        vstd::arithmetic::div_mod::lemma_fundamental_div_mod(a, c);
    } else {
        vstd::arithmetic::div_mod::lemma_fundamental_div_mod(a, c);
        vstd::arithmetic::div_mod::lemma_fundamental_div_mod(-a, c);
        vstd::arithmetic::div_mod::lemma_mod_bound(a, c);
        vstd::arithmetic::div_mod::lemma_mod_bound(-a, c);
        assert(c * tdiv(a, c) == -(c * ((-a) / c))) by (nonlinear_arith)
            requires
                tdiv(a, c) == -((-a) / c),
        ;
        assert(trem(a, c) == -((-a) % c));
        assert(c * ((a / c) + ((-a) / c)) == c * (a / c) + c * ((-a) / c)) by (nonlinear_arith);
        let su = (a / c) + ((-a) / c);
        assert((a % c) + ((-a) % c) == -(c * su));
        assert(0 <= -(c * su) < 2 * c);
        assert(su == 0 || su == -1) by (nonlinear_arith)
            requires
                c > 0,
                0 <= -(c * su) < 2 * c,
        ;
        assert(c * su == 0 || c * su == -c) by (nonlinear_arith)
            requires
                su == 0 || su == -1,
        ;
    }
}

/// Negation keeps evenness.
proof fn lemma_neg_mod2(m: int)
    ensures
        ((-m) % 2 == 0) <==> (m % 2 == 0),
{
    vstd::arithmetic::div_mod::lemma_fundamental_div_mod(m, 2);
    vstd::arithmetic::div_mod::lemma_fundamental_div_mod(-m, 2);
    vstd::arithmetic::div_mod::lemma_mod_bound(m, 2);
    vstd::arithmetic::div_mod::lemma_mod_bound(-m, 2);
}

/// The integer square root: the largest value whose square does not exceed
/// the input.
fn isqrt_u64(q: u64) -> (r: u64)
    ensures
        (r as int) * (r as int) <= q as int,
        (q as int) < (r as int + 1) * (r as int + 1),
{
    let mut lo: u64 = 0;
    let mut hi: u64 = 0x100000000;
    proof {
        assert((hi as int) * (hi as int) > q as int) by (nonlinear_arith)
            requires
                hi == 0x100000000,
                q < 0x10000000000000000,
        ;
    }
    while lo + 1 < hi
        invariant
            lo < hi <= 0x100000000,
            (lo as int) * (lo as int) <= q as int,
            (q as int) < (hi as int) * (hi as int),
        decreases hi - lo,
    {
        let mid = lo + (hi - lo) / 2;
        proof {
            assert(mid < hi);
            assert((mid as int) * (mid as int) < 0x10000000000000000) by (nonlinear_arith)
                requires
                    mid < 0x100000000,
            ;
        }
        if mid * mid <= q {
            lo = mid;
        } else {
            hi = mid;
        }
    }
    lo
}

/// The saturation cap of the fixed-point magnitude arithmetic, far above
/// the representable range.
pub open spec fn fix9_cap() -> int {
    0x100000000000000000000000000
}

/// A truncating, saturating product of two magnitudes at scale `10^9`.
pub open spec fn mulf9(v1: int, v2: int) -> int {
    if v1 > (u128::MAX as int) / v2 {
        fix9_cap()
    } else {
        let p = (v1 * v2) / 1000000000;
        if p > fix9_cap() {
            fix9_cap()
        } else {
            p
        }
    }
}

/// Multiplies two nonnegative fixed-point values at scale `10^9`,
/// truncating, and saturates at a cap far above the representable range.
/// Both inputs and the result stay at or above one.
fn mul_fix9(v1: u128, v2: u128) -> (r: u128)
    requires
        1000000000 <= v1 <= 0x100000000000000000000000000,
        1000000000 <= v2 <= 0x100000000000000000000000000,
    ensures
        r as int == mulf9(v1 as int, v2 as int),
        1000000000 <= r <= 0x100000000000000000000000000,
{
    let cap: u128 = 0x100000000000000000000000000;
    if v1 > u128::MAX / v2 {
        cap
    } else {
        proof {
            assert(v1 * v2 <= u128::MAX) by (nonlinear_arith)
                requires
                    v2 > 0,
                    v1 <= u128::MAX / v2,
            ;
            assert(v1 * v2 >= 1000000000 * 1000000000) by (nonlinear_arith)
                requires
                    v1 >= 1000000000,
                    v2 >= 1000000000,
            ;
        }
        let p = (v1 * v2) / 1000000000;
        if p > cap {
            cap
        } else {
            p
        }
    }
}

/// Binary exponentiation over the saturating scale-`10^9` product.
pub open spec fn powfix(base: int, acc: int, k: int) -> int
    decreases k when k >= 0
{
    if k <= 0 {
        acc
    } else {
        let acc2 = if k % 2 == 1 {
            mulf9(acc, base)
        } else {
            acc
        };
        powfix(mulf9(base, base), acc2, k / 2)
    }
}

/// Executable binary exponentiation, step for step the same fold.
fn powfix_x(base: u128, acc: u128, k: u64) -> (r: u128)
    requires
        1000000000 <= base <= 0x100000000000000000000000000,
        1000000000 <= acc <= 0x100000000000000000000000000,
    ensures
        r as int == powfix(base as int, acc as int, k as int),
        1000000000 <= r <= 0x100000000000000000000000000,
    decreases k,
{
    if k == 0 {
        acc
    } else {
        let acc2 = if k % 2 == 1 {
            mul_fix9(acc, base)
        } else {
            acc
        };
        let base2 = mul_fix9(base, base);
        powfix_x(base2, acc2, k / 2)
    }
}

/// The whole part of a power of a scale-`10^9` magnitude at or above one,
/// clamped into the positive representable range.
pub open spec fn pow_mag_scaled_v(v: int, n: int) -> int {
    let w = powfix(v, 1000000000, n) / 1000000000;
    if w > i64::MAX as int {
        i64::MAX as int
    } else if w < 1 {
        1
    } else {
        w
    }
}

/// Raises a scaled magnitude above one to a positive power by binary
/// exponentiation at scale `10^9`, returning the truncated whole part
/// clamped into the positive representable range; the result is at least
/// one.
fn pow_mag_scaled(v: u64, n: u64) -> (m: i64)
    requires
        v >= 1000000000,
    ensures
        m as int == pow_mag_scaled_v(v as int, n as int),
        1 <= m <= i64::MAX,
{
    let acc: u128 = powfix_x(v as u128, 1000000000, n);
    let whole: u128 = acc / 1000000000;
    if whole > i64::MAX as u128 {
        i64::MAX
    } else if whole < 1 {
        1
    } else {
        whole as i64
    }
}

/// The whole part of a power of a magnitude at the number scale, the
/// magnitude first moved to scale `10^9` and capped.
pub open spec fn pow_mag_v(a_mag: int, n: int) -> int {
    let v = a_mag * 100000;
    let capped = if v > 0xffffffffffffffff {
        0xffffffffffffffff as int
    } else {
        v
    };
    pow_mag_scaled_v(capped, n)
}

/// Raises a magnitude above one (at the number scale) to a positive power.
fn pow_mag(a_mag: u64, n: u64) -> (m: i64)
    requires
        a_mag >= SCALE as u64,
    ensures
        m as int == pow_mag_v(a_mag as int, n as int),
        1 <= m <= i64::MAX,
{
    // Move from the number scale to `10^9` fixed point.
    let v: u128 = (a_mag as u128) * 100000;
    let capped: u64 = if v > 0xffffffffffffffff {
        0xffffffffffffffffu64
    } else {
        v as u64
    };
    pow_mag_scaled(capped, n)
}

/// A positive base raised to a fractional exponent, through the base-two
/// logarithm and exponential at 32 fractional bits.
pub open spec fn pow_frac_v(a: int, b: int) -> int {
    exp2_v(mle_v(log2_v(a), b))
}

/// A positive base raised to a fractional exponent, through base-two
/// logarithm and exponential at 32 fractional bits; the result is the
/// truncated whole part, clamped nonnegative.
fn pow_frac(a: u64, b: i64) -> (m: i64)
    requires
        a > 0,
    ensures
        m as int == pow_frac_v(a as int, b as int),
        0 <= m <= i64::MAX,
{
    let lg: i128 = log2_fix32(a);
    let prod: i128 = mul_log_exp(lg, b);
    exp2_fix32(prod)
}

/// Normalization downward: halve until the mantissa is below two, within
/// the iteration bound.
pub open spec fn norm_down(x: int, e: int) -> (int, int)
    decreases x when x >= 0
{
    if x >= 0x200000000 && e < 128 {
        norm_down(x / 2, e + 1)
    } else {
        (x, e)
    }
}

/// Executable downward normalization.
fn norm_down_x(x: u128, e: i128) -> (r: (u128, i128))
    requires
        x > 0,
        0 <= e <= 128,
    ensures
        (r.0 as int, r.1 as int) == norm_down(x as int, e as int),
        r.0 > 0,
        0 <= r.1 <= 128,
    decreases x,
{
    if x >= 0x200000000 && e < 128 {
        norm_down_x(x / 2, e + 1)
    } else {
        (x, e)
    }
}

/// Normalization upward: double until the mantissa reaches one, within
/// the iteration bound.
pub open spec fn norm_up(x: int, e: int) -> (int, int)
    decreases 64 + e when e >= -64
{
    if x < 0x100000000 && e > -64 {
        norm_up(x * 2, e - 1)
    } else {
        (x, e)
    }
}

/// Executable upward normalization.
fn norm_up_x(x: u128, e: i128) -> (r: (u128, i128))
    requires
        0 < x < 0x200000000,
        -64 <= e <= 128,
    ensures
        (r.0 as int, r.1 as int) == norm_up(x as int, e as int),
        r.0 > 0,
        r.0 < 0x200000000,
        -64 <= r.1 <= 128,
    decreases 64 + e,
{
    if x < 0x100000000 && e > -64 {
        norm_up_x(x * 2, e - 1)
    } else {
        (x, e)
    }
}

/// Fractional log bits by repeated squaring: one bit per round, the
/// accumulator clamped into 32 bits.
pub open spec fn frac_bits(m: int, fr: int, i: int) -> int
    decreases 32 - i when i <= 32
{
    if i >= 32 {
        fr
    } else {
        let m2 = (m * m) / 0x100000000;
        let stepped = if m2 >= 0x200000000 {
            (m2 / 2, fr * 2 + 1)
        } else {
            (m2, fr * 2)
        };
        let clamped = if stepped.1 > 0xffffffff {
            0xffffffff as int
        } else {
            stepped.1
        };
        frac_bits(stepped.0, clamped, i + 1)
    }
}

/// Executable fractional log bits.
fn frac_bits_x(m: u128, fr: u128, i: u64) -> (r: u128)
    requires
        0x100000000 <= m < 0x200000000,
        fr <= 0xffffffff,
        i <= 32,
    ensures
        r as int == frac_bits(m as int, fr as int, i as int),
        r <= 0xffffffff,
    decreases 32 - i,
{
    if i >= 32 {
        fr
    } else {
        proof {
            assert(0x10000000000000000 <= m * m < 0x40000000000000000) by (nonlinear_arith)
                requires
                    0x100000000 <= m < 0x200000000,
            ;
        }
        let m2 = (m * m) / 0x100000000;
        let (m3, fr2): (u128, u128) = if m2 >= 0x200000000 {
            (m2 / 2, fr * 2 + 1)
        } else {
            (m2, fr * 2)
        };
        let fr3 = if fr2 > 0xffffffff {
            0xffffffffu128
        } else {
            fr2
        };
        frac_bits_x(m3, fr3, i + 1)
    }
}

/// The base-two logarithm of `a / 10^4`, at 32 fractional bits, clamped
/// into the range whose exponential saturates anyway.
pub open spec fn log2_v(a: int) -> int {
    let x0 = (a * 0x100000000) / 10000;
    if x0 == 0 {
        -0x10000000000
    } else {
        let nd = norm_down(x0, 0);
        if nd.0 >= 0x200000000 {
            0x10000000000
        } else {
            let nu = norm_up(nd.0, nd.1);
            if nu.0 < 0x100000000 {
                -0x10000000000
            } else {
                let fr = frac_bits(nu.0, 0, 0);
                let r = nu.1 * 0x100000000 + fr;
                if r < -0x10000000000 {
                    -0x10000000000
                } else if r > 0x10000000000 {
                    0x10000000000
                } else {
                    r
                }
            }
        }
    }
}

/// The executable base-two logarithm.
fn log2_fix32(a: u64) -> (r: i128)
    requires
        a > 0,
    ensures
        r as int == log2_v(a as int),
        -0x10000000000 <= r <= 0x10000000000,
{
    let x0: u128 = (a as u128) * 0x100000000 / 10000;
    if x0 == 0 {
        return -0x10000000000;
    }
    let (x1, e1) = norm_down_x(x0, 0);
    if x1 >= 0x200000000 {
        return 0x10000000000;
    }
    let (x2, e2) = norm_up_x(x1, e1);
    if x2 < 0x100000000 {
        return -0x10000000000;
    }
    let fr: u128 = frac_bits_x(x2, 0, 0);
    let whole: i128 = e2 * 0x100000000;
    let r = whole + (fr as i128);
    if r < -0x10000000000 {
        -0x10000000000
    } else if r > 0x10000000000 {
        0x10000000000
    } else {
        r
    }
}

/// The product of a fixed-point logarithm and the descaled exponent,
/// clamped to a range whose exponential saturates anyway.
pub open spec fn mle_v(lg: int, b: int) -> int {
    let wide = tdiv(lg * b, 10000);
    if wide < -0x10000000000 {
        -0x10000000000
    } else if wide > 0x10000000000 {
        0x10000000000
    } else {
        wide
    }
}

/// The executable product of logarithm and exponent.
fn mul_log_exp(lg: i128, b: i64) -> (r: i128)
    requires
        -0x10000000000 <= lg <= 0x10000000000,
    ensures
        r as int == mle_v(lg as int, b as int),
        -0x10000000000 <= r <= 0x10000000000,
{
    proof {
        assert(-0x80000000000000000000000000 <= lg * b <= 0x80000000000000000000000000)
            by (nonlinear_arith)
            requires
                -0x10000000000 <= lg <= 0x10000000000,
                -0x8000000000000000 <= b <= 0x7fffffffffffffff,
        ;
    }
    let wide: i128 = lg * (b as i128) / 10000;
    if wide < -0x10000000000 {
        -0x10000000000
    } else if wide > 0x10000000000 {
        0x10000000000
    } else {
        wide
    }
}

/// Keeps a fractional correction within 32 bits.
pub open spec fn clampf32(x: int) -> int {
    if x > 0xffffffff {
        0xffffffff as int
    } else {
        x
    }
}

/// Executable 32-bit clamp.
fn clamp_frac32(x: u128) -> (r: u128)
    ensures
        r as int == clampf32(x as int),
        r <= 0xffffffff,
{
    if x > 0xffffffff {
        0xffffffff
    } else {
        x
    }
}

/// Saturating doubling: double `k` times, sticking past the cap.
pub open spec fn dbl_sat(v: int, k: int) -> int
    decreases k when k >= 0
{
    if k <= 0 {
        v
    } else {
        let v2 = v * 2;
        if v2 > 0x80000000000000000000000000 {
            v2
        } else {
            dbl_sat(v2, k - 1)
        }
    }
}

/// Executable saturating doubling.
fn dbl_sat_x(v: u128, k: u64) -> (r: u128)
    requires
        v <= 0x80000000000000000000000000,
        k <= 64,
    ensures
        r as int == dbl_sat(v as int, k as int),
        r <= 0x100000000000000000000000000,
    decreases k,
{
    if k == 0 {
        v
    } else {
        let v2 = v * 2;
        if v2 > 0x80000000000000000000000000 {
            v2
        } else {
            dbl_sat_x(v2, k - 1)
        }
    }
}

/// Two to a signed fixed-point power at 32 fractional bits, truncated to a
/// whole value and clamped into the representable range: zero below one,
/// the cubic-polynomial mantissa scaled by the whole power of two above.
pub open spec fn exp2_v(t: int) -> int {
    if t < 0 {
        0
    } else {
        let k = t / 0x100000000;
        let f = t % 0x100000000;
        if k >= 63 {
            i64::MAX as int
        } else {
            let t3 = clampf32((286157318 * f) / 0x100000000);
            let t2 = clampf32(((1031765214 + t3) * f) / 0x100000000);
            let t1 = clampf32(((2977044471 + t2) * f) / 0x100000000);
            let mant = 0x100000000 + t1;
            let value = dbl_sat(mant, k);
            if value > 0x80000000000000000000000000 {
                i64::MAX as int
            } else {
                let whole = value / 0x100000000;
                if whole > i64::MAX as int {
                    i64::MAX as int
                } else {
                    whole
                }
            }
        }
    }
}

/// The executable base-two exponential.
fn exp2_fix32(t: i128) -> (m: i64)
    requires
        -0x10000000000 <= t <= 0x10000000000,
    ensures
        m as int == exp2_v(t as int),
        0 <= m <= i64::MAX,
{
    if t < 0 {
        return 0;
    }
    let k: i128 = t / 0x100000000;
    let f: u128 = (t % 0x100000000) as u128;
    if k >= 63 {
        return i64::MAX;
    }
    let c1: u128 = 2977044471;
    let c2: u128 = 1031765214;
    let c3: u128 = 286157318;
    let t3: u128 = clamp_frac32((c3 * f) / 0x100000000);
    proof {
        assert((c2 + t3) * f < 0x20000000000000000) by (nonlinear_arith)
            requires
                c2 + t3 < 0x200000000,
                f < 0x100000000,
        ;
    }
    let t2: u128 = clamp_frac32(((c2 + t3) * f) / 0x100000000);
    proof {
        assert((c1 + t2) * f < 0x20000000000000000) by (nonlinear_arith)
            requires
                c1 + t2 < 0x200000000,
                f < 0x100000000,
        ;
    }
    let t1: u128 = clamp_frac32(((c1 + t2) * f) / 0x100000000);
    let mant: u128 = 0x100000000 + t1;
    let value: u128 = dbl_sat_x(mant, k as u64);
    if value > 0x80000000000000000000000000 {
        i64::MAX
    } else {
        let whole: u128 = value / 0x100000000;
        if whole > i64::MAX as u128 {
            i64::MAX
        } else {
            whole as i64
        }
    }
}

} // verus!
