//! Text form of YOLOL numbers: rendering in the in-game display format and
//! parsing of decimal literals.
//!
//! Rendering prints the whole part, then only as many fractional digits as
//! are needed, cutting trailing zeros; a value whose magnitude is below one
//! keeps the whole part `0` of the truncated quotient, so such a negative
//! value renders without its sign, exactly as the game displays it.
//!
//! Parsing accepts digit runs with at most one decimal point; a whole part
//! too large for the representation saturates, fractional digits past the
//! fourth are cut.

use vstd::prelude::*;
use vstd::string::StringExecFns;
use crate::chars::push_char;
use crate::chars::to_chars;
use crate::number::{YololNumber, SCALE, sat64, tdiv, trem, abs1, sat_add_i64, sat_mul_i64};

verus! {

/// Ten to a small nonnegative power.
pub open spec fn pow10(k: int) -> int
    decreases k,
{
    if k <= 0 {
        1
    } else {
        10 * pow10(k - 1)
    }
}

/// The value of a digit run is never negative.
pub(crate) proof fn lemma_dec_val_nonneg(s: Seq<char>)
    requires
        all_digits(s),
    ensures
        dec_val(s) >= 0,
    decreases s.len(),
{
    if s.len() > 0 {
        assert(is_digit(s[s.len() - 1]));
        lemma_dec_val_nonneg(s.drop_last());
    }
}

/// The decimal digit character for `d`, defined for `0 <= d <= 9`.
pub open spec fn dec_digit(d: int) -> char {
    if d == 0 {
        '0'
    } else if d == 1 {
        '1'
    } else if d == 2 {
        '2'
    } else if d == 3 {
        '3'
    } else if d == 4 {
        '4'
    } else if d == 5 {
        '5'
    } else if d == 6 {
        '6'
    } else if d == 7 {
        '7'
    } else if d == 8 {
        '8'
    } else {
        '9'
    }
}

/// Whether `c` is a decimal digit character.
pub open spec fn is_digit(c: char) -> bool {
    '0' <= c && c <= '9'
}

/// The numeric value of a digit character.
pub open spec fn digit_val(c: char) -> int {
    c as int - '0' as int
}

/// Whether every character of `s` is a decimal digit.
pub open spec fn all_digits(s: Seq<char>) -> bool {
    forall|k: int| 0 <= k < s.len() ==> is_digit(#[trigger] s[k])
}

/// The decimal rendering of a nonnegative integer, most significant digit
/// first.
pub open spec fn dec_str(n: int) -> Seq<char>
    decreases n,
{
    if n < 10 {
        seq![dec_digit(n)]
    } else {
        dec_str(n / 10).push(dec_digit(n % 10))
    }
}

/// The value of a digit run, read from the left.
pub open spec fn dec_val(s: Seq<char>) -> int
    decreases s.len(),
{
    if s.len() == 0 {
        0
    } else {
        dec_val(s.drop_last()) * 10 + digit_val(s.last())
    }
}

/// The rendering of a whole part: a minus sign for negative values, then
/// the decimal digits of the magnitude.
pub open spec fn whole_str(w: int) -> Seq<char> {
    if w < 0 {
        seq!['-'].add(dec_str(-w))
    } else {
        dec_str(w)
    }
}

/// The display form of a scaled representation: the truncated whole part,
/// then the fractional digits of the magnitude down to the last nonzero one.
pub open spec fn render(inner: int) -> Seq<char> {
    let whole = tdiv(inner, SCALE as int);
    let f = abs1(trem(inner, SCALE as int));
    let th = f / 1000;
    let hu = (f / 100) % 10;
    let te = (f / 10) % 10;
    let on = f % 10;
    if on != 0 {
        whole_str(whole) + seq!['.', dec_digit(th), dec_digit(hu), dec_digit(te), dec_digit(on)]
    } else if te != 0 {
        whole_str(whole) + seq!['.', dec_digit(th), dec_digit(hu), dec_digit(te)]
    } else if hu != 0 {
        whole_str(whole) + seq!['.', dec_digit(th), dec_digit(hu)]
    } else if th != 0 {
        whole_str(whole) + seq!['.', dec_digit(th)]
    } else {
        whole_str(whole)
    }
}

/// The scaled representation a decimal literal parses to, or `None` when
/// the text is rejected: a second decimal point, or a non-digit on either
/// side of the point. An over-long whole part saturates; fractional digits
/// past the fourth are cut; an absent side counts as zero.
pub open spec fn parse_num(s: Seq<char>) -> Option<int> {
    if exists|i: int, j: int| 0 <= i < j < s.len() && s[i] == '.' && s[j] == '.' {
        None
    } else if exists|i: int| 0 <= i < s.len() && s[i] == '.' {
        let i = choose|i: int| 0 <= i < s.len() && s[i] == '.';
        parse_split(s.take(i), s.skip(i + 1))
    } else {
        parse_split(s, Seq::<char>::empty())
    }
}

/// The value of a whole-part digit run, saturated at the top of the range.
pub open spec fn whole_val(left: Seq<char>) -> int {
    if dec_val(left) > i64::MAX {
        i64::MAX as int
    } else {
        dec_val(left)
    }
}

/// The scaled value of a fraction digit run: up to four digits count,
/// right-padded with zeros into the four fractional places.
pub open spec fn frac_val(right: Seq<char>) -> int {
    if right.len() == 0 {
        0
    } else if right.len() == 1 {
        dec_val(right) * 1000
    } else if right.len() == 2 {
        dec_val(right) * 100
    } else if right.len() == 3 {
        dec_val(right) * 10
    } else {
        dec_val(right.take(4))
    }
}

/// The scaled representation built from a whole-part run and a fraction
/// run, saturating like the split constructor.
pub open spec fn num_value(left: Seq<char>, right: Seq<char>) -> int {
    sat64(sat64(whole_val(left) * SCALE as int) + frac_val(right))
}

/// Combines a validated whole-part run and fraction run into a scaled value.
pub open spec fn parse_split(left: Seq<char>, right: Seq<char>) -> Option<int> {
    if !all_digits(left) {
        None
    } else if right.len() > 0 && !all_digits(right) {
        None
    } else {
        Some(num_value(left, right))
    }
}

/// Digit runs carry their value: reading back the decimal rendering of a
/// nonnegative integer yields that integer, and every character of the
/// rendering is a digit.
proof fn lemma_dec_str_props(n: int)
    requires
        n >= 0,
    ensures
        all_digits(dec_str(n)),
        dec_str(n).len() >= 1,
        dec_val(dec_str(n)) == n,
    decreases n,
{
    if n < 10 {
        let s = dec_str(n);
        assert(s =~= seq![dec_digit(n)]);
        assert(s.drop_last() =~= Seq::<char>::empty());
        assert(dec_val(s) == dec_val(Seq::<char>::empty()) * 10 + digit_val(dec_digit(n)));
        assert(digit_val(dec_digit(n)) == n);
        assert(forall|k: int| 0 <= k < s.len() ==> is_digit(#[trigger] s[k]));
    } else {
        lemma_dec_str_props(n / 10);
        let prefix = dec_str(n / 10);
        let s = dec_str(n);
        assert(s == prefix.push(dec_digit(n % 10)));
        assert(s.drop_last() =~= prefix);
        assert(s.last() == dec_digit(n % 10));
        assert(dec_val(s) == dec_val(prefix) * 10 + digit_val(dec_digit(n % 10)));
        assert(digit_val(dec_digit(n % 10)) == n % 10);
        assert(forall|k: int| 0 <= k < s.len() ==> is_digit(#[trigger] s[k]));
    }
}

/// The value of a four-character digit run, written out.
proof fn lemma_dec_val_quad(c0: char, c1: char, c2: char, c3: char)
    ensures
        dec_val(seq![c0, c1, c2, c3]) == ((digit_val(c0) * 10 + digit_val(c1)) * 10 + digit_val(
            c2,
        )) * 10 + digit_val(c3),
        dec_val(seq![c0, c1, c2]) == (digit_val(c0) * 10 + digit_val(c1)) * 10 + digit_val(c2),
        dec_val(seq![c0, c1]) == digit_val(c0) * 10 + digit_val(c1),
        dec_val(seq![c0]) == digit_val(c0),
{
    reveal_with_fuel(dec_val, 6);
    let s1 = seq![c0];
    let s2 = seq![c0, c1];
    let s3 = seq![c0, c1, c2];
    let s4 = seq![c0, c1, c2, c3];
    assert(s1.drop_last() =~= Seq::<char>::empty());
    assert(s2.drop_last() =~= s1);
    assert(s3.drop_last() =~= s2);
    assert(s4.drop_last() =~= s3);
    assert(s1.last() == c0 && s2.last() == c1 && s3.last() == c2 && s4.last() == c3);
    assert(dec_val(s1) == digit_val(c0));
    assert(dec_val(s2) == digit_val(c0) * 10 + digit_val(c1));
    assert(dec_val(s3) == (digit_val(c0) * 10 + digit_val(c1)) * 10 + digit_val(c2));
    assert(dec_val(s4) == dec_val(s3) * 10 + digit_val(c3));
    assert(dec_val(s4) == ((digit_val(c0) * 10 + digit_val(c1)) * 10 + digit_val(c2)) * 10
        + digit_val(c3));
}

/// Round trip of the display format: a nonnegative number built from a
/// whole part and a four-digit fraction renders to text that parses back
/// to the same value.
pub proof fn lemma_text_round_trip(w: int, d: int)
    requires
        0 <= w <= i64::MAX,
        0 <= d < 10000,
    ensures
        ({
            let inner = sat64(sat64(w * SCALE as int) + d);
            parse_num(render(inner)) == Some(inner)
        }),
{
    let inner = sat64(sat64(w * SCALE as int) + d);
    assert(w * SCALE as int >= 0);
    assert(0 <= inner <= i64::MAX);
    let whole = tdiv(inner, SCALE as int);
    let f = abs1(trem(inner, SCALE as int));
    assert(whole == inner / 10000);
    assert(f == inner % 10000);
    assert(inner == 10000 * whole + f);
    let th = f / 1000;
    let hu = (f / 100) % 10;
    let te = (f / 10) % 10;
    let on = f % 10;
    vstd::arithmetic::div_mod::lemma_div_denominator(f, 10, 10);
    vstd::arithmetic::div_mod::lemma_div_denominator(f, 100, 10);
    vstd::arithmetic::div_mod::lemma_div_denominator(f, 10, 100);
    assert(f / 100 == 10 * (f / 1000) + (f / 100) % 10);
    assert(f / 10 == 10 * (f / 100) + (f / 10) % 10);
    assert(f == 10 * (f / 10) + f % 10);
    lemma_dec_str_props(whole);
    let ws = dec_str(whole);
    assert(whole_str(whole) == ws);
    let s = render(inner);
    lemma_dec_val_quad(dec_digit(th), dec_digit(hu), dec_digit(te), dec_digit(on));
    if f == 0 {
        assert(s == ws);
        assert(forall|i: int| 0 <= i < s.len() ==> is_digit(#[trigger] s[i]));
        assert(forall|i: int| 0 <= i < s.len() ==> s[i] != '.');
        assert(parse_num(s) == parse_split(s, Seq::<char>::empty()));
        assert(dec_val(s) == whole);
        assert(parse_split(s, Seq::<char>::empty()) == Some(
            sat64(sat64(whole * SCALE as int) + 0),
        ));
        assert(sat64(whole * SCALE as int) == inner);
        assert(sat64(inner + 0) == inner);
    } else {
        let frac: Seq<char> = if on != 0 {
            seq![dec_digit(th), dec_digit(hu), dec_digit(te), dec_digit(on)]
        } else if te != 0 {
            seq![dec_digit(th), dec_digit(hu), dec_digit(te)]
        } else if hu != 0 {
            seq![dec_digit(th), dec_digit(hu)]
        } else {
            seq![dec_digit(th)]
        };
        assert(s == ws + seq!['.'] + frac) by {
            assert(ws + seq!['.', dec_digit(th), dec_digit(hu), dec_digit(te), dec_digit(on)] =~= ws
                + seq!['.'] + seq![dec_digit(th), dec_digit(hu), dec_digit(te), dec_digit(on)]);
            assert(ws + seq!['.', dec_digit(th), dec_digit(hu), dec_digit(te)] =~= ws + seq!['.']
                + seq![dec_digit(th), dec_digit(hu), dec_digit(te)]);
            assert(ws + seq!['.', dec_digit(th), dec_digit(hu)] =~= ws + seq!['.'] + seq![
                dec_digit(th),
                dec_digit(hu),
            ]);
            assert(ws + seq!['.', dec_digit(th)] =~= ws + seq!['.'] + seq![dec_digit(th)]);
            assert(on == 0 && te == 0 && hu == 0 ==> th != 0);
        }
        let dot = ws.len() as int;
        assert(s[dot] == '.');
        assert(forall|i: int| 0 <= i < dot ==> is_digit(#[trigger] s[i]));
        assert(forall|i: int| dot < i < s.len() ==> is_digit(#[trigger] s[i]));
        assert(forall|i: int| 0 <= i < s.len() && s[i] == '.' ==> i == dot);
        assert(!(exists|i: int, j: int| 0 <= i < j < s.len() && s[i] == '.' && s[j] == '.'));
        assert(exists|i: int| 0 <= i < s.len() && s[i] == '.');
        let picked = choose|i: int| 0 <= i < s.len() && s[i] == '.';
        assert(picked == dot);
        let left = s.take(dot);
        let right = s.skip(dot + 1);
        assert(left =~= ws);
        assert(right =~= frac);
        assert(parse_num(s) == parse_split(ws, frac));
        assert(all_digits(ws));
        assert(all_digits(frac));
        assert(dec_val(ws) == whole);
        let right_num: int = if frac.len() == 1 {
            dec_val(frac) * 1000
        } else if frac.len() == 2 {
            dec_val(frac) * 100
        } else if frac.len() == 3 {
            dec_val(frac) * 10
        } else {
            dec_val(frac.take(4))
        };
        if on != 0 {
            assert(frac.take(4) =~= frac);
            assert(dec_val(frac) == ((th * 10 + hu) * 10 + te) * 10 + on);
            assert(right_num == f);
        } else if te != 0 {
            assert(dec_val(frac) == (th * 10 + hu) * 10 + te);
            assert(dec_val(frac) == f / 10);
            assert(right_num == f);
        } else if hu != 0 {
            assert(dec_val(frac) == th * 10 + hu);
            assert(dec_val(frac) == f / 100);
            assert(right_num == f);
        } else {
            assert(dec_val(frac) == th);
            assert(dec_val(frac) == f / 1000);
            assert(right_num == f);
        }
        assert(parse_split(ws, frac) == Some(sat64(sat64(whole * SCALE as int) + right_num)));
        assert(sat64(whole * SCALE as int) == whole * 10000);
        assert(sat64(whole * 10000 + f) == inner);
    }
}

/// The digit character for a small value.
fn digit_char(d: u64) -> (r: char)
    requires
        d <= 9,
    ensures
        r == dec_digit(d as int),
{
    if d == 0 {
        '0'
    } else if d == 1 {
        '1'
    } else if d == 2 {
        '2'
    } else if d == 3 {
        '3'
    } else if d == 4 {
        '4'
    } else if d == 5 {
        '5'
    } else if d == 6 {
        '6'
    } else if d == 7 {
        '7'
    } else if d == 8 {
        '8'
    } else {
        '9'
    }
}

/// The decimal digits of a nonnegative value, most significant first.
fn dec_u64(n: u64) -> (r: String)
    ensures
        r@ == dec_str(n as int),
    decreases n,
{
    if n < 10 {
        let mut s = String::new();
        push_char(&mut s, digit_char(n));
        proof {
            assert(s@ =~= dec_str(n as int));
        }
        s
    } else {
        let mut s = dec_u64(n / 10);
        push_char(&mut s, digit_char(n % 10));
        s
    }
}

/// The numeric value of a digit character, executable form.
pub(crate) fn digit_value(c: char) -> (r: i64)
    requires
        is_digit(c),
    ensures
        r as int == digit_val(c),
        0 <= r <= 9,
{
    ((c as u32) - 48) as i64
}

/// Whether a character is a decimal digit, executable form.
pub(crate) fn is_digit_char(c: char) -> (r: bool)
    ensures
        r == is_digit(c),
{
    '0' <= c && c <= '9'
}

impl YololNumber {
    /// Parses a decimal literal: digit runs around at most one decimal
    /// point. The whole part saturates when it is too large, fractional
    /// digits past the fourth are cut, and an absent side counts as zero.
    /// The text is rejected when it holds a second decimal point or any
    /// non-digit character.
    pub fn from_text(s: &str) -> (r: Result<YololNumber, String>)
        ensures
            r is Ok <==> parse_num(s@) is Some,
            r matches Ok(n) ==> parse_num(s@) == Some(n@),
    {
        let chars = to_chars(s);
        let n = chars.len();
        // Locate the first decimal point and count how many there are.
        let mut dot_count: usize = 0;
        let mut first_dot: usize = n;
        let mut i: usize = 0;
        while i < n
            invariant
                i <= n,
                dot_count <= i,
                n == s@.len(),
                chars@ == s@,
                dot_count == 0 ==> first_dot == n && (forall|k: int|
                    0 <= k < i ==> s@[k] != '.'),
                dot_count == 1 ==> first_dot < i && s@[first_dot as int] == '.' && (forall|k: int|
                    0 <= k < i && k != first_dot ==> s@[k] != '.'),
                dot_count >= 2 ==> exists|k1: int, k2: int|
                    0 <= k1 < k2 < i && s@[k1] == '.' && s@[k2] == '.',
            decreases n - i,
        {
            if chars[i] == '.' {
                if dot_count == 0 {
                    first_dot = i;
                }
                dot_count = dot_count + 1;
            }
            i = i + 1;
        }
        if dot_count >= 2 {
            proof {
                assert(parse_num(s@) is None);
            }
            return Err(String::from_str("the literal holds more than one decimal point"));
        }
        let ghost dot_at: int = first_dot as int;
        let left_end: usize = if dot_count == 1 {
            first_dot
        } else {
            n
        };
        let right_start: usize = if dot_count == 1 {
            first_dot + 1
        } else {
            n
        };
        let ghost left: Seq<char> = s@.take(left_end as int);
        let ghost right: Seq<char> = s@.skip(right_start as int);
        proof {
            if dot_count == 1 {
                let picked = choose|i: int| 0 <= i < s@.len() && s@[i] == '.';
                assert(s@[dot_at] == '.');
                assert(picked == dot_at);
            } else {
                assert(forall|i: int| 0 <= i < s@.len() ==> s@[i] != '.');
                assert(s@.take(n as int) =~= s@);
                assert(s@.skip(n as int) =~= Seq::<char>::empty());
            }
            assert(parse_num(s@) == parse_split(left, right));
        }
        // The whole part must be a digit run (possibly empty).
        let mut k: usize = 0;
        while k < left_end
            invariant
                k <= left_end <= n,
                n == s@.len(),
                chars@ == s@,
                left == s@.take(left_end as int),
                parse_num(s@) == parse_split(left, right),
                forall|j: int| 0 <= j < k ==> is_digit(#[trigger] left[j]),
            decreases left_end - k,
        {
            if !is_digit_char(chars[k]) {
                proof {
                    assert(left[k as int] == s@[k as int]);
                    assert(!all_digits(left));
                }
                proof {
                    assert(parse_num(s@) is None);
                }
                return Err(
                    String::from_str("a character left of the decimal point is not a digit"),
                );
            }
            k = k + 1;
        }
        // The fraction, when present, must be a digit run too.
        let mut k2: usize = right_start;
        while k2 < n
            invariant
                right_start <= k2 <= n,
                n == s@.len(),
                chars@ == s@,
                right == s@.skip(right_start as int),
                parse_num(s@) == parse_split(left, right),
                forall|j: int| 0 <= j < k2 - right_start ==> is_digit(#[trigger] right[j]),
            decreases n - k2,
        {
            if !is_digit_char(chars[k2]) {
                proof {
                    assert(right[k2 - right_start] == s@[k2 as int]);
                    assert(!all_digits(right));
                }
                proof {
                    assert(parse_num(s@) is None);
                }
                return Err(
                    String::from_str("a character right of the decimal point is not a digit"),
                );
            }
            k2 = k2 + 1;
        }
        proof {
            assert(all_digits(left));
            assert(all_digits(right));
        }
        // Accumulate the whole part, saturating at the representation's top.
        let mut acc: i64 = 0;
        let mut k3: usize = 0;
        while k3 < left_end
            invariant
                k3 <= left_end <= n,
                n == s@.len(),
                chars@ == s@,
                all_digits(left),
                left == s@.take(left_end as int),
                acc as int == (if dec_val(left.take(k3 as int)) > i64::MAX {
                    i64::MAX as int
                } else {
                    dec_val(left.take(k3 as int))
                }),
            decreases left_end - k3,
        {
            proof {
                assert(left[k3 as int] == s@[k3 as int]);
                assert(is_digit(left[k3 as int]));
            }
            let d = digit_value(chars[k3]);
            proof {
                lemma_dec_val_nonneg(left.take(k3 as int));
                assert(left.take(k3 + 1).drop_last() =~= left.take(k3 as int));
                assert(left.take(k3 + 1).last() == left[k3 as int]);
            }
            acc = sat_add_i64(sat_mul_i64(acc, 10), d);
            k3 = k3 + 1;
        }
        proof {
            assert(left.take(left_end as int) =~= left);
        }
        // Accumulate up to four fraction digits and scale them into place.
        let rl: usize = n - right_start;
        let keep: usize = if rl > 4 {
            4
        } else {
            rl
        };
        let mut frac: i64 = 0;
        let mut k4: usize = 0;
        while k4 < keep
            invariant
                k4 <= keep <= 4,
                keep <= rl,
                rl == n - right_start,
                right_start <= n,
                n == s@.len(),
                chars@ == s@,
                all_digits(right),
                right == s@.skip(right_start as int),
                frac as int == dec_val(right.take(k4 as int)),
                0 <= (frac as int),
                (frac as int) < pow10(k4 as int),
            decreases keep - k4,
        {
            proof {
                assert(right[k4 as int] == s@[right_start + k4]);
                assert(is_digit(right[k4 as int]));
                reveal_with_fuel(pow10, 6);
                assert(pow10(1) == 10 && pow10(2) == 100 && pow10(3) == 1000 && pow10(4)
                    == 10000);
            }
            let d = digit_value(chars[right_start + k4]);
            proof {
                assert(right[k4 as int] == s@[right_start + k4]);
                assert(right.take(k4 + 1).drop_last() =~= right.take(k4 as int));
                assert(right.take(k4 + 1).last() == right[k4 as int]);
            }
            frac = frac * 10 + d;
            k4 = k4 + 1;
        }
        proof {
            reveal_with_fuel(pow10, 6);
            assert(pow10(1) == 10 && pow10(2) == 100 && pow10(3) == 1000 && pow10(4) == 10000);
        }
        let right_num: i64 = if rl == 0 {
            0
        } else if rl == 1 {
            frac * 1000
        } else if rl == 2 {
            frac * 100
        } else if rl == 3 {
            frac * 10
        } else {
            frac
        };
        proof {
            if rl >= 1 {
                assert(right.take(keep as int) =~= (if rl >= 4 {
                    right.take(4)
                } else {
                    right
                }));
            }
        }
        proof {
            assert(parse_num(s@) is Some);
        }
        Ok(YololNumber::from_split(acc, right_num))
    }

    /// Renders the number in the in-game display format.
    pub fn to_text(self) -> (r: String)
        ensures
            r@ == render(self@),
    {
        let inner = self.to_inner();
        let whole: i64 = inner / SCALE;
        let fr: i64 = inner % SCALE;
        let f: u64 = if fr < 0 {
            (-fr) as u64
        } else {
            fr as u64
        };
        let mut s: String = if whole < 0 {
            let mut t = String::new();
            push_char(&mut t, '-');
            let digits = dec_u64((-whole) as u64);
            t.append(digits.as_str());
            proof {
                assert(t@ =~= whole_str(tdiv(self@, SCALE as int)));
            }
            t
        } else {
            dec_u64(whole as u64)
        };
        let th: u64 = f / 1000;
        let hu: u64 = (f / 100) % 10;
        let te: u64 = (f / 10) % 10;
        let on: u64 = f % 10;
        if on != 0 {
            push_char(&mut s, '.');
            push_char(&mut s, digit_char(th));
            push_char(&mut s, digit_char(hu));
            push_char(&mut s, digit_char(te));
            push_char(&mut s, digit_char(on));
            proof {
                assert(s@ =~= render(self@));
            }
        } else if te != 0 {
            push_char(&mut s, '.');
            push_char(&mut s, digit_char(th));
            push_char(&mut s, digit_char(hu));
            push_char(&mut s, digit_char(te));
            proof {
                assert(s@ =~= render(self@));
            }
        } else if hu != 0 {
            push_char(&mut s, '.');
            push_char(&mut s, digit_char(th));
            push_char(&mut s, digit_char(hu));
            proof {
                assert(s@ =~= render(self@));
            }
        } else if th != 0 {
            push_char(&mut s, '.');
            push_char(&mut s, digit_char(th));
            proof {
                assert(s@ =~= render(self@));
            }
        } else {
            proof {
                assert(s@ =~= render(self@));
            }
        }
        s
    }
}

} // verus!
