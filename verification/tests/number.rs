//! The fixed-point number: construction, arithmetic at the boundaries,
//! text round trips, and the mathematical operators.

use yoloxide::literal_value::LiteralValue;
use yoloxide::number::YololNumber;

fn num(whole: i64) -> YololNumber {
    YololNumber::from_whole(whole)
}

fn split(whole: i64, frac: i64) -> YololNumber {
    YololNumber::from_split(whole, frac)
}

#[test]
fn from_split_scales_and_saturates() {
    assert_eq!(split(1, 5000).to_inner(), 15000);
    assert_eq!(split(0, 1).to_inner(), 1);
    assert_eq!(split(i64::MAX, 9999).to_inner(), i64::MAX);
    assert_eq!(split(i64::MIN, 0).to_inner(), i64::MIN);
}

#[test]
fn addition_saturates_at_the_bounds() {
    assert_eq!(num(1).sat_add(num(2)).to_inner(), 30000);
    let top = YololNumber::new(i64::MAX);
    assert_eq!(top.sat_add(num(1)).to_inner(), i64::MAX);
    let bottom = YololNumber::new(i64::MIN);
    assert_eq!(bottom.sat_sub(num(1)).to_inner(), i64::MIN);
}

#[test]
fn multiplication_rescales_through_a_wide_intermediate() {
    assert_eq!(split(1, 5000).sat_mul(num(2)).to_inner(), 30000);
    assert_eq!(split(0, 1).sat_mul(split(0, 1)).to_inner(), 0);
    let top = YololNumber::new(i64::MAX);
    assert_eq!(top.sat_mul(num(2)).to_inner(), i64::MAX);
    assert_eq!(top.sat_mul(num(-2)).to_inner(), i64::MIN);
}

#[test]
fn division_by_zero_yields_zero() {
    assert_eq!(num(17).div(num(0)).to_inner(), 0);
    assert_eq!(num(0).div(num(0)).to_inner(), 0);
    assert_eq!(YololNumber::new(i64::MIN).div(num(0)).to_inner(), 0);
    assert_eq!(num(1).div(num(2)).to_inner(), 5000);
    assert_eq!(num(-7).div(num(2)).to_inner(), -35000);
}

#[test]
fn remainder_by_zero_yields_zero() {
    assert_eq!(num(7).rem(num(0)).to_inner(), 0);
    assert_eq!(num(7).rem(num(2)).to_inner(), 10000);
    assert_eq!(num(-7).rem(num(2)).to_inner(), -10000);
}

#[test]
fn floor_ceiling_and_clamp_move_on_whole_boundaries() {
    assert_eq!(split(1, 5000).floor().to_inner(), 10000);
    assert_eq!(split(1, 5000).ceiling().to_inner(), 20000);
    // An already whole value stands, and negatives round toward zero.
    assert_eq!(num(1).ceiling().to_inner(), 10000);
    assert_eq!(YololNumber::new(-15000).ceiling().to_inner(), -10000);
    assert_eq!(num(-2).ceiling().to_inner(), -20000);
    assert_eq!(num(25).clamp(1, 20).to_inner(), 200000);
    assert_eq!(num(-3).clamp(1, 20).to_inner(), 10000);
    assert_eq!(num(7).clamp(1, 20).to_inner(), 70000);
}

#[test]
fn rendering_trims_trailing_fraction_zeros() {
    assert_eq!(num(0).to_text(), "0");
    assert_eq!(num(12).to_text(), "12");
    assert_eq!(split(1, 5000).to_text(), "1.5");
    assert_eq!(split(1, 5070).to_text(), "1.507");
    assert_eq!(split(1, 5007).to_text(), "1.5007");
    assert_eq!(num(-3).to_text(), "-3");
    assert_eq!(split(-1, 0).to_text(), "-1");
    assert_eq!(split(-2, 5000).to_text(), "-1.5");
}

#[test]
fn rendering_loses_the_sign_below_one() {
    // The truncated whole part of a negative value above minus one is
    // zero, so the sign disappears, as the game displays it.
    assert_eq!(YololNumber::new(-5000).to_text(), "0.5");
}

#[test]
fn parsing_reads_whole_and_fraction() {
    assert_eq!(YololNumber::from_text("1.5").unwrap().to_inner(), 15000);
    assert_eq!(YololNumber::from_text("12").unwrap().to_inner(), 120000);
    assert_eq!(YololNumber::from_text(".5").unwrap().to_inner(), 5000);
    assert_eq!(YololNumber::from_text("1.").unwrap().to_inner(), 10000);
    // Fractional digits past the fourth are cut, not rounded.
    assert_eq!(YololNumber::from_text("1.23456").unwrap().to_inner(), 12345);
    // An over-long whole part saturates.
    assert_eq!(
        YololNumber::from_text("99999999999999999999").unwrap().to_inner(),
        i64::MAX
    );
}

#[test]
fn parsing_rejects_bad_literals() {
    assert!(YololNumber::from_text("1.2.3").is_err());
    assert!(YololNumber::from_text("a").is_err());
    assert!(YololNumber::from_text("-1").is_err());
    assert!(YololNumber::from_text("1.x").is_err());
}

#[test]
fn text_round_trips_for_nonnegative_values() {
    for &(w, d) in &[(0i64, 0i64), (0, 5000), (1, 0), (1, 5007), (42, 9999), (922337203685477, 5807)] {
        let n = split(w, d);
        let back = YololNumber::from_text(&n.to_text()).unwrap();
        assert_eq!(back.to_inner(), n.to_inner());
    }
}

#[test]
fn sqrt_is_the_whole_root_and_flags_negatives() {
    assert_eq!(num(9).sqrt().to_inner(), 30000);
    assert_eq!(num(10).sqrt().to_inner(), 30000);
    assert_eq!(split(2, 2500).sqrt().to_inner(), 10000);
    assert_eq!(num(-1).sqrt().to_inner(), -10000);
}

#[test]
fn pow_handles_the_forced_cases() {
    assert_eq!(num(5).pow(num(0)).to_inner(), 10000);
    assert_eq!(num(0).pow(num(3)).to_inner(), 0);
    assert_eq!(num(0).pow(num(-3)).to_inner(), i64::MAX);
    assert_eq!(num(1).pow(split(2, 5000)).to_inner(), 10000);
    assert_eq!(num(-1).pow(num(3)).to_inner(), -10000);
    assert_eq!(num(-1).pow(num(4)).to_inner(), 10000);
    assert_eq!(split(0, 5000).pow(num(5)).to_inner(), 0);
    assert_eq!(num(5).pow(num(-1)).to_inner(), 0);
    assert_eq!(num(-2).pow(split(0, 5000)).to_inner(), 0);
}

#[test]
fn pow_computes_whole_powers() {
    assert_eq!(num(2).pow(num(10)).to_inner(), 1024 * 10000);
    assert_eq!(num(3).pow(num(4)).to_inner(), 81 * 10000);
    assert_eq!(num(-2).pow(num(3)).to_inner(), -8 * 10000);
}

#[test]
fn pow_saturates_at_extreme_magnitudes() {
    let top = YololNumber::new(i64::MAX);
    assert_eq!(num(2).pow(num(100)).to_inner(), i64::MAX);
    assert_eq!(num(-2).pow(num(101)).to_inner(), i64::MIN);
    assert_eq!(top.pow(top).to_inner(), i64::MAX);
    assert_eq!(YololNumber::new(i64::MIN).pow(num(2)).to_inner(), i64::MAX);
}

#[test]
fn trig_truncates_to_whole_numbers() {
    assert_eq!(num(90).sin().to_inner(), 10000);
    assert_eq!(num(270).sin().to_inner(), -10000);
    assert_eq!(num(30).sin().to_inner(), 0);
    assert_eq!(num(450).sin().to_inner(), 10000);
    assert_eq!(num(0).cos().to_inner(), 10000);
    assert_eq!(num(180).cos().to_inner(), -10000);
    assert_eq!(num(-180).cos().to_inner(), -10000);
    assert_eq!(num(60).cos().to_inner(), 0);
}

#[test]
fn tan_is_exact_at_the_special_angles() {
    assert_eq!(num(0).tan().to_inner(), 0);
    assert_eq!(num(45).tan().to_inner(), 10000);
    assert_eq!(num(180).tan().to_inner(), 0);
    assert_eq!(num(90).tan().to_inner(), i64::MAX);
    assert_eq!(num(60).tan().to_inner(), 10000);
    assert_eq!(num(89).tan().to_inner(), 570000);
    assert_eq!(num(135).tan().to_inner(), -10000);
}

#[test]
fn inverse_trig_is_signed_and_domain_checked() {
    // In-domain negative operands return their negative whole-degree
    // result at the value layer.
    let half_neg = LiteralValue::NumberVal(YololNumber::new(-5000));
    match half_neg.arcsin().unwrap() {
        LiteralValue::NumberVal(n) => assert_eq!(n.to_inner(), -300000),
        _ => panic!("expected a number"),
    }
    let minus_one = LiteralValue::NumberVal(YololNumber::from_whole(-1));
    match minus_one.arctan().unwrap() {
        LiteralValue::NumberVal(n) => assert_eq!(n.to_inner(), -450000),
        _ => panic!("expected a number"),
    }
    // Only operands of magnitude above one are domain errors.
    let two = LiteralValue::NumberVal(YololNumber::from_whole(2));
    assert!(two.arcsin().is_err());
    assert!(LiteralValue::NumberVal(YololNumber::from_whole(-2)).arccos().is_err());
    // The arctangent is total on numbers.
    let big_neg = LiteralValue::NumberVal(YololNumber::new(i64::MIN));
    assert!(big_neg.arctan().is_ok());
}

#[test]
fn inverse_trig_returns_whole_degrees() {
    assert_eq!(split(0, 5000).arcsin().to_inner(), 300000);
    assert_eq!(num(1).arcsin().to_inner(), 900000);
    assert_eq!(num(0).arcsin().to_inner(), 0);
    assert_eq!(num(2).arcsin().to_inner(), -10000);
    assert_eq!(split(0, 5000).arccos().to_inner(), 600000);
    assert_eq!(num(-1).arccos().to_inner(), 1800000);
    assert_eq!(YololNumber::new(-5000).arccos().to_inner(), 1200000);
    assert_eq!(num(1).arctan().to_inner(), 450000);
    assert_eq!(num(100).arctan().to_inner(), 890000);
    assert_eq!(num(0).arctan().to_inner(), 0);
}

#[test]
fn logical_negation_and_sign_helpers() {
    assert_eq!(num(0).not().to_inner(), 10000);
    assert_eq!(num(3).not().to_inner(), 0);
    assert!(num(-1).is_negative());
    assert!(!num(0).is_negative());
    assert_eq!(num(-5).abs().to_inner(), 50000);
    assert_eq!(YololNumber::new(i64::MIN).abs().to_inner(), i64::MAX);
    assert_eq!(num(5).neg().to_inner(), -50000);
}
