use fmp::fixed::{cost_of, interest_on, shares_for, magnitude_of, MONEY_MAX, SCALE};
use fmp::report::Ratio;

#[test]
fn scale_is_a_billion() {
    assert_eq!(SCALE, 1_000_000_000);
    assert_eq!(MONEY_MAX, i64::MAX);
}

#[test]
fn magnitude_drops_the_sign() {
    assert_eq!(magnitude_of(0), 0);
    assert_eq!(magnitude_of(5), 5);
    assert_eq!(magnitude_of(-5), 5);
    assert_eq!(magnitude_of(i64::MAX), 9_223_372_036_854_775_807);
    assert_eq!(magnitude_of(i64::MIN), 9_223_372_036_854_775_808);
}

#[test]
fn cost_is_the_traded_amount_and_the_fee() {
    // 50 shares at 1000 with a fee of one thousandth: 50000 + 50.
    assert_eq!(cost_of(1000, 50, 1_000_000), Some(50_050));
    // A sale is credited with the amount and the fee.
    assert_eq!(cost_of(1000, -50, 1_000_000), Some(-50_050));
    assert_eq!(cost_of(1000, 50, 0), Some(50_000));
    assert_eq!(cost_of(1000, 0, 1_000_000), Some(0));
    assert_eq!(cost_of(0, 50, 1_000_000), Some(0));
}

#[test]
fn the_fee_is_rounded_toward_zero() {
    // 3 shares at 333 with 0.00015: 999 * 0.00015 = 0.14985.
    assert_eq!(cost_of(333, 3, 150_000), Some(999));
    assert_eq!(cost_of(333, -3, 150_000), Some(-999));
    // 70000 * 100 * 0.00015 = 1050.
    assert_eq!(cost_of(70_000, 100, 150_000), Some(7_001_050));
    // 19999 * 0.00015 = 2.99985.
    assert_eq!(cost_of(19_999, 1, 150_000), Some(20_001));
    assert_eq!(cost_of(19_999, -1, 150_000), Some(-20_001));
}

#[test]
fn a_traded_amount_beyond_the_range_has_no_cost() {
    assert_eq!(cost_of(u64::MAX, 1, 0), None);
    assert_eq!(cost_of(2, i64::MIN, 0), None);
    assert_eq!(cost_of(1, i64::MAX, 0), Some(i64::MAX as i128));
    assert_eq!(cost_of(1, i64::MIN, 0), None);
    assert_eq!(
        cost_of(1, i64::MAX, u64::MAX),
        Some(i64::MAX as i128 + (i64::MAX as i128 * u64::MAX as i128) / 1_000_000_000)
    );
}

#[test]
fn shares_are_whole_and_rounded_toward_zero() {
    assert_eq!(shares_for(100_000, 500_000_000, 1000), 50);
    assert_eq!(shares_for(100_000, 500_000_000, 500), 100);
    assert_eq!(shares_for(100_000, 500_000_000, 1001), 49);
    assert_eq!(shares_for(100_000, 333_333_333, 7), 4761);
    assert_eq!(shares_for(999, 1_000_000_000, 1000), 0);
    assert_eq!(shares_for(0, 1_000_000_000, 1000), 0);
    assert_eq!(shares_for(100_000, 0, 1000), 0);
    assert_eq!(shares_for(-100_001, 500_000_000, 1000), -50);
    assert_eq!(shares_for(-999, 1_000_000_000, 1000), 0);
    assert_eq!(shares_for(i64::MAX, u64::MAX, 1), i64::MAX as i128 * u64::MAX as i128 / 1_000_000_000);
}

#[test]
fn interest_is_the_rate_times_the_balance() {
    assert_eq!(interest_on(1_000_000, 155_649), 155);
    assert_eq!(interest_on(1_000_000_000, 155_649), 155_649);
    assert_eq!(interest_on(-1_000_000, 155_649), -155);
    assert_eq!(interest_on(0, 155_649), 0);
    assert_eq!(interest_on(1_000_000, 0), 0);
    assert_eq!(interest_on(1, 999_999_999), 0);
    assert_eq!(interest_on(-1, 999_999_999), 0);
    assert_eq!(interest_on(i64::MIN, u64::MAX), i64::MIN as i128 * u64::MAX as i128 / 1_000_000_000);
}

#[test]
fn ratios_compare_as_fractions() {
    let half = Ratio { num: 1, den: 2 };
    let two_quarters = Ratio { num: 2, den: 4 };
    let third = Ratio { num: 1, den: 3 };
    assert!(third.less_than(&half));
    assert!(!half.less_than(&third));
    assert!(!half.less_than(&two_quarters));
    assert!(!two_quarters.less_than(&half));
    let loss = Ratio { num: -1, den: 10 };
    assert!(loss.less_than(&third));
    let large = Ratio { num: i64::MAX, den: i64::MAX };
    let larger = Ratio { num: i64::MAX, den: i64::MAX - 1 };
    assert!(large.less_than(&larger));
}
