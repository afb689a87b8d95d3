use fmp::api::Chart;
use fmp::error::BacktestError;
use fmp::strategy::{BuyAndHold, PeriodicRebalance, RebalanceStrategy, Strategy, ThresholdRebalance};
use fmp::trade::{Order, Portfolio};
use fmp::weights::Weights;

fn bar(price: u64) -> Chart {
    Chart { open: price, high: price, low: price, close: price, volume: 1, adj_close: price }
}

fn holding(balance: i64, held: &[(&str, u64)]) -> Portfolio {
    let symbols: Vec<String> = held.iter().map(|h| h.0.to_string()).collect();
    let mut p = Portfolio::new(balance, &symbols);
    for (symbol, shares) in held {
        p.update_share(symbol, *shares);
    }
    p
}

fn weights(list: &[(&str, u64)]) -> Weights {
    let mut w = Weights::new();
    for (symbol, weight) in list {
        w.insert(symbol, *weight);
    }
    w
}

fn quantities(orders: &[Order]) -> Vec<(String, i64)> {
    orders.iter().map(|o| (o.symbol.clone(), o.shares)).collect()
}

fn pairs(list: &[(&str, i64)]) -> Vec<(String, i64)> {
    list.iter().map(|o| (o.0.to_string(), o.1)).collect()
}

const HALF: u64 = 500_000_000;
const PERCENT: u64 = 1_000_000_000;

#[test]
fn periodic_fires_on_multiples_of_the_period() {
    let rule = PeriodicRebalance::new(5);
    assert_eq!(rule.period, 5);
    let p = holding(1, &[]);
    let fired: Vec<bool> =
        (0..=11).map(|day| rule.should_rebalance(day, &vec![], &p).unwrap()).collect();
    assert_eq!(
        fired,
        vec![true, false, false, false, false, true, false, false, false, false, true, false]
    );
    let daily = PeriodicRebalance::new(1);
    assert_eq!(daily.should_rebalance(7, &vec![], &p), Ok(true));
}

#[test]
fn a_period_of_zero_is_refused() {
    let rule = PeriodicRebalance::new(0);
    let p = holding(1, &[]);
    assert_eq!(rule.should_rebalance(3, &vec![], &p), Err(BacktestError::InvalidPeriod));
}

#[test]
fn threshold_fires_on_a_drift_of_sixteen_points() {
    // A stands at 0.58 of the whole against a target of 0.5: 8 points, and the
    // cash 8 points the other way.
    let rule = ThresholdRebalance::new(5 * PERCENT, &weights(&[("A", HALF)])).unwrap();
    let p = holding(42, &[("A", 58)]);
    assert_eq!(rule.should_rebalance(9, &vec![bar(1)], &p), Ok(true));
    let wide = ThresholdRebalance::new(16 * PERCENT, &weights(&[("A", HALF)])).unwrap();
    assert_eq!(wide.should_rebalance(9, &vec![bar(1)], &p), Ok(false));
    let narrower = ThresholdRebalance::new(16 * PERCENT - 1, &weights(&[("A", HALF)])).unwrap();
    assert_eq!(narrower.should_rebalance(9, &vec![bar(1)], &p), Ok(true));
}

#[test]
fn a_drift_equal_to_the_threshold_does_not_fire() {
    let rule = ThresholdRebalance::new(5 * PERCENT, &weights(&[("A", HALF)])).unwrap();
    let at = holding(475, &[("A", 525)]);
    assert_eq!(rule.should_rebalance(1, &vec![bar(1)], &at), Ok(false));
    let above = holding(474, &[("A", 526)]);
    assert_eq!(rule.should_rebalance(1, &vec![bar(1)], &above), Ok(true));
    let on_target = holding(500, &[("A", 500)]);
    assert_eq!(rule.should_rebalance(1, &vec![bar(1)], &on_target), Ok(false));
    let none = ThresholdRebalance::new(0, &weights(&[("A", HALF)])).unwrap();
    assert_eq!(none.should_rebalance(1, &vec![bar(1)], &on_target), Ok(false));
}

#[test]
fn threshold_counts_every_position_and_the_cash() {
    // Targets 0.4, 0.2 and 0.4 leave nothing for cash. Worth 500, 100, 300 and
    // 100 in cash: 10 + 10 + 10 + 10 points.
    let table = weights(&[("A", 400_000_000), ("B", 200_000_000), ("C", 400_000_000)]);
    let p = holding(100, &[("A", 50), ("B", 5), ("C", 100)]);
    let charts = vec![bar(10), bar(20), bar(3)];
    let below = ThresholdRebalance::new(40 * PERCENT - 1, &table).unwrap();
    assert_eq!(below.should_rebalance(1, &charts, &p), Ok(true));
    let at = ThresholdRebalance::new(40 * PERCENT, &table).unwrap();
    assert_eq!(at.should_rebalance(1, &charts, &p), Ok(false));
    assert_eq!(at.threshold, 40 * PERCENT);
    assert_eq!(at.get_initial_weight("B"), Some(200_000_000));
    assert_eq!(at.get_initial_weight("D"), None);
}

#[test]
fn threshold_wants_a_weight_for_every_symbol() {
    let rule = ThresholdRebalance::new(5 * PERCENT, &weights(&[("A", HALF)])).unwrap();
    let p = holding(42, &[("A", 58), ("B", 1)]);
    assert_eq!(
        rule.should_rebalance(1, &vec![bar(1), bar(1)], &p),
        Err(BacktestError::MissingWeight)
    );
}

#[test]
fn threshold_refuses_weights_above_one() {
    let above = weights(&[("A", HALF), ("B", HALF + 1)]);
    assert_eq!(
        ThresholdRebalance::new(5 * PERCENT, &above).err(),
        Some(BacktestError::InvalidWeights)
    );
    assert!(!above.within(1_000_000_000));
    assert!(above.within(1_000_000_001));
    let most = weights(&[("A", u64::MAX), ("B", u64::MAX), ("C", 4)]);
    assert!(!most.within(u64::MAX));
    assert!(weights(&[]).within(0));
    // A rule put together by hand is held to its weights when it is asked.
    let rule = ThresholdRebalance { threshold: 5 * PERCENT, initial_weight: above };
    let p = holding(42, &[("A", 58), ("B", 1)]);
    assert_eq!(
        rule.should_rebalance(1, &vec![bar(1), bar(1)], &p),
        Err(BacktestError::InvalidWeights)
    );
    let whole = ThresholdRebalance::new(5 * PERCENT, &weights(&[("A", HALF), ("B", HALF)])).unwrap();
    assert_eq!(whole.should_rebalance(1, &vec![bar(1), bar(1)], &p), Ok(true));
    // Weights that the portfolio has no symbol for count for nothing then.
    let spare = ThresholdRebalance::new(5 * PERCENT, &weights(&[("A", HALF), ("Z", HALF)])).unwrap();
    let one = holding(500, &[("A", 500)]);
    assert_eq!(spare.should_rebalance(1, &vec![bar(1)], &one), Ok(false));
}

#[test]
fn threshold_refuses_a_portfolio_worth_nothing() {
    let rule = ThresholdRebalance::new(5 * PERCENT, &weights(&[("A", HALF)])).unwrap();
    let nothing = holding(0, &[("A", 0)]);
    assert_eq!(
        rule.should_rebalance(4, &vec![bar(1)], &nothing),
        Err(BacktestError::DegeneratePortfolioValue { day: 3 })
    );
    let debt = holding(-10, &[("A", 5)]);
    assert_eq!(
        rule.should_rebalance(0, &vec![bar(1)], &debt),
        Err(BacktestError::DegeneratePortfolioValue { day: 0 })
    );
    let huge = holding(1, &[("A", u64::MAX)]);
    assert_eq!(rule.should_rebalance(4, &vec![bar(2)], &huge), Err(BacktestError::Overflow));
}

#[test]
fn buy_and_hold_opens_then_holds_then_closes() {
    let table = weights(&[("A", HALF), ("B", HALF)]);
    let mut s = BuyAndHold::new(table, PeriodicRebalance::new(3));
    assert!(!s.bought);
    assert_eq!(s.get_weight("A"), Some(HALF));
    assert_eq!(s.get_weight("C"), None);
    assert_eq!(Strategy::to_string(&s), "BnH");
    let cash = holding(100_000, &[("A", 0), ("B", 0)]);
    let charts = vec![bar(1000), bar(500)];
    let opened = s.gen_order_map(1, &charts, &cash).unwrap();
    assert_eq!(quantities(&opened), pairs(&[("A", 50), ("B", 100)]));
    assert!(s.bought);
    let invested = holding(0, &[("A", 50), ("B", 100)]);
    let held = s.gen_order_map(2, &charts, &invested).unwrap();
    assert_eq!(quantities(&held), pairs(&[("A", 0), ("B", 0)]));
    assert!(s.bought);
    let closed = s.gen_order_map(3, &charts, &invested).unwrap();
    assert_eq!(quantities(&closed), pairs(&[("A", -50), ("B", -100)]));
    assert!(!s.bought);
    // Not holding: the positions are opened on the next day, whatever its index.
    let reopened = s.gen_order_map(4, &charts, &cash).unwrap();
    assert_eq!(quantities(&reopened), pairs(&[("A", 50), ("B", 100)]));
    assert!(s.bought);
}

#[test]
fn buy_and_hold_opens_on_the_first_day_even_if_the_rule_fires() {
    let mut s = BuyAndHold::new(weights(&[("A", HALF)]), PeriodicRebalance::new(1));
    let cash = holding(1_000, &[("A", 0)]);
    let opened = s.gen_order_map(1, &vec![bar(7)], &cash).unwrap();
    assert_eq!(quantities(&opened), pairs(&[("A", 71)]));
}

#[test]
fn buy_and_hold_buys_whole_shares_only() {
    let table = weights(&[("A", 400_000_000), ("B", 200_000_000), ("C", 400_000_000)]);
    let mut s = BuyAndHold::new(table, PeriodicRebalance::new(60));
    let cash = holding(10_000_000, &[("A", 0), ("B", 0), ("C", 0)]);
    let charts = vec![bar(70_300), bar(431_000), bar(62_700)];
    let opened = s.gen_order_map(1, &charts, &cash).unwrap();
    // 4000000 / 70300 = 56.8, 2000000 / 431000 = 4.6, 4000000 / 62700 = 63.7.
    assert_eq!(quantities(&opened), pairs(&[("A", 56), ("B", 4), ("C", 63)]));
}

#[test]
fn buy_and_hold_wants_a_weight_for_every_symbol() {
    let mut s = BuyAndHold::new(weights(&[("A", HALF)]), PeriodicRebalance::new(3));
    let cash = holding(100_000, &[("A", 0), ("B", 0)]);
    let r = s.gen_order_map(1, &vec![bar(1000), bar(500)], &cash);
    assert_eq!(r.err(), Some(BacktestError::MissingWeight));
    assert!(!s.bought);
}

#[test]
fn buy_and_hold_refuses_a_price_of_zero() {
    let mut s = BuyAndHold::new(weights(&[("A", HALF), ("B", HALF)]), PeriodicRebalance::new(3));
    let cash = holding(100_000, &[("A", 0), ("B", 0)]);
    let r = s.gen_order_map(1, &vec![bar(1000), bar(0)], &cash);
    assert_eq!(r.err(), Some(BacktestError::ZeroPrice));
    assert!(!s.bought);
    // A missing weight is reported first.
    let mut t = BuyAndHold::new(weights(&[("B", HALF)]), PeriodicRebalance::new(3));
    let r = t.gen_order_map(1, &vec![bar(1000), bar(0)], &cash);
    assert_eq!(r.err(), Some(BacktestError::MissingWeight));
}

#[test]
fn buy_and_hold_refuses_orders_out_of_range() {
    let mut s = BuyAndHold::new(weights(&[("A", u64::MAX)]), PeriodicRebalance::new(3));
    let cash = holding(i64::MAX, &[("A", 0)]);
    let r = s.gen_order_map(1, &vec![bar(1)], &cash);
    assert_eq!(r.err(), Some(BacktestError::Overflow));
    let mut t = BuyAndHold::new(weights(&[("A", HALF)]), PeriodicRebalance::new(1));
    t.bought = true;
    let full = holding(0, &[("A", u64::MAX)]);
    let r = t.gen_order_map(1, &vec![bar(1)], &full);
    assert_eq!(r.err(), Some(BacktestError::Overflow));
    assert!(t.bought);
    let most = holding(0, &[("A", 1 << 63)]);
    let closed = t.gen_order_map(1, &vec![bar(1)], &most).unwrap();
    assert_eq!(quantities(&closed), pairs(&[("A", i64::MIN)]));
}

#[test]
fn buy_and_hold_hands_on_what_the_rule_refuses() {
    let mut s = BuyAndHold::new(weights(&[("A", HALF)]), PeriodicRebalance::new(0));
    s.bought = true;
    let p = holding(0, &[("A", 5)]);
    let r = s.gen_order_map(1, &vec![bar(1)], &p);
    assert_eq!(r.err(), Some(BacktestError::InvalidPeriod));
    assert!(s.bought);
}

#[test]
fn buy_and_hold_with_a_threshold_rule() {
    let table = weights(&[("A", HALF)]);
    let rule = ThresholdRebalance::new(5 * PERCENT, &table).unwrap();
    let mut s = BuyAndHold::new(table, rule);
    let cash = holding(1_000, &[("A", 0)]);
    let opened = s.gen_order_map(1, &vec![bar(10)], &cash).unwrap();
    assert_eq!(quantities(&opened), pairs(&[("A", 50)]));
    let invested = holding(500, &[("A", 50)]);
    let steady = s.gen_order_map(2, &vec![bar(10)], &invested).unwrap();
    assert_eq!(quantities(&steady), pairs(&[("A", 0)]));
    // At 14 the position is 700 of 1200: 8.3 points off, and the cash as much.
    let drifted = s.gen_order_map(3, &vec![bar(14)], &invested).unwrap();
    assert_eq!(quantities(&drifted), pairs(&[("A", -50)]));
    assert!(!s.bought);
}
