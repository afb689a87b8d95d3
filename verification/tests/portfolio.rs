use fmp::api::Chart;
use fmp::error::BacktestError;
use fmp::symbols::{find_slot, first_occurrences, same_text};
use fmp::trade::{Order, Portfolio};
use fmp::weights::{targets_of, Weights};

fn bar(price: u64) -> Chart {
    Chart { open: price, high: price, low: price, close: price, volume: 1, adj_close: price }
}

fn names(list: &[&str]) -> Vec<String> {
    list.iter().map(|s| s.to_string()).collect()
}

fn holding(balance: i64, held: &[(&str, u64)]) -> Portfolio {
    let symbols: Vec<String> = held.iter().map(|h| h.0.to_string()).collect();
    let mut p = Portfolio::new(balance, &symbols);
    for (symbol, shares) in held {
        p.update_share(symbol, *shares);
    }
    p
}

fn orders(list: &[(&str, i64)]) -> Vec<Order> {
    list.iter().map(|o| Order::new(o.0, o.1)).collect()
}

#[test]
fn a_new_portfolio_holds_cash_only() {
    let p = Portfolio::new(10_000, &names(&["A", "B"]));
    assert_eq!(p.get_balance(), 10_000);
    assert_eq!(p.get_symbols(), names(&["A", "B"]));
    assert_eq!(p.get_share("A"), Some(0));
    assert_eq!(p.get_share("B"), Some(0));
    assert_eq!(p.get_share("C"), None);
}

#[test]
fn a_symbol_named_twice_has_one_slot() {
    let p = Portfolio::new(1, &names(&["A", "B", "A", "C", "B"]));
    assert_eq!(p.get_symbols(), names(&["A", "B", "C"]));
    assert_eq!(p.shares, vec![0, 0, 0]);
    assert_eq!(first_occurrences(&names(&["A", "B", "A", "C", "B"])), vec![0, 1, 3]);
    assert_eq!(first_occurrences(&names(&[])), Vec::<usize>::new());
}

#[test]
fn update_share_sets_or_adds() {
    let mut p = Portfolio::new(1, &names(&["A", "B"]));
    p.update_share("B", 7);
    assert_eq!(p.shares, vec![0, 7]);
    p.update_share("C", 9);
    assert_eq!(p.get_symbols(), names(&["A", "B", "C"]));
    assert_eq!(p.shares, vec![0, 7, 9]);
    assert_eq!(p.get_balance(), 1);
}

#[test]
fn get_share_mut_changes_in_place() {
    let mut p = Portfolio::new(1, &names(&["A", "B"]));
    match p.get_share_mut("A") {
        Some(held) => *held += 3,
        None => panic!("A has a slot"),
    }
    assert_eq!(p.shares, vec![3, 0]);
    assert!(p.get_share_mut("C").is_none());
    assert_eq!(p.shares, vec![3, 0]);
}

#[test]
fn update_balance_leaves_the_shares() {
    let mut p = holding(5, &[("A", 2)]);
    p.update_balance(-8);
    assert_eq!(p.get_balance(), -8);
    assert_eq!(p.shares, vec![2]);
}

#[test]
fn duplicate_is_equal_in_all_parts() {
    let p = holding(5, &[("A", 2), ("B", 3)]);
    let q = p.duplicate();
    assert_eq!(q.balance, 5);
    assert_eq!(q.symbols, p.symbols);
    assert_eq!(q.shares, p.shares);
}

#[test]
fn an_order_keeps_what_it_is_given() {
    let o = Order::new("005930.KS", -12);
    assert_eq!(o.symbol, "005930.KS");
    assert_eq!(o.shares, -12);
}

#[test]
fn value_is_cash_and_holdings() {
    let p = holding(1_000, &[("A", 5), ("B", 0), ("C", 2)]);
    assert_eq!(p.value(&vec![bar(100), bar(7), bar(25)]), Ok(1_000 + 500 + 50));
    let debtor = holding(-600, &[("A", 5)]);
    assert_eq!(debtor.value(&vec![bar(100)]), Ok(-100));
    let empty = Portfolio::new(42, &names(&[]));
    assert_eq!(empty.value(&vec![]), Ok(42));
}

#[test]
fn a_value_out_of_range_is_an_overflow() {
    let p = holding(0, &[("A", u64::MAX)]);
    assert_eq!(p.value(&vec![bar(u64::MAX)]), Err(BacktestError::Overflow));
    let q = holding(1, &[("A", 1)]);
    assert_eq!(q.value(&vec![bar(i64::MAX as u64)]), Err(BacktestError::Overflow));
    let r = holding(0, &[("A", 1)]);
    assert_eq!(r.value(&vec![bar(i64::MAX as u64)]), Ok(i64::MAX));
    // Holdings beyond the range are refused even where the debt makes up for them.
    let s = holding(-10, &[("A", 1), ("B", 1)]);
    assert_eq!(s.value(&vec![bar(i64::MAX as u64), bar(5)]), Err(BacktestError::Overflow));
    let t = holding(i64::MIN, &[]);
    assert_eq!(t.value(&vec![]), Err(BacktestError::Overflow));
}

#[test]
fn executing_orders_moves_cash_and_shares() {
    let mut p = holding(100_000, &[("A", 10), ("B", 20)]);
    let charts = vec![bar(1000), bar(500)];
    p.execute(&charts, &orders(&[("A", 50), ("B", -20)]), 0).unwrap();
    assert_eq!(p.shares, vec![60, 0]);
    assert_eq!(p.balance, 100_000 - 50_000 + 10_000);
}

#[test]
fn fees_are_the_only_leak() {
    let mut p = holding(1_000_000, &[("A", 10), ("B", 20), ("C", 5)]);
    let charts = vec![bar(19_999), bar(333), bar(70_000)];
    let before = p.value(&charts).unwrap();
    // Fees at 0.00015: 2 on the purchase of A, 0 on the sale of B, 10 on the purchase of C.
    p.execute(&charts, &orders(&[("A", 1), ("B", -3), ("C", 1)]), 150_000).unwrap();
    let after = p.value(&charts).unwrap();
    assert_eq!(before - after, 2 + 0 + 10);
    assert_eq!(p.shares, vec![11, 17, 6]);
    assert_eq!(p.balance, 1_000_000 - 20_001 + 999 - 70_010);
}

#[test]
fn a_sale_is_credited_with_the_fee() {
    let mut p = holding(0, &[("A", 100)]);
    let charts = vec![bar(70_000)];
    let before = p.value(&charts).unwrap();
    p.execute(&charts, &orders(&[("A", -100)]), 150_000).unwrap();
    assert_eq!(p.balance, 7_001_050);
    assert_eq!(p.value(&charts).unwrap() - before, 1_050);
}

#[test]
fn without_fees_the_value_is_kept() {
    let mut p = holding(1_000_000, &[("A", 10), ("B", 20)]);
    let charts = vec![bar(19_999), bar(333)];
    let before = p.value(&charts).unwrap();
    p.execute(&charts, &orders(&[("A", 7), ("B", -20)]), 0).unwrap();
    assert_eq!(p.value(&charts).unwrap(), before);
}

#[test]
fn orders_must_name_the_slots() {
    let mut p = holding(1_000, &[("A", 1), ("B", 2)]);
    let charts = vec![bar(10), bar(20)];
    let wrong_order = orders(&[("B", 0), ("A", 0)]);
    assert_eq!(p.execute(&charts, &wrong_order, 0), Err(BacktestError::SymbolMismatch));
    let too_few = orders(&[("A", 0)]);
    assert_eq!(p.execute(&charts, &too_few, 0), Err(BacktestError::SymbolMismatch));
    let too_many = orders(&[("A", 0), ("B", 0), ("C", 0)]);
    assert_eq!(p.execute(&charts, &too_many, 0), Err(BacktestError::SymbolMismatch));
    assert_eq!(p.shares, vec![1, 2]);
    assert_eq!(p.balance, 1_000);
}

#[test]
fn selling_more_than_is_held_is_refused_and_changes_nothing() {
    let mut p = holding(1_000, &[("A", 1), ("B", 2)]);
    let charts = vec![bar(10), bar(20)];
    let r = p.execute(&charts, &orders(&[("A", 5), ("B", -3)]), 0);
    assert_eq!(r, Err(BacktestError::InsufficientShares));
    assert_eq!(p.shares, vec![1, 2]);
    assert_eq!(p.balance, 1_000);
}

#[test]
fn overselling_is_reported_before_overflow() {
    let mut p = holding(0, &[("A", u64::MAX), ("B", 0)]);
    let charts = vec![bar(10), bar(20)];
    let r = p.execute(&charts, &orders(&[("A", 1), ("B", -1)]), 0);
    assert_eq!(r, Err(BacktestError::InsufficientShares));
}

#[test]
fn amounts_out_of_range_are_refused_and_change_nothing() {
    let charts = vec![bar(10)];
    let mut full = holding(1_000, &[("A", u64::MAX)]);
    assert_eq!(full.execute(&charts, &orders(&[("A", 1)]), 0), Err(BacktestError::Overflow));
    assert_eq!(full.shares, vec![u64::MAX]);
    let mut p = holding(1_000, &[("A", 0)]);
    assert_eq!(p.execute(&charts, &orders(&[("A", i64::MAX)]), 0), Err(BacktestError::Overflow));
    let mut poor = holding(i64::MIN + 10, &[("A", 0)]);
    assert_eq!(poor.execute(&charts, &orders(&[("A", 2)]), 0), Err(BacktestError::Overflow));
    assert_eq!(poor.balance, i64::MIN + 10);
    // Each trade is in range, the two together are not.
    let big = (i64::MAX / 2 + 1) as u64;
    let mut two = holding(0, &[("A", 1), ("B", 0)]);
    let r = two.execute(&vec![bar(big), bar(big)], &orders(&[("A", -1), ("B", 1)]), 0);
    assert_eq!(r, Err(BacktestError::Overflow));
    assert_eq!(two.shares, vec![1, 0]);
}

#[test]
fn cash_may_go_below_zero() {
    let mut p = holding(100, &[("A", 0)]);
    p.execute(&vec![bar(60)], &orders(&[("A", 2)]), 0).unwrap();
    assert_eq!(p.balance, -20);
    assert_eq!(p.shares, vec![2]);
}

#[test]
fn interest_is_added_to_the_cash() {
    let mut p = holding(1_000_000, &[("A", 3)]);
    p.accrue(155_649).unwrap();
    assert_eq!(p.balance, 1_000_155);
    assert_eq!(p.shares, vec![3]);
    let mut debtor = holding(-1_000_000, &[]);
    debtor.accrue(155_649).unwrap();
    assert_eq!(debtor.balance, -1_000_155);
    let mut rich = holding(i64::MAX, &[]);
    assert_eq!(rich.accrue(1), Err(BacktestError::Overflow));
    assert_eq!(rich.balance, i64::MAX);
    let mut idle = holding(77, &[]);
    idle.accrue(0).unwrap();
    assert_eq!(idle.balance, 77);
}

#[test]
fn weights_are_kept_by_symbol() {
    let mut w = Weights::new();
    assert_eq!(w.get("A"), None);
    w.insert("A", 400_000_000);
    w.insert("B", 200_000_000);
    w.insert("A", 500_000_000);
    assert_eq!(w.get("A"), Some(500_000_000));
    assert_eq!(w.get("B"), Some(200_000_000));
    assert_eq!(w.get("C"), None);
    assert_eq!(w.symbols, names(&["A", "B"]));
    let copy = w.duplicate();
    assert_eq!(copy.symbols, w.symbols);
    assert_eq!(copy.weights, w.weights);
    assert_eq!(targets_of(&w, &names(&["B", "A", "B"])), Some(vec![200_000_000, 500_000_000, 200_000_000]));
    assert_eq!(targets_of(&w, &names(&["B", "C"])), None);
    assert_eq!(targets_of(&w, &names(&[])), Some(vec![]));
}

#[test]
fn find_slot_is_the_first_that_reads_the_same() {
    let v = names(&["A", "B", "A"]);
    assert_eq!(find_slot(&v, "A"), Some(0));
    assert_eq!(find_slot(&v, "B"), Some(1));
    assert_eq!(find_slot(&v, "a"), None);
    assert!(same_text("SPY", "SPY"));
    assert!(!same_text("SPY", "SPX"));
    assert!(!same_text("SPY", "SP"));
    assert!(same_text("", ""));
}
