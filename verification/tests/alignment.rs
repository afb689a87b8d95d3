use fmp::align::{common_dates, holds_date, insert_sorted, places, quoted_by_all, survivors};
use fmp::api::{Chart, HistoricalChart};
use fmp::error::BacktestError;
use fmp::market::MarketData;
use fmp::text::sorts_before;

fn bar(price: u64) -> Chart {
    Chart { open: price, high: price + 2, low: price - 1, close: price + 1, volume: 7, adj_close: price }
}

fn series(symbol: &str, days: &[&str], prices: &[u64]) -> HistoricalChart {
    HistoricalChart {
        symbol: symbol.to_string(),
        date: days.iter().map(|d| d.to_string()).collect(),
        chart: prices.iter().map(|p| bar(*p)).collect(),
    }
}

fn names(list: &[&str]) -> Vec<String> {
    list.iter().map(|s| s.to_string()).collect()
}

#[test]
fn aligned_dates_are_the_sorted_intersection() {
    let a = series("A", &["2023-01-02", "2023-01-03", "2023-01-04", "2023-01-06"], &[10, 11, 12, 13]);
    let b = series("B", &["2023-01-03", "2023-01-04", "2023-01-05", "2023-01-06"], &[20, 21, 22, 23]);
    let rf = series(
        "^TNX",
        &["2023-01-01", "2023-01-03", "2023-01-04", "2023-01-06", "2023-01-07"],
        &[40, 41, 42, 43, 44],
    );
    let md = MarketData::new(&names(&["A", "B"]), &vec![a, b], &rf, "from", "to").unwrap();
    assert_eq!(md.date, names(&["2023-01-03", "2023-01-04", "2023-01-06"]));
    assert_eq!(md.symbols, names(&["A", "B"]));
    assert_eq!(md.len(), 3);
    assert!(!md.is_empty());
    assert_eq!(md.from, "from");
    assert_eq!(md.to, "to");
    let closes: Vec<Vec<u64>> =
        md.chart.iter().map(|row| row.iter().map(|c| c.adj_close).collect()).collect();
    assert_eq!(closes, vec![vec![11, 20], vec![12, 21], vec![13, 23]]);
    // The risk-free quote is the close, which `bar` puts one above the price.
    assert_eq!(md.risk_free, vec![42, 43, 44]);
}

#[test]
fn whole_bars_are_carried_over() {
    let a = series("A", &["2023-01-02", "2023-01-03"], &[10, 11]);
    let rf = series("^TNX", &["2023-01-03"], &[40]);
    let md = MarketData::new(&names(&["A"]), &vec![a], &rf, "", "").unwrap();
    assert_eq!(md.chart, vec![vec![bar(11)]]);
}

#[test]
fn bars_follow_their_dates_not_their_places() {
    let a = series("A", &["2023-01-03", "2023-01-05", "2023-01-02"], &[13, 15, 12]);
    let b = series("B", &["2023-01-02", "2023-01-03", "2023-01-04"], &[22, 23, 24]);
    let rf = series("^TNX", &["2023-01-04", "2023-01-03", "2023-01-02"], &[44, 43, 42]);
    let md = MarketData::new(&names(&["A", "B"]), &vec![a, b], &rf, "", "").unwrap();
    assert_eq!(md.date, names(&["2023-01-02", "2023-01-03"]));
    let closes: Vec<Vec<u64>> =
        md.chart.iter().map(|row| row.iter().map(|c| c.adj_close).collect()).collect();
    assert_eq!(closes, vec![vec![12, 22], vec![13, 23]]);
    assert_eq!(md.risk_free, vec![43, 44]);
}

#[test]
fn a_risk_free_day_quoted_twice_is_refused() {
    let a = series("A", &["2023-01-02", "2023-01-03"], &[10, 11]);
    let rf = series("^TNX", &["2023-01-02", "2023-01-03", "2023-01-02"], &[40, 41, 42]);
    let r = MarketData::new(&names(&["A"]), &vec![a], &rf, "", "");
    assert_eq!(r.err(), Some(BacktestError::AlignmentInvariantViolation));
}

#[test]
fn a_dropped_day_may_be_quoted_twice() {
    let a = series("A", &["2023-01-01", "2023-01-02", "2023-01-01", "2023-01-03"], &[9, 10, 8, 11]);
    let rf = series("^TNX", &["2023-01-02", "2023-01-03"], &[40, 41]);
    let md = MarketData::new(&names(&["A"]), &vec![a], &rf, "", "").unwrap();
    assert_eq!(md.date, names(&["2023-01-02", "2023-01-03"]));
    assert_eq!(md.chart[0][0].adj_close, 10);
    assert_eq!(md.chart[1][0].adj_close, 11);
}

#[test]
fn only_the_series_that_fill_slots_are_held_to_quote_once() {
    // The second series of A narrows the days and is not looked at again.
    let a = series("A", &["2023-01-02", "2023-01-03"], &[10, 11]);
    let again = series("A", &["2023-01-03", "2023-01-03"], &[31, 32]);
    let rf = series("^TNX", &["2023-01-02", "2023-01-03"], &[40, 41]);
    let md = MarketData::new(&names(&["A", "A"]), &vec![a, again], &rf, "", "").unwrap();
    assert_eq!(md.date, names(&["2023-01-03"]));
    assert_eq!(md.chart[0][0].adj_close, 11);
}

#[test]
fn a_common_day_quoted_twice_is_refused() {
    let a = series("A", &["2023-01-02", "2023-01-02", "2023-01-03"], &[10, 11, 12]);
    let rf = series("^TNX", &["2023-01-02", "2023-01-03"], &[40, 41]);
    let r = MarketData::new(&names(&["A"]), &vec![a], &rf, "", "");
    assert_eq!(r.err(), Some(BacktestError::AlignmentInvariantViolation));
}

#[test]
fn days_that_are_dropped_may_stand_anywhere() {
    let a = series("A", &["2023-01-09", "2023-01-02", "2023-01-01", "2023-01-03"], &[9, 10, 8, 11]);
    let rf = series("^TNX", &["2023-01-02", "2023-01-03"], &[40, 41]);
    let md = MarketData::new(&names(&["A"]), &vec![a], &rf, "", "").unwrap();
    assert_eq!(md.date, names(&["2023-01-02", "2023-01-03"]));
    assert_eq!(md.chart[0][0].adj_close, 10);
    assert_eq!(md.chart[1][0].adj_close, 11);
}

#[test]
fn disjoint_series_align_to_nothing() {
    let a = series("A", &["2023-01-02", "2023-01-03"], &[10, 11]);
    let b = series("B", &["2023-01-04", "2023-01-05"], &[20, 21]);
    let rf = series("^TNX", &["2023-01-06"], &[40]);
    let md = MarketData::new(&names(&["A", "B"]), &vec![a, b], &rf, "", "").unwrap();
    assert!(md.is_empty());
    assert_eq!(md.len(), 0);
    assert!(md.date.is_empty());
    assert!(md.risk_free.is_empty());
    assert_eq!(md.symbols, names(&["A", "B"]));
}

#[test]
fn no_symbols_leave_the_risk_free_days() {
    let rf = series("^TNX", &["2023-01-06", "2023-01-07"], &[40, 41]);
    let md = MarketData::new(&names(&[]), &vec![], &rf, "", "").unwrap();
    assert_eq!(md.date, names(&["2023-01-06", "2023-01-07"]));
    assert_eq!(md.chart, vec![Vec::<Chart>::new(), Vec::<Chart>::new()]);
}

#[test]
fn a_symbol_without_a_series_is_data_unavailable() {
    let a = series("A", &["2023-01-02"], &[10]);
    let rf = series("^TNX", &["2023-01-02"], &[40]);
    let r = MarketData::new(&names(&["A", "B"]), &vec![a], &rf, "", "");
    assert_eq!(r.err(), Some(BacktestError::DataUnavailable));
}

#[test]
fn an_empty_series_is_data_unavailable() {
    let a = series("A", &[], &[]);
    let rf = series("^TNX", &["2023-01-02"], &[40]);
    let r = MarketData::new(&names(&["A"]), &vec![a], &rf, "", "");
    assert_eq!(r.err(), Some(BacktestError::DataUnavailable));
    let a = series("A", &["2023-01-02"], &[10]);
    let rf = series("^TNX", &[], &[]);
    let r = MarketData::new(&names(&["A"]), &vec![a], &rf, "", "");
    assert_eq!(r.err(), Some(BacktestError::DataUnavailable));
}

#[test]
fn a_series_with_unpaired_dates_is_data_unavailable() {
    let a = series("A", &["2023-01-02", "2023-01-03"], &[10]);
    let rf = series("^TNX", &["2023-01-02"], &[40]);
    let r = MarketData::new(&names(&["A"]), &vec![a], &rf, "", "");
    assert_eq!(r.err(), Some(BacktestError::DataUnavailable));
}

#[test]
fn unusable_data_is_reported_first() {
    let a = series("A", &["2023-01-03", "2023-01-03"], &[10, 11]);
    let b = series("B", &[], &[]);
    let rf = series("^TNX", &["2023-01-02", "2023-01-03"], &[40, 41]);
    let r = MarketData::new(&names(&["A", "B"]), &vec![a, b], &rf, "", "");
    assert_eq!(r.err(), Some(BacktestError::DataUnavailable));
}

#[test]
fn a_symbol_named_twice_gets_one_slot() {
    let a = series("A", &["2023-01-02", "2023-01-03"], &[10, 11]);
    let b = series("B", &["2023-01-02", "2023-01-03"], &[20, 21]);
    let again = series("A", &["2023-01-02", "2023-01-03"], &[30, 31]);
    let rf = series("^TNX", &["2023-01-02", "2023-01-03"], &[40, 41]);
    let md = MarketData::new(&names(&["A", "B", "A"]), &vec![a, b, again], &rf, "", "").unwrap();
    assert_eq!(md.symbols, names(&["A", "B"]));
    assert_eq!(md.chart[0].len(), 2);
    assert_eq!(md.chart[0][0].adj_close, 10);
    assert_eq!(md.chart[1][1].adj_close, 21);
}

#[test]
fn every_series_given_narrows_the_days() {
    let a = series("A", &["2023-01-02", "2023-01-03"], &[10, 11]);
    let again = series("A", &["2023-01-03"], &[31]);
    let rf = series("^TNX", &["2023-01-02", "2023-01-03"], &[40, 41]);
    let md = MarketData::new(&names(&["A", "A"]), &vec![a, again], &rf, "", "").unwrap();
    assert_eq!(md.date, names(&["2023-01-03"]));
    assert_eq!(md.chart[0][0].adj_close, 11);
}

#[test]
fn duplicate_keeps_everything() {
    let a = series("A", &["2023-01-02", "2023-01-03"], &[10, 11]);
    let rf = series("^TNX", &["2023-01-02", "2023-01-03"], &[40, 41]);
    let md = MarketData::new(&names(&["A"]), &vec![a], &rf, "f", "t").unwrap();
    let copy = md.duplicate();
    assert_eq!(copy.from, md.from);
    assert_eq!(copy.to, md.to);
    assert_eq!(copy.symbols, md.symbols);
    assert_eq!(copy.date, md.date);
    assert_eq!(copy.chart, md.chart);
    assert_eq!(copy.risk_free, md.risk_free);
}

#[test]
fn common_dates_of_three_series() {
    let a = series("A", &["2023-02-01", "2023-01-31", "2023-01-30"], &[1, 2, 3]);
    let b = series("B", &["2023-01-31", "2023-02-01", "2023-02-02"], &[1, 2, 3]);
    let rf = series("^TNX", &["2023-02-01", "2023-02-01", "2023-01-31"], &[1, 2, 3]);
    assert_eq!(common_dates(&vec![a, b], &rf), names(&["2023-01-31", "2023-02-01"]));
}

#[test]
fn insert_sorted_keeps_the_order_and_adds_nothing_twice() {
    let mut v: Vec<String> = Vec::new();
    for day in ["2023-03-01", "2023-01-01", "2023-02-01", "2023-01-01", "2023-04-01", "2022-12-31"] {
        insert_sorted(&mut v, &day.to_string());
    }
    assert_eq!(v, names(&["2022-12-31", "2023-01-01", "2023-02-01", "2023-03-01", "2023-04-01"]));
}

#[test]
fn holds_date_finds_what_is_there() {
    let v = names(&["2023-01-01", "2023-01-02"]);
    assert!(holds_date(&v, &"2023-01-02".to_string()));
    assert!(!holds_date(&v, &"2023-01-03".to_string()));
    assert!(!holds_date(&Vec::new(), &"2023-01-03".to_string()));
}

#[test]
fn quoted_by_all_wants_every_series() {
    let a = series("A", &["2023-01-02", "2023-01-03"], &[10, 11]);
    let b = series("B", &["2023-01-03"], &[20]);
    let both = vec![a, b];
    assert!(quoted_by_all(&both, &"2023-01-03".to_string()));
    assert!(!quoted_by_all(&both, &"2023-01-02".to_string()));
    assert!(quoted_by_all(&Vec::new(), &"2023-01-02".to_string()));
}

#[test]
fn survivors_are_the_places_of_the_calendar_days() {
    let calendar = names(&["2023-01-02", "2023-01-04"]);
    let dates = names(&["2023-01-01", "2023-01-02", "2023-01-03", "2023-01-04"]);
    assert_eq!(survivors(&dates, &calendar), Some(vec![1, 3]));
    let twice = names(&["2023-01-02", "2023-01-04", "2023-01-04"]);
    assert_eq!(survivors(&twice, &calendar), None);
    let backwards = names(&["2023-01-04", "2023-01-02"]);
    assert_eq!(survivors(&backwards, &calendar), None);
    assert_eq!(survivors(&dates, &Vec::new()), Some(vec![]));
}

#[test]
fn places_are_found_in_any_order() {
    let calendar = names(&["2023-01-02", "2023-01-04"]);
    let dates = names(&["2023-01-01", "2023-01-02", "2023-01-03", "2023-01-04"]);
    assert_eq!(places(&dates, &calendar), Some(vec![1, 3]));
    let backwards = names(&["2023-01-04", "2023-01-03", "2023-01-02"]);
    assert_eq!(places(&backwards, &calendar), Some(vec![2, 0]));
    let twice = names(&["2023-01-04", "2023-01-02", "2023-01-04"]);
    assert_eq!(places(&twice, &calendar), None);
    let twice_in_order = names(&["2023-01-02", "2023-01-04", "2023-01-04"]);
    assert_eq!(places(&twice_in_order, &calendar), None);
    let other_twice = names(&["2023-01-03", "2023-01-04", "2023-01-03", "2023-01-02"]);
    assert_eq!(places(&other_twice, &calendar), Some(vec![3, 1]));
    assert_eq!(places(&dates, &Vec::new()), Some(vec![]));
}

#[test]
fn texts_sort_by_code_point() {
    assert!(sorts_before("2023-01-02", "2023-01-10"));
    assert!(!sorts_before("2023-01-10", "2023-01-02"));
    assert!(!sorts_before("2023-01-02", "2023-01-02"));
    assert!(sorts_before("2023", "2023-01-02"));
    assert!(!sorts_before("2023-01-02", "2023"));
    assert!(sorts_before("", "a"));
    assert!(!sorts_before("", ""));
    assert!(sorts_before("Z", "a"));
    assert!(sorts_before("z", "é"));
    assert!(sorts_before("é", "한"));
}
