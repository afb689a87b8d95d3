//! What holds of every run, stated over the functions that define one.

use vstd::prelude::*;
use crate::align::{is_calendar, is_common};
use crate::market::quotes_a_day_twice;
use crate::api::{Chart, HistoricalChart};
use crate::error::BacktestError;
use crate::fixed::interest;
use crate::ledger::{accrue, lemma_conservation, settle, total_fee, total_value};
use crate::portfolio::PortfolioView;
use crate::report::BacktestReport;
use crate::strategy::{
    closing, opening, opening_shares, BuyAndHold, PeriodicRebalance, RebalanceStrategy, Strategy,
};
use crate::text::{
    lemma_text_lt_asymmetric, lemma_text_lt_irreflexive, lists, strictly_ascending, text_lt,
};
use crate::trade::{day_step, outcome, simulate, trading_day, Trail};

verus! {

/// Two ascending lists that hold the same days agree on their first `n`
/// days.
proof fn lemma_same_days_same_prefix(a: Seq<String>, b: Seq<String>, n: int)
    requires
        strictly_ascending(a),
        strictly_ascending(b),
        forall|t: Seq<char>| lists(a, t) <==> lists(b, t),
        0 <= n <= a.len(),
        n <= b.len(),
    ensures
        forall|i: int| 0 <= i < n ==> (#[trigger] a[i])@ == b[i]@,
    decreases n,
{
    if n > 0 {
        lemma_same_days_same_prefix(a, b, n - 1);
        let i = n - 1;
        assert(lists(a, a[i]@));
        let m = choose|m: int| 0 <= m < b.len() && #[trigger] b[m]@ == a[i]@;
        assert(lists(b, b[i]@));
        let k = choose|k: int| 0 <= k < a.len() && #[trigger] a[k]@ == b[i]@;
        if m < i {
            assert(a[m]@ == b[m]@);
            assert(text_lt(a[m]@, a[i]@));
            lemma_text_lt_irreflexive(a[i]@);
        }
        if k < i {
            assert(a[k]@ == b[k]@);
            assert(text_lt(b[k]@, b[i]@));
            lemma_text_lt_irreflexive(b[i]@);
        }
        if m > i {
            assert(text_lt(b[i]@, b[m]@));
            if k > i {
                assert(text_lt(a[i]@, a[k]@));
                lemma_text_lt_asymmetric(a[i]@, a[k]@);
            } else {
                lemma_text_lt_irreflexive(a[i]@);
            }
        }
    }
}

/// The calendar is determined by the series: two lists that both are the
/// calendar of the same series read the same, day for day.
pub proof fn lemma_calendar_is_unique(
    a: Seq<String>,
    b: Seq<String>,
    histories: Seq<HistoricalChart>,
    risk_free: HistoricalChart,
)
    requires
        is_calendar(a, histories, risk_free),
        is_calendar(b, histories, risk_free),
    ensures
        a.len() == b.len(),
        forall|i: int| 0 <= i < a.len() ==> (#[trigger] a[i])@ == b[i]@,
{
    assert forall|t: Seq<char>| lists(a, t) <==> lists(b, t) by {
        assert(lists(a, t) <==> is_common(histories, risk_free, t));
        assert(lists(b, t) <==> is_common(histories, risk_free, t));
    }
    let n = if a.len() <= b.len() {
        a.len() as int
    } else {
        b.len() as int
    };
    lemma_same_days_same_prefix(a, b, n);
    if a.len() < b.len() {
        assert(lists(b, b[n]@));
        let k = choose|k: int| 0 <= k < a.len() && #[trigger] a[k]@ == b[n]@;
        assert(a[k]@ == b[k]@);
        assert(text_lt(b[k]@, b[n]@));
        lemma_text_lt_irreflexive(b[n]@);
    }
    if b.len() < a.len() {
        assert(lists(a, a[n]@));
        let k = choose|k: int| 0 <= k < b.len() && #[trigger] b[k]@ == a[n]@;
        assert(a[k]@ == b[k]@);
        assert(text_lt(a[k]@, a[n]@));
        lemma_text_lt_irreflexive(a[n]@);
    }
}

/// A series that quotes no common day twice quotes one bar only for each
/// common day: the bar that the aligned data hold for it is the only one
/// that they can hold.
pub proof fn lemma_one_bar_a_day(
    series: HistoricalChart,
    histories: Seq<HistoricalChart>,
    risk_free: HistoricalChart,
    t: Seq<char>,
    a: Chart,
    b: Chart,
)
    requires
        !quotes_a_day_twice(series.date@, histories, risk_free),
        is_common(histories, risk_free, t),
        series.quotes(t, a),
        series.quotes(t, b),
    ensures
        a == b,
{
    let p = choose|p: int|
        0 <= p < series.date.len() && p < series.chart.len() && #[trigger] series.date[p]@ == t
            && series.chart[p] == a;
    let q = choose|q: int|
        0 <= q < series.date.len() && q < series.chart.len() && #[trigger] series.date[q]@ == t
            && series.chart[q] == b;
    if p < q {
        assert(series.date@[p]@ == series.date@[q]@);
    }
    if q < p {
        assert(series.date@[q]@ == series.date@[p]@);
    }
}

/// The dates of the `k`-th series that is aligned: those of `histories`
/// first, then the risk-free series.
pub open spec fn dates_of(
    histories: Seq<HistoricalChart>,
    risk_free: HistoricalChart,
    k: int,
) -> Seq<String> {
    if 0 <= k < histories.len() {
        histories[k].date@
    } else {
        risk_free.date@
    }
}

/// Where two of the series share no day, no day is common to all, and the
/// calendar is empty.
pub proof fn lemma_disjoint_series_leave_no_day(
    calendar: Seq<String>,
    histories: Seq<HistoricalChart>,
    risk_free: HistoricalChart,
    a: int,
    b: int,
)
    requires
        is_calendar(calendar, histories, risk_free),
        0 <= a <= histories.len(),
        0 <= b <= histories.len(),
        forall|t: Seq<char>|
            !(lists(dates_of(histories, risk_free, a), t) && lists(
                dates_of(histories, risk_free, b),
                t,
            )),
    ensures
        calendar.len() == 0,
{
    if calendar.len() > 0 {
        let t = calendar[0]@;
        assert(lists(calendar, t));
        assert(is_common(histories, risk_free, t));
        if a < histories.len() {
            assert(lists(histories[a].date@, t));
        }
        if b < histories.len() {
            assert(lists(histories[b].date@, t));
        }
        assert(lists(dates_of(histories, risk_free, a), t));
        assert(lists(dates_of(histories, risk_free, b), t));
    }
}

/// A run over a market without days succeeds, trades nothing and records
/// nothing.
pub proof fn lemma_empty_market_runs_to_nothing<S: Strategy>(
    strategy: S,
    portfolio: PortfolioView,
    sessions: Seq<Seq<Chart>>,
    rate: int,
    fee: int,
)
    requires
        sessions.len() == 0,
    ensures
        outcome(strategy, portfolio, sessions, rate, fee) == Ok::<Trail<S>, BacktestError>(
            Trail { strategy, portfolio, values: Seq::empty(), balances: Seq::empty() },
        ),
{
}

/// A simulation keeps the symbols and the number of slots, and records one
/// value and one balance for each day.
pub proof fn lemma_simulation_records_every_day<S: Strategy>(
    strategy: S,
    portfolio: PortfolioView,
    sessions: Seq<Seq<Chart>>,
    rate: int,
    fee: int,
    days: nat,
)
    requires
        simulate(strategy, portfolio, sessions, rate, fee, days) is Ok,
    ensures
        simulate(strategy, portfolio, sessions, rate, fee, days)->Ok_0.portfolio.shares.len()
            == portfolio.shares.len(),
        simulate(strategy, portfolio, sessions, rate, fee, days)->Ok_0.portfolio.symbols
            == portfolio.symbols,
        simulate(strategy, portfolio, sessions, rate, fee, days)->Ok_0.values.len() == days,
        simulate(strategy, portfolio, sessions, rate, fee, days)->Ok_0.balances.len() == days,
        forall|i: int|
            0 <= i < days ==> (#[trigger] simulate(
                strategy,
                portfolio,
                sessions,
                rate,
                fee,
                days,
            )->Ok_0.values[i]) > 0,
    decreases days,
{
    if days > 0 {
        lemma_simulation_records_every_day(
            strategy,
            portfolio,
            sessions,
            rate,
            fee,
            (days - 1) as nat,
        );
    }
}

/// A buy-and-hold strategy keeps its weights and its rule through a
/// simulation.
pub proof fn lemma_buy_and_hold_keeps_its_rule<R: RebalanceStrategy>(
    strategy: BuyAndHold<R>,
    portfolio: PortfolioView,
    sessions: Seq<Seq<Chart>>,
    rate: int,
    fee: int,
    days: nat,
)
    requires
        simulate(strategy, portfolio, sessions, rate, fee, days) is Ok,
    ensures
        simulate(strategy, portfolio, sessions, rate, fee, days)->Ok_0.strategy.weight
            == strategy.weight,
        simulate(strategy, portfolio, sessions, rate, fee, days)->Ok_0.strategy.rebalance_strategy
            == strategy.rebalance_strategy,
    decreases days,
{
    if days > 0 {
        lemma_buy_and_hold_keeps_its_rule(strategy, portfolio, sessions, rate, fee, (days - 1) as nat);
    }
}

/// Every rebalance of a buy-and-hold strategy takes two days. On a day on
/// which the rule fires, coming into which the strategy holds its
/// positions, everything is sold: at the end of that day no share is held.
/// On the day after, every symbol is bought again: each slot then holds the
/// whole shares that its target weight's part of the cash, as the first day
/// left it, buys at the second day's price.
pub proof fn lemma_rebalance_takes_two_days<R: RebalanceStrategy>(
    strategy: BuyAndHold<R>,
    portfolio: PortfolioView,
    sessions: Seq<Seq<Chart>>,
    rate: int,
    fee: int,
    d: nat,
)
    requires
        1 <= d,
        d + 1 <= sessions.len(),
        d + 1 <= usize::MAX,
        portfolio.symbols.len() == portfolio.shares.len(),
        simulate(strategy, portfolio, sessions, rate, fee, (d - 1) as nat) is Ok,
        simulate(strategy, portfolio, sessions, rate, fee, (d - 1) as nat)->Ok_0.strategy.bought,
        strategy.rebalance_strategy.decision(
            d as usize,
            sessions[d - 1],
            simulate(strategy, portfolio, sessions, rate, fee, (d - 1) as nat)->Ok_0.portfolio,
        ) == Ok::<bool, BacktestError>(true),
        simulate(strategy, portfolio, sessions, rate, fee, d + 1) is Ok,
    ensures
        simulate(strategy, portfolio, sessions, rate, fee, d) is Ok,
        ({
            let sold = simulate(strategy, portfolio, sessions, rate, fee, d)->Ok_0;
            let rebought = simulate(strategy, portfolio, sessions, rate, fee, d + 1)->Ok_0;
            &&& !sold.strategy.bought
            &&& sold.portfolio.shares.len() == portfolio.shares.len()
            &&& forall|i: int|
                0 <= i < sold.portfolio.shares.len() ==> (#[trigger] sold.portfolio.shares[i]) == 0
            &&& rebought.strategy.bought
            &&& rebought.portfolio.shares.len() == portfolio.shares.len()
            &&& forall|i: int|
                0 <= i < rebought.portfolio.shares.len() ==> (#[trigger] rebought.portfolio.shares[i])
                    == opening_shares(strategy.weight, sessions[d as int], sold.portfolio, i)
        }),
{
    let before = simulate(strategy, portfolio, sessions, rate, fee, (d - 1) as nat)->Ok_0;
    lemma_simulation_records_every_day(strategy, portfolio, sessions, rate, fee, (d - 1) as nat);
    lemma_buy_and_hold_keeps_its_rule(strategy, portfolio, sessions, rate, fee, (d - 1) as nat);
    let first = simulate(strategy, portfolio, sessions, rate, fee, d);
    assert(first == day_step(before, sessions[d - 1], d as usize, rate, fee));
    let second = simulate(strategy, portfolio, sessions, rate, fee, d + 1);
    assert(first is Ok);
    let sold = first->Ok_0;
    assert(second == day_step(sold, sessions[d as int], (d + 1) as usize, rate, fee));
    // The first day: the rule fires and everything is sold.
    let today = sessions[d - 1];
    let sales = closing(before.portfolio)->Ok_0;
    let traded = settle(before.portfolio, today, sales, fee)->Ok_0;
    let grown = accrue(traded, rate)->Ok_0;
    assert(sold.portfolio == grown);
    assert forall|i: int| 0 <= i < sold.portfolio.shares.len() implies (
    #[trigger] sold.portfolio.shares[i]) == 0 by {
        assert(traded.shares[i] == before.portfolio.shares[i] + sales[i]);
    }
    // The second day: not holding, so the positions are opened again.
    let tomorrow = sessions[d as int];
    let buys = opening(strategy.weight, tomorrow, sold.portfolio)->Ok_0;
    let bought = settle(sold.portfolio, tomorrow, buys, fee)->Ok_0;
    let rebought = second->Ok_0;
    assert(rebought.portfolio == accrue(bought, rate)->Ok_0);
    assert forall|i: int| 0 <= i < rebought.portfolio.shares.len() implies (
    #[trigger] rebought.portfolio.shares[i]) == opening_shares(
        strategy.weight,
        tomorrow,
        sold.portfolio,
        i,
    ) by {
        assert(bought.shares[i] == sold.portfolio.shares[i] + buys[i]);
    }
}

/// With a periodic rule, every day whose index is a multiple of the period
/// and into which the strategy comes holding its positions starts such a
/// rebalance: nothing is held at its end, and the day after holds the
/// target positions again.
pub proof fn lemma_periodic_rebalance_takes_two_days(
    strategy: BuyAndHold<PeriodicRebalance>,
    portfolio: PortfolioView,
    sessions: Seq<Seq<Chart>>,
    rate: int,
    fee: int,
    d: nat,
)
    requires
        1 <= d,
        d + 1 <= sessions.len(),
        d + 1 <= usize::MAX,
        portfolio.symbols.len() == portfolio.shares.len(),
        simulate(strategy, portfolio, sessions, rate, fee, (d - 1) as nat) is Ok,
        simulate(strategy, portfolio, sessions, rate, fee, (d - 1) as nat)->Ok_0.strategy.bought,
        strategy.rebalance_strategy.period > 0,
        d % (strategy.rebalance_strategy.period as nat) == 0,
        simulate(strategy, portfolio, sessions, rate, fee, d + 1) is Ok,
    ensures
        simulate(strategy, portfolio, sessions, rate, fee, d) is Ok,
        ({
            let sold = simulate(strategy, portfolio, sessions, rate, fee, d)->Ok_0;
            let rebought = simulate(strategy, portfolio, sessions, rate, fee, d + 1)->Ok_0;
            &&& !sold.strategy.bought
            &&& sold.portfolio.shares.len() == portfolio.shares.len()
            &&& forall|i: int|
                0 <= i < sold.portfolio.shares.len() ==> (#[trigger] sold.portfolio.shares[i]) == 0
            &&& rebought.strategy.bought
            &&& rebought.portfolio.shares.len() == portfolio.shares.len()
            &&& forall|i: int|
                0 <= i < rebought.portfolio.shares.len() ==> (#[trigger] rebought.portfolio.shares[i])
                    == opening_shares(strategy.weight, sessions[d as int], sold.portfolio, i)
        }),
{
    lemma_rebalance_takes_two_days(strategy, portfolio, sessions, rate, fee, d);
}

/// What a day of trading leaves is what it found, valued at the day's
/// prices, less the fees on the day's orders, and the day's interest on the
/// cash that the orders left.
pub proof fn lemma_trading_day_accounts<S: Strategy>(
    strategy: S,
    portfolio: PortfolioView,
    charts: Seq<Chart>,
    day: usize,
    rate: int,
    fee: int,
)
    requires
        trading_day(strategy, portfolio, charts, day, rate, fee) is Ok,
    ensures
        ({
            let qty = strategy.orders(day, charts, portfolio)->Ok_0;
            let traded = settle(portfolio, charts, qty, fee)->Ok_0;
            let value = trading_day(strategy, portfolio, charts, day, rate, fee)->Ok_0.1;
            value == total_value(portfolio, charts) - total_fee(
                qty,
                charts,
                fee,
                portfolio.shares.len() as int,
            ) + interest(traded.balance, rate)
        }),
{
    let qty = strategy.orders(day, charts, portfolio)->Ok_0;
    lemma_conservation(portfolio, charts, qty, fee);
}

/// The cumulative return compounds the daily returns: on the first day it
/// is one and the day's return, and on every later day that of the day
/// before times one and the day's return.
pub proof fn lemma_cumulative_return_compounds(report: BacktestReport, i: int)
    requires
        report.wf(),
        0 <= i < report.value_history.len(),
    ensures
        i == 0 ==> report.cumulative_return(0).num * report.daily_return(0).den == (
        report.daily_return(0).den + report.daily_return(0).num) * report.cumulative_return(0).den,
        i > 0 ==> report.cumulative_return(i).num * (report.cumulative_return(i - 1).den
            * report.daily_return(i).den) == (report.cumulative_return(i - 1).num * (
        report.daily_return(i).den + report.daily_return(i).num)) * report.cumulative_return(i).den,
{
    let v = report.value_history[i] as int;
    let start = report.initial_value as int;
    if i == 0 {
        assert(report.daily_return(0).den == start);
        assert(report.daily_return(0).num == v - start);
    } else {
        let u = report.value_history[i - 1] as int;
        assert(report.value_history[i] > 0 && report.value_history[i - 1] > 0);
        assert(report.daily_return(i).den == u);
        assert(report.daily_return(i).num == v - u);
        assert(v * (start * u) == (u * (u + (v - u))) * start) by (nonlinear_arith);
    }
}

} // verus!
