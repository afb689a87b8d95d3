//! The backtester: a strategy run day by day against aligned market data.

use vstd::prelude::*;
use crate::api::{Chart, HistoricalChart};
use crate::error::BacktestError;
use crate::ledger::{accrue, names_match, quantities, settle, valuation};
use crate::market::{all_quote_once, inputs_usable};
use crate::strategy::{days_before, Strategy};
use crate::symbols::{is_absent, is_slot_of};

pub use crate::market::MarketData;
pub use crate::report::{amounts, BacktestReport, Ratio};
pub use crate::portfolio::{Order, Portfolio, PortfolioView};

verus! {

/// A strategy, the portfolio it trades, the market it trades in, the daily
/// interest rate on cash and the fee rate on trades, both in billionths.
pub struct Backtester<S: Strategy> {
    pub portfolio: Portfolio,
    pub strategy: S,
    pub market_data: MarketData,
    pub interest_rate: u64,
    pub sec_fee: u64,
}

/// Where a simulation stands: the strategy, the portfolio, and the value
/// and the cash balance recorded at the end of each day so far.
pub struct Trail<S> {
    pub strategy: S,
    pub portfolio: PortfolioView,
    pub values: Seq<int>,
    pub balances: Seq<int>,
}

/// One day of trading, the `day`-th: the strategy's orders are executed at
/// the day's prices, the cash earns a day of interest, and the portfolio is
/// valued at the same prices. What comes out is the portfolio at the end of
/// the day and its value, which has to be positive.
pub open spec fn trading_day<S: Strategy>(
    strategy: S,
    portfolio: PortfolioView,
    charts: Seq<Chart>,
    day: usize,
    rate: int,
    fee: int,
) -> Result<(PortfolioView, int), BacktestError> {
    match strategy.orders(day, charts, portfolio) {
        Err(e) => Err(e),
        Ok(qty) => match settle(portfolio, charts, qty, fee) {
            Err(e) => Err(e),
            Ok(traded) => match accrue(traded, rate) {
                Err(e) => Err(e),
                Ok(grown) => match valuation(grown, charts) {
                    Err(e) => Err(e),
                    Ok(value) => if value <= 0 {
                        Err(BacktestError::DegeneratePortfolioValue { day: days_before(day) })
                    } else {
                        Ok((grown, value))
                    },
                },
            },
        },
    }
}

/// One simulated day: a day of trading, recorded. A day that fails is not
/// recorded.
pub open spec fn day_step<S: Strategy>(
    trail: Trail<S>,
    charts: Seq<Chart>,
    day: usize,
    rate: int,
    fee: int,
) -> Result<Trail<S>, BacktestError> {
    match trading_day(trail.strategy, trail.portfolio, charts, day, rate, fee) {
        Err(e) => Err(e),
        Ok((grown, value)) => Ok(
            Trail {
                strategy: trail.strategy.next(day, charts, trail.portfolio),
                portfolio: grown,
                values: trail.values.push(value),
                balances: trail.balances.push(grown.balance),
            },
        ),
    }
}

/// The run stops on the day `k`: the days before it succeed and it fails.
/// It leaves the portfolio as the day before left it, and the strategy as
/// the failing day's orders left it.
pub open spec fn stops_on<S: Strategy>(
    strategy: S,
    portfolio: PortfolioView,
    sessions: Seq<Seq<Chart>>,
    rate: int,
    fee: int,
    k: nat,
    left: PortfolioView,
    after: S,
) -> bool {
    &&& 1 <= k <= sessions.len()
    &&& simulate(strategy, portfolio, sessions, rate, fee, k) is Err
    &&& simulate(strategy, portfolio, sessions, rate, fee, (k - 1) as nat) matches Ok(trail)
        && left == trail.portfolio && after == trail.strategy.next(
        k as usize,
        sessions[k - 1],
        trail.portfolio,
    )
}

/// The first `days` days of a simulation, one after the other, up to the
/// first that fails.
pub open spec fn simulate<S: Strategy>(
    strategy: S,
    portfolio: PortfolioView,
    sessions: Seq<Seq<Chart>>,
    rate: int,
    fee: int,
    days: nat,
) -> Result<Trail<S>, BacktestError>
    decreases days,
{
    if days == 0 {
        Ok(Trail { strategy, portfolio, values: Seq::empty(), balances: Seq::empty() })
    } else {
        match simulate(strategy, portfolio, sessions, rate, fee, (days - 1) as nat) {
            Err(e) => Err(e),
            Ok(trail) => day_step(trail, sessions[days - 1], days as usize, rate, fee),
        }
    }
}

/// A simulation that has failed stays failed, with the same error.
pub proof fn lemma_failure_is_final<S: Strategy>(
    strategy: S,
    portfolio: PortfolioView,
    sessions: Seq<Seq<Chart>>,
    rate: int,
    fee: int,
    k: nat,
    m: nat,
)
    requires
        k <= m,
        simulate(strategy, portfolio, sessions, rate, fee, k) is Err,
    ensures
        simulate(strategy, portfolio, sessions, rate, fee, m) == simulate(
            strategy,
            portfolio,
            sessions,
            rate,
            fee,
            k,
        ),
    decreases m,
{
    if k < m {
        lemma_failure_is_final(strategy, portfolio, sessions, rate, fee, k, (m - 1) as nat);
    }
}

/// What the portfolio is worth before the first day's trading, at the
/// first day's prices. It has to be positive.
pub open spec fn opening_value(portfolio: PortfolioView, sessions: Seq<Seq<Chart>>) -> Result<
    int,
    BacktestError,
> {
    match valuation(portfolio, sessions[0]) {
        Err(e) => Err(e),
        Ok(value) => if value <= 0 {
            Err(BacktestError::DegeneratePortfolioValue { day: 0 })
        } else {
            Ok(value)
        },
    }
}

/// A whole run: nothing on an empty market; else the opening value, then
/// every day in turn.
pub open spec fn outcome<S: Strategy>(
    strategy: S,
    portfolio: PortfolioView,
    sessions: Seq<Seq<Chart>>,
    rate: int,
    fee: int,
) -> Result<Trail<S>, BacktestError> {
    if sessions.len() == 0 {
        simulate(strategy, portfolio, sessions, rate, fee, 0)
    } else {
        match opening_value(portfolio, sessions) {
            Err(e) => Err(e),
            Ok(_) => simulate(strategy, portfolio, sessions, rate, fee, sessions.len()),
        }
    }
}

impl<S: Strategy> Backtester<S> {
    /// The parts fit each other: the portfolio has the market's symbols,
    /// slot for slot.
    pub open spec fn wf(&self) -> bool {
        &&& self.portfolio.wf()
        &&& self.market_data.wf()
        &&& self.strategy.wf()
        &&& self.portfolio.symbols.len() == self.market_data.symbols.len()
        &&& forall|j: int|
            0 <= j < self.portfolio.symbols.len() ==> (#[trigger] self.portfolio.symbols[j])@
                == self.market_data.symbols[j]@
    }

    /// A backtester for `symbols`, whose series are given in `histories`
    /// one for one, starting from `init_balance` in cash and no shares.
    pub fn new(
        symbols: &Vec<String>,
        init_balance: i64,
        strategy: S,
        histories: &Vec<HistoricalChart>,
        risk_free: &HistoricalChart,
        from: &str,
        to: &str,
        interest_rate: u64,
        sec_fee: u64,
    ) -> (r: Result<Self, BacktestError>)
        requires
            strategy.wf(),
        ensures
            r is Ok <==> inputs_usable(symbols@, histories@, *risk_free) && all_quote_once(
                symbols@,
                histories@,
                *risk_free,
            ),
            r matches Err(e) ==> e == (if inputs_usable(symbols@, histories@, *risk_free) {
                BacktestError::AlignmentInvariantViolation
            } else {
                BacktestError::DataUnavailable
            }),
            r matches Ok(bt) ==> {
                &&& bt.wf()
                &&& bt.market_data.from@ == from@
                &&& bt.market_data.to@ == to@
                &&& bt.market_data.aligns(symbols@, histories@, *risk_free)
                &&& bt.strategy == strategy
                &&& bt.interest_rate == interest_rate
                &&& bt.sec_fee == sec_fee
                &&& bt.portfolio.balance == init_balance
                &&& forall|j: int|
                    0 <= j < bt.portfolio.shares.len() ==> (#[trigger] bt.portfolio.shares[j]) == 0
            },
    {
        let market_data = MarketData::new(symbols, histories, risk_free, from, to)?;
        let portfolio = Portfolio::new(init_balance, symbols);
        Ok(Backtester { portfolio, strategy, market_data, interest_rate, sec_fee })
    }

    /// One day of trading, the `day`-th, all of it or nothing: where the
    /// day fails the portfolio is left as it was.
    fn trade_day(&mut self, day: usize) -> (r: Result<i64, BacktestError>)
        requires
            old(self).wf(),
            1 <= day <= old(self).market_data.chart.len(),
        ensures
            final(self).wf(),
            final(self).market_data == old(self).market_data,
            final(self).interest_rate == old(self).interest_rate,
            final(self).sec_fee == old(self).sec_fee,
            final(self).portfolio.symbols == old(self).portfolio.symbols,
            final(self).strategy == old(self).strategy.next(
                day,
                old(self).market_data.chart[day - 1]@,
                old(self).portfolio@,
            ),
            r matches Ok(value) ==> trading_day(
                old(self).strategy,
                old(self).portfolio@,
                old(self).market_data.chart[day - 1]@,
                day,
                old(self).interest_rate as int,
                old(self).sec_fee as int,
            ) == Ok::<(PortfolioView, int), BacktestError>((final(self).portfolio@, value as int)),
            r matches Err(e) ==> final(self).portfolio@ == old(self).portfolio@ && trading_day(
                old(self).strategy,
                old(self).portfolio@,
                old(self).market_data.chart[day - 1]@,
                day,
                old(self).interest_rate as int,
                old(self).sec_fee as int,
            ) == Err::<(PortfolioView, int), BacktestError>(e),
    {
        let charts = &self.market_data.chart[day - 1];
        let orders = self.strategy.gen_order_map(day, charts, &self.portfolio)?;
        let balance: i64 = self.portfolio.balance;
        let shares = copy_counts(&self.portfolio.shares);
        self.portfolio.execute(charts, &orders, self.sec_fee)?;
        let done = match self.portfolio.accrue(self.interest_rate) {
            Err(e) => Err(e),
            Ok(()) => match self.portfolio.value(charts) {
                Err(e) => Err(e),
                Ok(value) => if value <= 0 {
                    Err(BacktestError::DegeneratePortfolioValue { day: day - 1 })
                } else {
                    Ok(value)
                },
            },
        };
        if done.is_err() {
            self.portfolio.balance = balance;
            self.portfolio.shares = shares;
            assert(self.portfolio@.shares =~= old(self).portfolio@.shares);
        }
        done
    }

    /// Runs the strategy over every day of the market data, in order, and
    /// reports what each day left. `rolling_window` is handed on to the
    /// report for the statistics that are taken over a trailing window.
    ///
    /// The run stops at the first day that fails, or before the first day
    /// where the portfolio is worth nothing to start from.
    pub fn run(&mut self, rolling_window: usize) -> (r: Result<BacktestReport, BacktestError>)
        requires
            old(self).wf(),
        ensures
            final(self).wf(),
            final(self).market_data == old(self).market_data,
            final(self).interest_rate == old(self).interest_rate,
            final(self).sec_fee == old(self).sec_fee,
            final(self).portfolio.symbols == old(self).portfolio.symbols,
            r matches Err(e) ==> {
                &&& outcome(
                    old(self).strategy,
                    old(self).portfolio@,
                    old(self).market_data.sessions(),
                    old(self).interest_rate as int,
                    old(self).sec_fee as int,
                ) == Err::<Trail<S>, BacktestError>(e)
                &&& if opening_value(old(self).portfolio@, old(self).market_data.sessions()) is Err {
                    final(self).portfolio@ == old(self).portfolio@ && final(self).strategy == old(
                        self,
                    ).strategy
                } else {
                    exists|k: nat|
                        stops_on(
                            old(self).strategy,
                            old(self).portfolio@,
                            old(self).market_data.sessions(),
                            old(self).interest_rate as int,
                            old(self).sec_fee as int,
                            k,
                            final(self).portfolio@,
                            final(self).strategy,
                        )
                }
            },
            old(self).market_data.chart.len() == 0 ==> r is Ok,
            r matches Ok(report) ==> {
                &&& outcome(
                    old(self).strategy,
                    old(self).portfolio@,
                    old(self).market_data.sessions(),
                    old(self).interest_rate as int,
                    old(self).sec_fee as int,
                ) == Ok::<Trail<S>, BacktestError>(
                    Trail {
                        strategy: final(self).strategy,
                        portfolio: final(self).portfolio@,
                        values: amounts(report.value_history@),
                        balances: amounts(report.balance_history@),
                    },
                )
                &&& report.wf()
                &&& report.portfolio@ == final(self).portfolio@
                &&& report.strategy@ == final(self).strategy.name()
                &&& report.market_data.from@ == old(self).market_data.from@
                &&& report.market_data.to@ == old(self).market_data.to@
                &&& report.market_data.date@ == old(self).market_data.date@
                &&& report.market_data.risk_free@ == old(self).market_data.risk_free@
                &&& report.market_data.symbols@ == old(self).market_data.symbols@
                &&& report.market_data.sessions() == old(self).market_data.sessions()
                &&& report.rolling_window == rolling_window
                &&& report.value_history.len() > 0 ==> opening_value(
                    old(self).portfolio@,
                    old(self).market_data.sessions(),
                ) == Ok::<int, BacktestError>(report.initial_value as int)
                &&& report.value_history.len() == 0 ==> report.initial_value == 0
            },
    {
        let n: usize = self.market_data.len();
        let ghost sessions = self.market_data.sessions();
        let ghost rate = self.interest_rate as int;
        let ghost fee = self.sec_fee as int;
        let mut values: Vec<i64> = Vec::new();
        let mut balances: Vec<i64> = Vec::new();
        let mut initial_value: i64 = 0;
        if n > 0 {
            let first = &self.market_data.chart[0];
            assert(first@ == sessions[0]);
            let value = self.portfolio.value(first)?;
            if value <= 0 {
                return Err(BacktestError::DegeneratePortfolioValue { day: 0 });
            }
            initial_value = value;
        }
        proof {
            assert(amounts(values@) =~= Seq::<int>::empty());
            assert(amounts(balances@) =~= Seq::<int>::empty());
        }
        let mut done: usize = 0;
        while done < n
            invariant
                done <= n,
                n == self.market_data.chart.len(),
                self.wf(),
                self.market_data == old(self).market_data,
                self.interest_rate == old(self).interest_rate,
                self.sec_fee == old(self).sec_fee,
                self.portfolio.symbols == old(self).portfolio.symbols,
                sessions == self.market_data.sessions(),
                rate == self.interest_rate as int,
                fee == self.sec_fee as int,
                values.len() == done,
                balances.len() == done,
                forall|i: int| 0 <= i < values.len() ==> (#[trigger] values[i]) > 0,
                n > 0 ==> opening_value(old(self).portfolio@, sessions) == Ok::<int, BacktestError>(
                    initial_value as int,
                ),
                n == 0 ==> initial_value == 0,
                simulate(old(self).strategy, old(self).portfolio@, sessions, rate, fee, done as nat)
                    == Ok::<Trail<S>, BacktestError>(
                    Trail {
                        strategy: self.strategy,
                        portfolio: self.portfolio@,
                        values: amounts(values@),
                        balances: amounts(balances@),
                    },
                ),
            decreases n - done,
        {
            let day: usize = done + 1;
            let ghost before = Trail {
                strategy: self.strategy,
                portfolio: self.portfolio@,
                values: amounts(values@),
                balances: amounts(balances@),
            };
            proof {
                let start = old(self).strategy;
                let held = old(self).portfolio@;
                assert(self.market_data.chart[done as int]@ == sessions[done as int]);
                assert(simulate(start, held, sessions, rate, fee, day as nat) == day_step(
                    before,
                    sessions[done as int],
                    day,
                    rate,
                    fee,
                ));
                if simulate(start, held, sessions, rate, fee, day as nat) is Err {
                    lemma_failure_is_final(start, held, sessions, rate, fee, day as nat, n as nat);
                }
            }
            let value = match self.trade_day(day) {
                Ok(value) => value,
                Err(e) => {
                    proof {
                        assert(stops_on(
                            old(self).strategy,
                            old(self).portfolio@,
                            sessions,
                            rate,
                            fee,
                            day as nat,
                            self.portfolio@,
                            self.strategy,
                        ));
                    }
                    return Err(e);
                },
            };
            values.push(value);
            balances.push(self.portfolio.balance);
            proof {
                assert(amounts(values@) =~= before.values.push(value as int));
                assert(amounts(balances@) =~= before.balances.push(self.portfolio.balance as int));
            }
            done = done + 1;
        }
        let report = BacktestReport {
            portfolio: self.portfolio.duplicate(),
            strategy: self.strategy.to_string(),
            market_data: self.market_data.duplicate(),
            initial_value,
            value_history: values,
            balance_history: balances,
            rolling_window,
        };
        Ok(report)
    }
}

/// A list that holds the counts of `v`, in order.
fn copy_counts(v: &Vec<u64>) -> (r: Vec<u64>)
    ensures
        r@ == v@,
{
    let mut r: Vec<u64> = Vec::new();
    let mut i: usize = 0;
    while i < v.len()
        invariant
            i <= v.len(),
            r@ == v@.take(i as int),
        decreases v.len() - i,
    {
        r.push(v[i]);
        proof {
            assert(v@.take(i as int + 1) =~= v@.take(i as int).push(v@[i as int]));
        }
        i = i + 1;
    }
    proof {
        assert(v@.take(i as int) =~= v@);
    }
    r
}

impl<S: Strategy> Backtester<S> {
    pub fn get_symbols(&self) -> (r: Vec<String>)
        ensures
            r.len() == self.portfolio.symbols.len(),
            forall|j: int| 0 <= j < r.len() ==> (#[trigger] r[j])@ == self.portfolio.symbols[j]@,
    {
        self.portfolio.get_symbols()
    }

    pub fn get_balance(&self) -> (r: i64)
        ensures
            r == self.portfolio.balance,
    {
        self.portfolio.balance
    }

    /// The shares held of `symbol`, if the portfolio has a slot for it.
    pub fn get_share(&self, symbol: &str) -> (r: Option<u64>)
        requires
            self.portfolio.wf(),
        ensures
            r matches Some(held) ==> exists|slot: int|
                is_slot_of(self.portfolio.symbols@, symbol@, slot) && held
                    == self.portfolio.shares[slot],
            r is None ==> is_absent(self.portfolio.symbols@, symbol@),
    {
        self.portfolio.get_share(symbol)
    }

    /// The share count of `symbol`, to be changed in place, if the
    /// portfolio has a slot for it.
    pub fn get_share_mut(&mut self, symbol: &str) -> (r: Option<&mut u64>)
        requires
            old(self).wf(),
        ensures
            final(self).strategy == old(self).strategy,
            final(self).market_data == old(self).market_data,
            final(self).interest_rate == old(self).interest_rate,
            final(self).sec_fee == old(self).sec_fee,
            final(self).portfolio.symbols == old(self).portfolio.symbols,
            final(self).portfolio.balance == old(self).portfolio.balance,
            r is None ==> is_absent(old(self).portfolio.symbols@, symbol@)
                && final(self).portfolio.shares == old(self).portfolio.shares,
            r matches Some(held) ==> exists|slot: int|
                is_slot_of(old(self).portfolio.symbols@, symbol@, slot)
                    && *held == old(self).portfolio.shares[slot]
                    && final(self).portfolio.shares@ == old(self).portfolio.shares@.update(
                    slot,
                    *final(held),
                ),
    {
        match crate::symbols::find_slot(&self.portfolio.symbols, symbol) {
            Some(slot) => Some(&mut self.portfolio.shares[slot]),
            None => None,
        }
    }

    /// Sets the shares held of `symbol`, where the portfolio has a slot for
    /// it, and says whether it has.
    pub fn update_share(&mut self, symbol: &str, share: u64) -> (r: bool)
        requires
            old(self).wf(),
        ensures
            final(self).wf(),
            final(self).strategy == old(self).strategy,
            final(self).market_data == old(self).market_data,
            final(self).interest_rate == old(self).interest_rate,
            final(self).sec_fee == old(self).sec_fee,
            final(self).portfolio.balance == old(self).portfolio.balance,
            final(self).portfolio.symbols == old(self).portfolio.symbols,
            !r ==> is_absent(old(self).portfolio.symbols@, symbol@) && final(self).portfolio.shares
                == old(self).portfolio.shares,
            r ==> exists|slot: int|
                is_slot_of(old(self).portfolio.symbols@, symbol@, slot)
                    && final(self).portfolio.shares@ == old(self).portfolio.shares@.update(
                    slot,
                    share,
                ),
    {
        match crate::symbols::find_slot(&self.portfolio.symbols, symbol) {
            Some(slot) => {
                self.portfolio.shares.set(slot, share);
                true
            },
            None => false,
        }
    }

    pub fn update_balance(&mut self, balance: i64)
        ensures
            final(self).portfolio.balance == balance,
            final(self).portfolio.symbols == old(self).portfolio.symbols,
            final(self).portfolio.shares == old(self).portfolio.shares,
            final(self).strategy == old(self).strategy,
            final(self).market_data == old(self).market_data,
            final(self).interest_rate == old(self).interest_rate,
            final(self).sec_fee == old(self).sec_fee,
    {
        self.portfolio.balance = balance;
    }

    /// The bars of the day `timestamp`, the first day being day 1.
    pub fn get_chart(&self, timestamp: usize) -> (r: &Vec<Chart>)
        requires
            1 <= timestamp <= self.market_data.chart.len(),
        ensures
            r == self.market_data.chart[timestamp - 1],
    {
        &self.market_data.chart[timestamp - 1]
    }

    pub fn get_risk_free(&self) -> (r: &Vec<u64>)
        ensures
            r == self.market_data.risk_free,
    {
        &self.market_data.risk_free
    }

    pub fn get_interest_rate(&self) -> (r: u64)
        ensures
            r == self.interest_rate,
    {
        self.interest_rate
    }

    /// Executes `order`, one order for each slot and under its symbol, at
    /// the adjusted closes of the day `timestamp`, all of it or nothing.
    pub fn execute_order(&mut self, order: &Vec<Order>, timestamp: usize) -> (r: Result<
        (),
        BacktestError,
    >)
        requires
            old(self).wf(),
            1 <= timestamp <= old(self).market_data.chart.len(),
        ensures
            final(self).wf(),
            final(self).strategy == old(self).strategy,
            final(self).market_data == old(self).market_data,
            final(self).interest_rate == old(self).interest_rate,
            final(self).sec_fee == old(self).sec_fee,
            final(self).portfolio.symbols == old(self).portfolio.symbols,
            r is Err ==> final(self).portfolio == old(self).portfolio,
            !names_match(old(self).portfolio.symbols@, order@) ==> r == Err::<(), BacktestError>(
                BacktestError::SymbolMismatch,
            ),
            names_match(old(self).portfolio.symbols@, order@) && r is Ok ==> settle(
                old(self).portfolio@,
                old(self).market_data.chart[timestamp - 1]@,
                quantities(order@),
                old(self).sec_fee as int,
            ) == Ok::<PortfolioView, BacktestError>(final(self).portfolio@),
            names_match(old(self).portfolio.symbols@, order@) ==> (r matches Err(e) ==> settle(
                old(self).portfolio@,
                old(self).market_data.chart[timestamp - 1]@,
                quantities(order@),
                old(self).sec_fee as int,
            ) == Err::<PortfolioView, BacktestError>(e)),
    {
        let charts = &self.market_data.chart[timestamp - 1];
        self.portfolio.execute(charts, order, self.sec_fee)
    }

    /// What the portfolio is worth at the adjusted closes of the day
    /// `timestamp`.
    pub fn obtain_value(&self, timestamp: usize) -> (r: Result<i64, BacktestError>)
        requires
            self.wf(),
            1 <= timestamp <= self.market_data.chart.len(),
        ensures
            r matches Ok(v) ==> valuation(self.portfolio@, self.market_data.chart[timestamp - 1]@)
                == Ok::<int, BacktestError>(v as int),
            r matches Err(e) ==> valuation(self.portfolio@, self.market_data.chart[timestamp - 1]@)
                == Err::<int, BacktestError>(e),
    {
        self.portfolio.value(&self.market_data.chart[timestamp - 1])
    }
}

} // verus!
