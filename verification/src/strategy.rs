//! Strategies: what to trade on a day, and when to rebalance.

use vstd::prelude::*;
use crate::api::Chart;
use crate::error::BacktestError;
use crate::fixed::{magnitude, shares_for, target_shares, MONEY_MAX, SCALE};
use crate::ledger::{
    holdings_value, lemma_holdings_value_grows, names_match, quantities, valuation,
};
use crate::portfolio::{Order, Portfolio, PortfolioView};
use crate::weights::{lemma_total_of, lemma_total_of_grows, targets_of, Weights};

verus! {

/// The number of days before the day `timestamp`, the first being day 1.
pub open spec fn days_before(timestamp: usize) -> usize {
    if timestamp > 0 {
        (timestamp - 1) as usize
    } else {
        0
    }
}

/// Decides, from the day and the state of the portfolio, whether a
/// rebalance is due.
pub trait RebalanceStrategy: Sized {
    /// The rule is fit for use.
    spec fn wf(&self) -> bool;

    /// What `should_rebalance` answers, as a function of what it is given.
    spec fn decision(&self, timestamp: usize, charts: Seq<Chart>, portfolio: PortfolioView) -> Result<
        bool,
        BacktestError,
    >;

    fn should_rebalance(&self, timestamp: usize, chart_map: &Vec<Chart>, portfolio: &Portfolio) -> (r:
        Result<bool, BacktestError>)
        requires
            self.wf(),
            portfolio.wf(),
            chart_map.len() == portfolio.symbols.len(),
        ensures
            r == self.decision(timestamp, chart_map@, portfolio@),
    ;
}

/// Rebalances on every day whose index is a multiple of `period`.
#[derive(Debug, Clone, Copy, PartialEq, Eq, Structural)]
pub struct PeriodicRebalance {
    pub period: usize,
}

impl PeriodicRebalance {
    pub fn new(period: usize) -> (r: PeriodicRebalance)
        ensures
            r.period == period,
    {
        PeriodicRebalance { period }
    }
}

impl RebalanceStrategy for PeriodicRebalance {
    open spec fn wf(&self) -> bool {
        true
    }

    /// A rebalance is due on the multiples of the period. A period of zero
    /// has none.
    open spec fn decision(&self, timestamp: usize, charts: Seq<Chart>, portfolio: PortfolioView) -> Result<
        bool,
        BacktestError,
    > {
        if self.period == 0 {
            Err(BacktestError::InvalidPeriod)
        } else {
            Ok(timestamp as int % self.period as int == 0)
        }
    }

    fn should_rebalance(&self, timestamp: usize, chart_map: &Vec<Chart>, portfolio: &Portfolio) -> (r:
        Result<bool, BacktestError>) {
        if self.period == 0 {
            Err(BacktestError::InvalidPeriod)
        } else {
            Ok(timestamp % self.period == 0)
        }
    }
}

/// Rebalances when the portfolio's weights have drifted from their targets
/// by more than `threshold` percentage points in all, the cash counted as one
/// more position whose target is what the symbols' targets leave of the whole.
///
/// `threshold` is in billionths of a percentage point.
#[derive(Debug, Clone)]
pub struct ThresholdRebalance {
    pub threshold: u64,
    pub initial_weight: Weights,
}

/// How far the first `n` positions are from their targets, each distance
/// taken as a part of the whole and multiplied by `total * SCALE`.
pub open spec fn drift(
    table: Weights,
    charts: Seq<Chart>,
    portfolio: PortfolioView,
    total: int,
    n: int,
) -> int
    decreases n,
{
    if n <= 0 {
        0
    } else {
        drift(table, charts, portfolio, total, n - 1) + magnitude(
            portfolio.shares[n - 1] * charts[n - 1].adj_close * SCALE - table.weight_of(
                portfolio.symbols[n - 1]@,
            )->Some_0 * total,
        )
    }
}

/// How far positions and cash are from their targets, in the same measure.
pub open spec fn deviation(
    table: Weights,
    charts: Seq<Chart>,
    portfolio: PortfolioView,
    total: int,
) -> int {
    let n = portfolio.shares.len() as int;
    drift(table, charts, portfolio, total, n) + magnitude(
        portfolio.balance * SCALE - (SCALE - table.total_of(portfolio.symbols, n)) * total,
    )
}

impl ThresholdRebalance {
    /// A rule with a copy of the target weights, which together may not
    /// be more than the whole.
    pub fn new(threshold: u64, initial_weight: &Weights) -> (r: Result<
        ThresholdRebalance,
        BacktestError,
    >)
        requires
            initial_weight.wf(),
        ensures
            r is Ok <==> initial_weight.sum() <= SCALE,
            r matches Err(e) ==> e == BacktestError::InvalidWeights,
            r matches Ok(rule) ==> {
                &&& rule.threshold == threshold
                &&& rule.initial_weight.symbols@ == initial_weight.symbols@
                &&& rule.initial_weight.weights@ == initial_weight.weights@
                &&& rule.wf()
            },
    {
        if !initial_weight.within(SCALE) {
            return Err(BacktestError::InvalidWeights);
        }
        Ok(ThresholdRebalance { threshold, initial_weight: initial_weight.duplicate() })
    }

    /// The target weight of `symbol`, if one is held.
    pub fn get_initial_weight(&self, symbol: &str) -> (r: Option<u64>)
        requires
            self.wf(),
        ensures
            r == self.initial_weight.weight_of(symbol@),
    {
        self.initial_weight.get(symbol)
    }
}

impl RebalanceStrategy for ThresholdRebalance {
    open spec fn wf(&self) -> bool {
        self.initial_weight.wf()
    }

    /// A rebalance is due when the deviation, in percentage points, is
    /// strictly above the threshold.
    open spec fn decision(&self, timestamp: usize, charts: Seq<Chart>, portfolio: PortfolioView) -> Result<
        bool,
        BacktestError,
    > {
        let n = portfolio.shares.len() as int;
        if self.initial_weight.misses(portfolio.symbols) {
            Err(BacktestError::MissingWeight)
        } else if self.initial_weight.total_of(portfolio.symbols, n) > SCALE {
            Err(BacktestError::InvalidWeights)
        } else {
            match valuation(portfolio, charts) {
                Err(e) => Err(e),
                Ok(total) => if total <= 0 {
                    Err(BacktestError::DegeneratePortfolioValue { day: days_before(timestamp) })
                } else {
                    Ok(
                        100 * deviation(self.initial_weight, charts, portfolio, total)
                            > self.threshold * total,
                    )
                },
            }
        }
    }

    fn should_rebalance(&self, timestamp: usize, chart_map: &Vec<Chart>, portfolio: &Portfolio) -> (r:
        Result<bool, BacktestError>) {
        let n: usize = portfolio.symbols.len();
        let ghost names = portfolio.symbols@;
        let ghost view = portfolio@;
        let targets = match targets_of(&self.initial_weight, &portfolio.symbols) {
            Some(targets) => targets,
            None => {
                return Err(BacktestError::MissingWeight);
            },
        };
        let mut whole: u128 = 0;
        let mut i: usize = 0;
        while i < n
            invariant
                i <= n,
                n == names.len(),
                names == portfolio.symbols@,
                targets.len() == n,
                forall|j: int|
                    0 <= j < n ==> self.initial_weight.weight_of(names[j]@) == Some(
                        #[trigger] targets[j],
                    ),
                !self.initial_weight.misses(names),
                n == portfolio.shares.len(),
                whole == self.initial_weight.total_of(names, i as int),
                whole <= SCALE,
            decreases n - i,
        {
            proof {
                lemma_total_of(self.initial_weight, names, targets@, i as int + 1);
            }
            if whole + (targets[i] as u128) > SCALE as u128 {
                proof {
                    lemma_total_of_grows(self.initial_weight, names, i as int + 1, n as int);
                }
                return Err(BacktestError::InvalidWeights);
            }
            whole = whole + (targets[i] as u128);
            i = i + 1;
        }
        let total: i64 = match portfolio.value(chart_map) {
            Ok(total) => total,
            Err(e) => {
                return Err(e);
            },
        };
        if total <= 0 {
            let day: usize = if timestamp > 0 {
                timestamp - 1
            } else {
                0
            };
            return Err(BacktestError::DegeneratePortfolioValue { day });
        }
        let ghost held = holdings_value(view.shares, chart_map@, n as int);
        proof {
            lemma_holdings_value_grows(view.shares, chart_map@, 0, n as int);
        }
        let mut moved: u128 = 0;
        let mut i: usize = 0;
        while i < n
            invariant
                i <= n,
                n == names.len(),
                n == chart_map.len(),
                n == portfolio.shares.len(),
                names == portfolio.symbols@,
                view == portfolio@,
                targets.len() == n,
                forall|j: int|
                    0 <= j < n ==> self.initial_weight.weight_of(names[j]@) == Some(
                        #[trigger] targets[j],
                    ),
                self.initial_weight.total_of(names, n as int) <= SCALE,
                0 < total <= MONEY_MAX,
                held == holdings_value(view.shares, chart_map@, n as int),
                0 <= held <= MONEY_MAX,
                moved == drift(self.initial_weight, chart_map@, view, total as int, i as int),
                moved <= SCALE * holdings_value(view.shares, chart_map@, i as int) + total
                    * self.initial_weight.total_of(names, i as int),
            decreases n - i,
        {
            let count: u64 = portfolio.shares[i];
            let price: u64 = chart_map[i].adj_close;
            let target: u64 = targets[i];
            proof {
                lemma_total_of(self.initial_weight, names, targets@, i as int + 1);
                lemma_total_of_grows(self.initial_weight, names, i as int + 1, n as int);
                lemma_holdings_value_grows(view.shares, chart_map@, i as int, i as int + 1);
                lemma_holdings_value_grows(view.shares, chart_map@, i as int + 1, n as int);
                assert(view.shares[i as int] == count);
                assert(count * price <= MONEY_MAX);
            }
            let worth: u128 = (count as u128) * (price as u128);
            assert(worth * SCALE <= 0x7fff_ffff_ffff_ffff * 1_000_000_000) by (nonlinear_arith)
                requires
                    0 <= worth <= 0x7fff_ffff_ffff_ffff,
                    SCALE == 1_000_000_000,
            ;
            assert(target * total <= 1_000_000_000 * 0x7fff_ffff_ffff_ffff) by (nonlinear_arith)
                requires
                    0 <= target <= 1_000_000_000,
                    0 < total <= 0x7fff_ffff_ffff_ffff,
            ;
            assert(target * total >= 0) by (nonlinear_arith)
                requires
                    0 <= target,
                    0 < total,
            ;
            let have: u128 = worth * (SCALE as u128);
            let want: u128 = (target as u128) * (total as u128);
            let gap: u128 = if have >= want {
                have - want
            } else {
                want - have
            };
            proof {
                let hv0 = holdings_value(view.shares, chart_map@, i as int);
                let hv1 = holdings_value(view.shares, chart_map@, i as int + 1);
                let t0 = self.initial_weight.total_of(names, i as int);
                let t1 = self.initial_weight.total_of(names, i as int + 1);
                assert(hv1 == hv0 + worth);
                assert(t1 == t0 + target);
                assert(SCALE * hv1 == SCALE * hv0 + worth * SCALE) by (nonlinear_arith)
                    requires
                        hv1 == hv0 + worth,
                ;
                assert(total * t1 == total * t0 + target * total) by (nonlinear_arith)
                    requires
                        t1 == t0 + target,
                ;
                assert(SCALE * hv1 <= 1_000_000_000 * 0x7fff_ffff_ffff_ffff) by (nonlinear_arith)
                    requires
                        0 <= hv1 <= 0x7fff_ffff_ffff_ffff,
                        SCALE == 1_000_000_000,
                ;
                assert(total * t1 <= 0x7fff_ffff_ffff_ffff * 1_000_000_000) by (nonlinear_arith)
                    requires
                        0 <= t1 <= 1_000_000_000,
                        0 < total <= 0x7fff_ffff_ffff_ffff,
                ;
                assert(view.shares[i as int] * chart_map@[i as int].adj_close * SCALE == have)
                    by (nonlinear_arith)
                    requires
                        view.shares[i as int] == count,
                        chart_map@[i as int].adj_close == price,
                        have == count * price * SCALE,
                ;
            }
            moved = moved + gap;
            i = i + 1;
        }
        let cash: i128 = (portfolio.balance as i128) * (SCALE as i128);
        assert(-0x8000_0000_0000_0000 * 1_000_000_000 <= portfolio.balance * SCALE
            <= 0x7fff_ffff_ffff_ffff * 1_000_000_000) by (nonlinear_arith)
            requires
                -0x8000_0000_0000_0000 <= portfolio.balance <= 0x7fff_ffff_ffff_ffff,
                SCALE == 1_000_000_000,
        ;
        let spare: u128 = (SCALE as u128) - whole;
        assert(0 <= spare * total <= 1_000_000_000 * 0x7fff_ffff_ffff_ffff) by (nonlinear_arith)
            requires
                0 <= spare <= 1_000_000_000,
                0 < total <= 0x7fff_ffff_ffff_ffff,
        ;
        let meant: i128 = (spare as i128) * (total as i128);
        let apart: i128 = if cash >= meant {
            cash - meant
        } else {
            meant - cash
        };
        proof {
            let hv = holdings_value(view.shares, chart_map@, n as int);
            let t = self.initial_weight.total_of(names, n as int);
            assert(SCALE * hv <= 1_000_000_000 * 0x7fff_ffff_ffff_ffff) by (nonlinear_arith)
                requires
                    0 <= hv <= 0x7fff_ffff_ffff_ffff,
                    SCALE == 1_000_000_000,
            ;
            assert(total * t <= 0x7fff_ffff_ffff_ffff * 1_000_000_000) by (nonlinear_arith)
                requires
                    0 <= t <= 1_000_000_000,
                    0 < total <= 0x7fff_ffff_ffff_ffff,
            ;
            assert(self.threshold * total <= 0xffff_ffff_ffff_ffff * 0x7fff_ffff_ffff_ffff)
                by (nonlinear_arith)
                requires
                    0 <= self.threshold <= 0xffff_ffff_ffff_ffff,
                    0 < total <= 0x7fff_ffff_ffff_ffff,
            ;
            assert(self.threshold * total >= 0) by (nonlinear_arith)
                requires
                    0 <= self.threshold,
                    0 < total,
            ;
        }
        let off: u128 = 100 * (moved + (apart as u128));
        let bar: u128 = (self.threshold as u128) * (total as u128);
        Ok(off > bar)
    }
}

/// Turns a day's prices and the portfolio into one order for each slot.
pub trait Strategy: Sized {
    /// The strategy is fit for use.
    spec fn wf(&self) -> bool;

    /// The share deltas that `gen_order_map` orders, slot by slot, as a
    /// function of the strategy's state and of what it is given.
    spec fn orders(&self, timestamp: usize, charts: Seq<Chart>, portfolio: PortfolioView) -> Result<
        Seq<int>,
        BacktestError,
    >;

    /// The strategy's state after `gen_order_map`.
    spec fn next(&self, timestamp: usize, charts: Seq<Chart>, portfolio: PortfolioView) -> Self;

    fn gen_order_map(&mut self, timestamp: usize, chart_map: &Vec<Chart>, portfolio: &Portfolio) -> (r:
        Result<Vec<Order>, BacktestError>)
        requires
            old(self).wf(),
            portfolio.wf(),
            chart_map.len() == portfolio.symbols.len(),
        ensures
            final(self).wf(),
            *final(self) == old(self).next(timestamp, chart_map@, portfolio@),
            r matches Ok(list) ==> names_match(portfolio.symbols@, list@) && old(self).orders(
                timestamp,
                chart_map@,
                portfolio@,
            ) == Ok::<Seq<int>, BacktestError>(quantities(list@)),
            r matches Err(e) ==> old(self).orders(timestamp, chart_map@, portfolio@) == Err::<
                Seq<int>,
                BacktestError,
            >(e),
    ;

    /// The name under which the strategy is reported.
    spec fn name(&self) -> Seq<char>;

    fn to_string(&self) -> (name: String)
        ensures
            name@ == self.name(),
    ;
}

/// Buys the target weights' worth of every symbol and holds it until the
/// rebalance rule fires; then sells everything, to buy again on the day after.
pub struct BuyAndHold<R: RebalanceStrategy> {
    pub weight: Weights,
    pub rebalance_strategy: R,
    pub bought: bool,
}

/// `q` is a share delta that an order can carry.
pub open spec fn fits_order(q: int) -> bool {
    i64::MIN <= q <= i64::MAX
}

/// Some symbol trades at a price of zero.
pub open spec fn unpriced(charts: Seq<Chart>, n: int) -> bool {
    exists|i: int| 0 <= i < n && (#[trigger] charts[i]).adj_close == 0
}

/// The shares to buy of the symbol in slot `i`: what its target weight's
/// part of the cash buys at the day's adjusted close, whole shares only.
pub open spec fn opening_shares(
    table: Weights,
    charts: Seq<Chart>,
    portfolio: PortfolioView,
    i: int,
) -> int {
    target_shares(
        portfolio.balance,
        table.weight_of(portfolio.symbols[i]@)->Some_0 as int,
        charts[i].adj_close as int,
    )
}

/// The orders that open the positions, one for each slot.
pub open spec fn opening(table: Weights, charts: Seq<Chart>, portfolio: PortfolioView) -> Result<
    Seq<int>,
    BacktestError,
> {
    let n = portfolio.shares.len() as int;
    if table.misses(portfolio.symbols) {
        Err(BacktestError::MissingWeight)
    } else if unpriced(charts, n) {
        Err(BacktestError::ZeroPrice)
    } else if exists|i: int|
        0 <= i < n && !fits_order(#[trigger] opening_shares(table, charts, portfolio, i)) {
        Err(BacktestError::Overflow)
    } else {
        Ok(Seq::new(n as nat, |i: int| opening_shares(table, charts, portfolio, i)))
    }
}

/// The orders that sell everything held, one for each slot.
pub open spec fn closing(portfolio: PortfolioView) -> Result<Seq<int>, BacktestError> {
    if exists|i: int| 0 <= i < portfolio.shares.len() && !fits_order(-(#[trigger] portfolio.shares[i])) {
        Err(BacktestError::Overflow)
    } else {
        Ok(Seq::new(portfolio.shares.len(), |i: int| -portfolio.shares[i]))
    }
}

/// The orders that trade nothing, one for each slot.
pub open spec fn idle(portfolio: PortfolioView) -> Seq<int> {
    Seq::new(portfolio.shares.len(), |i: int| 0int)
}

impl<R: RebalanceStrategy> BuyAndHold<R> {
    pub fn new(weight: Weights, rebalance_strategy: R) -> (r: BuyAndHold<R>)
        ensures
            r.weight == weight,
            r.rebalance_strategy == rebalance_strategy,
            !r.bought,
    {
        BuyAndHold { weight, rebalance_strategy, bought: false }
    }

    /// The target weight of `symbol`, if one is held.
    pub fn get_weight(&self, symbol: &str) -> (r: Option<u64>)
        requires
            self.weight.wf(),
        ensures
            r == self.weight.weight_of(symbol@),
    {
        self.weight.get(symbol)
    }

    fn open_positions(&self, chart_map: &Vec<Chart>, portfolio: &Portfolio) -> (r: Result<
        Vec<Order>,
        BacktestError,
    >)
        requires
            self.weight.wf(),
            portfolio.wf(),
            chart_map.len() == portfolio.symbols.len(),
        ensures
            r matches Ok(list) ==> names_match(portfolio.symbols@, list@) && opening(
                self.weight,
                chart_map@,
                portfolio@,
            ) == Ok::<Seq<int>, BacktestError>(quantities(list@)),
            r matches Err(e) ==> opening(self.weight, chart_map@, portfolio@) == Err::<
                Seq<int>,
                BacktestError,
            >(e),
    {
        let n: usize = portfolio.symbols.len();
        let ghost view = portfolio@;
        let targets = match targets_of(&self.weight, &portfolio.symbols) {
            Some(targets) => targets,
            None => {
                return Err(BacktestError::MissingWeight);
            },
        };
        let mut i: usize = 0;
        while i < n
            invariant
                i <= n,
                n == chart_map.len(),
                n == portfolio.shares.len(),
                view == portfolio@,
                !self.weight.misses(view.symbols),
                forall|j: int| 0 <= j < i ==> (#[trigger] chart_map[j]).adj_close != 0,
            decreases n - i,
        {
            if chart_map[i].adj_close == 0 {
                return Err(BacktestError::ZeroPrice);
            }
            i = i + 1;
        }
        let mut list: Vec<Order> = Vec::new();
        let mut i: usize = 0;
        while i < n
            invariant
                i <= n,
                n == chart_map.len(),
                n == portfolio.symbols.len(),
                n == portfolio.shares.len(),
                view == portfolio@,
                targets.len() == n,
                !self.weight.misses(view.symbols),
                !unpriced(chart_map@, n as int),
                forall|j: int|
                    0 <= j < n ==> self.weight.weight_of(portfolio.symbols[j]@) == Some(
                        #[trigger] targets[j],
                    ),
                list.len() == i,
                forall|j: int| 0 <= j < i ==> (#[trigger] list[j]).symbol@ == portfolio.symbols[j]@,
                forall|j: int|
                    0 <= j < i ==> (#[trigger] list[j]).shares as int == opening_shares(
                        self.weight,
                        chart_map@,
                        view,
                        j,
                    ),
            decreases n - i,
        {
            let price: u64 = chart_map[i].adj_close;
            assert(price != 0) by {
                if chart_map@[i as int].adj_close == 0 {
                    assert(unpriced(chart_map@, n as int));
                }
            }
            let wanted: i128 = shares_for(portfolio.balance, targets[i], price);
            assert(wanted == opening_shares(self.weight, chart_map@, view, i as int));
            if wanted > i64::MAX as i128 || wanted < i64::MIN as i128 {
                return Err(BacktestError::Overflow);
            }
            list.push(Order::new(portfolio.symbols[i].as_str(), wanted as i64));
            i = i + 1;
        }
        proof {
            let want = Seq::new(n as nat, |i: int| opening_shares(self.weight, chart_map@, view, i));
            assert(quantities(list@) =~= want);
            assert forall|j: int| 0 <= j < n implies fits_order(
                #[trigger] opening_shares(self.weight, chart_map@, view, j),
            ) by {
                assert(list[j].shares as int == opening_shares(self.weight, chart_map@, view, j));
            }
        }
        Ok(list)
    }
}

fn close_positions(portfolio: &Portfolio) -> (r: Result<Vec<Order>, BacktestError>)
    requires
        portfolio.wf(),
    ensures
        r matches Ok(list) ==> names_match(portfolio.symbols@, list@) && closing(portfolio@) == Ok::<
            Seq<int>,
            BacktestError,
        >(quantities(list@)),
        r matches Err(e) ==> closing(portfolio@) == Err::<Seq<int>, BacktestError>(e),
{
    let n: usize = portfolio.symbols.len();
    let ghost view = portfolio@;
    let mut list: Vec<Order> = Vec::new();
    let mut i: usize = 0;
    while i < n
        invariant
            i <= n,
            n == portfolio.symbols.len(),
            n == portfolio.shares.len(),
            view == portfolio@,
            list.len() == i,
            forall|j: int| 0 <= j < i ==> (#[trigger] list[j]).symbol@ == portfolio.symbols[j]@,
            forall|j: int| 0 <= j < i ==> (#[trigger] list[j]).shares as int == -view.shares[j],
        decreases n - i,
    {
        let held: u64 = portfolio.shares[i];
        assert(view.shares[i as int] == held);
        let sold: i128 = -(held as i128);
        if sold < i64::MIN as i128 {
            assert(!fits_order(-view.shares[i as int]));
            return Err(BacktestError::Overflow);
        }
        list.push(Order::new(portfolio.symbols[i].as_str(), sold as i64));
        i = i + 1;
    }
    proof {
        assert(quantities(list@) =~= Seq::new(view.shares.len(), |i: int| -view.shares[i]));
        assert forall|j: int| 0 <= j < view.shares.len() implies fits_order(
            -(#[trigger] view.shares[j]),
        ) by {
            assert(list[j].shares as int == -view.shares[j]);
        }
    }
    Ok(list)
}

fn no_trades(portfolio: &Portfolio) -> (list: Vec<Order>)
    requires
        portfolio.wf(),
    ensures
        names_match(portfolio.symbols@, list@),
        quantities(list@) == idle(portfolio@),
{
    let n: usize = portfolio.symbols.len();
    let mut list: Vec<Order> = Vec::new();
    let mut i: usize = 0;
    while i < n
        invariant
            i <= n,
            n == portfolio.symbols.len(),
            list.len() == i,
            forall|j: int| 0 <= j < i ==> (#[trigger] list[j]).symbol@ == portfolio.symbols[j]@,
            forall|j: int| 0 <= j < i ==> (#[trigger] list[j]).shares == 0,
        decreases n - i,
    {
        list.push(Order::new(portfolio.symbols[i].as_str(), 0));
        i = i + 1;
    }
    assert(quantities(list@) =~= idle(portfolio@));
    list
}

impl<R: RebalanceStrategy> Strategy for BuyAndHold<R> {
    open spec fn wf(&self) -> bool {
        self.weight.wf() && self.rebalance_strategy.wf()
    }

    /// Not holding: the opening orders. Holding: the closing orders on a
    /// day on which the rebalance rule fires, and no trade on any other.
    open spec fn orders(&self, timestamp: usize, charts: Seq<Chart>, portfolio: PortfolioView) -> Result<
        Seq<int>,
        BacktestError,
    > {
        if !self.bought {
            opening(self.weight, charts, portfolio)
        } else {
            match self.rebalance_strategy.decision(timestamp, charts, portfolio) {
                Err(e) => Err(e),
                Ok(true) => closing(portfolio),
                Ok(false) => Ok(idle(portfolio)),
            }
        }
    }

    /// Opening leads to holding and closing to not holding. Nothing
    /// changes where no orders come out, or none that trade.
    open spec fn next(&self, timestamp: usize, charts: Seq<Chart>, portfolio: PortfolioView) -> Self {
        if self.orders(timestamp, charts, portfolio) is Err {
            *self
        } else if !self.bought {
            BuyAndHold { weight: self.weight, rebalance_strategy: self.rebalance_strategy, bought: true }
        } else if self.rebalance_strategy.decision(timestamp, charts, portfolio) == Ok::<
            bool,
            BacktestError,
        >(true) {
            BuyAndHold { weight: self.weight, rebalance_strategy: self.rebalance_strategy, bought: false }
        } else {
            *self
        }
    }

    fn gen_order_map(&mut self, timestamp: usize, chart_map: &Vec<Chart>, portfolio: &Portfolio) -> (r:
        Result<Vec<Order>, BacktestError>) {
        if !self.bought {
            let list = self.open_positions(chart_map, portfolio)?;
            self.bought = true;
            Ok(list)
        } else {
            let due = self.rebalance_strategy.should_rebalance(timestamp, chart_map, portfolio)?;
            if due {
                let list = close_positions(portfolio)?;
                self.bought = false;
                Ok(list)
            } else {
                Ok(no_trades(portfolio))
            }
        }
    }

    open spec fn name(&self) -> Seq<char> {
        "BnH"@
    }

    fn to_string(&self) -> (name: String) {
        "BnH".to_owned()
    }
}

} // verus!
