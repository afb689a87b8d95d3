//! What a day of trading does to a portfolio: valuation, the settling of
//! orders and the accrual of interest, each as a function on portfolios.

use vstd::prelude::*;
use crate::api::Chart;
use crate::error::BacktestError;
use crate::fixed::{
    cost_of, interest, interest_on, is_money, magnitude, trade_cost, trade_fee, MONEY_MAX, SCALE,
};
use crate::portfolio::{Order, Portfolio, PortfolioView};

verus! {

/// What the first `n` slots hold is worth, at the adjusted close of each.
pub open spec fn holdings_value(shares: Seq<int>, charts: Seq<Chart>, n: int) -> int
    decreases n,
{
    if n <= 0 {
        0
    } else {
        holdings_value(shares, charts, n - 1) + shares[n - 1] * charts[n - 1].adj_close
    }
}

/// Cash and holdings together.
pub open spec fn total_value(p: PortfolioView, charts: Seq<Chart>) -> int {
    p.balance + holdings_value(p.shares, charts, p.shares.len() as int)
}

/// The amount traded by the first `n` orders: price times the number of
/// shares bought or sold.
pub open spec fn traded_amount(qty: Seq<int>, charts: Seq<Chart>, n: int) -> int
    decreases n,
{
    if n <= 0 {
        0
    } else {
        traded_amount(qty, charts, n - 1) + charts[n - 1].adj_close * magnitude(qty[n - 1])
    }
}

/// What the first `n` orders take from the cash balance.
pub open spec fn total_cost(qty: Seq<int>, charts: Seq<Chart>, fee: int, n: int) -> int
    decreases n,
{
    if n <= 0 {
        0
    } else {
        total_cost(qty, charts, fee, n - 1) + trade_cost(
            charts[n - 1].adj_close as int,
            qty[n - 1],
            fee,
        )
    }
}

/// The fees in what the first `n` orders take from the cash balance.
pub open spec fn total_fee(qty: Seq<int>, charts: Seq<Chart>, fee: int, n: int) -> int
    decreases n,
{
    if n <= 0 {
        0
    } else {
        total_fee(qty, charts, fee, n - 1) + trade_fee(charts[n - 1].adj_close as int, qty[n - 1], fee)
    }
}

/// The share deltas of `orders`, slot by slot.
pub open spec fn quantities(orders: Seq<Order>) -> Seq<int> {
    Seq::new(orders.len(), |i: int| orders[i].shares as int)
}

/// `orders` holds one order for each slot, under the slot's symbol.
pub open spec fn names_match(symbols: Seq<String>, orders: Seq<Order>) -> bool {
    &&& orders.len() == symbols.len()
    &&& forall|i: int| 0 <= i < orders.len() ==> (#[trigger] orders[i]).symbol@ == symbols[i]@
}

/// Some order sells more than its slot holds.
pub open spec fn oversold(shares: Seq<int>, qty: Seq<int>) -> bool {
    exists|i: int| 0 <= i < shares.len() && #[trigger] shares[i] + qty[i] < 0
}

/// Some slot would hold more shares than the engine counts.
pub open spec fn overfull(shares: Seq<int>, qty: Seq<int>) -> bool {
    exists|i: int| 0 <= i < shares.len() && #[trigger] shares[i] + qty[i] > u64::MAX
}

/// The value of a portfolio, where its holdings and the total are money
/// that the engine keeps.
pub open spec fn valuation(p: PortfolioView, charts: Seq<Chart>) -> Result<int, BacktestError> {
    if holdings_value(p.shares, charts, p.shares.len() as int) > MONEY_MAX || !is_money(
        total_value(p, charts),
    ) {
        Err(BacktestError::Overflow)
    } else {
        Ok(total_value(p, charts))
    }
}

/// The portfolio after the orders `qty`, one for each slot, are executed at
/// the day's adjusted closes: each slot gains its order's shares, and the
/// cash balance loses the cost of them all.
pub open spec fn settle(p: PortfolioView, charts: Seq<Chart>, qty: Seq<int>, fee: int) -> Result<
    PortfolioView,
    BacktestError,
> {
    let n = p.shares.len() as int;
    if oversold(p.shares, qty) {
        Err(BacktestError::InsufficientShares)
    } else if overfull(p.shares, qty) || traded_amount(qty, charts, n) > MONEY_MAX || !is_money(
        p.balance - total_cost(qty, charts, fee, n),
    ) {
        Err(BacktestError::Overflow)
    } else {
        Ok(
            PortfolioView {
                balance: p.balance - total_cost(qty, charts, fee, n),
                symbols: p.symbols,
                shares: Seq::new(p.shares.len(), |i: int| p.shares[i] + qty[i]),
            },
        )
    }
}

/// The portfolio after one day of interest on its cash.
pub open spec fn accrue(p: PortfolioView, rate: int) -> Result<PortfolioView, BacktestError> {
    let balance = p.balance + interest(p.balance, rate);
    if is_money(balance) {
        Ok(PortfolioView { balance, symbols: p.symbols, shares: p.shares })
    } else {
        Err(BacktestError::Overflow)
    }
}

/// The traded amount never shrinks as orders are added.
pub proof fn lemma_traded_amount_grows(qty: Seq<int>, charts: Seq<Chart>, m: int, n: int)
    requires
        0 <= m <= n,
    ensures
        0 <= traded_amount(qty, charts, m) <= traded_amount(qty, charts, n),
    decreases n,
{
    if n > 0 {
        assert(charts[n - 1].adj_close * magnitude(qty[n - 1]) >= 0) by (nonlinear_arith)
            requires
                charts[n - 1].adj_close >= 0,
                magnitude(qty[n - 1]) >= 0,
        ;
        if m < n {
            lemma_traded_amount_grows(qty, charts, m, n - 1);
        } else {
            lemma_traded_amount_grows(qty, charts, m - 1, n - 1);
        }
    }
}

/// Executing orders moves value between cash and holdings and loses the
/// fees, nothing else: the portfolio is then worth what it was worth
/// before, at the same prices, less the fees.
pub proof fn lemma_conservation(p: PortfolioView, charts: Seq<Chart>, qty: Seq<int>, fee: int)
    requires
        settle(p, charts, qty, fee) is Ok,
    ensures
        total_value(settle(p, charts, qty, fee)->Ok_0, charts) == total_value(p, charts) - total_fee(
            qty,
            charts,
            fee,
            p.shares.len() as int,
        ),
{
    let after = settle(p, charts, qty, fee)->Ok_0;
    lemma_settled_value(p.shares, after.shares, charts, qty, fee, p.shares.len() as int);
}

proof fn lemma_settled_value(
    before: Seq<int>,
    after: Seq<int>,
    charts: Seq<Chart>,
    qty: Seq<int>,
    fee: int,
    n: int,
)
    requires
        0 <= n <= before.len(),
        before.len() == after.len(),
        forall|i: int| 0 <= i < n ==> after[i] == before[i] + qty[i],
    ensures
        holdings_value(after, charts, n) - total_cost(qty, charts, fee, n) == holdings_value(
            before,
            charts,
            n,
        ) - total_fee(qty, charts, fee, n),
    decreases n,
{
    if n > 0 {
        lemma_settled_value(before, after, charts, qty, fee, n - 1);
        let price = charts[n - 1].adj_close as int;
        assert((before[n - 1] + qty[n - 1]) * price == before[n - 1] * price + price * qty[n - 1])
            by (nonlinear_arith);
    }
}

/// The holdings' value never shrinks as slots are added, where no share
/// count is negative.
pub proof fn lemma_holdings_value_grows(shares: Seq<int>, charts: Seq<Chart>, m: int, n: int)
    requires
        0 <= m <= n <= shares.len(),
        forall|i: int| 0 <= i < n ==> shares[i] >= 0,
    ensures
        0 <= holdings_value(shares, charts, m) <= holdings_value(shares, charts, n),
    decreases n,
{
    if n > 0 {
        assert(shares[n - 1] * charts[n - 1].adj_close >= 0) by (nonlinear_arith)
            requires
                shares[n - 1] >= 0,
                charts[n - 1].adj_close >= 0,
        ;
        if m < n {
            lemma_holdings_value_grows(shares, charts, m, n - 1);
        } else {
            lemma_holdings_value_grows(shares, charts, m - 1, n - 1);
        }
    }
}

/// A cost is at most the traded amount and the largest fee on it.
proof fn lemma_cost_bound(price: int, qty: int, fee: int)
    requires
        0 <= price,
        0 <= fee <= u64::MAX,
    ensures
        magnitude(trade_cost(price, qty, fee)) <= price * magnitude(qty) * 0x8_0000_0000,
{
    let traded = price * magnitude(qty);
    assert(traded >= 0) by (nonlinear_arith)
        requires
            traded == price * magnitude(qty),
            price >= 0,
            magnitude(qty) >= 0,
    ;
    assert(traded * fee >= 0 && traded * fee <= traded * 0xffff_ffff_ffff_ffff) by (nonlinear_arith)
        requires
            traded >= 0,
            0 <= fee <= 0xffff_ffff_ffff_ffff,
    ;
    let charged = (traded * fee) / (SCALE as int);
    assert(0 <= charged <= traded * 0x7_ffff_ffff) by (nonlinear_arith)
        requires
            charged == (traded * fee) / 1_000_000_000,
            0 <= traded * fee <= traded * 0xffff_ffff_ffff_ffff,
            traded >= 0,
    ;
    if qty >= 0 {
        assert(price * qty * fee == traded * fee) by (nonlinear_arith)
            requires
                traded == price * qty,
        ;
    } else {
        assert(-(price * qty * fee) == traded * fee && price * qty == -traded) by (nonlinear_arith)
            requires
                traded == price * (-qty),
        ;
    }
    assert(traded * 0x8_0000_0000 == traded + traded * 0x7_ffff_ffff) by (nonlinear_arith);
}

impl Portfolio {
    /// What the portfolio is worth at the day's adjusted closes.
    pub fn value(&self, charts: &Vec<Chart>) -> (r: Result<i64, BacktestError>)
        requires
            self.wf(),
            charts.len() == self.symbols.len(),
        ensures
            r matches Ok(v) ==> valuation(self@, charts@) == Ok::<int, BacktestError>(v as int),
            r matches Err(e) ==> valuation(self@, charts@) == Err::<int, BacktestError>(e),
    {
        let n: usize = self.shares.len();
        let ghost shares = self@.shares;
        let mut held: u128 = 0;
        let mut i: usize = 0;
        while i < n
            invariant
                i <= n,
                n == self.shares.len(),
                n == charts.len(),
                shares == self@.shares,
                held <= MONEY_MAX,
                held == holdings_value(shares, charts@, i as int),
            decreases n - i,
        {
            let count: u64 = self.shares[i];
            let price: u64 = charts[i].adj_close;
            assert(count as int * price as int <= 0xffff_ffff_ffff_ffff * 0xffff_ffff_ffff_ffff)
                by (nonlinear_arith)
                requires
                    0 <= count <= 0xffff_ffff_ffff_ffff,
                    0 <= price <= 0xffff_ffff_ffff_ffff,
            ;
            let worth: u128 = (count as u128) * (price as u128);
            assert(shares[i as int] == count);
            if held + worth > MONEY_MAX as u128 {
                proof {
                    lemma_holdings_value_grows(shares, charts@, i as int + 1, n as int);
                }
                return Err(BacktestError::Overflow);
            }
            held = held + worth;
            i = i + 1;
        }
        let total: i128 = (self.balance as i128) + (held as i128);
        if total > MONEY_MAX as i128 || total < -(MONEY_MAX as i128) {
            return Err(BacktestError::Overflow);
        }
        Ok(total as i64)
    }

    /// Adds one day of interest at the daily rate `rate` to the cash.
    pub fn accrue(&mut self, rate: u64) -> (r: Result<(), BacktestError>)
        ensures
            final(self).symbols == old(self).symbols,
            final(self).shares == old(self).shares,
            r is Ok ==> accrue(old(self)@, rate as int) == Ok::<PortfolioView, BacktestError>(
                final(self)@,
            ),
            r matches Err(e) ==> accrue(old(self)@, rate as int) == Err::<
                PortfolioView,
                BacktestError,
            >(e) && *final(self) == *old(self),
    {
        let grown: i128 = interest_on(self.balance, rate);
        assert(-0x8000_0000_0000_0000 * 0xffff_ffff_ffff_ffff <= self.balance * rate
            <= 0x7fff_ffff_ffff_ffff * 0xffff_ffff_ffff_ffff) by (nonlinear_arith)
            requires
                -0x8000_0000_0000_0000 <= self.balance <= 0x7fff_ffff_ffff_ffff,
                0 <= rate <= 0xffff_ffff_ffff_ffff,
        ;
        let balance: i128 = (self.balance as i128) + grown;
        if balance > MONEY_MAX as i128 || balance < -(MONEY_MAX as i128) {
            return Err(BacktestError::Overflow);
        }
        self.balance = balance as i64;
        assert(self@.shares =~= old(self)@.shares);
        Ok(())
    }
}

fn check_names(symbols: &Vec<String>, orders: &Vec<Order>) -> (r: bool)
    ensures
        r == names_match(symbols@, orders@),
{
    if orders.len() != symbols.len() {
        return false;
    }
    let mut i: usize = 0;
    while i < orders.len()
        invariant
            i <= orders.len(),
            orders.len() == symbols.len(),
            forall|j: int| 0 <= j < i ==> (#[trigger] orders[j]).symbol@ == symbols[j]@,
        decreases orders.len() - i,
    {
        if orders[i].symbol != symbols[i] {
            return false;
        }
        i = i + 1;
    }
    true
}

fn check_oversold(shares: &Vec<u64>, orders: &Vec<Order>) -> (r: bool)
    requires
        orders.len() == shares.len(),
    ensures
        r == oversold(Seq::new(shares@.len(), |i: int| shares@[i] as int), quantities(orders@)),
{
    let ghost held = Seq::new(shares@.len(), |i: int| shares@[i] as int);
    let ghost qty = quantities(orders@);
    let mut i: usize = 0;
    while i < shares.len()
        invariant
            i <= shares.len(),
            orders.len() == shares.len(),
            held == Seq::new(shares@.len(), |i: int| shares@[i] as int),
            qty == quantities(orders@),
            forall|j: int| 0 <= j < i ==> #[trigger] held[j] + qty[j] >= 0,
        decreases shares.len() - i,
    {
        let after: i128 = (shares[i] as i128) + (orders[i].shares as i128);
        if after < 0 {
            assert(held[i as int] + qty[i as int] < 0);
            return true;
        }
        i = i + 1;
    }
    false
}

impl Portfolio {
    /// Executes `orders`, one for each slot and under its symbol, at the
    /// day's adjusted closes, all of them or none.
    pub fn execute(&mut self, charts: &Vec<Chart>, orders: &Vec<Order>, fee: u64) -> (r: Result<
        (),
        BacktestError,
    >)
        requires
            old(self).wf(),
            charts.len() == old(self).symbols.len(),
        ensures
            final(self).symbols == old(self).symbols,
            r is Err ==> *final(self) == *old(self),
            !names_match(old(self).symbols@, orders@) ==> r == Err::<(), BacktestError>(
                BacktestError::SymbolMismatch,
            ),
            names_match(old(self).symbols@, orders@) && r is Ok ==> settle(
                old(self)@,
                charts@,
                quantities(orders@),
                fee as int,
            ) == Ok::<PortfolioView, BacktestError>(final(self)@),
            names_match(old(self).symbols@, orders@) ==> (r matches Err(e) ==> settle(
                old(self)@,
                charts@,
                quantities(orders@),
                fee as int,
            ) == Err::<PortfolioView, BacktestError>(e)),
    {
        if !check_names(&self.symbols, orders) {
            return Err(BacktestError::SymbolMismatch);
        }
        if check_oversold(&self.shares, orders) {
            return Err(BacktestError::InsufficientShares);
        }
        let n: usize = self.shares.len();
        let ghost held = self@.shares;
        let ghost qty = quantities(orders@);
        let mut shares: Vec<u64> = Vec::new();
        let mut traded: u128 = 0;
        let mut cost: i128 = 0;
        let mut i: usize = 0;
        while i < n
            invariant
                i <= n,
                n == self.shares.len(),
                n == charts.len(),
                n == orders.len(),
                *self == *old(self),
                names_match(self.symbols@, orders@),
                held == self@.shares,
                qty == quantities(orders@),
                !oversold(held, qty),
                shares.len() == i,
                forall|j: int| 0 <= j < i ==> (#[trigger] shares[j]) as int == held[j] + qty[j],
                traded <= MONEY_MAX,
                traded == traded_amount(qty, charts@, i as int),
                cost == total_cost(qty, charts@, fee as int, i as int),
                magnitude(cost as int) <= traded * 0x8_0000_0000,
            decreases n - i,
        {
            let price: u64 = charts[i].adj_close;
            let delta: i64 = orders[i].shares;
            let after: i128 = (self.shares[i] as i128) + (delta as i128);
            assert(held[i as int] + qty[i as int] == after);
            if after > u64::MAX as i128 {
                assert(overfull(held, qty));
                return Err(BacktestError::Overflow);
            }
            let this_cost: i128 = match cost_of(price, delta, fee) {
                Some(c) => c,
                None => {
                    proof {
                        lemma_traded_amount_grows(qty, charts@, i as int, i as int + 1);
                        lemma_traded_amount_grows(qty, charts@, i as int + 1, n as int);
                    }
                    return Err(BacktestError::Overflow);
                },
            };
            let this_traded: u128 = (price as u128) * (crate::fixed::magnitude_of(delta) as u128);
            if traded + this_traded > MONEY_MAX as u128 {
                proof {
                    lemma_traded_amount_grows(qty, charts@, i as int + 1, n as int);
                }
                return Err(BacktestError::Overflow);
            }
            proof {
                lemma_cost_bound(price as int, delta as int, fee as int);
                assert((traded + this_traded) * 0x8_0000_0000 == traded * 0x8_0000_0000 + this_traded
                    * 0x8_0000_0000) by (nonlinear_arith);
                assert((traded + this_traded) * 0x8_0000_0000 <= 0x7fff_ffff_ffff_ffff
                    * 0x8_0000_0000) by (nonlinear_arith)
                    requires
                        traded + this_traded <= 0x7fff_ffff_ffff_ffff,
                ;
            }
            traded = traded + this_traded;
            cost = cost + this_cost;
            assert(0 <= after);
            shares.push(after as u64);
            i = i + 1;
        }
        let balance: i128 = (self.balance as i128) - cost;
        if balance > MONEY_MAX as i128 || balance < -(MONEY_MAX as i128) {
            return Err(BacktestError::Overflow);
        }
        proof {
            assert(!overfull(held, qty)) by {
                assert forall|j: int| 0 <= j < held.len() implies !(#[trigger] held[j] + qty[j]
                    > u64::MAX) by {
                    assert(shares[j] as int == held[j] + qty[j]);
                }
            }
        }
        self.balance = balance as i64;
        self.shares = shares;
        proof {
            let want = settle(old(self)@, charts@, qty, fee as int)->Ok_0;
            assert(self@.shares =~= want.shares);
        }
        Ok(())
    }
}

} // verus!
