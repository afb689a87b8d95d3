//! What a run recorded, and the exact figures that follow from it.

use vstd::prelude::*;
use crate::market::MarketData;
use crate::portfolio::Portfolio;

verus! {

/// The amounts of `v`, as the contracts count them.
pub open spec fn amounts(v: Seq<i64>) -> Seq<int> {
    Seq::new(v.len(), |i: int| v[i] as int)
}

/// The fraction `num / den`, kept exact. The denominator is positive.
#[derive(Debug, Clone, Copy, PartialEq, Eq, Structural)]
pub struct Ratio {
    pub num: i64,
    pub den: i64,
}

impl Ratio {
    /// `self` is at most `other`, as fractions.
    pub open spec fn le(self, other: Ratio) -> bool {
        self.num * other.den <= other.num * self.den
    }

    /// `self` is less than `other`, as fractions.
    pub open spec fn lt(self, other: Ratio) -> bool {
        self.num * other.den < other.num * self.den
    }

    /// Whether `self` is less than `other`, as fractions.
    pub fn less_than(&self, other: &Ratio) -> (r: bool)
        ensures
            r == self.lt(*other),
    {
        assert(-0x8000_0000_0000_0000 * 0x8000_0000_0000_0000 <= self.num * other.den
            <= 0x8000_0000_0000_0000 * 0x8000_0000_0000_0000) by (nonlinear_arith)
            requires
                -0x8000_0000_0000_0000 <= self.num <= 0x7fff_ffff_ffff_ffff,
                -0x8000_0000_0000_0000 <= other.den <= 0x7fff_ffff_ffff_ffff,
        ;
        assert(-0x8000_0000_0000_0000 * 0x8000_0000_0000_0000 <= other.num * self.den
            <= 0x8000_0000_0000_0000 * 0x8000_0000_0000_0000) by (nonlinear_arith)
            requires
                -0x8000_0000_0000_0000 <= other.num <= 0x7fff_ffff_ffff_ffff,
                -0x8000_0000_0000_0000 <= self.den <= 0x7fff_ffff_ffff_ffff,
        ;
        (self.num as i128) * (other.den as i128) < (other.num as i128) * (self.den as i128)
    }
}

/// What a run recorded.
///
/// `value_history[d]` is the portfolio's value at the end of the day
/// `d + 1` and `balance_history[d]` its cash; `initial_value` is the value
/// before the first day's trading, and zero where there was no day.
pub struct BacktestReport {
    pub portfolio: Portfolio,
    pub strategy: String,
    pub market_data: MarketData,
    pub initial_value: i64,
    pub value_history: Vec<i64>,
    pub balance_history: Vec<i64>,
    pub rolling_window: usize,
}

/// The largest of the first `n + 1` values.
pub open spec fn peak(values: Seq<i64>, n: int) -> i64
    decreases n,
{
    if n <= 0 {
        values[0]
    } else if values[n] > peak(values, n - 1) {
        values[n]
    } else {
        peak(values, n - 1)
    }
}

/// The peak is one of the values, and none before it is larger.
pub proof fn lemma_peak(values: Seq<i64>, n: int)
    requires
        0 <= n < values.len(),
    ensures
        exists|k: int| 0 <= k <= n && values[k] == peak(values, n),
        forall|k: int| 0 <= k <= n ==> values[k] <= peak(values, n),
    decreases n,
{
    if n > 0 {
        lemma_peak(values, n - 1);
        let k = choose|k: int| 0 <= k <= n - 1 && values[k] == peak(values, n - 1);
        if values[n] > peak(values, n - 1) {
            assert(values[n] == peak(values, n));
        } else {
            assert(values[k] == peak(values, n));
        }
    } else {
        assert(values[0] == peak(values, 0));
    }
}

impl BacktestReport {
    /// One value and one balance for each day, every value positive, and
    /// so is the value from which the first day starts.
    pub open spec fn wf(&self) -> bool {
        &&& self.value_history.len() == self.market_data.date.len()
        &&& self.balance_history.len() == self.value_history.len()
        &&& forall|i: int| 0 <= i < self.value_history.len() ==> (#[trigger] self.value_history[i]) > 0
        &&& self.value_history.len() > 0 ==> self.initial_value > 0
    }

    /// The value at the end of the day before the day `i + 1`.
    pub open spec fn value_before(&self, i: int) -> i64 {
        if i <= 0 {
            self.initial_value
        } else {
            self.value_history[i - 1]
        }
    }

    /// The return of the day `i + 1`: the day's gain over the value of the
    /// day before.
    pub open spec fn daily_return(&self, i: int) -> Ratio {
        Ratio {
            num: (self.value_history[i] - self.value_before(i)) as i64,
            den: self.value_before(i),
        }
    }

    /// The cumulative return up to the day `i + 1`: the value then over
    /// the value at the start, which is what the daily returns compound to.
    pub open spec fn cumulative_return(&self, i: int) -> Ratio {
        Ratio { num: self.value_history[i], den: self.initial_value }
    }

    /// The drawdown on the day `i + 1`: how far the value stands below the
    /// highest end-of-day value so far, as a part of that value.
    pub open spec fn drawdown(&self, i: int) -> Ratio {
        Ratio {
            num: (peak(self.value_history@, i) - self.value_history[i]) as i64,
            den: peak(self.value_history@, i),
        }
    }

    /// The return of every day, in order.
    pub open spec fn daily_returns(&self) -> Seq<Ratio> {
        Seq::new(self.value_history@.len(), |i: int| self.daily_return(i))
    }

    /// The cumulative return up to every day, in order.
    pub open spec fn cumulative_returns(&self) -> Seq<Ratio> {
        Seq::new(self.value_history@.len(), |i: int| self.cumulative_return(i))
    }

    /// The drawdown on every day, in order.
    pub open spec fn drawdowns(&self) -> Seq<Ratio> {
        Seq::new(self.value_history@.len(), |i: int| self.drawdown(i))
    }

    /// The largest drawdown, as it stood on the first day that had it; zero
    /// where there was no day.
    pub open spec fn max_drawdown(&self) -> Ratio {
        if self.value_history.len() == 0 {
            Ratio { num: 0, den: 1 }
        } else {
            self.drawdown(choose|k: int| self.deepest_at(k))
        }
    }

    /// The day `k + 1` is the first on which the drawdown is largest.
    pub open spec fn deepest_at(&self, k: int) -> bool {
        &&& 0 <= k < self.value_history.len()
        &&& forall|j: int|
            0 <= j < self.value_history.len() ==> (#[trigger] self.drawdown(j)).le(self.drawdown(k))
        &&& forall|j: int| 0 <= j < k ==> (#[trigger] self.drawdown(j)).lt(self.drawdown(k))
    }

    pub fn get_daily_return(&self) -> (r: Vec<Ratio>)
        requires
            self.wf(),
        ensures
            r@ == self.daily_returns(),
    {
        let mut r: Vec<Ratio> = Vec::new();
        let mut before: i64 = self.initial_value;
        let mut i: usize = 0;
        while i < self.value_history.len()
            invariant
                i <= self.value_history.len(),
                self.wf(),
                r.len() == i,
                before == self.value_before(i as int),
                before > 0 || self.value_history.len() == 0,
                forall|j: int| 0 <= j < i ==> (#[trigger] r[j]) == self.daily_return(j),
            decreases self.value_history.len() - i,
        {
            let value: i64 = self.value_history[i];
            r.push(Ratio { num: value - before, den: before });
            before = value;
            i = i + 1;
        }
        assert(r@ =~= self.daily_returns());
        r
    }

    pub fn get_cumulative_return(&self) -> (r: Vec<Ratio>)
        requires
            self.wf(),
        ensures
            r@ == self.cumulative_returns(),
    {
        let mut r: Vec<Ratio> = Vec::new();
        let mut i: usize = 0;
        while i < self.value_history.len()
            invariant
                i <= self.value_history.len(),
                r.len() == i,
                forall|j: int| 0 <= j < i ==> (#[trigger] r[j]) == self.cumulative_return(j),
            decreases self.value_history.len() - i,
        {
            r.push(Ratio { num: self.value_history[i], den: self.initial_value });
            i = i + 1;
        }
        assert(r@ =~= self.cumulative_returns());
        r
    }

    pub fn get_drawdown(&self) -> (r: Vec<Ratio>)
        requires
            self.wf(),
        ensures
            r@ == self.drawdowns(),
    {
        let mut r: Vec<Ratio> = Vec::new();
        let mut high: i64 = 0;
        let mut i: usize = 0;
        while i < self.value_history.len()
            invariant
                i <= self.value_history.len(),
                self.wf(),
                r.len() == i,
                i == 0 ==> high == 0,
                i > 0 ==> high == peak(self.value_history@, i - 1),
                forall|j: int| 0 <= j < i ==> (#[trigger] r[j]) == self.drawdown(j),
            decreases self.value_history.len() - i,
        {
            let value: i64 = self.value_history[i];
            if value > high {
                high = value;
            }
            proof {
                assert(high == peak(self.value_history@, i as int));
                lemma_peak(self.value_history@, i as int);
            }
            r.push(Ratio { num: high - value, den: high });
            i = i + 1;
        }
        assert(r@ =~= self.drawdowns());
        r
    }

    pub fn get_mdd(&self) -> (r: Ratio)
        requires
            self.wf(),
        ensures
            r == self.max_drawdown(),
    {
        let falls = self.get_drawdown();
        if falls.len() == 0 {
            return Ratio { num: 0, den: 1 };
        }
        let mut deepest: Ratio = falls[0];
        let ghost mut at: int = 0;
        let mut i: usize = 1;
        while i < falls.len()
            invariant
                1 <= i <= falls.len(),
                self.wf(),
                falls.len() == self.value_history.len(),
                falls@ == self.drawdowns(),
                0 <= at < i,
                deepest == self.drawdown(at),
                forall|j: int| 0 <= j < i ==> (#[trigger] self.drawdown(j)).le(deepest),
                forall|j: int| 0 <= j < at ==> (#[trigger] self.drawdown(j)).lt(deepest),
            decreases falls.len() - i,
        {
            let here: Ratio = falls[i];
            if deepest.less_than(&here) {
                proof {
                    assert forall|j: int| 0 <= j < i implies (#[trigger] self.drawdown(j)).lt(
                        here,
                    ) by {
                        lemma_peak(self.value_history@, j);
                        lemma_peak(self.value_history@, i as int);
                        lemma_peak(self.value_history@, at);
                        lemma_ratio_le_lt(self.drawdown(j), deepest, here);
                    }
                    at = i as int;
                }
                deepest = here;
            } else {
                proof {
                    assert(self.drawdown(i as int).le(deepest));
                }
            }
            i = i + 1;
        }
        proof {
            assert(self.deepest_at(at));
            let k = choose|k: int| self.deepest_at(k);
            if k < at {
                assert(self.drawdown(k).lt(self.drawdown(at)));
                assert(self.drawdown(at).le(self.drawdown(k)));
            }
            if at < k {
                assert(self.drawdown(at).lt(self.drawdown(k)));
                assert(self.drawdown(k).le(self.drawdown(at)));
            }
        }
        deepest
    }

    pub fn get_balance_history(&self) -> (r: &Vec<i64>)
        ensures
            r == self.balance_history,
    {
        &self.balance_history
    }
}

/// Every figure of a report has a positive denominator, and a drawdown is a
/// part of the whole: at least nothing and less than everything.
pub proof fn lemma_figures_are_fractions(report: BacktestReport, i: int)
    requires
        report.wf(),
        0 <= i < report.value_history.len(),
    ensures
        report.daily_return(i).den > 0,
        report.cumulative_return(i).den > 0,
        report.drawdown(i).den > 0,
        0 <= report.drawdown(i).num < report.drawdown(i).den,
{
    lemma_peak(report.value_history@, i);
    if i > 0 {
        assert(report.value_history[i - 1] > 0);
    }
}

/// Fractions with positive denominators are ordered as numbers are.
pub proof fn lemma_ratio_le_lt(a: Ratio, b: Ratio, c: Ratio)
    requires
        a.den > 0,
        b.den > 0,
        c.den > 0,
        a.le(b),
        b.lt(c),
    ensures
        a.lt(c),
{
    assert(a.num * c.den < c.num * a.den) by (nonlinear_arith)
        requires
            a.den > 0,
            b.den > 0,
            c.den > 0,
            a.num * b.den <= b.num * a.den,
            b.num * c.den < c.num * b.den,
    ;
}

} // verus!
