//! Market data aligned on the trading days that all instruments share.

use vstd::prelude::*;
use crate::align::{common_dates, is_calendar, is_common, places, quotes_twice};
use crate::api::{Chart, HistoricalChart};
use crate::error::BacktestError;
use crate::symbols::{first_occurrences, first_positions, lemma_first_positions};
use crate::text::{copy_texts, lists, strictly_ascending};

verus! {

/// The bars of every tracked symbol on every common trading day, with the
/// risk-free quote of that day.
///
/// `chart[d][j]` is the bar of `symbols[j]` on the day `date[d]`, and
/// `risk_free[d]` the close of the risk-free instrument on it: an annual
/// rate in percent, in ticks.
#[derive(Debug, Clone)]
pub struct MarketData {
    pub from: String,
    pub to: String,
    pub symbols: Vec<String>,
    pub date: Vec<String>,
    pub chart: Vec<Vec<Chart>>,
    pub risk_free: Vec<u64>,
}

/// There is one usable series for each symbol, and one for the risk-free
/// instrument.
pub open spec fn inputs_usable(
    symbols: Seq<String>,
    histories: Seq<HistoricalChart>,
    risk_free: HistoricalChart,
) -> bool {
    &&& histories.len() == symbols.len()
    &&& risk_free.usable()
    &&& forall|k: int| 0 <= k < histories.len() ==> (#[trigger] histories[k]).usable()
}

/// `dates` holds a common day at two places.
pub open spec fn quotes_a_day_twice(
    dates: Seq<String>,
    histories: Seq<HistoricalChart>,
    risk_free: HistoricalChart,
) -> bool {
    exists|p: int, q: int|
        0 <= p < q < dates.len() && (#[trigger] dates[p])@ == (#[trigger] dates[q])@ && is_common(
            histories,
            risk_free,
            dates[p]@,
        )
}

/// The risk-free series and the series of each symbol, taken where the
/// symbol is first named, quote every common day once only.
pub open spec fn all_quote_once(
    symbols: Seq<String>,
    histories: Seq<HistoricalChart>,
    risk_free: HistoricalChart,
) -> bool {
    &&& !quotes_a_day_twice(risk_free.date@, histories, risk_free)
    &&& forall|j: int|
        0 <= j < first_positions(symbols, symbols.len() as int).len() ==> !quotes_a_day_twice(
            histories[#[trigger] first_positions(symbols, symbols.len() as int)[j]].date@,
            histories,
            risk_free,
        )
}

/// With `calendar` the list of the common days, a series quotes a common
/// day twice exactly when it quotes a day of the calendar twice.
proof fn lemma_twice(
    dates: Seq<String>,
    calendar: Seq<String>,
    histories: Seq<HistoricalChart>,
    risk_free: HistoricalChart,
)
    requires
        is_calendar(calendar, histories, risk_free),
    ensures
        quotes_twice(dates, calendar) <==> quotes_a_day_twice(dates, histories, risk_free),
{
    if quotes_twice(dates, calendar) {
        let (p, q) = choose|p: int, q: int|
            0 <= p < q < dates.len() && (#[trigger] dates[p])@ == (#[trigger] dates[q])@ && lists(
                calendar,
                dates[p]@,
            );
        assert(is_common(histories, risk_free, dates[p]@));
    }
    if quotes_a_day_twice(dates, histories, risk_free) {
        let (p, q) = choose|p: int, q: int|
            0 <= p < q < dates.len() && (#[trigger] dates[p])@ == (#[trigger] dates[q])@
                && is_common(histories, risk_free, dates[p]@);
        assert(lists(calendar, dates[p]@));
    }
}

fn check_usable(
    symbols: &Vec<String>,
    histories: &Vec<HistoricalChart>,
    risk_free: &HistoricalChart,
) -> (r: bool)
    ensures
        r == inputs_usable(symbols@, histories@, *risk_free),
{
    if histories.len() != symbols.len() || !risk_free.is_usable() {
        return false;
    }
    let mut k: usize = 0;
    while k < histories.len()
        invariant
            k <= histories.len(),
            forall|j: int| 0 <= j < k ==> (#[trigger] histories[j]).usable(),
        decreases histories.len() - k,
    {
        if !histories[k].is_usable() {
            return false;
        }
        k = k + 1;
    }
    true
}

/// `at[j][d]` is a place at which the series of slot `j` quotes the day
/// `calendar[d]`.
spec fn placed(
    at: Seq<Vec<usize>>,
    histories: Seq<HistoricalChart>,
    firsts: Seq<usize>,
    calendar: Seq<String>,
) -> bool {
    &&& at.len() == firsts.len()
    &&& forall|j: int|
        0 <= j < at.len() ==> {
            &&& (#[trigger] at[j]).len() == calendar.len()
            &&& forall|d: int|
                0 <= d < calendar.len() ==> {
                    &&& (#[trigger] at[j][d]) < histories[firsts[j] as int].date.len()
                    &&& histories[firsts[j] as int].date[at[j][d] as int]@ == calendar[d]@
                }
        }
}

fn positions_of(
    histories: &Vec<HistoricalChart>,
    firsts: &Vec<usize>,
    calendar: &Vec<String>,
) -> (r: Option<Vec<Vec<usize>>>)
    requires
        strictly_ascending(calendar@),
        forall|j: int| 0 <= j < firsts.len() ==> (#[trigger] firsts[j]) < histories.len(),
        forall|k: int, t: Seq<char>|
            #![trigger lists(histories[k].date@, t)]
            0 <= k < histories.len() && lists(calendar@, t) ==> lists(histories[k].date@, t),
    ensures
        r is Some <==> (forall|j: int|
            0 <= j < firsts.len() ==> !quotes_twice(
                histories[(#[trigger] firsts[j]) as int].date@,
                calendar@,
            )),
        r matches Some(at) ==> placed(at@, histories@, firsts@, calendar@),
{
    let mut at: Vec<Vec<usize>> = Vec::new();
    let mut j: usize = 0;
    while j < firsts.len()
        invariant
            j <= firsts.len(),
            strictly_ascending(calendar@),
            forall|j: int| 0 <= j < firsts.len() ==> (#[trigger] firsts[j]) < histories.len(),
            forall|k: int, t: Seq<char>|
                #![trigger lists(histories[k].date@, t)]
                0 <= k < histories.len() && lists(calendar@, t) ==> lists(histories[k].date@, t),
            forall|i: int|
                0 <= i < j ==> !quotes_twice(
                    histories[(#[trigger] firsts[i]) as int].date@,
                    calendar@,
                ),
            placed(at@, histories@, firsts@.take(j as int), calendar@),
        decreases firsts.len() - j,
    {
        let series = &histories[firsts[j]];
        assert(forall|t: Seq<char>| lists(calendar@, t) ==> lists(series.date@, t));
        match places(&series.date, calendar) {
            Some(found) => {
                at.push(found);
            },
            None => {
                return None;
            },
        }
        j = j + 1;
    }
    proof {
        assert(firsts@.take(j as int) =~= firsts@);
    }
    Some(at)
}

fn row_of(histories: &Vec<HistoricalChart>, firsts: &Vec<usize>, at: &Vec<Vec<usize>>, d: usize) -> (row:
    Vec<Chart>)
    requires
        forall|j: int| 0 <= j < firsts.len() ==> (#[trigger] firsts[j]) < histories.len(),
        forall|k: int| 0 <= k < histories.len() ==> (#[trigger] histories[k]).usable(),
        at.len() == firsts.len(),
        forall|j: int|
            0 <= j < at.len() ==> d < (#[trigger] at[j]).len() && at[j][d as int]
                < histories[firsts[j] as int].date.len(),
    ensures
        row.len() == firsts.len(),
        forall|j: int|
            0 <= j < row.len() ==> (#[trigger] row[j]) == histories[firsts[j] as int].chart[at[j][d as int] as int],
{
    let mut row: Vec<Chart> = Vec::new();
    let mut j: usize = 0;
    while j < firsts.len()
        invariant
            j <= firsts.len(),
            row.len() == j,
            forall|j: int| 0 <= j < firsts.len() ==> (#[trigger] firsts[j]) < histories.len(),
            forall|k: int| 0 <= k < histories.len() ==> (#[trigger] histories[k]).usable(),
            at.len() == firsts.len(),
            forall|j: int|
                0 <= j < at.len() ==> d < (#[trigger] at[j]).len() && at[j][d as int]
                    < histories[firsts[j] as int].date.len(),
            forall|i: int|
                0 <= i < j ==> (#[trigger] row[i]) == histories[firsts[i] as int].chart[at[i][d as int] as int],
        decreases firsts.len() - j,
    {
        let series = &histories[firsts[j]];
        assert(series.usable());
        let p: usize = at[j][d];
        row.push(series.chart[p]);
        j = j + 1;
    }
    row
}

impl MarketData {
    /// One row of bars and one risk-free quote for each day, one bar for
    /// each symbol in each row, the days in ascending order.
    pub open spec fn wf(&self) -> bool {
        &&& self.date.len() == self.chart.len()
        &&& self.date.len() == self.risk_free.len()
        &&& strictly_ascending(self.date@)
        &&& forall|d: int|
            0 <= d < self.chart.len() ==> (#[trigger] self.chart[d]).len() == self.symbols.len()
    }

    /// These are the series of `symbols`, given in `histories` one for
    /// one, and the risk-free series, aligned: each symbol has one slot,
    /// where it is first named; the days are the common ones in ascending
    /// order; and each slot holds on each day the bar that its series
    /// quotes for that day, as the risk-free quote is the close that the
    /// risk-free series quotes for it.
    pub open spec fn aligns(
        &self,
        symbols: Seq<String>,
        histories: Seq<HistoricalChart>,
        risk_free: HistoricalChart,
    ) -> bool {
        let firsts = first_positions(symbols, symbols.len() as int);
        &&& self.wf()
        &&& self.symbols.len() == firsts.len()
        &&& forall|j: int|
            0 <= j < firsts.len() ==> (#[trigger] self.symbols[j])@ == symbols[firsts[j]]@
        &&& is_calendar(self.date@, histories, risk_free)
        &&& forall|d: int, j: int|
            0 <= d < self.date.len() && 0 <= j < firsts.len() ==> histories[firsts[j]].quotes(
                self.date[d]@,
                #[trigger] self.chart[d][j],
            )
        &&& forall|d: int|
            0 <= d < self.date.len() ==> risk_free.closes(
                self.date[d]@,
                #[trigger] self.risk_free[d],
            )
    }

    /// Aligns the series of `symbols`, given in `histories` one for one,
    /// and the risk-free series on the days that all of them quote.
    ///
    /// Each symbol gets one slot, where it is first named. The days are the
    /// common ones in ascending order, and each slot holds on each day the
    /// bar that its series quotes for that day, wherever in the series it
    /// stands.
    ///
    /// Data is unavailable where a series is missing, is empty or has not a
    /// bar for each of its dates. The alignment is refused where the
    /// risk-free series, or a series that fills a slot, quotes a common day
    /// twice.
    pub fn new(
        symbols: &Vec<String>,
        histories: &Vec<HistoricalChart>,
        risk_free: &HistoricalChart,
        from: &str,
        to: &str,
    ) -> (r: Result<MarketData, BacktestError>)
        ensures
            r is Ok <==> inputs_usable(symbols@, histories@, *risk_free) && all_quote_once(
                symbols@,
                histories@,
                *risk_free,
            ),
            r matches Err(e) ==> e == (if inputs_usable(symbols@, histories@, *risk_free) {
                BacktestError::AlignmentInvariantViolation
            } else {
                BacktestError::DataUnavailable
            }),
            r matches Ok(md) ==> md.from@ == from@ && md.to@ == to@ && md.aligns(
                symbols@,
                histories@,
                *risk_free,
            ),
    {
        if !check_usable(symbols, histories, risk_free) {
            return Err(BacktestError::DataUnavailable);
        }
        let date = common_dates(histories, risk_free);
        let firsts = first_occurrences(symbols);
        let ghost fp = first_positions(symbols@, symbols.len() as int);
        proof {
            lemma_first_positions(symbols@, symbols.len() as int);
            lemma_twice(risk_free.date@, date@, histories@, *risk_free);
            assert forall|j: int| 0 <= j < fp.len() implies (quotes_twice(
                histories[(#[trigger] firsts[j]) as int].date@,
                date@,
            ) <==> quotes_a_day_twice(histories[fp[j]].date@, histories@, *risk_free)) by {
                lemma_twice(histories[fp[j]].date@, date@, histories@, *risk_free);
            }
            assert forall|k: int, t: Seq<char>|
                #![trigger lists(histories[k].date@, t)]
                0 <= k < histories.len() && lists(date@, t) implies lists(histories[k].date@, t) by {
                assert(is_common(histories@, *risk_free, t));
            }
            assert forall|t: Seq<char>| lists(date@, t) implies lists(risk_free.date@, t) by {
                assert(is_common(histories@, *risk_free, t));
            }
        }
        let rf_at = match places(&risk_free.date, &date) {
            Some(found) => found,
            None => {
                return Err(BacktestError::AlignmentInvariantViolation);
            },
        };
        let at = match positions_of(histories, &firsts, &date) {
            Some(found) => found,
            None => {
                proof {
                    let j = choose|j: int|
                        0 <= j < firsts.len() && quotes_twice(
                            histories[(#[trigger] firsts[j]) as int].date@,
                            date@,
                        );
                    assert(quotes_a_day_twice(histories[fp[j]].date@, histories@, *risk_free));
                }
                return Err(BacktestError::AlignmentInvariantViolation);
            },
        };
        proof {
            assert forall|j: int| 0 <= j < fp.len() implies !quotes_a_day_twice(
                histories[#[trigger] fp[j]].date@,
                histories@,
                *risk_free,
            ) by {
                assert(!quotes_twice(histories[firsts[j] as int].date@, date@));
                lemma_twice(histories[fp[j]].date@, date@, histories@, *risk_free);
            }
        }
        let mut names: Vec<String> = Vec::new();
        let mut j: usize = 0;
        while j < firsts.len()
            invariant
                j <= firsts.len(),
                names.len() == j,
                forall|i: int| 0 <= i < firsts.len() ==> (#[trigger] firsts[i]) < symbols.len(),
                forall|i: int| 0 <= i < j ==> (#[trigger] names[i])@ == symbols[firsts[i] as int]@,
            decreases firsts.len() - j,
        {
            names.push(symbols[firsts[j]].clone());
            j = j + 1;
        }
        let mut chart: Vec<Vec<Chart>> = Vec::new();
        let mut rates: Vec<u64> = Vec::new();
        let mut d: usize = 0;
        while d < date.len()
            invariant
                d <= date.len(),
                chart.len() == d,
                rates.len() == d,
                risk_free.usable(),
                rf_at.len() == date.len(),
                forall|i: int|
                    0 <= i < rf_at.len() ==> (#[trigger] rf_at[i]) < risk_free.date.len()
                        && risk_free.date[rf_at[i] as int]@ == date[i]@,
                forall|j: int| 0 <= j < firsts.len() ==> (#[trigger] firsts[j]) < histories.len(),
                forall|k: int| 0 <= k < histories.len() ==> (#[trigger] histories[k]).usable(),
                placed(at@, histories@, firsts@, date@),
                forall|e: int, j: int|
                    0 <= e < d && 0 <= j < firsts.len() ==> histories[firsts[j] as int].quotes(
                        date[e]@,
                        #[trigger] chart[e][j],
                    ),
                forall|e: int| 0 <= e < d ==> (#[trigger] chart[e]).len() == firsts.len(),
                forall|e: int| 0 <= e < d ==> risk_free.closes(date[e]@, #[trigger] rates[e]),
            decreases date.len() - d,
        {
            let row = row_of(histories, &firsts, &at, d);
            let quote: u64 = risk_free.chart[rf_at[d]].close;
            proof {
                assert forall|j: int| 0 <= j < firsts.len() implies histories[firsts[j] as int].quotes(
                    date[d as int]@,
                    #[trigger] row[j],
                ) by {
                    let series = histories[firsts[j] as int];
                    let p = at[j][d as int] as int;
                    assert(series.usable());
                    assert(series.date[p]@ == date[d as int]@);
                    assert(series.chart[p] == row[j]);
                }
                assert(risk_free.date[rf_at[d as int] as int]@ == date[d as int]@);
            }
            chart.push(row);
            rates.push(quote);
            d = d + 1;
        }
        let md = MarketData {
            from: from.to_owned(),
            to: to.to_owned(),
            symbols: names,
            date,
            chart,
            risk_free: rates,
        };
        Ok(md)
    }

    /// The bars of each day, slot by slot.
    pub open spec fn sessions(&self) -> Seq<Seq<Chart>> {
        Seq::new(self.chart@.len(), |d: int| self.chart@[d]@)
    }

    /// Market data that hold what these hold.
    pub fn duplicate(&self) -> (r: MarketData)
        ensures
            r.from@ == self.from@,
            r.to@ == self.to@,
            r.symbols@ == self.symbols@,
            r.date@ == self.date@,
            r.risk_free@ == self.risk_free@,
            r.sessions() == self.sessions(),
            self.wf() ==> r.wf(),
    {
        let mut chart: Vec<Vec<Chart>> = Vec::new();
        let mut rates: Vec<u64> = Vec::new();
        let mut d: usize = 0;
        while d < self.chart.len()
            invariant
                d <= self.chart.len(),
                chart.len() == d,
                forall|e: int| 0 <= e < d ==> (#[trigger] chart[e])@ == self.chart[e]@,
            decreases self.chart.len() - d,
        {
            let from = &self.chart[d];
            let mut row: Vec<Chart> = Vec::new();
            let mut j: usize = 0;
            while j < from.len()
                invariant
                    j <= from.len(),
                    row@ == from@.take(j as int),
                decreases from.len() - j,
            {
                row.push(from[j]);
                proof {
                    assert(from@.take(j as int + 1) =~= from@.take(j as int).push(from@[j as int]));
                }
                j = j + 1;
            }
            proof {
                assert(from@.take(j as int) =~= from@);
            }
            chart.push(row);
            d = d + 1;
        }
        let mut k: usize = 0;
        while k < self.risk_free.len()
            invariant
                k <= self.risk_free.len(),
                rates@ == self.risk_free@.take(k as int),
            decreases self.risk_free.len() - k,
        {
            rates.push(self.risk_free[k]);
            proof {
                assert(self.risk_free@.take(k as int + 1) =~= self.risk_free@.take(k as int).push(
                    self.risk_free@[k as int],
                ));
            }
            k = k + 1;
        }
        proof {
            assert(self.risk_free@.take(k as int) =~= self.risk_free@);
        }
        let r = MarketData {
            from: self.from.clone(),
            to: self.to.clone(),
            symbols: copy_texts(&self.symbols),
            date: copy_texts(&self.date),
            chart,
            risk_free: rates,
        };
        proof {
            assert(r.sessions() =~= self.sessions());
        }
        r
    }

    /// The number of trading days.
    pub fn len(&self) -> (n: usize)
        ensures
            n == self.chart.len(),
    {
        self.chart.len()
    }

    pub fn is_empty(&self) -> (r: bool)
        ensures
            r == (self.chart.len() == 0),
    {
        self.chart.len() == 0
    }
}

} // verus!
