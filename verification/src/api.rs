//! Market data as the engine takes it in: daily bars and dated series.

use vstd::prelude::*;
use crate::error::BacktestError;

verus! {

/// One trading day of one instrument. Prices are whole ticks.
#[derive(Debug, Clone, Copy, PartialEq, Eq, Structural)]
pub struct Chart {
    pub open: u64,
    pub high: u64,
    pub low: u64,
    pub close: u64,
    pub volume: u64,
    pub adj_close: u64,
}

impl Chart {
    pub fn get_open(&self) -> (r: u64)
        ensures
            r == self.open,
    {
        self.open
    }

    pub fn get_high(&self) -> (r: u64)
        ensures
            r == self.high,
    {
        self.high
    }

    pub fn get_low(&self) -> (r: u64)
        ensures
            r == self.low,
    {
        self.low
    }

    pub fn get_close(&self) -> (r: u64)
        ensures
            r == self.close,
    {
        self.close
    }

    pub fn get_volume(&self) -> (r: u64)
        ensures
            r == self.volume,
    {
        self.volume
    }

    pub fn get_adj_close(&self) -> (r: u64)
        ensures
            r == self.adj_close,
    {
        self.adj_close
    }
}

/// The daily bars of one instrument, each under its calendar date.
#[derive(Debug, Clone)]
pub struct HistoricalChart {
    pub symbol: String,
    pub date: Vec<String>,
    pub chart: Vec<Chart>,
}

impl HistoricalChart {
    /// The series has at least one bar and a date for each.
    pub open spec fn usable(&self) -> bool {
        self.date.len() == self.chart.len() && self.date.len() > 0
    }

    /// The series quotes the bar `c` under the date that reads `t`.
    pub open spec fn quotes(&self, t: Seq<char>, c: Chart) -> bool {
        exists|p: int|
            0 <= p < self.date.len() && p < self.chart.len() && #[trigger] self.date[p]@ == t
                && self.chart[p] == c
    }

    /// The series closes at `v` on the day that reads `t`.
    pub open spec fn closes(&self, t: Seq<char>, v: u64) -> bool {
        exists|p: int|
            0 <= p < self.date.len() && p < self.chart.len() && #[trigger] self.date[p]@ == t
                && self.chart[p].close == v
    }

    pub fn is_usable(&self) -> (r: bool)
        ensures
            r == self.usable(),
    {
        self.date.len() == self.chart.len() && self.date.len() > 0
    }

    pub fn get_dates(&self) -> (r: &Vec<String>)
        ensures
            r == self.date,
    {
        &self.date
    }

    pub fn get_charts(&self) -> (r: &Vec<Chart>)
        ensures
            r == self.chart,
    {
        &self.chart
    }

    /// A series under `symbol` with the bars of `chart` under the dates of
    /// `date`.
    pub fn new(symbol: &str, date: Vec<String>, chart: Vec<Chart>) -> (r: HistoricalChart)
        ensures
            r.symbol@ == symbol@,
            r.date == date,
            r.chart == chart,
    {
        HistoricalChart { symbol: symbol.to_owned(), date, chart }
    }

    pub fn get_open_vec(&self) -> (r: Vec<u64>)
        ensures
            r.len() == self.chart.len(),
            forall|i: int| 0 <= i < r.len() ==> (#[trigger] r[i]) == self.chart[i].open,
    {
        figures(&self.chart, Field::Open)
    }

    pub fn get_high_vec(&self) -> (r: Vec<u64>)
        ensures
            r.len() == self.chart.len(),
            forall|i: int| 0 <= i < r.len() ==> (#[trigger] r[i]) == self.chart[i].high,
    {
        figures(&self.chart, Field::High)
    }

    pub fn get_low_vec(&self) -> (r: Vec<u64>)
        ensures
            r.len() == self.chart.len(),
            forall|i: int| 0 <= i < r.len() ==> (#[trigger] r[i]) == self.chart[i].low,
    {
        figures(&self.chart, Field::Low)
    }

    pub fn get_close_vec(&self) -> (r: Vec<u64>)
        ensures
            r.len() == self.chart.len(),
            forall|i: int| 0 <= i < r.len() ==> (#[trigger] r[i]) == self.chart[i].close,
    {
        figures(&self.chart, Field::Close)
    }

    pub fn get_volume_vec(&self) -> (r: Vec<u64>)
        ensures
            r.len() == self.chart.len(),
            forall|i: int| 0 <= i < r.len() ==> (#[trigger] r[i]) == self.chart[i].volume,
    {
        figures(&self.chart, Field::Volume)
    }

    pub fn get_adj_close_vec(&self) -> (r: Vec<u64>)
        ensures
            r.len() == self.chart.len(),
            forall|i: int| 0 <= i < r.len() ==> (#[trigger] r[i]) == self.chart[i].adj_close,
    {
        figures(&self.chart, Field::AdjClose)
    }
}

/// The figures of a bar.
#[derive(Debug, Clone, Copy, PartialEq, Eq, Structural)]
pub enum Field {
    Open,
    High,
    Low,
    Close,
    Volume,
    AdjClose,
}

impl Chart {
    /// The figure `field` of the bar.
    pub open spec fn figure(self, field: Field) -> u64 {
        match field {
            Field::Open => self.open,
            Field::High => self.high,
            Field::Low => self.low,
            Field::Close => self.close,
            Field::Volume => self.volume,
            Field::AdjClose => self.adj_close,
        }
    }

    /// The figure `field` of the bar.
    pub fn get(&self, field: Field) -> (r: u64)
        ensures
            r == self.figure(field),
    {
        match field {
            Field::Open => self.open,
            Field::High => self.high,
            Field::Low => self.low,
            Field::Close => self.close,
            Field::Volume => self.volume,
            Field::AdjClose => self.adj_close,
        }
    }
}

/// The figure `field` of each bar, in order.
pub fn figures(charts: &Vec<Chart>, field: Field) -> (r: Vec<u64>)
    ensures
        r.len() == charts.len(),
        forall|i: int| 0 <= i < r.len() ==> (#[trigger] r[i]) == charts[i].figure(field),
{
    let mut r: Vec<u64> = Vec::new();
    let mut i: usize = 0;
    while i < charts.len()
        invariant
            i <= charts.len(),
            r.len() == i,
            forall|j: int| 0 <= j < i ==> (#[trigger] r[j]) == charts[j].figure(field),
        decreases charts.len() - i,
    {
        r.push(charts[i].get(field));
        i = i + 1;
    }
    r
}

/// One row of a quote response: a moment, in seconds since the start of
/// 1970 in UTC, and the bar of the day it falls on.
#[derive(Debug, Clone, Copy, PartialEq, Eq, Structural)]
pub struct QuoteRow {
    pub timestamp: u64,
    pub chart: Chart,
}

/// The calendar date in UTC, as text, of the moment `timestamp` seconds
/// after the start of 1970; nothing where the calendar does not reach.
pub uninterp spec fn utc_date_text(timestamp: i64) -> Option<Seq<char>>;

/// Calls `time::OffsetDateTime::from_unix_timestamp` and writes the date of
/// what it returns as `time::Date` displays it. The contract claims no
/// more than that the outcome depends on `timestamp` alone: it is what
/// `utc_date_text` names.
#[verifier::external_body]
fn utc_date(timestamp: i64) -> (r: Option<String>)
    ensures
        r is Some <==> utc_date_text(timestamp) is Some,
        r matches Some(text) ==> utc_date_text(timestamp) == Some(text@),
{
    match time::OffsetDateTime::from_unix_timestamp(timestamp) {
        Ok(moment) => Some(moment.date().to_string()),
        Err(_) => None,
    }
}

/// The calendar date of the moment `timestamp`: a moment later than the
/// largest signed count of seconds has none.
pub open spec fn date_text(timestamp: u64) -> Option<Seq<char>> {
    if timestamp > i64::MAX {
        None
    } else {
        utc_date_text(timestamp as i64)
    }
}

/// The calendar date of the moment `timestamp`, as text.
pub fn date_of(timestamp: u64) -> (r: Result<String, BacktestError>)
    ensures
        r matches Ok(text) ==> date_text(timestamp) == Some(text@),
        r matches Err(e) ==> e == BacktestError::InvalidTimestamp && date_text(timestamp) is None,
{
    if timestamp > i64::MAX as u64 {
        return Err(BacktestError::InvalidTimestamp);
    }
    match utc_date(timestamp as i64) {
        Some(text) => Ok(text),
        None => Err(BacktestError::InvalidTimestamp),
    }
}

/// Some row's moment has no calendar date.
pub open spec fn undated(rows: Seq<QuoteRow>) -> bool {
    exists|i: int| 0 <= i < rows.len() && date_text((#[trigger] rows[i]).timestamp) is None
}

/// What a quote response offers: its rows, column by column, and as a
/// dated series.
pub trait Quote {
    /// The rows of the response, in order.
    spec fn rows(&self) -> Seq<QuoteRow>;

    /// The calendar date of each row.
    fn get_timestemp(&self) -> (r: Result<Vec<String>, BacktestError>)
        ensures
            r is Err <==> undated(self.rows()),
            r matches Err(e) ==> e == BacktestError::InvalidTimestamp,
            r matches Ok(dates) ==> {
                &&& dates.len() == self.rows().len()
                &&& forall|i: int|
                    0 <= i < dates.len() ==> date_text(self.rows()[i].timestamp) == Some(
                        (#[trigger] dates[i])@,
                    )
            },
    ;

    fn get_open(&self) -> (r: Vec<u64>)
        ensures
            r.len() == self.rows().len(),
            forall|i: int| 0 <= i < r.len() ==> (#[trigger] r[i]) == self.rows()[i].chart.open,
    ;

    fn get_high(&self) -> (r: Vec<u64>)
        ensures
            r.len() == self.rows().len(),
            forall|i: int| 0 <= i < r.len() ==> (#[trigger] r[i]) == self.rows()[i].chart.high,
    ;

    fn get_low(&self) -> (r: Vec<u64>)
        ensures
            r.len() == self.rows().len(),
            forall|i: int| 0 <= i < r.len() ==> (#[trigger] r[i]) == self.rows()[i].chart.low,
    ;

    fn get_close(&self) -> (r: Vec<u64>)
        ensures
            r.len() == self.rows().len(),
            forall|i: int| 0 <= i < r.len() ==> (#[trigger] r[i]) == self.rows()[i].chart.close,
    ;

    fn get_volume(&self) -> (r: Vec<u64>)
        ensures
            r.len() == self.rows().len(),
            forall|i: int| 0 <= i < r.len() ==> (#[trigger] r[i]) == self.rows()[i].chart.volume,
    ;

    fn get_adj_close(&self) -> (r: Vec<u64>)
        ensures
            r.len() == self.rows().len(),
            forall|i: int| 0 <= i < r.len() ==> (#[trigger] r[i]) == self.rows()[i].chart.adj_close,
    ;

    /// The bar of each row.
    fn to_chart_vec(&self) -> (r: Vec<Chart>)
        ensures
            r.len() == self.rows().len(),
            forall|i: int| 0 <= i < r.len() ==> (#[trigger] r[i]) == self.rows()[i].chart,
    ;

    /// The rows as the series of `symbol`: each bar under the calendar
    /// date of its moment.
    fn to_historical_chart(&self, symbol: &str) -> (r: Result<HistoricalChart, BacktestError>)
        ensures
            r is Err <==> undated(self.rows()),
            r matches Err(e) ==> e == BacktestError::InvalidTimestamp,
            r matches Ok(series) ==> {
                &&& series.symbol@ == symbol@
                &&& series.date.len() == self.rows().len()
                &&& series.chart.len() == self.rows().len()
                &&& forall|i: int|
                    0 <= i < series.date.len() ==> date_text(self.rows()[i].timestamp) == Some(
                        (#[trigger] series.date[i])@,
                    )
                &&& forall|i: int|
                    0 <= i < series.chart.len() ==> (#[trigger] series.chart[i])
                        == self.rows()[i].chart
            },
    ;
}

impl Quote for Vec<QuoteRow> {
    open spec fn rows(&self) -> Seq<QuoteRow> {
        self@
    }

    fn get_timestemp(&self) -> (r: Result<Vec<String>, BacktestError>) {
        let mut dates: Vec<String> = Vec::new();
        let mut i: usize = 0;
        while i < self.len()
            invariant
                i <= self.len(),
                dates.len() == i,
                forall|j: int|
                    0 <= j < i ==> date_text(self@[j].timestamp) == Some((#[trigger] dates[j])@),
            decreases self.len() - i,
        {
            let text = date_of(self[i].timestamp)?;
            dates.push(text);
            i = i + 1;
        }
        proof {
            assert forall|j: int| 0 <= j < self@.len() implies !(date_text(
                (#[trigger] self@[j]).timestamp,
            ) is None) by {
                assert(date_text(self@[j].timestamp) == Some(dates[j]@));
            }
        }
        Ok(dates)
    }

    fn get_open(&self) -> (r: Vec<u64>) {
        figures(&self.to_chart_vec(), Field::Open)
    }

    fn get_high(&self) -> (r: Vec<u64>) {
        figures(&self.to_chart_vec(), Field::High)
    }

    fn get_low(&self) -> (r: Vec<u64>) {
        figures(&self.to_chart_vec(), Field::Low)
    }

    fn get_close(&self) -> (r: Vec<u64>) {
        figures(&self.to_chart_vec(), Field::Close)
    }

    fn get_volume(&self) -> (r: Vec<u64>) {
        figures(&self.to_chart_vec(), Field::Volume)
    }

    fn get_adj_close(&self) -> (r: Vec<u64>) {
        figures(&self.to_chart_vec(), Field::AdjClose)
    }

    fn to_chart_vec(&self) -> (r: Vec<Chart>) {
        let mut r: Vec<Chart> = Vec::new();
        let mut i: usize = 0;
        while i < self.len()
            invariant
                i <= self.len(),
                r.len() == i,
                forall|j: int| 0 <= j < i ==> (#[trigger] r[j]) == self@[j].chart,
            decreases self.len() - i,
        {
            r.push(self[i].chart);
            i = i + 1;
        }
        r
    }

    fn to_historical_chart(&self, symbol: &str) -> (r: Result<HistoricalChart, BacktestError>) {
        let date = self.get_timestemp()?;
        let chart = self.to_chart_vec();
        Ok(HistoricalChart::new(symbol, date, chart))
    }
}

/// The moment that `text` gives when it is read by the format description
/// `format`, in seconds since the start of 1970 in UTC; nothing where the
/// description is not one or the text does not follow it.
pub uninterp spec fn moment_of(text: Seq<char>, format: Seq<char>) -> Option<i64>;

/// Calls `time::format_description::parse_borrowed`, in its first version,
/// on `format` and `time::OffsetDateTime::parse` on `text` with what that
/// gave, and takes the Unix timestamp of the result. The contract claims no
/// more than that the outcome depends on the two texts alone: it is what
/// `moment_of` names.
#[verifier::external_body]
fn read_moment(text: &str, format: &str) -> (r: Option<i64>)
    ensures
        r == moment_of(text@, format@),
{
    let items = match time::format_description::parse_borrowed::<1>(format) {
        Ok(items) => items,
        Err(_) => return None,
    };
    match time::OffsetDateTime::parse(text, &items) {
        Ok(moment) => Some(moment.unix_timestamp()),
        Err(_) => None,
    }
}

/// The span of time for which data is asked, from `start` to `end`, both
/// in seconds since the start of 1970 in UTC.
#[derive(Debug, Clone, Copy, PartialEq, Eq, Structural)]
pub struct DateRange {
    pub start: i64,
    pub end: i64,
}

/// The moment that `text` gives as a date, a time of day and the hours by
/// which its clock is off UTC, such as `2016-01-01 00:00:00 +09`.
pub open spec fn moment_text(text: Seq<char>) -> Option<i64> {
    moment_of(text, "[year]-[month]-[day] [hour]:[minute]:[second] [offset_hour sign:mandatory]"@)
}

/// The span from the moment that `from` gives to the one that `to` gives.
pub fn parse_range(from: &str, to: &str) -> (r: Result<DateRange, BacktestError>)
    ensures
        r is Ok <==> moment_text(from@) is Some && moment_text(to@) is Some,
        r matches Ok(range) ==> moment_text(from@) == Some(range.start) && moment_text(to@) == Some(
            range.end,
        ),
        r matches Err(e) ==> e == BacktestError::InvalidDate,
{
    let format = "[year]-[month]-[day] [hour]:[minute]:[second] [offset_hour sign:mandatory]";
    let start = match read_moment(from, format) {
        Some(start) => start,
        None => {
            return Err(BacktestError::InvalidDate);
        },
    };
    let end = match read_moment(to, format) {
        Some(end) => end,
        None => {
            return Err(BacktestError::InvalidDate);
        },
    };
    Ok(DateRange { start, end })
}

} // verus!
