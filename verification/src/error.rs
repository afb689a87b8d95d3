//! The reasons for which the engine refuses to go on.

use vstd::prelude::*;

verus! {

/// Why a construction or a simulation step was refused.
#[derive(Debug, Clone, Copy, PartialEq, Eq, Structural)]
pub enum BacktestError {
    /// A symbol, or the risk-free instrument, came without usable data.
    DataUnavailable,
    /// A series quotes a common trading day twice, so that it has more
    /// bars for the common days than there are such days.
    AlignmentInvariantViolation,
    /// The portfolio was worth nothing, or less, after `day` valid days.
    DegeneratePortfolioValue { day: usize },
    /// A strategy holds no target weight for a symbol of the portfolio.
    MissingWeight,
    /// The target weights of the portfolio's symbols add up to more than one.
    InvalidWeights,
    /// A periodic rebalance was asked for with a period of zero days.
    InvalidPeriod,
    /// A share count was to be sized against a price of zero.
    ZeroPrice,
    /// An order list does not name the portfolio's symbols slot for slot.
    SymbolMismatch,
    /// An order sells more shares than the portfolio holds.
    InsufficientShares,
    /// An amount left the range in which the engine keeps money and shares.
    Overflow,
    /// A timestamp lies outside the calendar.
    InvalidTimestamp,
    /// An end of the date range does not read as a moment.
    InvalidDate,
}

impl BacktestError {
    /// What the error says, in words.
    pub open spec fn text(&self) -> Seq<char> {
        match self {
            BacktestError::DataUnavailable => "no usable data for a symbol or for the risk-free rate"@,
            BacktestError::AlignmentInvariantViolation => "a series quotes a common day twice"@,
            BacktestError::DegeneratePortfolioValue { .. } => "the portfolio is worth nothing"@,
            BacktestError::MissingWeight => "a symbol has no target weight"@,
            BacktestError::InvalidWeights => "the target weights add up to more than one"@,
            BacktestError::InvalidPeriod => "the rebalance period is zero"@,
            BacktestError::ZeroPrice => "a symbol trades at a price of zero"@,
            BacktestError::SymbolMismatch => "the orders do not name the portfolio's symbols"@,
            BacktestError::InsufficientShares => "an order sells more than is held"@,
            BacktestError::Overflow => "an amount is out of range"@,
            BacktestError::InvalidTimestamp => "a timestamp lies outside the calendar"@,
            BacktestError::InvalidDate => "an end of the date range does not read as a moment"@,
        }
    }

    /// What the error says, in words.
    pub fn message(&self) -> (r: String)
        ensures
            r@ == self.text(),
    {
        match self {
            BacktestError::DataUnavailable => {
                "no usable data for a symbol or for the risk-free rate".to_owned()
            },
            BacktestError::AlignmentInvariantViolation => {
                "a series quotes a common day twice".to_owned()
            },
            BacktestError::DegeneratePortfolioValue { .. } => "the portfolio is worth nothing".to_owned(),
            BacktestError::MissingWeight => "a symbol has no target weight".to_owned(),
            BacktestError::InvalidWeights => "the target weights add up to more than one".to_owned(),
            BacktestError::InvalidPeriod => "the rebalance period is zero".to_owned(),
            BacktestError::ZeroPrice => "a symbol trades at a price of zero".to_owned(),
            BacktestError::SymbolMismatch => "the orders do not name the portfolio's symbols".to_owned(),
            BacktestError::InsufficientShares => "an order sells more than is held".to_owned(),
            BacktestError::Overflow => "an amount is out of range".to_owned(),
            BacktestError::InvalidTimestamp => "a timestamp lies outside the calendar".to_owned(),
            BacktestError::InvalidDate => "an end of the date range does not read as a moment".to_owned(),
        }
    }
}

} // verus!
