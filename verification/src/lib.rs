//! A day-stepped backtesting engine for portfolio trading strategies.
//!
//! Given the daily bars of some instruments and of a risk-free proxy, the
//! engine aligns them on the trading days they share, lets a strategy trade
//! a cash-and-shares portfolio day by day, and records what each day left.
//!
//! Every step is exact integer arithmetic with a proved result. Money is
//! counted in whole ticks of a unit that the caller chooses, and kept within
//! the range of `i64`; every rate, weight and fee is counted in billionths.
//! Where a product has to be brought back to ticks or to shares it is
//! rounded toward zero. What needs roots and powers (volatility, Sharpe
//! ratios, annual growth, the daily rate behind an annual one) is for the
//! caller to derive from the exact figures.
//!
//! - [`api`]: bars, dated series, and the reading of timestamps and dates.
//! - [`market`], [`align`]: the alignment of series on their common days.
//! - [`portfolio`], [`ledger`], [`fixed`]: portfolios, and what valuation,
//!   orders and interest do to them.
//! - [`strategy`], [`weights`]: rebalance rules and strategies.
//! - [`trade`], [`report`]: the backtester, a run, and its figures.
//! - [`laws`]: what holds of every alignment and of every run.

pub mod align;
pub mod api;
pub mod error;
pub mod fixed;
pub mod laws;
pub mod ledger;
pub mod market;
pub mod portfolio;
pub mod report;
pub mod strategy;
pub mod symbols;
pub mod text;
pub mod trade;
pub mod weights;
