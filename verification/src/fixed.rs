//! Exact arithmetic on money and rates.
//!
//! Money is a whole number of ticks. A rate, weight or fee is a whole number
//! of billionths. Where a product has to be brought back to ticks or to
//! shares, the quotient is rounded toward zero.

use vstd::prelude::*;

verus! {

/// One, counted in billionths.
pub const SCALE: u64 = 1_000_000_000;

/// The largest amount of money that the engine keeps, in ticks.
pub const MONEY_MAX: i64 = 0x7fff_ffff_ffff_ffff;

/// `a / b` rounded toward zero.
pub open spec fn trunc_div(a: int, b: int) -> int
    recommends
        b > 0,
{
    if a >= 0 {
        a / b
    } else {
        -((-a) / b)
    }
}

/// The size of `x`.
pub open spec fn magnitude(x: int) -> int {
    if x >= 0 {
        x
    } else {
        -x
    }
}

/// `x` is an amount of money that the engine keeps.
pub open spec fn is_money(x: int) -> bool {
    -MONEY_MAX <= x <= MONEY_MAX
}

/// The fee on trading `qty` shares at `price`: the rate `fee` of the traded
/// amount, with the sign of `qty`.
pub open spec fn trade_fee(price: int, qty: int, fee: int) -> int {
    trunc_div(price * qty * fee, SCALE as int)
}

/// What trading `qty` shares at `price` takes from the cash balance: the
/// traded amount and the fee on it. A sale has a negative cost.
pub open spec fn trade_cost(price: int, qty: int, fee: int) -> int {
    price * qty + trade_fee(price, qty, fee)
}

/// The whole number of shares that the part `weight` of `cash` buys at
/// `price`.
pub open spec fn target_shares(cash: int, weight: int, price: int) -> int
    recommends
        price > 0,
{
    trunc_div(cash * weight, price * SCALE)
}

/// One day of interest on `balance` at the daily rate `rate`.
pub open spec fn interest(balance: int, rate: int) -> int {
    trunc_div(balance * rate, SCALE as int)
}

/// The size of `x`.
pub fn magnitude_of(x: i64) -> (r: u64)
    ensures
        r == magnitude(x as int),
{
    if x >= 0 {
        x as u64
    } else {
        let wide: i128 = -(x as i128);
        wide as u64
    }
}

/// The cost of trading `qty` shares at `price`, if the traded amount is
/// money that the engine keeps.
pub fn cost_of(price: u64, qty: i64, fee: u64) -> (r: Option<i128>)
    ensures
        r is Some <==> price * magnitude(qty as int) <= MONEY_MAX,
        r matches Some(c) ==> c == trade_cost(price as int, qty as int, fee as int),
{
    let shares: u64 = magnitude_of(qty);
    assert(price as int * shares as int <= 0xffff_ffff_ffff_ffff * 0x8000_0000_0000_0000)
        by (nonlinear_arith)
        requires
            price <= 0xffff_ffff_ffff_ffff,
            shares <= 0x8000_0000_0000_0000,
    ;
    let traded: u128 = (price as u128) * (shares as u128);
    if traded > MONEY_MAX as u128 {
        return None;
    }
    assert(traded as int * fee as int <= 0x7fff_ffff_ffff_ffff * 0xffff_ffff_ffff_ffff)
        by (nonlinear_arith)
        requires
            0 <= traded <= 0x7fff_ffff_ffff_ffff,
            0 <= fee <= 0xffff_ffff_ffff_ffff,
    ;
    let charged: u128 = traded * (fee as u128) / (SCALE as u128);
    let total: i128 = (traded + charged) as i128;
    proof {
        let p = price as int;
        let q = qty as int;
        let f = fee as int;
        if q >= 0 {
            assert(p * q * f == traded * f) by (nonlinear_arith)
                requires
                    traded == p * q,
            ;
            assert(p * q * f >= 0) by (nonlinear_arith)
                requires
                    p >= 0,
                    q >= 0,
                    f >= 0,
            ;
        } else {
            assert(-(p * q * f) == traded * f && p * q == -traded) by (nonlinear_arith)
                requires
                    traded == p * (-q),
            ;
            assert(traded * f >= 0) by (nonlinear_arith)
                requires
                    traded >= 0,
                    f >= 0,
            ;
        }
    }
    if qty >= 0 {
        Some(total)
    } else {
        Some(-total)
    }
}

/// The whole number of shares that the part `weight` of `cash` buys at
/// `price`.
pub fn shares_for(cash: i64, weight: u64, price: u64) -> (r: i128)
    requires
        price > 0,
    ensures
        r == target_shares(cash as int, weight as int, price as int),
{
    assert(cash as int * weight as int <= 0x7fff_ffff_ffff_ffff * 0xffff_ffff_ffff_ffff
        && cash as int * weight as int >= -0x8000_0000_0000_0000 * 0xffff_ffff_ffff_ffff)
        by (nonlinear_arith)
        requires
            -0x8000_0000_0000_0000 <= cash <= 0x7fff_ffff_ffff_ffff,
            0 <= weight <= 0xffff_ffff_ffff_ffff,
    ;
    assert(price as int * SCALE as int <= 0xffff_ffff_ffff_ffff * 1_000_000_000
        && price as int * SCALE as int > 0) by (nonlinear_arith)
        requires
            0 < price <= 0xffff_ffff_ffff_ffff,
            SCALE == 1_000_000_000,
    ;
    let part: i128 = (cash as i128) * (weight as i128);
    let unit: i128 = (price as i128) * (SCALE as i128);
    part / unit
}

/// One day of interest on `balance` at the daily rate `rate`.
pub fn interest_on(balance: i64, rate: u64) -> (r: i128)
    ensures
        r == interest(balance as int, rate as int),
{
    assert(balance as int * rate as int <= 0x7fff_ffff_ffff_ffff * 0xffff_ffff_ffff_ffff
        && balance as int * rate as int >= -0x8000_0000_0000_0000 * 0xffff_ffff_ffff_ffff)
        by (nonlinear_arith)
        requires
            -0x8000_0000_0000_0000 <= balance <= 0x7fff_ffff_ffff_ffff,
            0 <= rate <= 0xffff_ffff_ffff_ffff,
    ;
    let grown: i128 = (balance as i128) * (rate as i128);
    grown / (SCALE as i128)
}

} // verus!
