//! The cash-and-shares portfolio, and orders against it.

use vstd::prelude::*;
use crate::text::copy_texts;
use crate::symbols::{
    distinct, find_slot, first_occurrences, first_positions, is_absent, is_slot_of,
    lemma_first_positions,
};

verus! {

/// A cash balance in ticks and a share count for each symbol. The symbol
/// `symbols[j]` owns the slot `j`, and `shares[j]` is what is held of it.
///
/// No share count is negative. The cash may be: buying the full target
/// weights' worth and paying fees on it takes more cash than there is.
#[derive(Debug, Clone)]
pub struct Portfolio {
    pub balance: i64,
    pub symbols: Vec<String>,
    pub shares: Vec<u64>,
}

/// A portfolio as the contracts see it.
pub struct PortfolioView {
    pub balance: int,
    pub symbols: Seq<String>,
    pub shares: Seq<int>,
}

impl View for Portfolio {
    type V = PortfolioView;

    open spec fn view(&self) -> PortfolioView {
        PortfolioView {
            balance: self.balance as int,
            symbols: self.symbols@,
            shares: Seq::new(self.shares@.len(), |i: int| self.shares@[i] as int),
        }
    }
}

impl PortfolioView {
    /// Every symbol has a share count, and none is named twice.
    pub open spec fn wf(&self) -> bool {
        self.symbols.len() == self.shares.len() && distinct(self.symbols)
    }
}

/// An intent to trade: `shares` of `symbol`, bought where positive and sold
/// where negative.
#[derive(Debug, Clone)]
pub struct Order {
    pub symbol: String,
    pub shares: i64,
}

impl Order {
    pub fn new(symbol: &str, shares: i64) -> (order: Order)
        ensures
            order.symbol@ == symbol@,
            order.shares == shares,
    {
        Order { symbol: symbol.to_owned(), shares }
    }
}

impl Portfolio {
    /// Every symbol has a share count, and none is named twice.
    pub open spec fn wf(&self) -> bool {
        self@.wf()
    }

    /// A portfolio of `balance` in cash and no shares, with a slot for each
    /// symbol where `symbols` first names it.
    pub fn new(balance: i64, symbols: &Vec<String>) -> (p: Portfolio)
        ensures
            p.wf(),
            p.balance == balance,
            p.symbols.len() == first_positions(symbols@, symbols.len() as int).len(),
            forall|j: int|
                0 <= j < p.symbols.len() ==> (#[trigger] p.symbols[j])@ == symbols[first_positions(
                    symbols@,
                    symbols.len() as int,
                )[j]]@,
            forall|j: int| 0 <= j < p.shares.len() ==> (#[trigger] p.shares[j]) == 0,
    {
        let firsts = first_occurrences(symbols);
        let mut names: Vec<String> = Vec::new();
        let mut shares: Vec<u64> = Vec::new();
        let mut j: usize = 0;
        while j < firsts.len()
            invariant
                j <= firsts.len(),
                names.len() == j,
                shares.len() == j,
                forall|i: int| 0 <= i < firsts.len() ==> (#[trigger] firsts[i]) < symbols.len(),
                forall|i: int| 0 <= i < j ==> (#[trigger] names[i])@ == symbols[firsts[i] as int]@,
                forall|i: int| 0 <= i < j ==> (#[trigger] shares[i]) == 0,
            decreases firsts.len() - j,
        {
            names.push(symbols[firsts[j]].clone());
            shares.push(0);
            j = j + 1;
        }
        proof {
            lemma_first_positions(symbols@, symbols.len() as int);
        }
        Portfolio { balance, symbols: names, shares }
    }

    /// The symbols, in slot order.
    pub fn get_symbols(&self) -> (r: Vec<String>)
        ensures
            r.len() == self.symbols.len(),
            forall|j: int| 0 <= j < r.len() ==> (#[trigger] r[j])@ == self.symbols[j]@,
    {
        let mut r: Vec<String> = Vec::new();
        let mut j: usize = 0;
        while j < self.symbols.len()
            invariant
                j <= self.symbols.len(),
                r.len() == j,
                forall|i: int| 0 <= i < j ==> (#[trigger] r[i])@ == self.symbols[i]@,
            decreases self.symbols.len() - j,
        {
            r.push(self.symbols[j].clone());
            j = j + 1;
        }
        r
    }

    /// The shares held of `symbol`, if the portfolio has a slot for it.
    pub fn get_share(&self, symbol: &str) -> (r: Option<u64>)
        requires
            self.wf(),
        ensures
            r matches Some(held) ==> exists|slot: int|
                is_slot_of(self.symbols@, symbol@, slot) && held == self.shares[slot],
            r is None ==> is_absent(self.symbols@, symbol@),
    {
        match find_slot(&self.symbols, symbol) {
            Some(slot) => Some(self.shares[slot]),
            None => None,
        }
    }

    /// A portfolio that holds what this one holds.
    pub fn duplicate(&self) -> (r: Portfolio)
        ensures
            r.balance == self.balance,
            r.symbols@ == self.symbols@,
            r.shares@ == self.shares@,
            r@ == self@,
    {
        let mut shares: Vec<u64> = Vec::new();
        let mut i: usize = 0;
        while i < self.shares.len()
            invariant
                i <= self.shares.len(),
                shares@ == self.shares@.take(i as int),
            decreases self.shares.len() - i,
        {
            shares.push(self.shares[i]);
            proof {
                assert(self.shares@.take(i as int + 1) =~= self.shares@.take(i as int).push(
                    self.shares@[i as int],
                ));
            }
            i = i + 1;
        }
        proof {
            assert(self.shares@.take(i as int) =~= self.shares@);
        }
        let r = Portfolio { balance: self.balance, symbols: copy_texts(&self.symbols), shares };
        assert(r@.shares =~= self@.shares);
        r
    }

    /// The share count of `symbol`, to be changed in place, if the
    /// portfolio has a slot for it.
    pub fn get_share_mut(&mut self, symbol: &str) -> (r: Option<&mut u64>)
        requires
            old(self).wf(),
        ensures
            r is None ==> is_absent(old(self).symbols@, symbol@) && *final(self) == *old(self),
            r matches Some(held) ==> exists|slot: int|
                is_slot_of(old(self).symbols@, symbol@, slot) && *held == old(self).shares[slot]
                    && final(self).shares@ == old(self).shares@.update(slot, *final(held))
                    && final(self).symbols == old(self).symbols
                    && final(self).balance == old(self).balance,
    {
        match find_slot(&self.symbols, symbol) {
            Some(slot) => Some(&mut self.shares[slot]),
            None => None,
        }
    }

    pub fn get_balance(&self) -> (r: i64)
        ensures
            r == self.balance,
    {
        self.balance
    }

    /// Sets the shares held of `symbol`, in its slot or in a new one.
    pub fn update_share(&mut self, symbol: &str, share: u64)
        requires
            old(self).wf(),
        ensures
            final(self).wf(),
            final(self).balance == old(self).balance,
            is_absent(old(self).symbols@, symbol@) ==> {
                &&& final(self).symbols@.len() == old(self).symbols@.len() + 1
                &&& final(self).symbols@.last()@ == symbol@
                &&& final(self).symbols@.drop_last() == old(self).symbols@
                &&& final(self).shares@ == old(self).shares@.push(share)
            },
            forall|slot: int|
                is_slot_of(old(self).symbols@, symbol@, slot) ==> {
                    &&& final(self).symbols@ == old(self).symbols@
                    &&& final(self).shares@ == old(self).shares@.update(slot, share)
                },
    {
        match find_slot(&self.symbols, symbol) {
            Some(slot) => {
                self.shares.set(slot, share);
                assert forall|other: int| is_slot_of(old(self).symbols@, symbol@, other) implies other
                    == slot by {}
            },
            None => {
                self.symbols.push(symbol.to_owned());
                self.shares.push(share);
                assert(self.symbols@.drop_last() =~= old(self).symbols@);
            },
        }
    }

    pub fn update_balance(&mut self, balance: i64)
        ensures
            final(self).balance == balance,
            final(self).symbols == old(self).symbols,
            final(self).shares == old(self).shares,
    {
        self.balance = balance;
    }
}

} // verus!
