//! Target weights: for each symbol, the part of the portfolio meant for it.

use vstd::prelude::*;
use crate::symbols::{distinct, find_slot, is_absent, is_slot_of};

verus! {

/// A table from symbols to target weights, in billionths of the whole.
#[derive(Debug, Clone)]
pub struct Weights {
    pub symbols: Vec<String>,
    pub weights: Vec<u64>,
}

impl Weights {
    /// Every symbol has a weight, and none is named twice.
    pub open spec fn wf(&self) -> bool {
        self.symbols.len() == self.weights.len() && distinct(self.symbols@)
    }

    /// The weight held for the symbol that reads `t`: that of the first
    /// entry under that name.
    pub open spec fn weight_of(&self, t: Seq<char>) -> Option<u64> {
        if exists|slot: int| is_slot_of(self.symbols@, t, slot) {
            Some(self.weights[choose|slot: int| is_slot_of(self.symbols@, t, slot)])
        } else {
            None
        }
    }

    /// The weights of the first `n` of `names` together, a missing one
    /// counting as nothing.
    pub open spec fn total_of(&self, names: Seq<String>, n: int) -> int
        decreases n,
    {
        if n <= 0 {
            0
        } else {
            self.total_of(names, n - 1) + match self.weight_of(names[n - 1]@) {
                Some(w) => w as int,
                None => 0,
            }
        }
    }

    /// The first `n` weights of the table together.
    pub open spec fn sum_to(&self, n: int) -> int
        decreases n,
    {
        if n <= 0 {
            0
        } else {
            self.sum_to(n - 1) + self.weights[n - 1]
        }
    }

    /// All the weights of the table together.
    pub open spec fn sum(&self) -> int {
        self.sum_to(self.weights.len() as int)
    }

    /// Some one of `names` has no weight.
    pub open spec fn misses(&self, names: Seq<String>) -> bool {
        exists|i: int| 0 <= i < names.len() && self.weight_of(#[trigger] names[i]@) is None
    }

    /// The empty table.
    pub fn new() -> (w: Weights)
        ensures
            w.wf(),
            w.symbols.len() == 0,
    {
        Weights { symbols: Vec::new(), weights: Vec::new() }
    }

    /// Sets the weight of `symbol`, in its entry or in a new one.
    pub fn insert(&mut self, symbol: &str, weight: u64)
        requires
            old(self).wf(),
        ensures
            final(self).wf(),
            final(self).weight_of(symbol@) == Some(weight),
            forall|t: Seq<char>| t != symbol@ ==> final(self).weight_of(t) == old(self).weight_of(t),
    {
        match find_slot(&self.symbols, symbol) {
            Some(slot) => {
                self.weights.set(slot, weight);
                proof {
                    assert(is_slot_of(self.symbols@, symbol@, slot as int));
                    lemma_slot_unique(self.symbols@, symbol@);
                    assert forall|t: Seq<char>| t != symbol@ implies self.weight_of(t) == old(
                        self,
                    ).weight_of(t) by {
                        lemma_slot_unique(self.symbols@, t);
                        if exists|s: int| is_slot_of(self.symbols@, t, s) {
                            let s = choose|s: int| is_slot_of(self.symbols@, t, s);
                            assert(s != slot);
                        }
                    }
                }
            },
            None => {
                let ghost before = self.symbols@;
                self.symbols.push(symbol.to_owned());
                self.weights.push(weight);
                proof {
                    let at = before.len() as int;
                    assert forall|j: int| 0 <= j < at implies #[trigger] before[j]
                        == self.symbols@[j] by {}
                    assert(is_slot_of(self.symbols@, symbol@, at));
                    lemma_slot_unique(self.symbols@, symbol@);
                    assert forall|t: Seq<char>| t != symbol@ implies self.weight_of(t) == old(
                        self,
                    ).weight_of(t) by {
                        lemma_slot_unique(self.symbols@, t);
                        lemma_slot_unique(before, t);
                        if exists|s: int| is_slot_of(self.symbols@, t, s) {
                            let s = choose|s: int| is_slot_of(self.symbols@, t, s);
                            assert(s != at);
                            assert(is_slot_of(before, t, s));
                        }
                        if exists|s: int| is_slot_of(before, t, s) {
                            let s = choose|s: int| is_slot_of(before, t, s);
                            assert(is_slot_of(self.symbols@, t, s));
                        }
                    }
                }
            },
        }
    }

    /// Whether the weights together are no more than `limit`.
    pub fn within(&self, limit: u64) -> (r: bool)
        ensures
            r == (self.sum() <= limit),
    {
        let mut whole: u128 = 0;
        let mut i: usize = 0;
        while i < self.weights.len()
            invariant
                i <= self.weights.len(),
                whole == self.sum_to(i as int),
                whole <= limit,
            decreases self.weights.len() - i,
        {
            if whole + (self.weights[i] as u128) > limit as u128 {
                proof {
                    lemma_sum_grows(*self, i as int + 1, self.weights.len() as int);
                }
                return false;
            }
            whole = whole + (self.weights[i] as u128);
            i = i + 1;
        }
        true
    }

    /// A table that holds what this one holds.
    pub fn duplicate(&self) -> (r: Weights)
        requires
            self.wf(),
        ensures
            r.wf(),
            r.symbols@ == self.symbols@,
            r.weights@ == self.weights@,
    {
        let mut symbols: Vec<String> = Vec::new();
        let mut weights: Vec<u64> = Vec::new();
        let mut i: usize = 0;
        while i < self.symbols.len()
            invariant
                i <= self.symbols.len(),
                self.wf(),
                symbols@ == self.symbols@.take(i as int),
                weights@ == self.weights@.take(i as int),
            decreases self.symbols.len() - i,
        {
            symbols.push(self.symbols[i].clone());
            weights.push(self.weights[i]);
            proof {
                assert(self.symbols@.take(i as int + 1) =~= self.symbols@.take(i as int).push(
                    self.symbols@[i as int],
                ));
                assert(self.weights@.take(i as int + 1) =~= self.weights@.take(i as int).push(
                    self.weights@[i as int],
                ));
            }
            i = i + 1;
        }
        proof {
            assert(self.symbols@.take(i as int) =~= self.symbols@);
            assert(self.weights@.take(i as int) =~= self.weights@);
        }
        Weights { symbols, weights }
    }

    /// The weight held for `symbol`, if any.
    pub fn get(&self, symbol: &str) -> (r: Option<u64>)
        requires
            self.wf(),
        ensures
            r == self.weight_of(symbol@),
    {
        proof {
            lemma_slot_unique(self.symbols@, symbol@);
        }
        match find_slot(&self.symbols, symbol) {
            Some(slot) => Some(self.weights[slot]),
            None => None,
        }
    }
}

/// The sum of the weights never shrinks as weights are added.
pub proof fn lemma_sum_grows(table: Weights, m: int, n: int)
    requires
        0 <= m <= n,
    ensures
        0 <= table.sum_to(m) <= table.sum_to(n),
    decreases n,
{
    if n > 0 {
        if m < n {
            lemma_sum_grows(table, m, n - 1);
        } else {
            lemma_sum_grows(table, m - 1, n - 1);
        }
    }
}

/// At most one position is the first that reads `t`.
pub proof fn lemma_slot_unique(names: Seq<String>, t: Seq<char>)
    ensures
        forall|a: int, b: int| is_slot_of(names, t, a) && is_slot_of(names, t, b) ==> a == b,
        is_absent(names, t) ==> !exists|slot: int| is_slot_of(names, t, slot),
{
}

/// The weight that `table` holds for each of `names`, in order; nothing
/// where it misses one.
pub fn targets_of(table: &Weights, names: &Vec<String>) -> (r: Option<Vec<u64>>)
    requires
        table.wf(),
    ensures
        r is None <==> table.misses(names@),
        r matches Some(targets) ==> {
            &&& targets.len() == names.len()
            &&& forall|i: int|
                0 <= i < names.len() ==> table.weight_of(names[i]@) == Some(#[trigger] targets[i])
        },
{
    let mut targets: Vec<u64> = Vec::new();
    let mut i: usize = 0;
    while i < names.len()
        invariant
            i <= names.len(),
            table.wf(),
            targets.len() == i,
            forall|j: int| 0 <= j < i ==> table.weight_of(names[j]@) == Some(#[trigger] targets[j]),
        decreases names.len() - i,
    {
        match table.get(names[i].as_str()) {
            Some(w) => {
                targets.push(w);
            },
            None => {
                return None;
            },
        }
        i = i + 1;
    }
    proof {
        assert forall|j: int| 0 <= j < names.len() implies !(table.weight_of(
            #[trigger] names[j]@,
        ) is None) by {
            assert(table.weight_of(names[j]@) == Some(targets[j]));
        }
    }
    Some(targets)
}

/// The weights of the first `n` names together, where none is missing.
pub proof fn lemma_total_of(table: Weights, names: Seq<String>, targets: Seq<u64>, n: int)
    requires
        0 <= n <= names.len(),
        targets.len() == names.len(),
        forall|i: int| 0 <= i < names.len() ==> table.weight_of(names[i]@) == Some(#[trigger] targets[i]),
    ensures
        0 <= table.total_of(names, n) <= n * u64::MAX,
        n > 0 ==> table.total_of(names, n) == table.total_of(names, n - 1) + targets[n - 1],
        n > 0 ==> targets[n - 1] <= table.total_of(names, n),
    decreases n,
{
    if n > 0 {
        lemma_total_of(table, names, targets, n - 1);
        assert(table.weight_of(names[n - 1]@) == Some(targets[n - 1]));
        assert(n * u64::MAX == (n - 1) * u64::MAX + u64::MAX) by (nonlinear_arith);
    }
}

/// The sum of weights never shrinks as names are added.
pub proof fn lemma_total_of_grows(table: Weights, names: Seq<String>, m: int, n: int)
    requires
        0 <= m <= n,
    ensures
        0 <= table.total_of(names, m) <= table.total_of(names, n),
    decreases n,
{
    if n > 0 {
        if m < n {
            lemma_total_of_grows(table, names, m, n - 1);
        } else {
            lemma_total_of_grows(table, names, m - 1, n - 1);
        }
    }
}

} // verus!
