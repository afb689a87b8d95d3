//! Laying several dated series onto the trading days they all share.

use vstd::prelude::*;
use crate::api::HistoricalChart;
use crate::text::{
    lemma_text_lt_asymmetric, lemma_text_lt_irreflexive, lemma_text_lt_total,
    lemma_text_lt_transitive, lists, sorts_before, strictly_ascending, text_lt,
};

verus! {

/// The day that reads `t` is quoted by the risk-free series and by every
/// one of `histories`.
pub open spec fn is_common(
    histories: Seq<HistoricalChart>,
    risk_free: HistoricalChart,
    t: Seq<char>,
) -> bool {
    &&& lists(risk_free.date@, t)
    &&& forall|k: int| 0 <= k < histories.len() ==> lists((#[trigger] histories[k]).date@, t)
}

/// `calendar` is the list of the common days: strictly ascending, hence
/// without duplicates, and holding exactly the days that every series quotes.
pub open spec fn is_calendar(
    calendar: Seq<String>,
    histories: Seq<HistoricalChart>,
    risk_free: HistoricalChart,
) -> bool {
    &&& strictly_ascending(calendar)
    &&& forall|t: Seq<char>| lists(calendar, t) <==> is_common(histories, risk_free, t)
}

/// The days of `dates` that `calendar` lists stand in strictly ascending
/// order: none twice, none before an earlier one.
pub open spec fn orderly(dates: Seq<String>, calendar: Seq<String>) -> bool {
    forall|p: int, q: int|
        0 <= p < q < dates.len() && lists(calendar, #[trigger] dates[p]@) && lists(
            calendar,
            #[trigger] dates[q]@,
        ) ==> text_lt(dates[p]@, dates[q]@)
}

/// Whether `dates` holds a text that reads as `t` does.
pub fn holds_date(dates: &Vec<String>, t: &String) -> (r: bool)
    ensures
        r == lists(dates@, t@),
{
    let mut i: usize = 0;
    while i < dates.len()
        invariant
            i <= dates.len(),
            forall|j: int| 0 <= j < i ==> dates[j]@ != t@,
        decreases dates.len() - i,
    {
        if dates[i] == *t {
            return true;
        }
        i = i + 1;
    }
    false
}

/// Whether every one of `histories` quotes the day `t`.
pub fn quoted_by_all(histories: &Vec<HistoricalChart>, t: &String) -> (r: bool)
    ensures
        r == (forall|k: int| 0 <= k < histories.len() ==> lists((#[trigger] histories[k]).date@, t@)),
{
    let mut k: usize = 0;
    while k < histories.len()
        invariant
            k <= histories.len(),
            forall|j: int| 0 <= j < k ==> lists((#[trigger] histories[j]).date@, t@),
        decreases histories.len() - k,
    {
        if !holds_date(&histories[k].date, t) {
            return false;
        }
        k = k + 1;
    }
    true
}

/// Puts `x` into the ascending list `v` at its place, unless `v` lists it.
pub fn insert_sorted(v: &mut Vec<String>, x: &String)
    requires
        strictly_ascending(old(v)@),
    ensures
        strictly_ascending(final(v)@),
        forall|t: Seq<char>| lists(final(v)@, t) <==> (lists(old(v)@, t) || t == x@),
{
    // Series mostly come in order: try the end first.
    let n: usize = v.len();
    let mut i: usize = 0;
    if n > 0 && sorts_before(v[n - 1].as_str(), x.as_str()) {
        proof {
            assert forall|j: int| 0 <= j < n implies text_lt(v[j]@, x@) by {
                if j < n - 1 {
                    lemma_text_lt_transitive(v[j]@, v[n - 1]@, x@);
                }
            }
        }
        i = n;
    }
    while i < v.len() && sorts_before(v[i].as_str(), x.as_str())
        invariant
            i <= v.len(),
            *v == *old(v),
            forall|j: int| 0 <= j < i ==> text_lt(v[j]@, x@),
        decreases v.len() - i,
    {
        i = i + 1;
    }
    if i < v.len() && v[i] == *x {
        assert forall|t: Seq<char>| lists(v@, t) <==> (lists(old(v)@, t) || t == x@) by {
            assert(v[i as int]@ == x@);
        }
        return ;
    }
    let ghost before = v@;
    let copy = x.clone();
    v.insert(i, copy);
    proof {
        let after = v@;
        assert(after.len() == before.len() + 1);
        assert forall|j: int| i < j < after.len() implies text_lt(x@, #[trigger] after[j]@) by {
            assert(after[j] == before[j - 1]);
            lemma_text_lt_total(before[i as int]@, x@);
            if j - 1 > i {
                assert(text_lt(before[i as int]@, before[j - 1]@));
                lemma_text_lt_transitive(x@, before[i as int]@, before[j - 1]@);
            }
        }
        assert forall|a: int, b: int| 0 <= a < b < after.len() implies text_lt(
            #[trigger] after[a]@,
            #[trigger] after[b]@,
        ) by {
            if b < i {
                assert(after[a] == before[a] && after[b] == before[b]);
            } else if b == i {
                assert(after[a] == before[a]);
            } else if a < i {
                assert(after[a] == before[a] && after[b] == before[b - 1]);
                if a < b - 1 {
                } else {
                }
                lemma_text_lt_transitive(before[a]@, x@, after[b]@);
            } else if a == i {
            } else {
                assert(after[a] == before[a - 1] && after[b] == before[b - 1]);
            }
        }
        assert forall|t: Seq<char>| lists(after, t) <==> (lists(before, t) || t == x@) by {
            if lists(after, t) {
                let j = choose|j: int| 0 <= j < after.len() && #[trigger] after[j]@ == t;
                if j < i {
                    assert(before[j]@ == t);
                } else if j > i {
                    assert(before[j - 1]@ == t);
                }
            }
            if lists(before, t) {
                let j = choose|j: int| 0 <= j < before.len() && #[trigger] before[j]@ == t;
                if j < i {
                    assert(after[j]@ == t);
                } else {
                    assert(after[j + 1]@ == t);
                }
            }
            if t == x@ {
                assert(after[i as int]@ == t);
            }
        }
    }
}

/// The calendar of the days that the risk-free series and every one of
/// `histories` quote.
pub fn common_dates(histories: &Vec<HistoricalChart>, risk_free: &HistoricalChart) -> (calendar:
    Vec<String>)
    ensures
        is_calendar(calendar@, histories@, *risk_free),
{
    let mut calendar: Vec<String> = Vec::new();
    let mut p: usize = 0;
    while p < risk_free.date.len()
        invariant
            p <= risk_free.date.len(),
            strictly_ascending(calendar@),
            forall|t: Seq<char>|
                lists(calendar@, t) <==> (lists(risk_free.date@.take(p as int), t) && is_common(
                    histories@,
                    *risk_free,
                    t,
                )),
        decreases risk_free.date.len() - p,
    {
        let day = &risk_free.date[p];
        let ghost before = calendar@;
        let ghost seen = risk_free.date@.take(p as int);
        let ghost seen_next = risk_free.date@.take(p as int + 1);
        let shared = quoted_by_all(histories, day);
        if shared {
            insert_sorted(&mut calendar, day);
        }
        proof {
            assert(seen_next[p as int]@ == day@);
            assert(lists(risk_free.date@, day@));
            assert forall|t: Seq<char>|
                lists(calendar@, t) <==> (lists(seen_next, t) && is_common(
                    histories@,
                    *risk_free,
                    t,
                )) by {
                if lists(seen, t) {
                    let j = choose|j: int| 0 <= j < seen.len() && #[trigger] seen[j]@ == t;
                    assert(seen_next[j]@ == t);
                }
                if lists(seen_next, t) {
                    let j = choose|j: int| 0 <= j < seen_next.len() && #[trigger] seen_next[j]@ == t;
                    if j < p {
                        assert(seen[j]@ == t);
                    }
                }
            }
        }
        p = p + 1;
    }
    proof {
        assert(risk_free.date@.take(p as int) =~= risk_free.date@);
    }
    calendar
}

/// For each day of `calendar`, in order, the position at which `dates`
/// lists it; nothing where `dates` is not orderly.
pub fn survivors(dates: &Vec<String>, calendar: &Vec<String>) -> (r: Option<Vec<usize>>)
    requires
        strictly_ascending(calendar@),
        forall|t: Seq<char>| lists(calendar@, t) ==> lists(dates@, t),
    ensures
        r is Some <==> orderly(dates@, calendar@),
        r matches Some(at) ==> {
            &&& at.len() == calendar.len()
            &&& forall|i: int|
                0 <= i < at.len() ==> (#[trigger] at[i]) < dates.len() && dates[at[i] as int]@
                    == calendar[i]@
        },
{
    let mut at: Vec<usize> = Vec::new();
    let mut p: usize = 0;
    while p < dates.len()
        invariant
            p <= dates.len(),
            at.len() <= calendar.len(),
            strictly_ascending(calendar@),
            forall|t: Seq<char>| lists(calendar@, t) ==> lists(dates@, t),
            forall|i: int|
                0 <= i < at.len() ==> (#[trigger] at[i]) < p && dates[at[i] as int]@ == calendar[i]@,
            forall|i: int, j: int| 0 <= i < j < at.len() ==> at[i] < at[j],
            forall|q: int|
                0 <= q < p && lists(calendar@, #[trigger] dates[q]@) ==> exists|i: int|
                    0 <= i < at.len() && #[trigger] at[i] == q,
        decreases dates.len() - p,
    {
        let k: usize = at.len();
        if k < calendar.len() && dates[p] == calendar[k] {
            let ghost old_at = at@;
            at.push(p);
            proof {
                assert forall|q: int|
                    0 <= q < p + 1 && lists(calendar@, #[trigger] dates[q]@) implies exists|i: int|
                    0 <= i < at.len() && #[trigger] at[i] == q by {
                    if q < p {
                        let i = choose|i: int| 0 <= i < old_at.len() && #[trigger] old_at[i] == q;
                        assert(at[i] == q);
                    } else {
                        assert(at[k as int] == q);
                    }
                }
            }
        } else if holds_date(calendar, &dates[p]) {
            proof {
                let m = choose|m: int| 0 <= m < calendar.len() && #[trigger] calendar[m]@ == dates[p as int]@;
                if m < k {
                    let q = at[m] as int;
                    assert(dates[q]@ == calendar[m]@);
                    assert(lists(calendar@, dates[q]@));
                    lemma_text_lt_irreflexive(dates[q]@);
                    assert(!orderly(dates@, calendar@));
                } else {
                    assert(k < m);
                    assert(text_lt(calendar[k as int]@, calendar[m]@));
                    assert(lists(calendar@, calendar[k as int]@));
                    let q = choose|q: int| 0 <= q < dates.len() && #[trigger] dates[q]@ == calendar[k as int]@;
                    if q < p {
                        let i = choose|i: int| 0 <= i < at.len() && #[trigger] at[i] == q;
                        assert(calendar[i]@ == calendar[k as int]@);
                        assert(text_lt(calendar[i]@, calendar[k as int]@));
                        lemma_text_lt_irreflexive(calendar[i]@);
                    }
                    if q == p {
                        lemma_text_lt_irreflexive(calendar[m]@);
                    }
                    assert(p < q);
                    lemma_text_lt_asymmetric(calendar[k as int]@, calendar[m]@);
                    assert(lists(calendar@, dates[q]@));
                    assert(!text_lt(dates[p as int]@, dates[q]@));
                    assert(!orderly(dates@, calendar@));
                }
            }
            return None;
        }
        p = p + 1;
    }
    proof {
        let k = at.len() as int;
        if k < calendar.len() {
            assert(lists(calendar@, calendar[k]@));
            let q = choose|q: int| 0 <= q < dates.len() && #[trigger] dates[q]@ == calendar[k]@;
            let i = choose|i: int| 0 <= i < at.len() && #[trigger] at[i] == q;
            assert(text_lt(calendar[i]@, calendar[k]@));
            lemma_text_lt_irreflexive(calendar[k]@);
        }
        assert forall|a: int, b: int|
            0 <= a < b < dates.len() && lists(calendar@, #[trigger] dates[a]@) && lists(
                calendar@,
                #[trigger] dates[b]@,
            ) implies text_lt(dates[a]@, dates[b]@) by {
            let i = choose|i: int| 0 <= i < at.len() && #[trigger] at[i] == a;
            let j = choose|j: int| 0 <= j < at.len() && #[trigger] at[j] == b;
            if i >= j {
                if i > j {
                    assert(at[j] < at[i]);
                }
            }
            assert(text_lt(calendar[i]@, calendar[j]@));
        }
    }
    Some(at)
}

/// `dates` holds a day of `calendar` at two places.
pub open spec fn quotes_twice(dates: Seq<String>, calendar: Seq<String>) -> bool {
    exists|p: int, q: int|
        0 <= p < q < dates.len() && (#[trigger] dates[p])@ == (#[trigger] dates[q])@ && lists(
            calendar,
            dates[p]@,
        )
}

/// The first place from `from` on at which `dates` reads as `t` does.
fn find_from(dates: &Vec<String>, from: usize, t: &String) -> (r: Option<usize>)
    requires
        from <= dates.len(),
    ensures
        r matches Some(q) ==> from <= q < dates.len() && dates[q as int]@ == t@ && forall|j: int|
            from <= j < q ==> (#[trigger] dates[j])@ != t@,
        r is None ==> forall|j: int| from <= j < dates.len() ==> (#[trigger] dates[j])@ != t@,
{
    let mut i: usize = from;
    while i < dates.len()
        invariant
            from <= i <= dates.len(),
            forall|j: int| from <= j < i ==> (#[trigger] dates[j])@ != t@,
        decreases dates.len() - i,
    {
        if dates[i] == *t {
            return Some(i);
        }
        i = i + 1;
    }
    None
}

/// For each day of `calendar`, in order, the place at which `dates` lists
/// it; nothing where `dates` lists one of them twice.
pub fn places(dates: &Vec<String>, calendar: &Vec<String>) -> (r: Option<Vec<usize>>)
    requires
        strictly_ascending(calendar@),
        forall|t: Seq<char>| lists(calendar@, t) ==> lists(dates@, t),
    ensures
        r is None <==> quotes_twice(dates@, calendar@),
        r matches Some(at) ==> {
            &&& at.len() == calendar.len()
            &&& forall|i: int|
                0 <= i < at.len() ==> (#[trigger] at[i]) < dates.len() && dates[at[i] as int]@
                    == calendar[i]@
        },
{
    // Series mostly come in order and are then read in one pass.
    match survivors(dates, calendar) {
        Some(at) => {
            proof {
                if quotes_twice(dates@, calendar@) {
                    let (p, q) = choose|p: int, q: int|
                        0 <= p < q < dates.len() && (#[trigger] dates[p])@ == (#[trigger] dates[q])@
                            && lists(calendar@, dates[p]@);
                    assert(text_lt(dates[p]@, dates[q]@));
                    lemma_text_lt_irreflexive(dates[p]@);
                }
            }
            return Some(at);
        },
        None => {},
    }
    let mut at: Vec<usize> = Vec::new();
    let mut i: usize = 0;
    while i < calendar.len()
        invariant
            i <= calendar.len(),
            at.len() == i,
            forall|t: Seq<char>| lists(calendar@, t) ==> lists(dates@, t),
            forall|k: int|
                0 <= k < i ==> (#[trigger] at[k]) < dates.len() && dates[at[k] as int]@
                    == calendar[k]@,
            forall|k: int, j: int|
                0 <= k < i && 0 <= j < dates.len() && j != at[k] ==> (#[trigger] dates[j])@
                    != (#[trigger] calendar[k])@,
        decreases calendar.len() - i,
    {
        let day = &calendar[i];
        assert(lists(calendar@, day@));
        let first = match find_from(dates, 0, day) {
            Some(first) => first,
            None => {
                proof {
                    let j = choose|j: int| 0 <= j < dates.len() && #[trigger] dates[j]@ == day@;
                    assert(dates[j]@ != day@);
                }
                return None;
            },
        };
        match find_from(dates, first + 1, day) {
            Some(second) => {
                assert(dates[first as int]@ == dates[second as int]@);
                return None;
            },
            None => {},
        }
        at.push(first);
        i = i + 1;
    }
    proof {
        if quotes_twice(dates@, calendar@) {
            let (p, q) = choose|p: int, q: int|
                0 <= p < q < dates.len() && (#[trigger] dates[p])@ == (#[trigger] dates[q])@
                    && lists(calendar@, dates[p]@);
            let k = choose|k: int| 0 <= k < calendar.len() && #[trigger] calendar[k]@ == dates[p]@;
            assert(at[k] < dates.len());
            if p != at[k] {
                assert(dates[p]@ != calendar[k]@);
            } else {
                assert(dates[q]@ != calendar[k]@);
            }
        }
    }
    Some(at)
}

} // verus!
