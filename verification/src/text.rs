//! The order in which texts sort: character by character, by code point.
//!
//! ISO-8601 calendar dates (`YYYY-MM-DD`) sort chronologically in this order.

use vstd::prelude::*;

verus! {

/// At position `k` the text `a` is seen to sort before `b`: the two agree on
/// every earlier character, and at `k` either `a` has ended while `b` has
/// not, or `a` holds the smaller character.
pub open spec fn sorts_before_at(a: Seq<char>, b: Seq<char>, k: int) -> bool {
    &&& 0 <= k <= a.len()
    &&& k < b.len()
    &&& forall|i: int| 0 <= i < k ==> a[i] == b[i]
    &&& (k < a.len() ==> (a[k] as int) < (b[k] as int))
}

/// `a` sorts strictly before `b` in lexicographic order.
pub open spec fn text_lt(a: Seq<char>, b: Seq<char>) -> bool {
    exists|k: int| sorts_before_at(a, b, k)
}

/// Every text of `s` sorts strictly before the one that follows it.
pub open spec fn strictly_ascending(s: Seq<String>) -> bool {
    forall|i: int, j: int| 0 <= i < j < s.len() ==> text_lt(#[trigger] s[i]@, #[trigger] s[j]@)
}

/// `s` holds a text that reads `t`.
pub open spec fn lists(s: Seq<String>, t: Seq<char>) -> bool {
    exists|i: int| 0 <= i < s.len() && #[trigger] s[i]@ == t
}

/// No text sorts before itself.
pub proof fn lemma_text_lt_irreflexive(a: Seq<char>)
    ensures
        !text_lt(a, a),
{
    assert forall|k: int| !sorts_before_at(a, a, k) by {}
}

/// The order is transitive.
pub proof fn lemma_text_lt_transitive(a: Seq<char>, b: Seq<char>, c: Seq<char>)
    requires
        text_lt(a, b),
        text_lt(b, c),
    ensures
        text_lt(a, c),
{
    let k1 = choose|k: int| sorts_before_at(a, b, k);
    let k2 = choose|k: int| sorts_before_at(b, c, k);
    let k = if k1 <= k2 { k1 } else { k2 };
    assert(sorts_before_at(a, c, k));
}

/// Two texts that agree up to `n` are equal or one sorts before the other.
proof fn lemma_first_difference(a: Seq<char>, b: Seq<char>, n: int)
    requires
        0 <= n <= a.len(),
        n <= b.len(),
        forall|i: int| 0 <= i < n ==> a[i] == b[i],
    ensures
        a == b || text_lt(a, b) || text_lt(b, a),
    decreases a.len() - n,
{
    if n == a.len() && n == b.len() {
        assert(a =~= b);
    } else if n == a.len() {
        assert(sorts_before_at(a, b, n));
    } else if n == b.len() {
        assert(sorts_before_at(b, a, n));
    } else if a[n] == b[n] {
        lemma_first_difference(a, b, n + 1);
    } else if (a[n] as int) < (b[n] as int) {
        assert(sorts_before_at(a, b, n));
    } else {
        assert(sorts_before_at(b, a, n));
    }
}

/// The order is total: of two different texts one sorts before the other.
pub proof fn lemma_text_lt_total(a: Seq<char>, b: Seq<char>)
    ensures
        a == b || text_lt(a, b) || text_lt(b, a),
{
    lemma_first_difference(a, b, 0);
}

/// No two texts sort before each other.
pub proof fn lemma_text_lt_asymmetric(a: Seq<char>, b: Seq<char>)
    requires
        text_lt(a, b),
    ensures
        !text_lt(b, a),
{
    if text_lt(b, a) {
        lemma_text_lt_transitive(a, b, a);
        lemma_text_lt_irreflexive(a);
    }
}

/// Whether `a` sorts strictly before `b`.
pub fn sorts_before(a: &str, b: &str) -> (r: bool)
    ensures
        r == text_lt(a@, b@),
{
    let na: usize = a.unicode_len();
    let nb: usize = b.unicode_len();
    let mut i: usize = 0;
    while i < na && i < nb
        invariant
            i <= na,
            i <= nb,
            na == a@.len(),
            nb == b@.len(),
            forall|j: int| 0 <= j < i ==> a@[j] == b@[j],
        decreases na - i,
    {
        let ca: char = a.get_char(i);
        let cb: char = b.get_char(i);
        if ca != cb {
            let before: bool = (ca as u32) < (cb as u32);
            proof {
                if before {
                    assert(sorts_before_at(a@, b@, i as int));
                } else {
                    assert(sorts_before_at(b@, a@, i as int));
                    lemma_text_lt_asymmetric(b@, a@);
                }
            }
            return before;
        }
        i = i + 1;
    }
    proof {
        if na < nb {
            assert(sorts_before_at(a@, b@, i as int));
        } else {
            assert forall|k: int| !sorts_before_at(a@, b@, k) by {}
        }
    }
    na < nb
}

/// A list that holds the texts of `v`, in order.
pub fn copy_texts(v: &Vec<String>) -> (r: Vec<String>)
    ensures
        r@ == v@,
{
    let mut r: Vec<String> = Vec::new();
    let mut i: usize = 0;
    while i < v.len()
        invariant
            i <= v.len(),
            r@ == v@.take(i as int),
        decreases v.len() - i,
    {
        r.push(v[i].clone());
        proof {
            assert(v@.take(i as int + 1) =~= v@.take(i as int).push(v@[i as int]));
        }
        i = i + 1;
    }
    proof {
        assert(v@.take(i as int) =~= v@);
    }
    r
}

} // verus!
