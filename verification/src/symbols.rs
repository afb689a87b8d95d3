//! Symbol lists: each symbol once, at a slot of its own.

use vstd::prelude::*;

verus! {

/// The name at position `p` occurs at no earlier position of `names`.
pub open spec fn is_first(names: Seq<String>, p: int) -> bool {
    forall|j: int| 0 <= j < p ==> (#[trigger] names[j])@ != names[p]@
}

/// The positions below `n` at which a name of `names` occurs for the first
/// time, ascending.
pub open spec fn first_positions(names: Seq<String>, n: int) -> Seq<int>
    decreases n,
{
    if n <= 0 {
        Seq::empty()
    } else if is_first(names, n - 1) {
        first_positions(names, n - 1).push(n - 1)
    } else {
        first_positions(names, n - 1)
    }
}

/// No name occurs twice in `names`.
pub open spec fn distinct(names: Seq<String>) -> bool {
    forall|i: int, j: int| 0 <= i < j < names.len() ==> (#[trigger] names[i])@ != (#[trigger] names[j])@
}

/// `slot` is the first position of `names` that reads `t`.
pub open spec fn is_slot_of(names: Seq<String>, t: Seq<char>, slot: int) -> bool {
    &&& 0 <= slot < names.len()
    &&& names[slot]@ == t
    &&& forall|j: int| 0 <= j < slot ==> (#[trigger] names[j])@ != t
}

/// No position of `names` reads `t`.
pub open spec fn is_absent(names: Seq<String>, t: Seq<char>) -> bool {
    forall|j: int| 0 <= j < names.len() ==> (#[trigger] names[j])@ != t
}

/// What `first_positions` holds: positions below `n`, ascending, each a
/// first occurrence.
pub proof fn lemma_first_positions(names: Seq<String>, n: int)
    requires
        0 <= n <= names.len(),
    ensures
        first_positions(names, n).len() <= n,
        forall|i: int|
            0 <= i < first_positions(names, n).len() ==> {
                &&& 0 <= (#[trigger] first_positions(names, n)[i]) < n
                &&& is_first(names, first_positions(names, n)[i])
            },
        forall|i: int, j: int|
            0 <= i < j < first_positions(names, n).len() ==> first_positions(names, n)[i]
                < first_positions(names, n)[j],
    decreases n,
{
    if n > 0 {
        lemma_first_positions(names, n - 1);
    }
}

/// The slot at which `names` first reads `t`, if it does.
pub fn find_slot(names: &Vec<String>, t: &str) -> (r: Option<usize>)
    ensures
        r matches Some(slot) ==> is_slot_of(names@, t@, slot as int),
        r is None ==> is_absent(names@, t@),
{
    let mut i: usize = 0;
    while i < names.len()
        invariant
            i <= names.len(),
            forall|j: int| 0 <= j < i ==> (#[trigger] names[j])@ != t@,
        decreases names.len() - i,
    {
        if same_text(names[i].as_str(), t) {
            return Some(i);
        }
        i = i + 1;
    }
    None
}

/// Whether two texts read the same.
pub fn same_text(a: &str, b: &str) -> (r: bool)
    ensures
        r == (a@ == b@),
{
    let na: usize = a.unicode_len();
    let nb: usize = b.unicode_len();
    if na != nb {
        return false;
    }
    let mut i: usize = 0;
    while i < na
        invariant
            i <= na,
            na == a@.len(),
            nb == b@.len(),
            na == nb,
            forall|j: int| 0 <= j < i ==> a@[j] == b@[j],
        decreases na - i,
    {
        if a.get_char(i) != b.get_char(i) {
            return false;
        }
        i = i + 1;
    }
    assert(a@ =~= b@);
    true
}

/// The positions at which a name of `names` occurs for the first time.
pub fn first_occurrences(names: &Vec<String>) -> (r: Vec<usize>)
    ensures
        r.len() == first_positions(names@, names.len() as int).len(),
        forall|i: int|
            0 <= i < r.len() ==> (#[trigger] r[i]) as int == first_positions(
                names@,
                names.len() as int,
            )[i],
        forall|i: int| 0 <= i < r.len() ==> (#[trigger] r[i]) < names.len(),
{
    let mut r: Vec<usize> = Vec::new();
    let mut p: usize = 0;
    while p < names.len()
        invariant
            p <= names.len(),
            r.len() == first_positions(names@, p as int).len(),
            forall|i: int|
                0 <= i < r.len() ==> (#[trigger] r[i]) as int == first_positions(names@, p as int)[i],
            forall|i: int| 0 <= i < r.len() ==> (#[trigger] r[i]) < p,
        decreases names.len() - p,
    {
        let mut j: usize = 0;
        let mut fresh: bool = true;
        while j < p
            invariant
                j <= p,
                p < names.len(),
                fresh <==> (forall|m: int| 0 <= m < j ==> (#[trigger] names[m])@ != names[p as int]@),
            decreases p - j,
        {
            if names[j] == names[p] {
                fresh = false;
            }
            j = j + 1;
        }
        if fresh {
            r.push(p);
        }
        p = p + 1;
    }
    r
}

} // verus!
