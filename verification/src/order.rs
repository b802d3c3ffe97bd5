//! The order of texts, and stable sorting by it.
//!
//! Texts are ordered as strings are: character by character, by code point.
use crate::taint;
use vstd::prelude::*;

verus! {

/// From position `i` on, `a` comes before `b`.
pub open spec fn less_from(a: Seq<char>, b: Seq<char>, i: int) -> bool
    decreases b.len() - i,
{
    if i < 0 || i >= b.len() {
        false
    } else if i >= a.len() {
        true
    } else if a[i] != b[i] {
        a[i] < b[i]
    } else {
        less_from(a, b, i + 1)
    }
}

/// `a` comes before `b`.
pub open spec fn less(a: Seq<char>, b: Seq<char>) -> bool {
    less_from(a, b, 0)
}

/// `a` does not come after `b`.
pub open spec fn at_most(a: Seq<char>, b: Seq<char>) -> bool {
    !less(b, a)
}

proof fn lemma_less_both_ways(a: Seq<char>, b: Seq<char>, i: int)
    requires
        0 <= i,
    ensures
        !(less_from(a, b, i) && less_from(b, a, i)),
    decreases b.len() - i,
{
    if i < b.len() && i < a.len() && a[i] == b[i] {
        lemma_less_both_ways(a, b, i + 1);
    }
}

proof fn lemma_less_neither_way(a: Seq<char>, b: Seq<char>, i: int)
    requires
        0 <= i <= a.len(),
        i <= b.len(),
        !less_from(a, b, i),
        !less_from(b, a, i),
        a.take(i) == b.take(i),
    ensures
        a == b,
    decreases b.len() - i,
{
    if i < b.len() && i < a.len() {
        assert(a.take(i + 1) =~= a.take(i).push(a[i]));
        assert(b.take(i + 1) =~= b.take(i).push(b[i]));
        lemma_less_neither_way(a, b, i + 1);
    } else {
        assert(a =~= a.take(i));
        assert(b =~= b.take(i));
    }
}

proof fn lemma_less_chain(a: Seq<char>, b: Seq<char>, c: Seq<char>, i: int)
    requires
        0 <= i,
        less_from(a, b, i),
        !less_from(c, b, i),
    ensures
        less_from(a, c, i),
    decreases b.len() - i,
{
    if i < a.len() && i < b.len() && i < c.len() && a[i] == b[i] && b[i] == c[i] {
        lemma_less_chain(a, b, c, i + 1);
    }
}

/// The order of texts is total: no text comes before itself, of two different texts exactly one
/// comes before the other, and what comes before a text comes before all that it does not follow.
pub proof fn law_order_is_total(a: Seq<char>, b: Seq<char>, c: Seq<char>)
    ensures
        !less(a, a),
        a != b <==> less(a, b) || less(b, a),
        !(less(a, b) && less(b, a)),
        less(a, b) && at_most(b, c) ==> less(a, c),
        at_most(a, b) && at_most(b, c) ==> at_most(a, c),
{
    lemma_less_both_ways(a, a, 0);
    lemma_less_both_ways(a, b, 0);
    if !less(a, b) && !less(b, a) {
        assert(a.take(0) =~= b.take(0));
        lemma_less_neither_way(a, b, 0);
    }
    if less(a, b) && at_most(b, c) {
        lemma_less_chain(a, b, c, 0);
    }
    if at_most(a, b) && at_most(b, c) && less(c, a) {
        lemma_less_chain(c, a, b, 0);
    }
}

pub fn comes_before(a: &[char], b: &[char]) -> (r: bool)
    ensures
        r == less(a@, b@),
{
    let mut i: usize = 0;
    while i < b.len()
        invariant
            i <= b@.len(),
            less(a@, b@) == less_from(a@, b@, i as int),
        decreases b@.len() - i,
    {
        if i >= a.len() {
            return true;
        }
        if a[i] != b[i] {
            return a[i] < b[i];
        }
        i = i + 1;
    }
    false
}

// --- sorting ---------------------------------------------------------------

/// Where item `k` goes among the first `p` items of `order`: behind all that do not come after it.
pub open spec fn slot(keys: Seq<Seq<char>>, order: Seq<int>, k: int, p: int) -> int
    decreases p,
{
    if p > 0 && less(keys[k], keys[order[p - 1]]) {
        slot(keys, order, k, p - 1)
    } else {
        p
    }
}

/// The positions of the first `n` keys in the order of the keys; equal keys stay as they are.
pub open spec fn order_of_first(keys: Seq<Seq<char>>, n: int) -> Seq<int>
    decreases n,
{
    if n <= 0 {
        Seq::empty()
    } else {
        let o = order_of_first(keys, n - 1);
        o.insert(slot(keys, o, n - 1, o.len() as int), n - 1)
    }
}

/// The positions of the keys in the order of the keys; equal keys stay as they are.
pub open spec fn stable_order(keys: Seq<Seq<char>>) -> Seq<int> {
    order_of_first(keys, keys.len() as int)
}

/// The items at the given positions.
pub open spec fn picked<T>(items: Seq<T>, order: Seq<int>) -> Seq<T> {
    Seq::new(order.len(), |i: int| items[order[i]])
}

/// Item `i` goes before item `j`: by its key, and by its position where the keys are equal.
pub open spec fn precedes(keys: Seq<Seq<char>>, i: int, j: int) -> bool {
    less(keys[i], keys[j]) || (keys[i] == keys[j] && i < j)
}

/// `order` lists the positions of the first `n` keys, each once, in order.
pub open spec fn is_stable_order(keys: Seq<Seq<char>>, order: Seq<int>, n: int) -> bool {
    &&& order.len() == n
    &&& forall|i: int| 0 <= i < n ==> 0 <= #[trigger] order[i] < n
    &&& forall|i: int, j: int|
        0 <= i < j < n ==> precedes(keys, #[trigger] order[i], #[trigger] order[j])
}

proof fn lemma_slot(keys: Seq<Seq<char>>, order: Seq<int>, k: int, p: int)
    requires
        0 <= p <= order.len(),
        forall|j: int| p <= j < order.len() ==> less(keys[k], keys[#[trigger] order[j]]),
    ensures
        0 <= slot(keys, order, k, p) <= p,
        slot(keys, order, k, p) > 0 ==> at_most(keys[order[slot(keys, order, k, p) - 1]], keys[k]),
        forall|j: int| slot(keys, order, k, p) <= j < order.len() ==> less(keys[k], keys[#[trigger] order[j]]),
    decreases p,
{
    if p > 0 && less(keys[k], keys[order[p - 1]]) {
        lemma_slot(keys, order, k, p - 1);
    }
}

proof fn lemma_order_of_first(keys: Seq<Seq<char>>, n: int)
    requires
        0 <= n <= keys.len(),
    ensures
        is_stable_order(keys, order_of_first(keys, n), n),
    decreases n,
{
    if n > 0 {
        lemma_order_of_first(keys, n - 1);
        let o = order_of_first(keys, n - 1);
        let k = n - 1;
        lemma_slot(keys, o, k, o.len() as int);
        let p = slot(keys, o, k, o.len() as int);
        let all = o.insert(p, k);
        assert forall|i: int, j: int| 0 <= i < j < n implies precedes(
            keys,
            #[trigger] all[i],
            #[trigger] all[j],
        ) by {
            if j == p {
                let last = o[p - 1];
                law_order_is_total(keys[all[i]], keys[last], keys[k]);
                if i < p - 1 {
                    assert(precedes(keys, o[i], o[p - 1]));
                }
                law_order_is_total(keys[all[i]], keys[k], keys[k]);
                law_order_is_total(keys[last], keys[all[i]], keys[k]);
            } else if i == p {
                assert(all[j] == o[j - 1]);
            } else {
                let a = if i < p { i } else { i - 1 };
                let b = if j < p { j } else { j - 1 };
                assert(precedes(keys, o[a], o[b]));
            }
        }
    }
}

/// Sorting lists each item once, in the order of the keys, and leaves equal keys as they are.
pub proof fn law_sorting_is_stable(keys: Seq<Seq<char>>)
    ensures
        is_stable_order(keys, stable_order(keys), keys.len() as int),
{
    lemma_order_of_first(keys, keys.len() as int);
}

/// The texts in order.
pub open spec fn sorted(texts: Seq<Seq<char>>) -> Seq<Seq<char>> {
    picked(texts, stable_order(texts))
}

proof fn lemma_picked<T>(items: Seq<T>, keys: Seq<Seq<char>>, n: int)
    requires
        0 <= n <= keys.len(),
        items.len() == keys.len(),
    ensures
        picked(items, order_of_first(keys, n)).to_multiset() == items.take(n).to_multiset(),
    decreases n,
{
    broadcast use vstd::seq_lib::group_to_multiset_ensures;

    if n > 0 {
        lemma_picked(items, keys, n - 1);
        lemma_order_of_first(keys, n - 1);
        let o = order_of_first(keys, n - 1);
        lemma_slot(keys, o, n - 1, o.len() as int);
        let p = slot(keys, o, n - 1, o.len() as int);
        assert(picked(items, o.insert(p, n - 1)) =~= picked(items, o).insert(p, items[n - 1]));
        assert(items.take(n) =~= items.take(n - 1).push(items[n - 1]));
    } else {
        assert(picked(items, order_of_first(keys, n)) =~= items.take(n));
    }
}

/// Sorting loses no item and adds none.
pub proof fn law_sorting_keeps_items<T>(items: Seq<T>, keys: Seq<Seq<char>>)
    requires
        items.len() == keys.len(),
    ensures
        picked(items, stable_order(keys)).to_multiset() == items.to_multiset(),
{
    lemma_picked(items, keys, keys.len() as int);
    assert(items.take(keys.len() as int) =~= items);
}

/// The sorted texts do not depend on the order in which they are given.
pub proof fn law_sorting_ignores_order(a: Seq<Seq<char>>, b: Seq<Seq<char>>)
    requires
        a.to_multiset() == b.to_multiset(),
    ensures
        sorted(a) == sorted(b),
{
    let leq = |x: Seq<char>, y: Seq<char>| at_most(x, y);
    assert forall|x: Seq<char>| #[trigger] leq(x, x) by {
        law_order_is_total(x, x, x);
    }
    assert forall|x: Seq<char>, y: Seq<char>| #[trigger] leq(x, y) && #[trigger] leq(y, x) implies x == y by {
        law_order_is_total(x, y, x);
    }
    assert forall|x: Seq<char>, y: Seq<char>, z: Seq<char>| #[trigger]
        leq(x, y) && #[trigger] leq(y, z) implies leq(x, z) by {
        law_order_is_total(x, y, z);
    }
    assert forall|x: Seq<char>, y: Seq<char>| #[trigger] leq(x, y) || #[trigger] leq(y, x) by {
        law_order_is_total(x, y, x);
    }
    lemma_sorted(a);
    lemma_sorted(b);
    law_sorting_keeps_items(a, a);
    law_sorting_keeps_items(b, b);
    vstd::seq_lib::lemma_sorted_unique(sorted(a), sorted(b), leq);
}

proof fn lemma_sorted(a: Seq<Seq<char>>)
    ensures
        forall|i: int, j: int| 0 <= i < j < sorted(a).len() ==> #[trigger] at_most(sorted(a)[i], sorted(a)[j]),
{
    let o = stable_order(a);
    law_sorting_is_stable(a);
    assert forall|i: int, j: int| 0 <= i < j < sorted(a).len() implies #[trigger] at_most(
        sorted(a)[i],
        sorted(a)[j],
    ) by {
        assert(precedes(a, o[i], o[j]));
        law_order_is_total(a[o[i]], a[o[j]], a[o[i]]);
    }
}

/// The texts of a list of character lists.
pub open spec fn char_lists(v: Seq<Vec<char>>) -> Seq<Seq<char>> {
    Seq::new(v.len(), |i: int| v[i]@)
}

/// The positions of `keys` in their order; equal keys stay as they are.
pub fn sort_order(keys: &Vec<Vec<char>>) -> (r: Vec<usize>)
    ensures
        taint::ints(r@) == stable_order(char_lists(keys@)),
        is_stable_order(char_lists(keys@), taint::ints(r@), keys@.len() as int),
{
    let ghost all = char_lists(keys@);
    let mut out: Vec<usize> = Vec::new();
    assert(taint::ints(out@) =~= order_of_first(all, 0));
    for k in 0..keys.len()
        invariant
            all == char_lists(keys@),
            taint::ints(out@) == order_of_first(all, k as int),
            out@.len() == k,
            forall|j: int| 0 <= j < k ==> (#[trigger] out@[j]) < k,
    {
        let ghost before = out@;
        let mut p: usize = out.len();
        while p > 0 && comes_before(&keys[k], &keys[out[p - 1]])
            invariant
                all == char_lists(keys@),
                k < keys@.len(),
                out@ == before,
                before.len() == k,
                p <= k,
                forall|j: int| 0 <= j < k ==> (#[trigger] out@[j]) < k,
                slot(all, taint::ints(before), k as int, k as int) == slot(all, taint::ints(before), k as int, p as int),
            decreases p,
        {
            assert(taint::ints(before)[p - 1] == before[p - 1]);
            p = p - 1;
        }
        assert(p > 0 ==> taint::ints(before)[p - 1] == before[p - 1]);
        assert(p == slot(all, taint::ints(before), k as int, k as int));
        out.insert(p, k);
        assert(taint::ints(out@) =~= taint::ints(before).insert(p as int, k as int));
    }
    proof {
        lemma_order_of_first(all, all.len() as int);
    }
    out
}

} // verus!
