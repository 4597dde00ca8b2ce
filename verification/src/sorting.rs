//! The order of texts, and sorting by it.
use vstd::prelude::*;
use crate::words::views;

verus! {

/// Whether `a` comes before `b` in the order of texts, from index `i` on:
/// at the first index where they differ `a` holds the character of the
/// lower code point, or `a` ends there and `b` does not.
pub open spec fn comes_before_from(a: Seq<char>, b: Seq<char>, i: int) -> bool
    decreases b.len() - i,
{
    if i < 0 || i >= b.len() {
        false
    } else if i >= a.len() {
        true
    } else if a[i] != b[i] {
        (a[i] as u32) < (b[i] as u32)
    } else {
        comes_before_from(a, b, i + 1)
    }
}

/// Whether `a` comes before `b` in the order of texts.
pub open spec fn comes_before(a: Seq<char>, b: Seq<char>) -> bool {
    comes_before_from(a, b, 0)
}

/// Whether `a` comes before `b` in the order of texts.
pub fn text_before(a: &Vec<char>, b: &Vec<char>) -> (r: bool)
    ensures
        r == comes_before(a@, b@),
{
    let mut i: usize = 0;
    while i < b.len()
        invariant
            i <= b.len(),
            comes_before_from(a@, b@, i as int) == comes_before(a@, b@),
        decreases b.len() - i,
    {
        if i >= a.len() {
            return true;
        }
        if a[i] != b[i] {
            return (a[i] as u32) < (b[i] as u32);
        }
        i += 1;
    }
    false
}

/// Where a text with the key `key` goes among the first `n` of `keys`, which
/// are in order: before the keys at the end that it comes before.
pub open spec fn insert_position(keys: Seq<Seq<char>>, key: Seq<char>, n: int) -> int
    decreases n,
{
    if 0 < n <= keys.len() && comes_before(key, keys[n - 1]) {
        insert_position(keys, key, n - 1)
    } else {
        n
    }
}

/// The position lies among the first `n` keys or after them.
pub proof fn lemma_insert_position(keys: Seq<Seq<char>>, key: Seq<char>, n: int)
    requires
        0 <= n <= keys.len(),
    ensures
        0 <= insert_position(keys, key, n) <= n,
    decreases n,
{
    if 0 < n && comes_before(key, keys[n - 1]) {
        lemma_insert_position(keys, key, n - 1);
    }
}

/// The order in which sorting by insertion puts the first `n` keys: the
/// indices of the keys, those of lower keys first, and of equal keys the
/// earlier first.
pub open spec fn sorted_order(keys: Seq<Seq<char>>, n: int) -> Seq<int>
    decreases n,
{
    if n <= 0 || n > keys.len() {
        Seq::empty()
    } else {
        let before = sorted_order(keys, n - 1);
        let placed = Seq::new(before.len(), |k: int| keys[before[k]]);
        before.insert(insert_position(placed, keys[n - 1], placed.len() as int), n - 1)
    }
}

/// No text comes before itself, and of two texts at most one comes before
/// the other.
pub proof fn lemma_comes_before_asymmetric(a: Seq<char>, b: Seq<char>, i: int)
    requires
        0 <= i,
        comes_before_from(a, b, i),
    ensures
        !comes_before_from(b, a, i),
    decreases b.len() - i,
{
    if i < b.len() && i < a.len() && a[i] == b[i] {
        lemma_comes_before_asymmetric(a, b, i + 1);
    }
}

/// A text that `x` does not come before comes before every text that `x`
/// comes before.
pub proof fn lemma_comes_before_carries(x: Seq<char>, y: Seq<char>, a: Seq<char>, i: int)
    requires
        0 <= i,
        comes_before_from(x, a, i),
        !comes_before_from(x, y, i),
    ensures
        comes_before_from(y, a, i),
    decreases a.len() - i,
{
    if i < y.len() {
        if x[i] == y[i] {
            if x[i] == a[i] {
                lemma_comes_before_carries(x, y, a, i + 1);
            }
        } else {
            vstd::utf8::char_u32_cast(x[i], x[i] as u32);
            vstd::utf8::char_u32_cast(y[i], y[i] as u32);
        }
    }
}

/// Whether `order` lists the first `n` keys in order: it holds each of
/// their indices once, no key comes before a key listed before it, and keys
/// of which neither comes before the other are listed as they stand in
/// `keys`.
pub open spec fn is_stable_sort(keys: Seq<Seq<char>>, order: Seq<int>, n: int) -> bool {
    &&& order.len() == n
    &&& forall|k: int| 0 <= k < n ==> 0 <= #[trigger] order[k] < n
    &&& forall|a: int, b: int| 0 <= a < b < n ==> #[trigger] order[a] != #[trigger] order[b]
    &&& forall|a: int, b: int|
        0 <= a < b < n ==> !comes_before(keys[#[trigger] order[b]], keys[#[trigger] order[a]])
    &&& forall|a: int, b: int|
        0 <= a < b < n && !comes_before(keys[#[trigger] order[a]], keys[#[trigger] order[b]])
            ==> order[a] < order[b]
}

/// What `insert_position` gives: the key comes before every key from the
/// position on, and not before the key just before it.
proof fn lemma_insert_position_splits(keys: Seq<Seq<char>>, key: Seq<char>, n: int)
    requires
        0 <= n <= keys.len(),
    ensures
        forall|k: int|
            insert_position(keys, key, n) <= k < n ==> comes_before(key, #[trigger] keys[k]),
        insert_position(keys, key, n) > 0 ==> !comes_before(
            key,
            keys[insert_position(keys, key, n) - 1],
        ),
    decreases n,
{
    if 0 < n && comes_before(key, keys[n - 1]) {
        lemma_insert_position_splits(keys, key, n - 1);
    }
}

/// Sorting by insertion sorts: the order it gives holds every index once,
/// puts no key after one that it comes before, and keeps keys that are not
/// told apart in the order in which they stand.
pub proof fn lemma_sorted_order_is_sorted(keys: Seq<Seq<char>>, n: int)
    requires
        0 <= n <= keys.len(),
    ensures
        is_stable_sort(keys, sorted_order(keys, n), n),
    decreases n,
{
    if n > 0 {
        lemma_sorted_order_is_sorted(keys, n - 1);
        let before = sorted_order(keys, n - 1);
        let placed = Seq::new(before.len(), |k: int| keys[before[k]]);
        let x = keys[n - 1];
        let p = insert_position(placed, x, placed.len() as int);
        lemma_insert_position(placed, x, placed.len() as int);
        lemma_insert_position_splits(placed, x, placed.len() as int);
        let order = sorted_order(keys, n);
        assert(order == before.insert(p, n - 1));
        // Where each place of the new order comes from.
        assert forall|k: int| 0 <= k < n implies (if k < p {
            order[k] == before[k]
        } else if k == p {
            order[k] == n - 1
        } else {
            order[k] == before[k - 1]
        }) by {}
        // The new key comes before no key listed before its place.
        assert forall|a: int| 0 <= a < p implies !comes_before(x, #[trigger] placed[a]) by {
            if a < p - 1 && comes_before(x, placed[a]) {
                lemma_comes_before_carries(x, placed[p - 1], placed[a], 0);
                assert(!comes_before(keys[before[p - 1]], keys[before[a]]));
            }
        }
        assert forall|a: int, b: int| 0 <= a < b < n implies !comes_before(
            keys[#[trigger] order[b]],
            keys[#[trigger] order[a]],
        ) by {
            if b == p {
                assert(!comes_before(x, placed[a]));
            } else if a == p {
                assert(comes_before(x, placed[b - 1]));
                lemma_comes_before_asymmetric(x, placed[b - 1], 0);
            } else {
                let a0 = if a < p {
                    a
                } else {
                    a - 1
                };
                let b0 = if b < p {
                    b
                } else {
                    b - 1
                };
                assert(!comes_before(keys[before[b0]], keys[before[a0]]));
            }
        }
        assert forall|a: int, b: int|
            0 <= a < b < n && !comes_before(
                keys[#[trigger] order[a]],
                keys[#[trigger] order[b]],
            ) implies order[a] < order[b] by {
            if b == p {
            } else if a == p {
                assert(comes_before(x, placed[b - 1]));
            } else {
                let a0 = if a < p {
                    a
                } else {
                    a - 1
                };
                let b0 = if b < p {
                    b
                } else {
                    b - 1
                };
                assert(!comes_before(keys[before[a0]], keys[before[b0]]));
            }
        }
        assert forall|a: int, b: int| 0 <= a < b < n implies #[trigger] order[a]
            != #[trigger] order[b] by {
            if a != p && b != p {
                let a0 = if a < p {
                    a
                } else {
                    a - 1
                };
                let b0 = if b < p {
                    b
                } else {
                    b - 1
                };
                assert(before[a0] != before[b0]);
            }
        }
    }
}

/// The indices of `keys` in sorted order.
pub fn sort_order(keys: &Vec<Vec<char>>) -> (r: Vec<usize>)
    ensures
        r.len() == keys.len(),
        forall|k: int| 0 <= k < r.len() ==> r@[k] < keys.len(),
        r@.map_values(|i: usize| i as int) == sorted_order(views(keys@), keys@.len() as int),
{
    let mut order: Vec<usize> = Vec::new();
    let ghost ks = views(keys@);
    let mut n: usize = 0;
    assert(order@.map_values(|i: usize| i as int) =~= sorted_order(ks, 0));
    while n < keys.len()
        invariant
            n <= keys.len(),
            ks == views(keys@),
            order.len() == n,
            forall|k: int| 0 <= k < order.len() ==> order@[k] < n,
            order@.map_values(|i: usize| i as int) == sorted_order(ks, n as int),
        decreases keys.len() - n,
    {
        let ghost before = sorted_order(ks, n as int);
        let ghost placed = Seq::new(before.len(), |k: int| ks[before[k]]);
        let mut p: usize = order.len();
        while p > 0 && text_before(&keys[n], &keys[order[p - 1]])
            invariant
                p <= order.len(),
                n < keys.len(),
                ks == views(keys@),
                order.len() == n,
                forall|k: int| 0 <= k < order.len() ==> order@[k] < n,
                before == order@.map_values(|i: usize| i as int),
                placed == Seq::new(before.len(), |k: int| ks[before[k]]),
                insert_position(placed, ks[n as int], p as int) == insert_position(
                    placed,
                    ks[n as int],
                    placed.len() as int,
                ),
            decreases p,
        {
            p -= 1;
        }
        order.insert(p, n);
        assert(order@.map_values(|i: usize| i as int) =~= before.insert(p as int, n as int));
        n += 1;
    }
    order
}

} // verus!
