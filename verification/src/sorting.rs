//! Stable sorting: what it gives, and what holds of it.

use vstd::prelude::*;

verus! {

/// `s` with `x` put behind the last item whose key is not above its own.
pub open spec fn insert_by<T>(s: Seq<T>, x: T, key: spec_fn(T) -> int) -> Seq<T>
    decreases s.len(),
{
    if s.len() == 0 || key(s.last()) <= key(x) {
        s.push(x)
    } else {
        insert_by(s.drop_last(), x, key).push(s.last())
    }
}

/// The items ordered by key; items with the same key keep their order.
pub open spec fn sorted_by<T>(s: Seq<T>, key: spec_fn(T) -> int) -> Seq<T>
    decreases s.len(),
{
    if s.len() == 0 {
        s
    } else {
        insert_by(sorted_by(s.drop_last(), key), s.last(), key)
    }
}

/// Keys never go down.
pub open spec fn in_order<T>(s: Seq<T>, key: spec_fn(T) -> int) -> bool {
    forall|i: int, j: int| 0 <= i <= j < s.len() ==> key(#[trigger] s[i]) <= key(#[trigger] s[j])
}

/// Where an item goes in an ordered list.
pub proof fn lemma_insert_at<T>(s: Seq<T>, x: T, key: spec_fn(T) -> int, p: int)
    requires
        0 <= p <= s.len(),
        forall|i: int| 0 <= i < p ==> key(#[trigger] s[i]) <= key(x),
        forall|i: int| p <= i < s.len() ==> key(#[trigger] s[i]) > key(x),
    ensures
        insert_by(s, x, key) == s.insert(p, x),
    decreases s.len(),
{
    if p == s.len() {
        if s.len() > 0 {
            assert(key(s[s.len() - 1]) <= key(x));
        }
        assert(s.insert(p, x) =~= s.push(x));
    } else {
        assert(key(s[s.len() - 1]) > key(x));
        let d = s.drop_last();
        assert forall|i: int| 0 <= i < p implies key(#[trigger] d[i]) <= key(x) by {
            assert(d[i] == s[i]);
        }
        assert forall|i: int| p <= i < d.len() implies key(#[trigger] d[i]) > key(x) by {
            assert(d[i] == s[i]);
        }
        lemma_insert_at(d, x, key, p);
        assert(d.insert(p, x).push(s.last()) =~= s.insert(p, x));
    }
}

proof fn lemma_insert_in_order<T>(s: Seq<T>, x: T, key: spec_fn(T) -> int)
    requires
        in_order(s, key),
    ensures
        in_order(insert_by(s, x, key), key),
        insert_by(s, x, key).to_multiset() == s.to_multiset().insert(x),
        insert_by(s, x, key).len() == s.len() + 1,
        forall|i: int|
            0 <= i < insert_by(s, x, key).len() ==> #[trigger] insert_by(s, x, key)[i] == x
                || s.contains(insert_by(s, x, key)[i]),
    decreases s.len(),
{
    s.to_multiset_ensures();
    if s.len() == 0 || key(s.last()) <= key(x) {
        assert forall|i: int, j: int| 0 <= i <= j < s.push(x).len() implies key(
            #[trigger] s.push(x)[i],
        ) <= key(#[trigger] s.push(x)[j]) by {
            if j == s.len() && i < j {
                assert(key(s[i]) <= key(s[s.len() - 1]));
            }
        }
    } else {
        let d = s.drop_last();
        assert forall|i: int, j: int| 0 <= i <= j < d.len() implies key(#[trigger] d[i]) <= key(
            #[trigger] d[j],
        ) by {
            assert(d[i] == s[i] && d[j] == s[j]);
        }
        lemma_insert_in_order(d, x, key);
        let r = insert_by(d, x, key);
        r.to_multiset_ensures();
        d.to_multiset_ensures();
        assert(d.push(s.last()) =~= s);
        assert(r.push(s.last()).to_multiset() =~= s.to_multiset().insert(x));
        let out = r.push(s.last());
        assert forall|i: int| 0 <= i < out.len() implies #[trigger] out[i] == x || s.contains(
            out[i],
        ) by {
            if i < r.len() {
                assert(out[i] == r[i]);
                if r[i] != x {
                    let k = choose|k: int| 0 <= k < d.len() && d[k] == r[i];
                    assert(s[k] == r[i]);
                }
            } else {
                assert(out[i] == s[s.len() - 1]);
            }
        }
        assert forall|i: int, j: int| 0 <= i <= j < out.len() implies key(#[trigger] out[i])
            <= key(#[trigger] out[j]) by {
            if j == r.len() && i < j {
                assert(out[i] == r[i]);
                if r[i] != x {
                    let k = choose|k: int| 0 <= k < d.len() && d[k] == r[i];
                    assert(key(s[k]) <= key(s[s.len() - 1]));
                }
            }
        }
    }
}

/// Sorting orders the items and keeps each as often as it was there.
pub proof fn sorting_orders<T>(s: Seq<T>, key: spec_fn(T) -> int)
    ensures
        in_order(sorted_by(s, key), key),
        sorted_by(s, key).to_multiset() == s.to_multiset(),
        sorted_by(s, key).len() == s.len(),
    decreases s.len(),
{
    if s.len() > 0 {
        sorting_orders(s.drop_last(), key);
        lemma_insert_in_order(sorted_by(s.drop_last(), key), s.last(), key);
        s.drop_last().to_multiset_ensures();
        assert(s.drop_last().push(s.last()) =~= s);
    }
}

/// The items of one key.
pub open spec fn with_key<T>(s: Seq<T>, key: spec_fn(T) -> int, k: int) -> Seq<T>
    decreases s.len(),
{
    if s.len() == 0 {
        s
    } else if key(s.last()) == k {
        with_key(s.drop_last(), key, k).push(s.last())
    } else {
        with_key(s.drop_last(), key, k)
    }
}

proof fn lemma_insert_with_key<T>(s: Seq<T>, x: T, key: spec_fn(T) -> int, k: int)
    ensures
        with_key(insert_by(s, x, key), key, k) == if key(x) == k {
            with_key(s, key, k).push(x)
        } else {
            with_key(s, key, k)
        },
    decreases s.len(),
{
    if s.len() == 0 || key(s.last()) <= key(x) {
        assert(s.push(x).drop_last() =~= s);
    } else {
        let r = insert_by(s.drop_last(), x, key);
        lemma_insert_with_key(s.drop_last(), x, key, k);
        assert(r.push(s.last()).drop_last() =~= r);
    }
}

/// Sorting is stable: the items of one key keep their order.
pub proof fn sorting_is_stable<T>(s: Seq<T>, key: spec_fn(T) -> int, k: int)
    ensures
        with_key(sorted_by(s, key), key, k) == with_key(s, key, k),
    decreases s.len(),
{
    if s.len() > 0 {
        sorting_is_stable(s.drop_last(), key, k);
        lemma_insert_with_key(sorted_by(s.drop_last(), key), s.last(), key, k);
    }
}

/// `s` with `x` put before the first item that does not come before it, unless
/// that item is `x`.
pub open spec fn place_in<T>(s: Seq<T>, x: T, before: spec_fn(T, T) -> bool) -> Seq<T>
    decreases s.len(),
{
    if s.len() == 0 || before(s.last(), x) {
        s.push(x)
    } else if s.last() == x {
        s
    } else {
        place_in(s.drop_last(), x, before).push(s.last())
    }
}

/// The different items in order.
pub open spec fn distinct_by<T>(s: Seq<T>, before: spec_fn(T, T) -> bool) -> Seq<T>
    decreases s.len(),
{
    if s.len() == 0 {
        s
    } else {
        place_in(distinct_by(s.drop_last(), before), s.last(), before)
    }
}

/// Every item comes before the later ones.
pub open spec fn rising<T>(s: Seq<T>, before: spec_fn(T, T) -> bool) -> bool {
    forall|i: int, j: int| 0 <= i < j < s.len() ==> before(#[trigger] s[i], #[trigger] s[j])
}

/// Of two different items one comes before the other, none before itself, and
/// what comes before an item comes before the later ones.
pub open spec fn strict_order<T>(before: spec_fn(T, T) -> bool) -> bool {
    &&& forall|a: T| !#[trigger] before(a, a)
    &&& forall|a: T, b: T| a == b || #[trigger] before(a, b) || before(b, a)
    &&& forall|a: T, b: T, c: T| #[trigger]
        before(a, b) && #[trigger] before(b, c) ==> before(a, c)
}

/// Where an item goes among ordered ones.
pub proof fn lemma_place_at<T>(s: Seq<T>, x: T, before: spec_fn(T, T) -> bool, p: int)
    requires
        strict_order(before),
        rising(s, before),
        0 <= p <= s.len(),
        forall|i: int| 0 <= i < p ==> before(#[trigger] s[i], x),
        p < s.len() ==> !before(s[p], x),
    ensures
        place_in(s, x, before) == if p < s.len() && s[p] == x {
            s
        } else {
            s.insert(p, x)
        },
    decreases s.len(),
{
    if p == s.len() {
        if s.len() > 0 {
            assert(before(s[s.len() - 1], x));
        }
        assert(s.insert(p, x) =~= s.push(x));
    } else {
        let d = s.drop_last();
        let n = s.len() - 1;
        if p < n {
            assert(before(s[p], s[n]));
            if before(s[n], x) {
                assert(before(s[p], x));
            }
            if s[n] == x {
                assert(before(s[p], x));
            }
        }
        assert(!before(s[n], x));
        assert forall|i: int, j: int| 0 <= i < j < d.len() implies before(
            #[trigger] d[i],
            #[trigger] d[j],
        ) by {
            assert(d[i] == s[i] && d[j] == s[j]);
        }
        assert forall|i: int| 0 <= i < p implies before(#[trigger] d[i], x) by {
            assert(d[i] == s[i]);
        }
        if s[n] != x {
            lemma_place_at(d, x, before, p);
            if p < n && s[p] == x {
                assert(d.push(s.last()) =~= s);
            } else {
                assert(d.insert(p, x).push(s.last()) =~= s.insert(p, x));
            }
        } else if p < n {
            assert(before(s[p], s[n]));
        }
    }
}

proof fn lemma_place_rises<T>(s: Seq<T>, x: T, before: spec_fn(T, T) -> bool)
    requires
        strict_order(before),
        rising(s, before),
    ensures
        rising(place_in(s, x, before), before),
        forall|y: T| #[trigger] place_in(s, x, before).contains(y) <==> y == x || s.contains(y),
    decreases s.len(),
{
    let r = place_in(s, x, before);
    if s.len() == 0 || before(s.last(), x) {
        assert forall|i: int, j: int| 0 <= i < j < r.len() implies before(
            #[trigger] r[i],
            #[trigger] r[j],
        ) by {
            if j == s.len() && i < s.len() - 1 {
                assert(before(s[i], s[s.len() - 1]));
            }
        }
        assert forall|y: T| #[trigger] r.contains(y) <==> y == x || s.contains(y) by {
            if s.contains(y) {
                let k = choose|k: int| 0 <= k < s.len() && s[k] == y;
                assert(r[k] == y);
            }
            if y == x {
                assert(r[s.len() as int] == x);
            }
        }
    } else if s.last() == x {
        assert(s[s.len() - 1] == x);
    } else {
        let d = s.drop_last();
        assert forall|i: int, j: int| 0 <= i < j < d.len() implies before(
            #[trigger] d[i],
            #[trigger] d[j],
        ) by {
            assert(d[i] == s[i] && d[j] == s[j]);
        }
        lemma_place_rises(d, x, before);
        let q = place_in(d, x, before);
        assert(r == q.push(s.last()));
        assert(before(x, s.last()));
        assert forall|i: int, j: int| 0 <= i < j < r.len() implies before(
            #[trigger] r[i],
            #[trigger] r[j],
        ) by {
            if j == q.len() {
                assert(q.contains(q[i]));
                if q[i] != x {
                    let k = choose|k: int| 0 <= k < d.len() && d[k] == q[i];
                    assert(before(s[k], s[s.len() - 1]));
                }
            } else {
                assert(r[i] == q[i] && r[j] == q[j]);
            }
        }
        assert forall|y: T| #[trigger] r.contains(y) <==> y == x || s.contains(y) by {
            if r.contains(y) {
                let k = choose|k: int| 0 <= k < r.len() && r[k] == y;
                if k < q.len() {
                    assert(q.contains(q[k]));
                    if y != x {
                        let m = choose|m: int| 0 <= m < d.len() && d[m] == y;
                        assert(s[m] == y);
                    }
                } else {
                    assert(s[s.len() - 1] == y);
                }
            }
            if y == x {
                assert(q.contains(y));
                let k = choose|k: int| 0 <= k < q.len() && q[k] == y;
                assert(r[k] == y);
            } else if s.contains(y) {
                let k = choose|k: int| 0 <= k < s.len() && s[k] == y;
                if k < d.len() {
                    assert(d[k] == y);
                    assert(q.contains(y));
                    let m = choose|m: int| 0 <= m < q.len() && q[m] == y;
                    assert(r[m] == y);
                } else {
                    assert(r[q.len() as int] == y);
                }
            }
        }
    }
}

/// The different items come in order, and none is lost or made up.
pub proof fn distinct_items_rise<T>(s: Seq<T>, before: spec_fn(T, T) -> bool)
    requires
        strict_order(before),
    ensures
        rising(distinct_by(s, before), before),
        forall|y: T| #[trigger] distinct_by(s, before).contains(y) <==> s.contains(y),
    decreases s.len(),
{
    if s.len() > 0 {
        let d = s.drop_last();
        distinct_items_rise(d, before);
        lemma_place_rises(distinct_by(d, before), s.last(), before);
        assert forall|y: T| #[trigger] distinct_by(s, before).contains(y) <==> s.contains(y) by {
            if s.contains(y) {
                let k = choose|k: int| 0 <= k < s.len() && s[k] == y;
                if k < d.len() {
                    assert(d[k] == y);
                }
            }
            if d.contains(y) {
                let k = choose|k: int| 0 <= k < d.len() && d[k] == y;
                assert(s[k] == y);
            }
            if y == s.last() {
                assert(s[s.len() - 1] == y);
            }
        }
    }
}

} // verus!
