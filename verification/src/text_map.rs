//! Maps keyed by texts, kept in the order of their keys.

use vstd::prelude::*;

use crate::sorting::{distinct_by, distinct_items_rise, lemma_place_at, place_in, rising, strict_order};
use crate::text::{chars_of, same, views};

verus! {

/// Whether `a` comes before `b`: texts are ordered character by character.
pub open spec fn text_before(a: Seq<char>, b: Seq<char>) -> bool
    decreases a.len(),
{
    if b.len() == 0 {
        false
    } else if a.len() == 0 {
        true
    } else if a[0] == b[0] {
        text_before(a.skip(1), b.skip(1))
    } else {
        a[0] < b[0]
    }
}

/// The order of texts is total: of two different texts one comes first.
pub proof fn lemma_before_total(a: Seq<char>, b: Seq<char>)
    ensures
        a == b || text_before(a, b) || text_before(b, a),
        !(text_before(a, b) && text_before(b, a)),
        !text_before(a, a),
    decreases a.len(),
{
    if a.len() > 0 {
        lemma_before_total(a.skip(1), a.skip(1));
    }
    if a.len() > 0 && b.len() > 0 && a[0] == b[0] {
        lemma_before_total(a.skip(1), b.skip(1));
        if a.skip(1) == b.skip(1) {
            assert forall|i: int| 0 <= i < a.len() implies a[i] == b[i] by {
                if i > 0 {
                    assert(a[i] == a.skip(1)[i - 1]);
                    assert(b[i] == b.skip(1)[i - 1]);
                }
            }
            assert(a.len() == a.skip(1).len() + 1);
            assert(a =~= b);
        }
    } else if a.len() == 0 && b.len() == 0 {
        assert(a =~= b);
    }
}

/// The order of texts is transitive.
pub proof fn lemma_before_transitive(a: Seq<char>, b: Seq<char>, c: Seq<char>)
    requires
        text_before(a, b),
        text_before(b, c),
    ensures
        text_before(a, c),
    decreases a.len(),
{
    if a.len() > 0 && a[0] == b[0] && b[0] == c[0] {
        lemma_before_transitive(a.skip(1), b.skip(1), c.skip(1));
    }
}

/// Whether `a` comes before `b`.
pub fn is_before(a: &str, b: &str) -> (r: bool)
    ensures
        r == text_before(a@, b@),
{
    let x = chars_of(a);
    let y = chars_of(b);
    let mut i: usize = 0;
    assert(a@.skip(0) =~= a@);
    assert(b@.skip(0) =~= b@);
    while i < x.len() && i < y.len() && x[i] == y[i]
        invariant
            x@ == a@,
            y@ == b@,
            i <= x@.len(),
            i <= y@.len(),
            text_before(a@, b@) == text_before(a@.skip(i as int), b@.skip(i as int)),
        decreases x@.len() - i,
    {
        assert(a@.skip(i as int).skip(1) =~= a@.skip(i + 1));
        assert(b@.skip(i as int).skip(1) =~= b@.skip(i + 1));
        i = i + 1;
    }
    if i >= y.len() {
        false
    } else if i >= x.len() {
        true
    } else {
        x[i] < y[i]
    }
}

/// Every text comes before the later ones.
pub open spec fn increasing(keys: Seq<Seq<char>>) -> bool {
    forall|i: int, j: int|
        0 <= i < j < keys.len() ==> text_before(#[trigger] keys[i], #[trigger] keys[j])
}

/// A map from texts to values, in the order of its keys.
#[derive(Debug)]
pub struct TextMap<V> {
    entries: Vec<(String, V)>,
}

/// The keys of entries.
pub open spec fn keys_of<V>(entries: Seq<(String, V)>) -> Seq<Seq<char>> {
    entries.map_values(|e: (String, V)| e.0@)
}

impl<V> TextMap<V> {
    /// The entries, in the order of their keys.
    pub closed spec fn list(&self) -> Seq<(String, V)> {
        self.entries@
    }

    /// The keys, in order.
    pub open spec fn keys(&self) -> Seq<Seq<char>> {
        keys_of(self.list())
    }

    /// The keys are in order, each there once.
    pub open spec fn ordered(&self) -> bool {
        increasing(self.keys())
    }

    /// Whether the map has a key.
    pub open spec fn has(&self, key: Seq<char>) -> bool {
        self.keys().contains(key)
    }

    /// Place of a key.
    pub open spec fn place(&self, key: Seq<char>) -> int {
        choose|i: int| 0 <= i < self.keys().len() && self.keys()[i] == key
    }

    /// The value of a key.
    pub open spec fn at(&self, key: Seq<char>) -> V {
        self.list()[self.place(key)].1
    }

    /// The value of a key, if the map has it.
    pub open spec fn lookup(&self, key: Seq<char>) -> Option<V> {
        if self.has(key) {
            Some(self.at(key))
        } else {
            None
        }
    }

    /// An empty map.
    pub fn new() -> (r: Self)
        ensures
            r.list() == Seq::<(String, V)>::empty(),
            r.ordered(),
    {
        TextMap { entries: Vec::new() }
    }

    /// The map of entries in the order of their keys.
    pub fn from_entries(entries: Vec<(String, V)>) -> (r: Self)
        requires
            increasing(keys_of(entries@)),
        ensures
            r.list() == entries@,
            r.ordered(),
    {
        TextMap { entries }
    }

    /// The entries, in the order of their keys.
    pub fn into_entries(self) -> (r: Vec<(String, V)>)
        ensures
            r@ == self.list(),
    {
        self.entries
    }

    /// Number of entries.
    pub fn len(&self) -> (r: usize)
        ensures
            r == self.list().len(),
    {
        self.entries.len()
    }

    /// The entry at a position.
    pub fn entry(&self, i: usize) -> (r: (&String, &V))
        requires
            i < self.list().len(),
        ensures
            *r.0 == self.list()[i as int].0,
            *r.1 == self.list()[i as int].1,
    {
        let e = &self.entries[i];
        (&e.0, &e.1)
    }

    /// First position whose key is not before `key`.
    fn position(&self, key: &str) -> (r: usize)
        requires
            self.ordered(),
        ensures
            r <= self.list().len(),
            forall|i: int| 0 <= i < r ==> text_before(#[trigger] self.keys()[i], key@),
            forall|i: int|
                r <= i < self.keys().len() ==> !text_before(#[trigger] self.keys()[i], key@),
    {
        let mut i: usize = 0;
        while i < self.entries.len() && is_before(self.entries[i].0.as_str(), key)
            invariant
                i <= self.entries@.len(),
                forall|j: int| 0 <= j < i ==> text_before(#[trigger] self.keys()[j], key@),
            decreases self.entries@.len() - i,
        {
            assert(self.keys()[i as int] == self.entries@[i as int].0@);
            i = i + 1;
        }
        proof {
            assert forall|j: int| i <= j < self.keys().len() implies !text_before(
                #[trigger] self.keys()[j],
                key@,
            ) by {
                assert(self.keys()[i as int] == self.entries@[i as int].0@);
                if i < j && text_before(self.keys()[j], key@) {
                    assert(text_before(self.keys()[i as int], self.keys()[j]));
                    lemma_before_transitive(self.keys()[i as int], self.keys()[j], key@);
                }
            }
        }
        i
    }

    /// A place with the key is the place of the key.
    pub proof fn lemma_place(&self, i: int)
        requires
            self.ordered(),
            0 <= i < self.list().len(),
        ensures
            self.has(self.keys()[i]),
            self.place(self.keys()[i]) == i,
            self.at(self.keys()[i]) == self.list()[i].1,
    {
        let key = self.keys()[i];
        assert(self.keys().len() == self.list().len());
        assert(self.keys()[i] == key);
        let p = self.place(key);
        assert(0 <= p < self.keys().len() && self.keys()[p] == key);
        lemma_before_total(key, key);
        if p < i {
            assert(text_before(self.keys()[p], self.keys()[i]));
        } else if i < p {
            assert(text_before(self.keys()[i], self.keys()[p]));
        }
    }

    /// The value of a key, if the map has it.
    pub fn get(&self, key: &str) -> (r: Option<&V>)
        requires
            self.ordered(),
        ensures
            match r {
                Some(v) => self.lookup(key@) == Some(*v),
                None => self.lookup(key@) is None,
            },
    {
        let p: usize = self.position(key);
        if p < self.entries.len() && same(self.entries[p].0.as_str(), key) {
            proof {
                assert(self.keys()[p as int] == key@);
                self.lemma_place(p as int);
            }
            return Some(&self.entries[p].1);
        }
        proof {
            if self.has(key@) {
                let q = self.place(key@);
                assert(self.keys()[q] == key@);
                lemma_before_total(key@, key@);
                assert(p <= q);
                if p < q {
                    assert(text_before(self.keys()[p as int], self.keys()[q]));
                    assert(!text_before(self.keys()[p as int], key@));
                }
            }
        }
        None
    }

    /// Set the value of a key.
    pub fn insert(&mut self, key: String, value: V)
        requires
            old(self).ordered(),
        ensures
            final(self).ordered(),
            forall|k: Seq<char>| #[trigger]
                final(self).lookup(k) == (if k == key@ {
                    Some(value)
                } else {
                    old(self).lookup(k)
                }),
    {
        let p: usize = self.position(key.as_str());
        let ghost before = *self;
        let ghost bk = before.keys();
        if p < self.entries.len() && same(self.entries[p].0.as_str(), key.as_str()) {
            assert(bk[p as int] == key@);
            self.entries.set(p, (key, value));
            proof {
                assert(self.keys() =~= bk);
                assert forall|k: Seq<char>| #[trigger] self.lookup(k) == (if k == key@ {
                    Some(value)
                } else {
                    before.lookup(k)
                }) by {
                    if bk.contains(k) {
                        let i = before.place(k);
                        assert(bk[i] == k);
                        before.lemma_place(i);
                        self.lemma_place(i);
                        self.lemma_place(p as int);
                    }
                    assert(bk.contains(bk[p as int]));
                    self.lemma_place(p as int);
                }
            }
        } else {
            self.entries.insert(p, (key, value));
            proof {
                let nk = self.keys();
                assert(nk =~= bk.insert(p as int, key@));
                assert forall|i: int, j: int| 0 <= i < j < nk.len() implies text_before(
                    #[trigger] nk[i],
                    #[trigger] nk[j],
                ) by {
                    let oi = if i < p {
                        i
                    } else {
                        i - 1
                    };
                    let oj = if j < p {
                        j
                    } else {
                        j - 1
                    };
                    if i == p {
                        assert(nk[j] == bk[oj]);
                        assert(!text_before(bk[oj], key@));
                        lemma_before_total(key@, bk[oj]);
                        if bk[oj] == key@ {
                            lemma_before_total(key@, key@);
                            if oj > p {
                                assert(text_before(bk[p as int], bk[oj]));
                            }
                        }
                    } else if j == p {
                        assert(nk[i] == bk[oi]);
                        assert(text_before(bk[oi], key@));
                    } else {
                        assert(nk[i] == bk[oi] && nk[j] == bk[oj]);
                    }
                }
                assert forall|k: Seq<char>| #[trigger] self.lookup(k) == (if k == key@ {
                    Some(value)
                } else {
                    before.lookup(k)
                }) by {
                    assert(nk[p as int] == key@);
                    self.lemma_place(p as int);
                    if before.has(k) {
                        let i = before.place(k);
                        assert(bk[i] == k);
                        before.lemma_place(i);
                        let ni = if i < p {
                            i
                        } else {
                            i + 1
                        };
                        assert(nk[ni] == k);
                        self.lemma_place(ni);
                    } else if self.has(k) {
                        let ni = self.place(k);
                        assert(nk[ni] == k);
                        if ni != p {
                            let i = if ni < p {
                                ni
                            } else {
                                ni - 1
                            };
                            assert(bk[i] == k);
                            assert(bk.contains(k));
                        }
                    }
                }
            }
        }
    }

    /// Take a key out.
    pub fn remove(&mut self, key: &str)
        requires
            old(self).ordered(),
        ensures
            final(self).ordered(),
            forall|k: Seq<char>| #[trigger]
                final(self).lookup(k) == (if k == key@ {
                    None
                } else {
                    old(self).lookup(k)
                }),
    {
        let p: usize = self.position(key);
        let ghost before = *self;
        let ghost bk = before.keys();
        if p < self.entries.len() && same(self.entries[p].0.as_str(), key) {
            assert(bk[p as int] == key@);
            self.entries.remove(p);
            proof {
                let nk = self.keys();
                assert(nk =~= bk.remove(p as int));
                assert forall|i: int, j: int| 0 <= i < j < nk.len() implies text_before(
                    #[trigger] nk[i],
                    #[trigger] nk[j],
                ) by {
                    let oi = if i < p {
                        i
                    } else {
                        i + 1
                    };
                    let oj = if j < p {
                        j
                    } else {
                        j + 1
                    };
                    assert(nk[i] == bk[oi] && nk[j] == bk[oj]);
                }
                assert forall|k: Seq<char>| #[trigger] self.lookup(k) == (if k == key@ {
                    None
                } else {
                    before.lookup(k)
                }) by {
                    if self.has(k) {
                        let ni = self.place(k);
                        assert(nk[ni] == k);
                        let i = if ni < p {
                            ni
                        } else {
                            ni + 1
                        };
                        assert(bk[i] == k);
                        before.lemma_place(i);
                        before.lemma_place(p as int);
                        self.lemma_place(ni);
                    } else if before.has(k) && k != key@ {
                        let i = before.place(k);
                        assert(bk[i] == k);
                        let ni = if i < p {
                            i
                        } else {
                            i - 1
                        };
                        assert(nk[ni] == k);
                        assert(nk.contains(k));
                    }
                }
            }
        } else {
            proof {
                if self.has(key@) {
                    let q = self.place(key@);
                    assert(self.keys()[q] == key@);
                    lemma_before_total(key@, key@);
                    assert(p <= q);
                    if p < q {
                        assert(text_before(self.keys()[p as int], self.keys()[q]));
                        assert(!text_before(self.keys()[p as int], key@));
                    }
                }
            }
        }
    }
}

/// Two ordered maps that agree on every key have the same entries in the same
/// order, texts compared by their characters.
pub proof fn ordered_maps_are_equal_by_lookup<V>(a: TextMap<V>, b: TextMap<V>)
    requires
        a.ordered(),
        b.ordered(),
        forall|k: Seq<char>| a.lookup(k) == b.lookup(k),
    ensures
        a.keys() == b.keys(),
        forall|i: int| 0 <= i < a.list().len() ==> (#[trigger] a.list()[i]).1 == b.list()[i].1,
{
    assert forall|k: Seq<char>| a.keys().contains(k) <==> b.keys().contains(k) by {
        assert(a.lookup(k) == b.lookup(k));
    }
    lemma_same_keys(a.keys(), b.keys());
    assert forall|i: int| 0 <= i < a.list().len() implies (#[trigger] a.list()[i]).1
        == b.list()[i].1 by {
        assert(a.keys()[i] == b.keys()[i]);
        a.lemma_place(i);
        b.lemma_place(i);
        assert(a.lookup(a.keys()[i]) == b.lookup(a.keys()[i]));
    }
}

/// Two increasing lists of the same texts are the same list.
pub proof fn lemma_same_keys(a: Seq<Seq<char>>, b: Seq<Seq<char>>)
    requires
        increasing(a),
        increasing(b),
        forall|k: Seq<char>| a.contains(k) <==> b.contains(k),
    ensures
        a == b,
    decreases a.len(),
{
    if a.len() == 0 {
        if b.len() > 0 {
            assert(b.contains(b[0]));
        }
        assert(a =~= b);
    } else {
        assert(a.contains(a.last()));
        assert(b.contains(a.last()));
        assert(b.len() > 0);
        assert(b.contains(b.last()));
        assert(a.contains(b.last()));
        let i = choose|i: int| 0 <= i < b.len() && b[i] == a.last();
        let j = choose|j: int| 0 <= j < a.len() && a[j] == b.last();
        lemma_before_total(a.last(), b.last());
        if i < b.len() - 1 {
            assert(text_before(b[i], b[b.len() - 1]));
            if j < a.len() - 1 {
                assert(text_before(a[j], a[a.len() - 1]));
            }
        }
        assert(a.last() == b.last());
        let x = a.drop_last();
        let y = b.drop_last();
        assert forall|p: int, q: int| 0 <= p < q < x.len() implies text_before(
            #[trigger] x[p],
            #[trigger] x[q],
        ) by {
            assert(x[p] == a[p] && x[q] == a[q]);
        }
        assert forall|p: int, q: int| 0 <= p < q < y.len() implies text_before(
            #[trigger] y[p],
            #[trigger] y[q],
        ) by {
            assert(y[p] == b[p] && y[q] == b[q]);
        }
        assert forall|k: Seq<char>| x.contains(k) <==> y.contains(k) by {
            if x.contains(k) {
                let p = choose|p: int| 0 <= p < x.len() && x[p] == k;
                assert(a[p] == k);
                assert(a.contains(k));
                assert(b.contains(k));
                let q = choose|q: int| 0 <= q < b.len() && b[q] == k;
                lemma_before_total(k, k);
                assert(text_before(a[p], a[a.len() - 1]));
                assert(q < b.len() - 1);
                assert(y[q] == k);
            }
            if y.contains(k) {
                let q = choose|q: int| 0 <= q < y.len() && y[q] == k;
                assert(b[q] == k);
                assert(b.contains(k));
                assert(a.contains(k));
                let p = choose|p: int| 0 <= p < a.len() && a[p] == k;
                lemma_before_total(k, k);
                assert(text_before(b[q], b[b.len() - 1]));
                assert(p < a.len() - 1);
                assert(x[p] == k);
            }
        }
        lemma_same_keys(x, y);
        assert(a =~= x.push(a.last()));
        assert(b =~= y.push(b.last()));
    }
}

/// The order of texts.
pub open spec fn text_order() -> spec_fn(Seq<char>, Seq<char>) -> bool {
    |a: Seq<char>, b: Seq<char>| text_before(a, b)
}

/// The order of texts is a strict one.
pub proof fn lemma_text_order()
    ensures
        strict_order(text_order()),
{
    let before = text_order();
    assert forall|a: Seq<char>| !#[trigger] before(a, a) by {
        lemma_before_total(a, a);
    }
    assert forall|a: Seq<char>, b: Seq<char>| a == b || #[trigger] before(a, b) || before(b, a) by {
        lemma_before_total(a, b);
    }
    assert forall|a: Seq<char>, b: Seq<char>, c: Seq<char>| #[trigger]
        before(a, b) && #[trigger] before(b, c) implies before(a, c) by {
        lemma_before_transitive(a, b, c);
    }
}

/// The different texts, in order.
pub open spec fn sorted_texts(s: Seq<Seq<char>>) -> Seq<Seq<char>> {
    distinct_by(s, text_order())
}

/// Put a text in its place, unless it is there.
fn place_text(v: &mut Vec<String>, s: &str)
    requires
        rising(views(old(v)@), text_order()),
    ensures
        views(final(v)@) == place_in(views(old(v)@), s@, text_order()),
{
    let mut p: usize = 0;
    while p < v.len() && is_before(v[p].as_str(), s)
        invariant
            p <= v@.len(),
            forall|i: int| 0 <= i < p ==> text_order()(#[trigger] views(v@)[i], s@),
        decreases v@.len() - p,
    {
        p = p + 1;
    }
    proof {
        lemma_text_order();
        lemma_place_at(views(v@), s@, text_order(), p as int);
    }
    if p < v.len() && same(v[p].as_str(), s) {
        return;
    }
    let ghost before = v@;
    v.insert(p, s.to_owned());
    assert(views(v@) =~= views(before).insert(p as int, s@));
}

/// The different texts of a list, in order.
pub fn sort_texts(list: &Vec<String>) -> (r: Vec<String>)
    ensures
        views(r@) == sorted_texts(views(list@)),
{
    let mut out: Vec<String> = Vec::new();
    let mut i: usize = 0;
    assert(views(out@) =~= sorted_texts(views(list@).take(0)));
    while i < list.len()
        invariant
            i <= list@.len(),
            views(out@) == sorted_texts(views(list@).take(i as int)),
        decreases list@.len() - i,
    {
        proof {
            lemma_text_order();
            distinct_items_rise(views(list@).take(i as int), text_order());
            let t = views(list@).take(i + 1);
            assert(t.drop_last() =~= views(list@).take(i as int));
            assert(t.last() == list@[i as int]@);
        }
        place_text(&mut out, list[i].as_str());
        i = i + 1;
    }
    assert(views(list@).take(i as int) =~= views(list@));
    out
}

/// Sorting texts puts them in order and loses none.
pub proof fn sorted_texts_hold_each_once(s: Seq<Seq<char>>)
    ensures
        increasing(sorted_texts(s)),
        forall|t: Seq<char>| #[trigger] sorted_texts(s).contains(t) <==> s.contains(t),
{
    lemma_text_order();
    distinct_items_rise(s, text_order());
    let r = sorted_texts(s);
    assert forall|i: int, j: int| 0 <= i < j < r.len() implies text_before(
        #[trigger] r[i],
        #[trigger] r[j],
    ) by {
        assert(text_order()(r[i], r[j]));
    }
}

} // verus!
