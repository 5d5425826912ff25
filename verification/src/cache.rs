//! The bounded, least-recently-used object cache.
//!
//! A [`BoundedObjectCache`] maps string identifiers to live objects, holds
//! at most `cap` entries, marks an entry recently used on lookup, and
//! evicts the least recently used entry when a new one would exceed the
//! capacity. Eviction drops the object; it never performs I/O.
//!
//! Recency bookkeeping is delegated to the `lru` crate through the trusted
//! wrappers of [`crate::lru_backend`]; the objects themselves live in a
//! verified side table keyed by the same identifiers. The model of a cache
//! is the pair of [`BoundedObjectCache::keys`] (recency order, most recent
//! first) and [`BoundedObjectCache::contents`] (identifier to object).

use vstd::prelude::*;

use crate::lru_backend::{
    lru_capacity, lru_contains, lru_get, lru_keys, lru_len, lru_new, lru_pop, lru_push, KeyLru,
};

verus! {

/// The key of each record in a key-object table, as a sequence of
/// characters.
pub open spec fn store_keys<T>(sv: Seq<(String, T)>) -> Seq<Seq<char>> {
    sv.map_values(|p: (String, T)| p.0@)
}

/// The key-object table read as a map. Later records win, which does not
/// matter while keys are distinct.
pub open spec fn assoc_map<T>(sv: Seq<(String, T)>) -> Map<Seq<char>, T>
    decreases sv.len(),
{
    if sv.len() == 0 {
        Map::empty()
    } else {
        assoc_map(sv.drop_last()).insert(sv.last().0@, sv.last().1)
    }
}

/// The recency order after a key is inserted: the key moves to the front;
/// a fresh key on a full cache pushes the least recently used key out.
pub open spec fn pushed_keys(ks: Seq<Seq<char>>, k: Seq<char>, cap: nat) -> Seq<Seq<char>> {
    if ks.contains(k) {
        seq![k] + ks.remove_value(k)
    } else if ks.len() < cap {
        seq![k] + ks
    } else {
        seq![k] + ks.drop_last()
    }
}

/// The recency order after a held key is looked up: it moves to the front.
pub open spec fn touched_keys(ks: Seq<Seq<char>>, k: Seq<char>) -> Seq<Seq<char>> {
    seq![k] + ks.remove_value(k)
}

/// The contents after a key is inserted: the evicted entry, if any, leaves
/// the map and the new one enters it.
pub open spec fn put_contents<T>(
    ks: Seq<Seq<char>>,
    m: Map<Seq<char>, T>,
    k: Seq<char>,
    v: T,
    cap: nat,
) -> Map<Seq<char>, T> {
    if ks.contains(k) || ks.len() < cap {
        m.insert(k, v)
    } else {
        m.remove(ks.last()).insert(k, v)
    }
}

proof fn lemma_assoc_dom<T>(sv: Seq<(String, T)>)
    ensures
        forall|k: Seq<char>|
            #![trigger assoc_map(sv).dom().contains(k)]
            #![trigger store_keys(sv).contains(k)]
            assoc_map(sv).dom().contains(k) <==> store_keys(sv).contains(k),
    decreases sv.len(),
{
    if sv.len() > 0 {
        lemma_assoc_dom(sv.drop_last());
        assert(store_keys(sv.drop_last()) =~= store_keys(sv).drop_last());
        assert forall|k: Seq<char>|
            assoc_map(sv).dom().contains(k) implies store_keys(sv).contains(k) by {
            if k == sv.last().0@ {
                assert(store_keys(sv)[sv.len() - 1] == k);
            } else {
                assert(assoc_map(sv.drop_last()).dom().contains(k));
                assert(store_keys(sv.drop_last()).contains(k));
                let i = choose|i: int|
                    0 <= i < store_keys(sv.drop_last()).len() && store_keys(sv.drop_last())[i]
                        == k;
                assert(store_keys(sv)[i] == k);
            }
        }
        assert forall|k: Seq<char>| store_keys(sv).contains(k) implies assoc_map(
            sv,
        ).dom().contains(k) by {
            let i = choose|i: int| 0 <= i < store_keys(sv).len() && store_keys(sv)[i] == k;
            if i < sv.len() - 1 {
                assert(store_keys(sv.drop_last())[i] == k);
                assert(store_keys(sv.drop_last()).contains(k));
                assert(assoc_map(sv.drop_last()).dom().contains(k));
            }
        }
    }
}

proof fn lemma_assoc_lookup<T>(sv: Seq<(String, T)>, j: int)
    requires
        store_keys(sv).no_duplicates(),
        0 <= j < sv.len(),
    ensures
        assoc_map(sv).dom().contains(sv[j].0@),
        assoc_map(sv)[sv[j].0@] == sv[j].1,
    decreases sv.len(),
{
    lemma_assoc_dom(sv);
    assert(store_keys(sv)[j] == sv[j].0@);
    if j == sv.len() - 1 {
    } else {
        assert(store_keys(sv.drop_last()) =~= store_keys(sv).drop_last());
        assert(store_keys(sv)[sv.len() - 1] == sv.last().0@);
        assert(sv[j].0@ != sv.last().0@);
        assert(sv.drop_last()[j] == sv[j]);
        lemma_assoc_lookup(sv.drop_last(), j);
    }
}

proof fn lemma_assoc_remove<T>(sv: Seq<(String, T)>, j: int)
    requires
        store_keys(sv).no_duplicates(),
        0 <= j < sv.len(),
    ensures
        assoc_map(sv.remove(j)) == assoc_map(sv).remove(sv[j].0@),
    decreases sv.len(),
{
    assert(store_keys(sv.drop_last()) =~= store_keys(sv).drop_last());
    if j == sv.len() - 1 {
        assert(sv.remove(j) =~= sv.drop_last());
        lemma_assoc_dom(sv.drop_last());
        assert(!store_keys(sv.drop_last()).contains(sv.last().0@)) by {
            if store_keys(sv.drop_last()).contains(sv.last().0@) {
                let i = choose|i: int|
                    0 <= i < store_keys(sv.drop_last()).len() && store_keys(sv.drop_last())[i]
                        == sv.last().0@;
                assert(store_keys(sv)[i] == sv.last().0@);
                assert(store_keys(sv)[sv.len() - 1] == sv.last().0@);
            }
        }
        assert(assoc_map(sv.drop_last()).insert(sv.last().0@, sv.last().1).remove(sv.last().0@)
            =~= assoc_map(sv.drop_last()));
    } else {
        assert(sv.remove(j).drop_last() =~= sv.drop_last().remove(j));
        assert(sv.drop_last()[j] == sv[j]);
        lemma_assoc_remove(sv.drop_last(), j);
        assert(sv.remove(j).last() == sv.last());
        assert(store_keys(sv)[j] == sv[j].0@);
        assert(store_keys(sv)[sv.len() - 1] == sv.last().0@);
        assert(sv[j].0@ != sv.last().0@);
        assert(assoc_map(sv.remove(j)) == assoc_map(sv.drop_last().remove(j)).insert(
            sv.last().0@,
            sv.last().1,
        ));
        assert(assoc_map(sv.drop_last()).remove(sv[j].0@).insert(sv.last().0@, sv.last().1)
            =~= assoc_map(sv.drop_last()).insert(sv.last().0@, sv.last().1).remove(sv[j].0@));
    }
}

proof fn lemma_remove_value_props<A>(s: Seq<A>, x: A)
    requires
        s.no_duplicates(),
    ensures
        !s.contains(x) ==> s.remove_value(x) == s,
        s.contains(x) ==> s.remove_value(x).len() == s.len() - 1,
        s.remove_value(x).no_duplicates(),
        !s.remove_value(x).contains(x),
        forall|y: A| y != x ==> #[trigger] s.remove_value(x).contains(y) == s.contains(y),
{
    s.index_of_first_ensures(x);
    if s.contains(x) {
        let i = s.index_of_first(x)->0;
        let r = s.remove(i);
        s.remove_ensures(i);
        assert(forall|j: int| 0 <= j < i ==> r[j] == s[j]);
        assert(forall|j: int| i <= j < r.len() ==> r[j] == s[j + 1]);
        assert(r.no_duplicates()) by {
            assert forall|p: int, q: int| 0 <= p < q < r.len() implies r[p] != r[q] by {
                let sp: int = if p < i { p } else { p + 1 };
                let sq: int = if q < i { q } else { q + 1 };
                assert(r[p] == s[sp] && r[q] == s[sq]);
            }
        }
        assert(!r.contains(x)) by {
            if r.contains(x) {
                let j = choose|j: int| 0 <= j < r.len() && r[j] == x;
                let sj: int = if j < i { j } else { j + 1 };
                assert(s[sj] == x && s[i] == x && sj != i);
            }
        }
        assert forall|y: A| y != x implies #[trigger] r.contains(y) == s.contains(y) by {
            if s.contains(y) {
                let j = choose|j: int| 0 <= j < s.len() && s[j] == y;
                if j < i {
                    assert(r[j] == y);
                } else {
                    assert(j != i);
                    assert(r[j - 1] == y);
                }
            }
            if r.contains(y) {
                let j = choose|j: int| 0 <= j < r.len() && r[j] == y;
                let sj: int = if j < i { j } else { j + 1 };
                assert(s[sj] == y);
            }
        }
    }
}

proof fn lemma_prepend_props(ks: Seq<Seq<char>>, k: Seq<char>)
    requires
        ks.no_duplicates(),
        !ks.contains(k),
    ensures
        (seq![k] + ks).no_duplicates(),
        forall|x: Seq<char>| #[trigger] (seq![k] + ks).contains(x) == (x == k || ks.contains(x)),
{
    let r = seq![k] + ks;
    assert(r[0] == k);
    assert(forall|j: int| 0 <= j < ks.len() ==> r[j + 1] == ks[j]);
    assert forall|x: Seq<char>| #[trigger] r.contains(x) == (x == k || ks.contains(x)) by {
        if r.contains(x) {
            let j = choose|j: int| 0 <= j < r.len() && r[j] == x;
            if j > 0 {
                assert(ks[j - 1] == x);
            }
        }
        if x == k {
            assert(r[0] == x);
        }
        if ks.contains(x) {
            let j = choose|j: int| 0 <= j < ks.len() && ks[j] == x;
            assert(r[j + 1] == x);
        }
    }
    assert(r.no_duplicates()) by {
        assert forall|p: int, q: int| 0 <= p < q < r.len() implies r[p] != r[q] by {
            if p == 0 {
                assert(r[q] == ks[q - 1]);
                assert(ks.contains(ks[q - 1]));
            } else {
                assert(r[p] == ks[p - 1] && r[q] == ks[q - 1]);
            }
        }
    }
}

proof fn lemma_drop_last_props(ks: Seq<Seq<char>>)
    requires
        ks.no_duplicates(),
        ks.len() > 0,
    ensures
        ks.drop_last().no_duplicates(),
        forall|x: Seq<char>|
            #[trigger] ks.drop_last().contains(x) == (ks.contains(x) && x != ks.last()),
{
    let d = ks.drop_last();
    assert(forall|j: int| 0 <= j < d.len() ==> d[j] == ks[j]);
    assert forall|x: Seq<char>| #[trigger] d.contains(x) == (ks.contains(x) && x != ks.last()) by {
        if d.contains(x) {
            let j = choose|j: int| 0 <= j < d.len() && d[j] == x;
            assert(ks[j] == x);
            assert(ks[ks.len() - 1] == ks.last());
        }
        if ks.contains(x) && x != ks.last() {
            let j = choose|j: int| 0 <= j < ks.len() && ks[j] == x;
            assert(j != ks.len() - 1);
            assert(d[j] == x);
        }
    }
}

/// How key membership changes across [`pushed_keys`]: the inserted key is
/// held; other keys stay unless they were the evicted last key.
pub open spec fn pushed_keys_membership(
    ks: Seq<Seq<char>>,
    k: Seq<char>,
    cap: nat,
    x: Seq<char>,
) -> bool {
    if x == k {
        true
    } else if !ks.contains(k) && ks.len() >= cap {
        ks.contains(x) && x != ks.last()
    } else {
        ks.contains(x)
    }
}

proof fn lemma_pushed_keys_props(ks: Seq<Seq<char>>, k: Seq<char>, cap: nat)
    requires
        ks.no_duplicates(),
        ks.len() <= cap,
        1 <= cap,
    ensures
        pushed_keys(ks, k, cap).no_duplicates(),
        pushed_keys(ks, k, cap).len() <= cap,
        forall|x: Seq<char>|
            #[trigger] pushed_keys(ks, k, cap).contains(x) == pushed_keys_membership(
                ks,
                k,
                cap,
                x,
            ),
{
    lemma_remove_value_props(ks, k);
    if ks.contains(k) {
        lemma_prepend_props(ks.remove_value(k), k);
        assert forall|x: Seq<char>| #[trigger]
            pushed_keys(ks, k, cap).contains(x) == pushed_keys_membership(ks, k, cap, x) by {
            if x != k {
                assert(ks.remove_value(k).contains(x) == ks.contains(x));
            }
        }
    } else if ks.len() < cap {
        lemma_prepend_props(ks, k);
    } else {
        lemma_drop_last_props(ks);
        assert(!ks.drop_last().contains(k));
        lemma_prepend_props(ks.drop_last(), k);
    }
}

proof fn lemma_touched_keys_props(ks: Seq<Seq<char>>, k: Seq<char>)
    requires
        ks.no_duplicates(),
        ks.contains(k),
    ensures
        touched_keys(ks, k).no_duplicates(),
        touched_keys(ks, k).len() == ks.len(),
        forall|x: Seq<char>| #[trigger] touched_keys(ks, k).contains(x) == ks.contains(x),
{
    lemma_remove_value_props(ks, k);
    lemma_prepend_props(ks.remove_value(k), k);
    assert forall|x: Seq<char>| #[trigger] touched_keys(ks, k).contains(x) == ks.contains(x) by {
        if x != k {
            assert(ks.remove_value(k).contains(x) == ks.contains(x));
        }
    }
}

/// The recency order after the keys of `new_keys` are inserted in turn,
/// oldest first, each by [`pushed_keys`].
pub open spec fn pushed_all(ks: Seq<Seq<char>>, new_keys: Seq<Seq<char>>, cap: nat) -> Seq<
    Seq<char>,
>
    decreases new_keys.len(),
{
    if new_keys.len() == 0 {
        ks
    } else {
        pushed_keys(pushed_all(ks, new_keys.drop_last(), cap), new_keys.last(), cap)
    }
}

/// Inserting distinct fresh keys into an empty cache keeps exactly the
/// latest `cap` of them, most recent first.
pub proof fn lemma_pushed_all_shape(ids: Seq<Seq<char>>, cap: nat)
    requires
        1 <= cap,
        ids.no_duplicates(),
    ensures
        pushed_all(Seq::empty(), ids, cap) == Seq::new(
            if ids.len() <= cap {
                ids.len() as nat
            } else {
                cap
            },
            |i: int| ids[ids.len() - 1 - i],
        ),
    decreases ids.len(),
{
    let m = ids.len() as int;
    if m > 0 {
        assert(ids.drop_last().no_duplicates());
        lemma_pushed_all_shape(ids.drop_last(), cap);
        let prev = pushed_all(Seq::empty(), ids.drop_last(), cap);
        let prev_len: int = if m - 1 <= cap { m - 1 } else { cap as int };
        assert(forall|i: int| 0 <= i < prev_len ==> prev[i] == ids[m - 2 - i]);
        assert(!prev.contains(ids.last())) by {
            if prev.contains(ids.last()) {
                let i = choose|i: int| 0 <= i < prev.len() && prev[i] == ids.last();
                assert(ids[m - 2 - i] == ids[m - 1]);
            }
        }
        assert(ids.drop_last() =~= ids.drop_last());
        assert(pushed_all(Seq::empty(), ids, cap) == pushed_keys(prev, ids.last(), cap));
        if prev.len() < cap {
            assert(pushed_keys(prev, ids.last(), cap) =~= Seq::new(
                (prev_len + 1) as nat,
                |i: int| ids[m - 1 - i],
            ));
        } else {
            assert(pushed_keys(prev, ids.last(), cap) =~= Seq::new(
                cap,
                |i: int| ids[m - 1 - i],
            ));
        }
    } else {
        assert(pushed_all(Seq::empty(), ids, cap) =~= Seq::new(0, |i: int| ids[m - 1 - i]));
    }
}

/// Cache capacity law: after inserting `cap + 1` distinct fresh keys into
/// an empty cache of capacity `cap`, with no lookup in between, the first
/// (least recently inserted) key is absent and the other `cap` are held.
pub proof fn lemma_capacity_eviction(ids: Seq<Seq<char>>, cap: nat)
    requires
        1 <= cap,
        ids.no_duplicates(),
        ids.len() == cap + 1,
    ensures
        !pushed_all(Seq::empty(), ids, cap).contains(ids[0]),
        forall|i: int| 1 <= i <= cap ==> #[trigger] pushed_all(
            Seq::empty(),
            ids,
            cap,
        ).contains(ids[i]),
{
    lemma_pushed_all_shape(ids, cap);
    let r = pushed_all(Seq::empty(), ids, cap);
    let m = ids.len() as int;
    assert(r.len() == cap);
    assert(forall|i: int| 0 <= i < cap ==> r[i] == ids[m - 1 - i]);
    assert(!r.contains(ids[0])) by {
        if r.contains(ids[0]) {
            let i = choose|i: int| 0 <= i < r.len() && r[i] == ids[0];
            assert(ids[m - 1 - i] == ids[0]);
        }
    }
    assert forall|i: int| 1 <= i <= cap implies #[trigger] r.contains(ids[i]) by {
        assert(r[m - 1 - i] == ids[i]);
    }
}

/// Membership after one key is removed from a duplicate-free recency
/// order: the key is gone, every other key is untouched.
pub proof fn lemma_remove_value_membership(ks: Seq<Seq<char>>, k: Seq<char>)
    requires
        ks.no_duplicates(),
    ensures
        !ks.remove_value(k).contains(k),
        forall|y: Seq<char>| y != k ==> #[trigger] ks.remove_value(k).contains(y) == ks.contains(
            y,
        ),
        !ks.contains(k) ==> ks.remove_value(k) == ks,
        ks.contains(k) ==> ks.remove_value(k).len() == ks.len() - 1,
{
    lemma_remove_value_props(ks, k);
}

/// A fixed-capacity cache from string identifiers to objects, with
/// least-recently-used eviction.
pub struct BoundedObjectCache<T> {
    lru: KeyLru,
    store: Vec<(String, T)>,
}

impl<T> BoundedObjectCache<T> {
    /// The identifiers held, most recently used first.
    pub closed spec fn keys(self) -> Seq<Seq<char>> {
        lru_keys(self.lru)
    }

    /// The objects held, by identifier.
    pub closed spec fn contents(self) -> Map<Seq<char>, T> {
        assoc_map(self.store@)
    }

    /// The fixed capacity.
    pub closed spec fn cap(self) -> nat {
        lru_capacity(self.lru)
    }

    /// Whether an object is cached under `k`.
    pub open spec fn has(self, k: Seq<char>) -> bool {
        self.keys().contains(k)
    }

    /// Internal consistency: recency order and side table agree.
    pub closed spec fn wf(self) -> bool {
        &&& 1 <= lru_capacity(self.lru)
        &&& lru_keys(self.lru).len() <= lru_capacity(self.lru)
        &&& lru_keys(self.lru).no_duplicates()
        &&& store_keys(self.store@).no_duplicates()
        &&& forall|k: Seq<char>|
            #[trigger] store_keys(self.store@).contains(k) == lru_keys(self.lru).contains(k)
    }

    /// The recency order never has a key twice, and never exceeds the
    /// capacity.
    pub proof fn lemma_wf_keys(self)
        requires
            self.wf(),
        ensures
            self.keys().no_duplicates(),
            self.keys().len() <= self.cap(),
            1 <= self.cap(),
    {
    }

    /// The contents hold exactly the keys of the recency order.
    pub proof fn lemma_wf_dom(self)
        requires
            self.wf(),
        ensures
            forall|k: Seq<char>| #[trigger] self.contents().contains_key(k) == self.has(k),
    {
        lemma_assoc_dom(self.store@);
    }

    /// A cache of the given capacity, holding nothing.
    pub fn new(cap: usize) -> (r: Self)
        requires
            1 <= cap,
        ensures
            r.wf(),
            r.cap() == cap as nat,
            r.keys() == Seq::<Seq<char>>::empty(),
            r.contents() == Map::<Seq<char>, T>::empty(),
    {
        let r = BoundedObjectCache { lru: lru_new(cap), store: Vec::new() };
        proof {
            assert(store_keys(r.store@) =~= Seq::<Seq<char>>::empty());
        }
        r
    }

    /// The number of objects held.
    pub fn len(&self) -> (r: usize)
        ensures
            r == self.keys().len(),
    {
        lru_len(&self.lru)
    }

    /// Whether an object is cached under `k`, without marking it used.
    pub fn contains(&self, k: &str) -> (r: bool)
        ensures
            r == self.has(k@),
    {
        lru_contains(&self.lru, k)
    }

    fn find_index(&self, k: &str) -> (r: Option<usize>)
        ensures
            match r {
                Some(i) => i < self.store@.len() && self.store@[i as int].0@ == k@,
                None => !store_keys(self.store@).contains(k@),
            },
    {
        let mut i: usize = 0;
        while i < self.store.len()
            invariant
                i <= self.store@.len(),
                forall|j: int| 0 <= j < i ==> self.store@[j].0@ != k@,
            decreases self.store@.len() - i,
        {
            if crate::text::str_eq(self.store[i].0.as_str(), k) {
                return Some(i);
            }
            i = i + 1;
        }
        proof {
            if store_keys(self.store@).contains(k@) {
                let j = choose|j: int|
                    0 <= j < store_keys(self.store@).len() && store_keys(self.store@)[j] == k@;
                assert(self.store@[j].0@ == k@);
            }
        }
        None
    }

    /// Looks an object up and marks it recently used: a hit moves `k` to
    /// the front of the recency order, a miss changes nothing.
    pub fn get(&mut self, k: &str) -> (r: Option<&T>)
        requires
            old(self).wf(),
        ensures
            final(self).wf(),
            final(self).cap() == old(self).cap(),
            final(self).contents() == old(self).contents(),
            old(self).has(k@) ==> {
                &&& (r matches Some(v) && *v == old(self).contents()[k@])
                &&& final(self).keys() == touched_keys(old(self).keys(), k@)
            },
            !old(self).has(k@) ==> r is None && final(self).keys() == old(self).keys(),
    {
        let ghost ks0 = lru_keys(self.lru);
        let hit = lru_get(&mut self.lru, k);
        if hit {
            proof {
                lemma_touched_keys_props(ks0, k@);
            }
            match self.find_index(k) {
                Some(i) => {
                    proof {
                        lemma_assoc_lookup(self.store@, i as int);
                    }
                    Some(&self.store[i].1)
                },
                None => {
                    proof {
                        assert(false);
                    }
                    None
                },
            }
        } else {
            None
        }
    }

    /// Removes the object cached under `k` and returns it.
    pub fn pop(&mut self, k: &str) -> (r: Option<T>)
        requires
            old(self).wf(),
        ensures
            final(self).wf(),
            final(self).cap() == old(self).cap(),
            final(self).keys() == old(self).keys().remove_value(k@),
            final(self).contents() == old(self).contents().remove(k@),
            old(self).has(k@) ==> (r matches Some(v) && v == old(self).contents()[k@]),
            !old(self).has(k@) ==> r is None,
    {
        let ghost ks0 = lru_keys(self.lru);
        let ghost sv0 = self.store@;
        let removed = lru_pop(&mut self.lru, k);
        proof {
            lemma_remove_value_props(ks0, k@);
        }
        if removed {
            match self.find_index(k) {
                Some(i) => {
                    proof {
                        lemma_assoc_lookup(sv0, i as int);
                        lemma_assoc_remove(sv0, i as int);
                    }
                    let p = self.store.remove(i);
                    proof {
                        assert(store_keys(self.store@) =~= store_keys(sv0).remove(i as int));
                        store_keys(sv0).index_of_first_ensures(k@);
                        assert(store_keys(sv0)[i as int] == k@);
                        lemma_remove_value_props(store_keys(sv0), k@);
                        assert(store_keys(sv0).index_of_first(k@) == Some(i as int)) by {
                            let fi = store_keys(sv0).index_of_first(k@)->0;
                            if fi != i as int {
                                assert(store_keys(sv0)[fi] == k@);
                            }
                        }
                        assert(store_keys(self.store@) == store_keys(sv0).remove_value(k@));
                        assert forall|x: Seq<char>| #[trigger]
                            store_keys(self.store@).contains(x) == lru_keys(
                                self.lru,
                            ).contains(x) by {
                            if x != k@ {
                                assert(store_keys(sv0).remove_value(k@).contains(x)
                                    == store_keys(sv0).contains(x));
                                assert(ks0.remove_value(k@).contains(x) == ks0.contains(x));
                            }
                        }
                    }
                    Some(p.1)
                },
                None => {
                    proof {
                        assert(false);
                    }
                    None
                },
            }
        } else {
            proof {
                lemma_assoc_dom(sv0);
                assert(assoc_map(sv0).remove(k@) =~= assoc_map(sv0));
            }
            None
        }
    }

    /// Caches `v` under `k`, marking it most recently used. A value already
    /// cached under `k` is replaced and returned; otherwise, when the cache
    /// is full, the least recently used entry is evicted and returned.
    pub fn put(&mut self, k: String, v: T) -> (evicted: Option<(String, T)>)
        requires
            old(self).wf(),
        ensures
            final(self).wf(),
            final(self).cap() == old(self).cap(),
            final(self).keys() == pushed_keys(old(self).keys(), k@, old(self).cap()),
            final(self).contents() == put_contents(
                old(self).keys(),
                old(self).contents(),
                k@,
                v,
                old(self).cap(),
            ),
            ({
                let m = old(self).contents();
                let ks = old(self).keys();
                if ks.contains(k@) {
                    &&& final(self).contents() == m.insert(k@, v)
                    &&& (evicted matches Some(p) && p.0@ == k@ && p.1 == m[k@])
                } else if ks.len() < old(self).cap() {
                    &&& final(self).contents() == m.insert(k@, v)
                    &&& evicted is None
                } else {
                    &&& final(self).contents() == m.remove(ks.last()).insert(k@, v)
                    &&& (evicted matches Some(p) && p.0@ == ks.last() && p.1 == m[ks.last()])
                }
            }),
    {
        let ghost cap = lru_capacity(self.lru);
        let ghost ks0 = lru_keys(self.lru);
        let ghost sv0 = self.store@;
        let ghost kview = k@;
        let ghost vg = v;
        let kc = k.clone();
        let out = lru_push(&mut self.lru, kc);
        proof {
            lemma_pushed_keys_props(ks0, k@, cap);
            if !ks0.contains(k@) && ks0.len() >= cap {
                assert(ks0[ks0.len() - 1] == ks0.last());
                assert(ks0.contains(ks0.last()));
            }
        }
        let evicted: Option<(String, T)> = match out {
            Some(ek) => {
                proof {
                    assert(ks0.contains(ek@));
                }
                match self.find_index(ek.as_str()) {
                    Some(i) => {
                        proof {
                            lemma_assoc_lookup(sv0, i as int);
                            lemma_assoc_remove(sv0, i as int);
                        }
                        let p = self.store.remove(i);
                        proof {
                            assert(store_keys(self.store@) =~= store_keys(sv0).remove(i as int));
                            store_keys(sv0).index_of_first_ensures(ek@);
                            assert(store_keys(sv0)[i as int] == ek@);
                            assert(store_keys(sv0).index_of_first(ek@) == Some(i as int)) by {
                                let fi = store_keys(sv0).index_of_first(ek@)->0;
                                if fi != i as int {
                                    assert(store_keys(sv0)[fi] == ek@);
                                }
                            }
                            assert(store_keys(self.store@) == store_keys(sv0).remove_value(ek@));
                            lemma_remove_value_props(store_keys(sv0), ek@);
                        }
                        Some((ek, p.1))
                    },
                    None => {
                        proof {
                            assert(false);
                        }
                        None
                    },
                }
            },
            None => None,
        };
        let ghost sv1 = self.store@;
        self.store.push((k, v));
        proof {
            assert(self.store@.drop_last() =~= sv1);
            assert(self.store@.last().0@ == kview);
            assert(assoc_map(self.store@) == assoc_map(sv1).insert(kview, vg));
            assert(store_keys(self.store@) =~= store_keys(sv1).push(kview));
            let ksn = lru_keys(self.lru);
            let svn = store_keys(self.store@);
            let sk1 = store_keys(sv1);
            let m = assoc_map(sv0);
            // Contents: the side table ends as the stated map.
            if ks0.contains(kview) {
                assert(assoc_map(sv1) == m.remove(kview));
                assert(m.remove(kview).insert(kview, vg) =~= m.insert(kview, vg));
            } else if ks0.len() < cap {
                assert(sv1 == sv0);
            } else {
                assert(assoc_map(sv1) == m.remove(ks0.last()));
            }
            // Distinctness of the intermediate side table, and absence of
            // the inserted key from it.
            assert(sk1.no_duplicates() && !sk1.contains(kview)) by {
                if ks0.contains(kview) {
                    lemma_remove_value_props(store_keys(sv0), kview);
                } else if ks0.len() >= cap {
                    lemma_remove_value_props(store_keys(sv0), ks0.last());
                    assert(kview != ks0.last());
                    assert(!store_keys(sv0).contains(kview));
                } else {
                    assert(!store_keys(sv0).contains(kview));
                }
            }
            // Membership in the final side table.
            assert(forall|j: int| 0 <= j < sk1.len() ==> svn[j] == sk1[j]);
            assert(svn[svn.len() - 1] == kview);
            assert forall|x: Seq<char>| #[trigger]
                svn.contains(x) == (x == kview || sk1.contains(x)) by {
                if svn.contains(x) {
                    let j = choose|j: int| 0 <= j < svn.len() && svn[j] == x;
                    if j < svn.len() - 1 {
                        assert(sk1[j] == x);
                    }
                }
                if sk1.contains(x) {
                    let j = choose|j: int| 0 <= j < sk1.len() && sk1[j] == x;
                    assert(svn[j] == x);
                }
            }
            assert(svn.no_duplicates()) by {
                assert forall|p: int, q: int| 0 <= p < q < svn.len() implies svn[p] != svn[q] by {
                    if q == svn.len() - 1 {
                        assert(svn[p] == sk1[p]);
                        assert(sk1.contains(sk1[p]));
                    } else {
                        assert(svn[p] == sk1[p] && svn[q] == sk1[q]);
                    }
                }
            }
            // Membership in the intermediate side table, by case.
            assert forall|x: Seq<char>| #[trigger]
                sk1.contains(x) == pushed_keys_membership(ks0, kview, cap, x) || x == kview by {
                if ks0.contains(kview) {
                    lemma_remove_value_props(store_keys(sv0), kview);
                    if x != kview {
                        assert(sk1.contains(x) == store_keys(sv0).contains(x));
                        assert(store_keys(sv0).contains(x) == ks0.contains(x));
                    }
                } else if ks0.len() < cap {
                    assert(sk1 == store_keys(sv0));
                    if x != kview {
                        assert(sk1.contains(x) == ks0.contains(x));
                    }
                } else {
                    lemma_remove_value_props(store_keys(sv0), ks0.last());
                    if x != kview {
                        if x != ks0.last() {
                            assert(sk1.contains(x) == store_keys(sv0).contains(x));
                            assert(store_keys(sv0).contains(x) == ks0.contains(x));
                        } else {
                            assert(!sk1.contains(x));
                        }
                    }
                }
            }
            // The two structures agree on membership.
            assert forall|x: Seq<char>| #[trigger] svn.contains(x) == ksn.contains(x) by {
                assert(ksn.contains(x) == pushed_keys_membership(ks0, kview, cap, x));
                if x == kview {
                    assert(svn.contains(x));
                } else {
                    assert(svn.contains(x) == sk1.contains(x));
                    assert(sk1.contains(x) == pushed_keys_membership(ks0, kview, cap, x));
                }
            }
        }
        evicted
    }
}

} // verus!
