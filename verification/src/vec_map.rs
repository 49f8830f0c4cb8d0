//! A map held as a vector of key/value pairs with pairwise distinct keys.
//! The node's tables are keyed by strings and small enums, which this map
//! compares through their views.

use vstd::prelude::*;

verus! {

/// Keys of a `VecMap`: compared and copied through their views.
pub trait MapKey: View + Sized {
    fn key_eq(&self, other: &Self) -> (r: bool)
        ensures
            r == (self@ == other@),
    ;

    fn key_copy(&self) -> (r: Self)
        ensures
            r@ == self@,
    ;
}

impl MapKey for String {
    fn key_eq(&self, other: &Self) -> (r: bool) {
        *self == *other
    }

    fn key_copy(&self) -> (r: Self) {
        self.clone()
    }
}

impl MapKey for u32 {
    fn key_eq(&self, other: &Self) -> (r: bool) {
        *self == *other
    }

    fn key_copy(&self) -> (r: Self) {
        *self
    }
}

/// A finite map from key views to values.
#[derive(Debug)]
pub struct VecMap<K: MapKey, V> {
    entries: Vec<(K, V)>,
}

impl<K: MapKey, V> VecMap<K, V> {
    /// The views of the keys, in storage order.
    pub closed spec fn key_seq(&self) -> Seq<K::V> {
        self.entries@.map_values(|e: (K, V)| e.0@)
    }

    /// Keys in storage order that occur once each list exactly the keys of
    /// the map, as many as there are entries.
    pub proof fn lemma_key_seq(&self)
        requires
            self.key_seq().no_duplicates(),
        ensures
            self.key_seq().to_set() == self@.dom(),
            self.key_seq().len() == self@.len(),
    {
        lemma_map_of(self.entries@);
        assert(self@.dom() =~= self.key_seq().to_set()) by {
            assert forall|k: K::V| self@.dom().contains(k) implies self.key_seq().to_set().contains(k) by {
                let i = choose|i: int| 0 <= i < self.entries@.len() && self.entries@[i].0@ == k;
                assert(self.key_seq()[i] == k);
            }
            assert forall|k: K::V| self.key_seq().to_set().contains(k) implies self@.dom().contains(k) by {
                let i = choose|i: int| 0 <= i < self.key_seq().len() && self.key_seq()[i] == k;
                assert(self.entries@[i].0@ == k);
            }
        }
    }

    #[verifier::type_invariant]
    closed spec fn inv(&self) -> bool {
        self.key_seq().no_duplicates()
    }

    proof fn lemma_view(&self)
        requires
            self.inv(),
        ensures
            forall|i: int|
                #![trigger self.entries@[i]]
                0 <= i < self.entries@.len() ==> self@.dom().contains(self.entries@[i].0@)
                    && self@[self.entries@[i].0@] == self.entries@[i].1,
            forall|k: K::V|
                #[trigger] self@.dom().contains(k) ==> exists|i: int|
                    0 <= i < self.entries@.len() && self.entries@[i].0@ == k,
            self@.dom().finite(),
            self@.len() == self.entries@.len(),
    {
        let m = map_of(self.entries@);
        assert(self@ == m);
        lemma_map_of(self.entries@);
        assert forall|i: int| 0 <= i < self.entries@.len() implies self@.dom().contains(
            #[trigger] self.entries@[i].0@,
        ) && self@[self.entries@[i].0@] == self.entries@[i].1 by {
            assert(m.dom().contains(self.entries@[i].0@));
        }
    }

    /// An empty map.
    pub fn new() -> (m: Self)
        ensures
            m@ == Map::<K::V, V>::empty(),
            m.key_seq() == Seq::<K::V>::empty(),
    {
        let m = VecMap { entries: Vec::new() };
        assert(m@ =~= Map::<K::V, V>::empty());
        assert(m.key_seq() =~= Seq::<K::V>::empty());
        m
    }

    /// The number of keys.
    pub fn len(&self) -> (n: usize)
        ensures
            n == self@.len(),
            self@.dom().finite(),
    {
        proof {
            use_type_invariant(self);
            self.lemma_view();
        }
        self.entries.len()
    }

    /// The position of `k` in storage, if it is a key.
    fn find(&self, k: &K) -> (r: Option<usize>)
        ensures
            match r {
                Some(i) => i < self.entries@.len() && self.entries@[i as int].0@ == k@,
                None => !self@.dom().contains(k@),
            },
    {
        proof {
            use_type_invariant(self);
            self.lemma_view();
        }
        let mut i: usize = 0;
        while i < self.entries.len()
            invariant
                i <= self.entries@.len(),
                forall|j: int| 0 <= j < i ==> self.entries@[j].0@ != k@,
            decreases self.entries@.len() - i,
        {
            if self.entries[i].0.key_eq(k) {
                return Some(i);
            }
            i = i + 1;
        }
        None
    }

    /// Whether `k` is a key.
    pub fn contains_key(&self, k: &K) -> (r: bool)
        ensures
            r == self@.dom().contains(k@),
    {
        proof {
            use_type_invariant(self);
            self.lemma_view();
        }
        self.find(k).is_some()
    }

    /// The value held for `k`, if any.
    pub fn get(&self, k: &K) -> (r: Option<&V>)
        ensures
            match r {
                Some(v) => self@.dom().contains(k@) && *v == self@[k@],
                None => !self@.dom().contains(k@),
            },
    {
        proof {
            use_type_invariant(self);
            self.lemma_view();
        }
        match self.find(k) {
            Some(i) => {
                assert(self@.dom().contains(self.entries@[i as int].0@));
                Some(&self.entries[i].1)
            },
            None => None,
        }
    }

    /// Maps `k` to `v`, replacing any value it had.
    pub fn insert(&mut self, k: K, v: V)
        ensures
            final(self)@ == old(self)@.insert(k@, v),
            final(self).key_seq().no_duplicates(),
    {
        proof {
            use_type_invariant(&*self);
            self.lemma_view();
        }
        let ghost old_map = self@;
        let ghost old_entries = self.entries@;
        let ghost mut idx: int = 0;
        match self.find(&k) {
            Some(i) => {
                let ghost ks = self.key_seq();
                let mut entries = Vec::new();
                std::mem::swap(&mut entries, &mut self.entries);
                entries.set(i, (k, v));
                proof {
                    idx = i as int;
                }
                assert(entries@.map_values(|e: (K, V)| e.0@) =~= ks);
                self.entries = entries;
            },
            None => {
                let ghost ks = self.key_seq();
                let mut entries = Vec::new();
                std::mem::swap(&mut entries, &mut self.entries);
                entries.push((k, v));
                proof {
                    idx = ks.len() as int;
                }
                assert(entries@.map_values(|e: (K, V)| e.0@) =~= ks.push(k@));
                assert(!ks.contains(k@));
                self.entries = entries;
            },
        }
        proof {
            use_type_invariant(&*self);
            lemma_map_of(old_entries);
            lemma_map_of(self.entries@);
            let new_entries = self.entries@;
            assert(self@ == map_of(new_entries));
            assert(old_map == map_of(old_entries));
            assert(0 <= idx < new_entries.len() && new_entries[idx].0@ == k@ && new_entries[idx].1
                == v);
            assert(self@.dom().contains(new_entries[idx].0@));
            assert forall|q: K::V| #[trigger] self@.dom().contains(q) <==> old_map.insert(
                k@,
                v,
            ).dom().contains(q) by {
                if self@.dom().contains(q) {
                    let j = choose|j: int| 0 <= j < new_entries.len() && new_entries[j].0@ == q;
                    if q != k@ {
                        assert(old_entries[j].0@ == q);
                        assert(old_map.dom().contains(old_entries[j].0@));
                    }
                }
                if old_map.dom().contains(q) && q != k@ {
                    let j = choose|j: int| 0 <= j < old_entries.len() && old_entries[j].0@ == q;
                    assert(new_entries[j].0@ == q);
                    assert(self@.dom().contains(new_entries[j].0@));
                }

            }
            assert forall|q: K::V| #[trigger] self@.dom().contains(q) implies self@[q] == old_map.insert(
                k@,
                v,
            )[q] by {
                let j = choose|j: int| 0 <= j < new_entries.len() && new_entries[j].0@ == q;
                assert(self@[new_entries[j].0@] == new_entries[j].1);
                if q != k@ {
                    assert(old_entries[j].0@ == q);
                    assert(old_map[old_entries[j].0@] == old_entries[j].1);
                } else {
                    assert(self@[new_entries[idx].0@] == new_entries[idx].1);
                }
            }
            assert(self@ =~= old_map.insert(k@, v));
        }
    }

    /// Removes `k` and hands back its value, if present.
    pub fn remove(&mut self, k: &K) -> (r: Option<V>)
        ensures
            final(self)@ == old(self)@.remove(k@),
            final(self).key_seq().no_duplicates(),
            match r {
                Some(v) => old(self)@.dom().contains(k@) && v == old(self)@[k@],
                None => !old(self)@.dom().contains(k@),
            },
    {
        proof {
            use_type_invariant(&*self);
            self.lemma_view();
        }
        let ghost old_map = self@;
        let ghost old_entries = self.entries@;
        match self.find(k) {
            Some(i) => {
                let ghost ks = self.key_seq();
                let mut entries = Vec::new();
                std::mem::swap(&mut entries, &mut self.entries);
                let removed = entries.remove(i);
                assert(entries@.map_values(|e: (K, V)| e.0@) =~= ks.remove(i as int));
                proof {
                    assert forall|a: int, b: int|
                        0 <= a < b < ks.remove(i as int).len() implies ks.remove(i as int)[a]
                        != ks.remove(i as int)[b] by {
                        let a2 = if a < i { a } else { a + 1 };
                        let b2 = if b < i { b } else { b + 1 };
                        assert(ks[a2] != ks[b2]);
                    }
                }
                self.entries = entries;
                proof {
                    lemma_map_of(old_entries);
                    lemma_map_of(self.entries@);
                    let new_entries = self.entries@;
                    assert(self@ == map_of(new_entries));
                    assert(old_map == map_of(old_entries));
                    assert forall|q: K::V| #[trigger] self@.dom().contains(q) <==> old_map.remove(
                        k@,
                    ).dom().contains(q) by {
                        if self@.dom().contains(q) {
                            let j = choose|j: int|
                                0 <= j < new_entries.len() && new_entries[j].0@ == q;
                            let j2 = if j < i { j } else { j + 1 };
                            assert(old_entries[j2].0@ == q);
                            assert(ks[j2] == q && ks[i as int] == k@);
                            assert(old_map.dom().contains(old_entries[j2].0@));
                        }
                        if old_map.dom().contains(q) && q != k@ {
                            let j = choose|j: int|
                                0 <= j < old_entries.len() && old_entries[j].0@ == q;
                            assert(j != i);
                            let j2 = if j < i { j } else { j - 1 };
                            assert(new_entries[j2].0@ == q);
                            assert(self@.dom().contains(new_entries[j2].0@));
                        }
                    }
                    assert forall|q: K::V| #[trigger] self@.dom().contains(q) implies self@[q]
                        == old_map.remove(k@)[q] by {
                        let j = choose|j: int| 0 <= j < new_entries.len() && new_entries[j].0@ == q;
                        let j2 = if j < i { j } else { j + 1 };
                        assert(self@[new_entries[j].0@] == new_entries[j].1);
                        assert(old_entries[j2] == new_entries[j]);
                        assert(old_map[old_entries[j2].0@] == old_entries[j2].1);
                    }
                    assert(self@ =~= old_map.remove(k@));
                    assert(old_map.dom().contains(old_entries[i as int].0@));
                }
                Some(removed.1)
            },
            None => {
                assert(old_map =~= old_map.remove(k@));
                proof {
                    use_type_invariant(&*self);
                }
                None
            },
        }
    }

    /// The keys, each once, in storage order.
    pub fn keys(&self) -> (r: Vec<K>)
        ensures
            r@.map_values(|k: K| k@) == self.key_seq(),
            r@.map_values(|k: K| k@).no_duplicates(),
            r@.map_values(|k: K| k@).to_set() == self@.dom(),
            r@.len() == self@.len(),
    {
        proof {
            use_type_invariant(self);
            self.lemma_view();
        }
        let mut r: Vec<K> = Vec::new();
        let mut i: usize = 0;
        while i < self.entries.len()
            invariant
                i <= self.entries@.len(),
                self.inv(),
                r@.map_values(|k: K| k@) == self.key_seq().subrange(0, i as int),
            decreases self.entries@.len() - i,
        {
            let ghost prev = r@;
            let k = self.entries[i].0.key_copy();
            r.push(k);
            assert(self.key_seq()[i as int] == self.entries@[i as int].0@);
            assert(r@ == prev.push(k));
            assert(r@.map_values(|k: K| k@) =~= prev.map_values(|k: K| k@).push(k@));
            i = i + 1;
            assert(r@.map_values(|k: K| k@) =~= self.key_seq().subrange(0, i as int));
        }
        proof {
            assert(self.key_seq().subrange(0, i as int) =~= self.key_seq());
            assert(self@.dom() =~= self.key_seq().to_set()) by {
                assert(self@ == map_of(self.entries@));
            }
        }
        r
    }
}

/// Each key in storage order is a key of the map.
pub proof fn lemma_key_in_dom<K: MapKey, V>(m: &VecMap<K, V>, i: int)
    requires
        0 <= i < m.key_seq().len(),
    ensures
        m@.dom().contains(m.key_seq()[i]),
{
    assert(m.key_seq().contains(m.key_seq()[i]));
}

/// Pushing onto a sequence adds the pushed item to its set of items.
pub proof fn lemma_push_to_set<A>(s: Seq<A>, x: A)
    ensures
        s.push(x).to_set() == s.to_set().insert(x),
{
    assert forall|y: A| #[trigger] s.push(x).to_set().contains(y) <==> s.to_set().insert(x).contains(y) by {
        if s.push(x).contains(y) {
            let j = choose|j: int| 0 <= j < s.push(x).len() && s.push(x)[j] == y;
            if j < s.len() {
                assert(s[j] == y);
            }
        }
        if s.contains(y) {
            let j = choose|j: int| 0 <= j < s.len() && s[j] == y;
            assert(s.push(x)[j] == y);
        }
        if y == x {
            assert(s.push(x)[s.len() as int] == x);
        }
    }
    assert(s.push(x).to_set() =~= s.to_set().insert(x));
}

/// The map that a sequence of pairs with distinct keys describes.
pub closed spec fn map_of<K: View, V>(entries: Seq<(K, V)>) -> Map<K::V, V> {
    let ks = entries.map_values(|e: (K, V)| e.0@);
    Map::new(|k: K::V| ks.contains(k), |k: K::V| entries[ks.index_of(k)].1)
}

proof fn lemma_map_of<K: View, V>(entries: Seq<(K, V)>)
    requires
        entries.map_values(|e: (K, V)| e.0@).no_duplicates(),
    ensures
        forall|i: int|
            0 <= i < entries.len() ==> #[trigger] map_of(entries).dom().contains(entries[i].0@)
                && map_of(entries)[entries[i].0@] == entries[i].1,
        forall|k: K::V|
            #[trigger] map_of(entries).dom().contains(k) ==> exists|i: int|
                0 <= i < entries.len() && entries[i].0@ == k,
        map_of(entries).dom().finite(),
        map_of(entries).len() == entries.len(),
{
    let ks = entries.map_values(|e: (K, V)| e.0@);
    assert forall|i: int| 0 <= i < entries.len() implies #[trigger] map_of(entries).dom().contains(
        entries[i].0@,
    ) && map_of(entries)[entries[i].0@] == entries[i].1 by {
        assert(ks[i] == entries[i].0@);
        let j = ks.index_of(ks[i]);
        assert(ks[j] == ks[i]);
    }
    assert forall|k: K::V| #[trigger] map_of(entries).dom().contains(k) implies exists|i: int|
        0 <= i < entries.len() && entries[i].0@ == k by {
        let j = ks.index_of(k);
        assert(ks[j] == k);
    }
    assert(map_of(entries).dom() =~= ks.to_set());
    ks.unique_seq_to_set();
}

impl<K: MapKey, V> View for VecMap<K, V> {
    type V = Map<K::V, V>;

    closed spec fn view(&self) -> Map<K::V, V> {
        map_of(self.entries@)
    }
}

} // verus!
