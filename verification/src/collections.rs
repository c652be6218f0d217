//! Finite maps and sets whose keys are compared by their view.

use vstd::prelude::*;

verus! {

/// A key that can be compared exactly.
pub trait MapKey: Sized + View {
    /// Whether both keys have the same view.
    fn same(&self, other: &Self) -> (r: bool)
        ensures
            r == (self@ == other@),
    ;
}

impl MapKey for usize {
    fn same(&self, other: &Self) -> (r: bool) {
        *self == *other
    }
}

/// Whether some entry of `s` has the key `k`.
pub open spec fn has_key<K: MapKey, V>(s: Seq<(K, V)>, k: K::V) -> bool {
    exists|i: int| 0 <= i < s.len() && (#[trigger] s[i]).0@ == k
}

/// The position of an entry of `s` with the key `k`.
pub open spec fn position_of<K: MapKey, V>(s: Seq<(K, V)>, k: K::V) -> int {
    choose|i: int| 0 <= i < s.len() && (#[trigger] s[i]).0@ == k
}

/// No two entries of `s` have the same key.
pub open spec fn distinct_keys<K: MapKey, V>(s: Seq<(K, V)>) -> bool {
    forall|i: int, j: int| 0 <= i < j < s.len() ==> (#[trigger] s[i]).0@ != (#[trigger] s[j]).0@
}

/// The map that a sequence of entries with distinct keys stands for.
pub open spec fn as_map<K: MapKey, V>(s: Seq<(K, V)>) -> Map<K::V, V> {
    Map::new(|k: K::V| has_key(s, k), |k: K::V| s[position_of(s, k)].1)
}

/// The keys of `s`, in order.
pub open spec fn keys_of<K: MapKey, V>(s: Seq<(K, V)>) -> Seq<K::V> {
    Seq::new(s.len(), |i: int| s[i].0@)
}

proof fn lemma_entry<K: MapKey, V>(s: Seq<(K, V)>, i: int)
    requires
        distinct_keys(s),
        0 <= i < s.len(),
    ensures
        as_map(s).contains_key(s[i].0@),
        as_map(s)[s[i].0@] == s[i].1,
        position_of(s, s[i].0@) == i,
{
    let k = s[i].0@;
    assert(has_key(s, k));
    let p = position_of(s, k);
    assert(0 <= p < s.len() && s[p].0@ == k);
    if p < i {
        assert(s[p].0@ != s[i].0@);
    } else if i < p {
        assert(s[i].0@ != s[p].0@);
    }
}

proof fn lemma_push<K: MapKey, V>(s: Seq<(K, V)>, k: K, v: V)
    requires
        distinct_keys(s),
        !has_key(s, k@),
    ensures
        distinct_keys(s.push((k, v))),
        as_map(s.push((k, v))) == as_map(s).insert(k@, v),
        keys_of(s.push((k, v))) == keys_of(s).push(k@),
{
    let t = s.push((k, v));
    assert forall|i: int, j: int| 0 <= i < j < t.len() implies (#[trigger] t[i]).0@ != (
    #[trigger] t[j]).0@ by {
        assert(t[i] == s[i]);
        if j < s.len() {
            assert(t[j] == s[j]);
        }
    }
    assert(as_map(t) =~= as_map(s).insert(k@, v)) by {
        assert forall|q: K::V| has_key(t, q) <==> (has_key(s, q) || q == k@) by {
            if has_key(s, q) {
                let i = position_of(s, q);
                assert(t[i].0@ == q);
            }
            if has_key(t, q) {
                let i = position_of(t, q);
                if i < s.len() {
                    assert(s[i].0@ == q);
                }
            }
            assert(t[s.len() as int].0@ == k@);
        }
        lemma_entry(t, s.len() as int);
        assert forall|q: K::V| has_key(s, q) implies #[trigger] as_map(t)[q] == as_map(s)[q] by {
            let i = position_of(s, q);
            lemma_entry(s, i);
            lemma_entry(t, i);
        }
    }
    assert(keys_of(t) =~= keys_of(s).push(k@));
}

proof fn lemma_update<K: MapKey, V>(s: Seq<(K, V)>, p: int, k: K, v: V)
    requires
        distinct_keys(s),
        0 <= p < s.len(),
        s[p].0@ == k@,
    ensures
        distinct_keys(s.update(p, (k, v))),
        as_map(s.update(p, (k, v))) == as_map(s).insert(k@, v),
        keys_of(s.update(p, (k, v))) == keys_of(s),
{
    let t = s.update(p, (k, v));
    assert forall|i: int| 0 <= i < s.len() implies (#[trigger] t[i]).0@ == s[i].0@ by {}
    assert(distinct_keys(t)) by {
        assert forall|i: int, j: int| 0 <= i < j < t.len() implies (#[trigger] t[i]).0@ != (
        #[trigger] t[j]).0@ by {
            assert(s[i].0@ != s[j].0@);
        }
    }
    assert(as_map(t) =~= as_map(s).insert(k@, v)) by {
        assert forall|q: K::V| has_key(t, q) <==> has_key(s, q) by {
            if has_key(s, q) {
                let i = position_of(s, q);
                assert(t[i].0@ == q);
            }
            if has_key(t, q) {
                let i = position_of(t, q);
                assert(s[i].0@ == q);
            }
        }
        lemma_entry(t, p);
        lemma_entry(s, p);
        assert forall|q: K::V| has_key(s, q) && q != k@ implies #[trigger] as_map(t)[q] == as_map(
            s,
        )[q] by {
            let i = position_of(s, q);
            lemma_entry(s, i);
            lemma_entry(t, i);
        }
    }
    assert(keys_of(t) =~= keys_of(s));
}

proof fn lemma_remove<K: MapKey, V>(s: Seq<(K, V)>, p: int)
    requires
        distinct_keys(s),
        0 <= p < s.len(),
    ensures
        distinct_keys(s.remove(p)),
        as_map(s.remove(p)) == as_map(s).remove(s[p].0@),
        keys_of(s.remove(p)) == keys_of(s).remove(p),
{
    let t = s.remove(p);
    let k = s[p].0@;
    assert forall|i: int| 0 <= i < t.len() implies #[trigger] t[i] == s[if i < p {
        i
    } else {
        i + 1
    }] by {}
    assert(distinct_keys(t)) by {
        assert forall|i: int, j: int| 0 <= i < j < t.len() implies (#[trigger] t[i]).0@ != (
        #[trigger] t[j]).0@ by {
            let i2 = if i < p { i } else { i + 1 };
            let j2 = if j < p { j } else { j + 1 };
            assert(s[i2].0@ != s[j2].0@);
        }
    }
    assert(as_map(t) =~= as_map(s).remove(k)) by {
        lemma_entry(s, p);
        assert forall|q: K::V| has_key(t, q) <==> (has_key(s, q) && q != k) by {
            if has_key(s, q) && q != k {
                let i = position_of(s, q);
                if i < p {
                    assert(t[i].0@ == q);
                } else {
                    assert(t[i - 1].0@ == q);
                }
            }
            if has_key(t, q) {
                let i = position_of(t, q);
                let i2 = if i < p { i } else { i + 1 };
                assert(s[i2].0@ == q);
                if i2 < p {
                    assert(s[i2].0@ != s[p].0@);
                } else {
                    assert(s[p].0@ != s[i2].0@);
                }
            }
        }
        assert forall|q: K::V| has_key(t, q) implies #[trigger] as_map(t)[q] == as_map(s)[q] by {
            let i = position_of(t, q);
            let i2 = if i < p { i } else { i + 1 };
            lemma_entry(t, i);
            lemma_entry(s, i2);
        }
    }
    assert(keys_of(t) =~= keys_of(s).remove(p));
}

proof fn lemma_keys<K: MapKey, V>(s: Seq<(K, V)>)
    requires
        distinct_keys(s),
    ensures
        keys_of(s).no_duplicates(),
        as_map(s).dom() == keys_of(s).to_set(),
        as_map(s).dom().finite(),
        as_map(s).len() == s.len(),
{
    let ks = keys_of(s);
    assert forall|i: int, j: int| 0 <= i < ks.len() && 0 <= j < ks.len() && i != j implies ks[i]
        != ks[j] by {
        if i < j {
            assert(s[i].0@ != s[j].0@);
        } else {
            assert(s[j].0@ != s[i].0@);
        }
    }
    assert(as_map(s).dom() =~= ks.to_set()) by {
        assert forall|q: K::V| has_key(s, q) <==> ks.contains(q) by {
            if has_key(s, q) {
                assert(ks[position_of(s, q)] == q);
            }
            if ks.contains(q) {
                let i = choose|i: int| 0 <= i < ks.len() && ks[i] == q;
                assert(s[i].0@ == q);
            }
        }
    }
    ks.unique_seq_to_set();
}

/// Mapping the values of a map commutes with an insertion.
pub proof fn lemma_map_values_insert<K, V, W>(m: Map<K, V>, f: spec_fn(V) -> W, k: K, v: V)
    ensures
        m.insert(k, v).map_values(f) == m.map_values(f).insert(k, f(v)),
{
    assert(m.insert(k, v).map_values(f) =~= m.map_values(f).insert(k, f(v)));
}

/// Mapping the values of a map commutes with a removal.
pub proof fn lemma_map_values_remove<K, V, W>(m: Map<K, V>, f: spec_fn(V) -> W, k: K)
    ensures
        m.remove(k).map_values(f) == m.map_values(f).remove(k),
{
    assert(m.remove(k).map_values(f) =~= m.map_values(f).remove(k));
}

/// A finite map that keeps its entries in the order in which their keys were first inserted.
#[derive(Debug, PartialEq, Eq)]
pub struct AssocMap<K: MapKey, V> {
    entries: Vec<(K, V)>,
}

impl<K: MapKey, V> View for AssocMap<K, V> {
    type V = Map<K::V, V>;

    closed spec fn view(&self) -> Map<K::V, V> {
        as_map(self.entries@)
    }
}

impl<K: MapKey, V> AssocMap<K, V> {
    #[verifier::type_invariant]
    spec fn wf(self) -> bool {
        distinct_keys(self.entries@)
    }

    /// The keys, in the order in which they were first inserted.
    pub closed spec fn order(self) -> Seq<K::V> {
        keys_of(self.entries@)
    }

    /// The empty map.
    pub fn new() -> (r: Self)
        ensures
            r@ == Map::<K::V, V>::empty(),
            r.order() == Seq::<K::V>::empty(),
    {
        let r = AssocMap { entries: Vec::new() };
        assert(r@ =~= Map::<K::V, V>::empty());
        assert(r.order() =~= Seq::<K::V>::empty());
        r
    }

    fn find(&self, k: &K) -> (r: Option<usize>)
        ensures
            match r {
                Some(i) => i < self.entries@.len() && self.entries@[i as int].0@ == k@,
                None => !has_key(self.entries@, k@),
            },
    {
        let mut i: usize = 0;
        while i < self.entries.len()
            invariant
                i <= self.entries@.len(),
                forall|j: int| 0 <= j < i ==> (#[trigger] self.entries@[j]).0@ != k@,
            decreases self.entries@.len() - i,
        {
            if self.entries[i].0.same(k) {
                return Some(i);
            }
            i += 1;
        }
        None
    }

    /// The number of entries.
    pub fn len(&self) -> (r: usize)
        ensures
            r == self@.len(),
            r == self.order().len(),
            self@.dom().finite(),
            self@.dom() == self.order().to_set(),
            self.order().no_duplicates(),
    {
        proof {
            use_type_invariant(self);
            lemma_keys(self.entries@);
        }
        self.entries.len()
    }

    /// Whether there is no entry.
    pub fn is_empty(&self) -> (r: bool)
        ensures
            r == (self@ == Map::<K::V, V>::empty()),
            r == (self@.len() == 0),
            r == (self.order().len() == 0),
    {
        proof {
            use_type_invariant(self);
            lemma_keys(self.entries@);
            if self.entries@.len() == 0 {
                assert(self@ =~= Map::<K::V, V>::empty());
            } else {
                lemma_entry(self.entries@, 0);
            }
        }
        self.entries.len() == 0
    }

    /// Whether `k` has an entry.
    pub fn contains_key(&self, k: &K) -> (r: bool)
        ensures
            r == self@.contains_key(k@),
    {
        proof {
            use_type_invariant(self);
        }
        match self.find(k) {
            Some(i) => {
                proof {
                    lemma_entry(self.entries@, i as int);
                }
                true
            },
            None => false,
        }
    }

    /// The value under `k`.
    pub fn get(&self, k: &K) -> (r: Option<&V>)
        ensures
            match r {
                Some(v) => self@.contains_key(k@) && *v == self@[k@],
                None => !self@.contains_key(k@),
            },
    {
        proof {
            use_type_invariant(self);
        }
        match self.find(k) {
            Some(i) => {
                proof {
                    lemma_entry(self.entries@, i as int);
                }
                Some(&self.entries[i].1)
            },
            None => None,
        }
    }

    /// The key at position `i` of the order.
    pub fn key_at(&self, i: usize) -> (r: &K)
        requires
            i < self.order().len(),
        ensures
            r@ == self.order()[i as int],
            self@.contains_key(r@),
    {
        proof {
            use_type_invariant(self);
            lemma_entry(self.entries@, i as int);
        }
        &self.entries[i].0
    }

    /// The value at position `i` of the order.
    pub fn value_at(&self, i: usize) -> (r: &V)
        requires
            i < self.order().len(),
        ensures
            self@.contains_key(self.order()[i as int]),
            *r == self@[self.order()[i as int]],
    {
        proof {
            use_type_invariant(self);
            lemma_entry(self.entries@, i as int);
        }
        &self.entries[i].1
    }

    /// Puts `v` under `k` and returns what was there.
    ///
    /// A key that is there already keeps its place in the order.
    pub fn insert(&mut self, k: K, v: V) -> (r: Option<V>)
        ensures
            final(self)@ == old(self)@.insert(k@, v),
            r == (if old(self)@.contains_key(k@) {
                Some(old(self)@[k@])
            } else {
                None
            }),
            final(self).order() == (if old(self)@.contains_key(k@) {
                old(self).order()
            } else {
                old(self).order().push(k@)
            }),
    {
        proof {
            use_type_invariant(&*self);
        }
        let found = self.find(&k);
        let mut entries: Vec<(K, V)> = Vec::new();
        std::mem::swap(&mut entries, &mut self.entries);
        let ghost before = entries@;
        match found {
            Some(i) => {
                proof {
                    lemma_update(before, i as int, k, v);
                    lemma_entry(before, i as int);
                }
                let mut entry = (k, v);
                std::mem::swap(&mut entries[i], &mut entry);
                assert(entries@ =~= before.update(i as int, (k, v)));
                self.entries = entries;
                Some(entry.1)
            },
            None => {
                proof {
                    lemma_push(before, k, v);
                }
                entries.push((k, v));
                self.entries = entries;
                None
            },
        }
    }

    /// Takes out the first entry of the order.
    pub fn pop_front(&mut self) -> (r: Option<(K, V)>)
        ensures
            match r {
                Some((k, v)) => {
                    &&& old(self).order().len() > 0
                    &&& k@ == old(self).order()[0]
                    &&& old(self)@.contains_key(k@)
                    &&& v == old(self)@[k@]
                    &&& final(self)@ == old(self)@.remove(k@)
                    &&& final(self).order() == old(self).order().skip(1)
                },
                None => {
                    &&& old(self).order().len() == 0
                    &&& old(self)@ == Map::<K::V, V>::empty()
                    &&& *final(self) == *old(self)
                },
            },
    {
        proof {
            use_type_invariant(&*self);
        }
        if self.is_empty() {
            return None;
        }
        let mut entries: Vec<(K, V)> = Vec::new();
        std::mem::swap(&mut entries, &mut self.entries);
        proof {
            lemma_entry(entries@, 0);
            lemma_remove(entries@, 0);
            assert(keys_of(entries@).remove(0) =~= keys_of(entries@).skip(1));
        }
        let entry = entries.remove(0);
        self.entries = entries;
        Some(entry)
    }

    /// Takes out the entry of `k` and returns its value.
    pub fn remove(&mut self, k: &K) -> (r: Option<V>)
        ensures
            final(self)@ == old(self)@.remove(k@),
            r == (if old(self)@.contains_key(k@) {
                Some(old(self)@[k@])
            } else {
                None
            }),
            !old(self)@.contains_key(k@) ==> final(self).order() == old(self).order(),
            forall|q: K::V|
                final(self).order().contains(q) <==> (old(self).order().contains(q) && q != k@),
    {
        proof {
            use_type_invariant(&*self);
            lemma_keys(self.entries@);
        }
        let found = self.find(k);
        let mut entries: Vec<(K, V)> = Vec::new();
        std::mem::swap(&mut entries, &mut self.entries);
        let ghost before = entries@;
        match found {
            Some(i) => {
                proof {
                    lemma_remove(before, i as int);
                    lemma_entry(before, i as int);
                    lemma_keys(before.remove(i as int));
                    assert(forall|q: K::V|
                        keys_of(before.remove(i as int)).contains(q) <==> keys_of(
                            before.remove(i as int),
                        ).to_set().contains(q));
                    assert(forall|q: K::V|
                        keys_of(before).contains(q) <==> keys_of(before).to_set().contains(q));
                }
                let entry = entries.remove(i);
                self.entries = entries;
                Some(entry.1)
            },
            None => {
                proof {
                    assert(as_map(before).remove(k@) =~= as_map(before));
                    assert(forall|q: K::V|
                        keys_of(before).contains(q) <==> keys_of(before).to_set().contains(q));
                }
                self.entries = entries;
                None
            },
        }
    }
}

/// A finite set that keeps its elements in the order in which they were first inserted.
#[derive(Debug, PartialEq, Eq)]
pub struct AssocSet<K: MapKey> {
    map: AssocMap<K, ()>,
}

impl<K: MapKey> View for AssocSet<K> {
    type V = Set<K::V>;

    closed spec fn view(&self) -> Set<K::V> {
        self.map@.dom()
    }
}

impl<K: MapKey> AssocSet<K> {
    /// The elements, in the order in which they were first inserted.
    pub closed spec fn order(self) -> Seq<K::V> {
        self.map.order()
    }

    /// The empty set.
    pub fn new() -> (r: Self)
        ensures
            r@ == Set::<K::V>::empty(),
            r.order() == Seq::<K::V>::empty(),
    {
        let r = AssocSet { map: AssocMap::new() };
        assert(r@ =~= Set::<K::V>::empty());
        r
    }

    /// The number of elements.
    pub fn len(&self) -> (r: usize)
        ensures
            r == self@.len(),
            r == self.order().len(),
            self@.finite(),
            self@ == self.order().to_set(),
            self.order().no_duplicates(),
    {
        self.map.len()
    }

    /// Whether there is no element.
    pub fn is_empty(&self) -> (r: bool)
        ensures
            r == (self@ == Set::<K::V>::empty()),
    {
        let r = self.map.is_empty();
        proof {
            if self@ == Set::<K::V>::empty() {
                assert(self.map@ =~= Map::<K::V, ()>::empty());
            } else {
                assert(!(self@ =~= Set::<K::V>::empty()));
            }
        }
        r
    }

    /// Whether `k` is an element.
    pub fn contains(&self, k: &K) -> (r: bool)
        ensures
            r == self@.contains(k@),
    {
        self.map.contains_key(k)
    }

    /// The element at position `i` of the order.
    pub fn at(&self, i: usize) -> (r: &K)
        requires
            i < self.order().len(),
        ensures
            r@ == self.order()[i as int],
            self@.contains(r@),
    {
        self.map.key_at(i)
    }

    /// Adds `k` and says whether it was missing.
    pub fn insert(&mut self, k: K) -> (r: bool)
        ensures
            final(self)@ == old(self)@.insert(k@),
            r == !old(self)@.contains(k@),
            final(self).order() == (if old(self)@.contains(k@) {
                old(self).order()
            } else {
                old(self).order().push(k@)
            }),
    {
        let before = self.map.insert(k, ());
        assert(self@ =~= old(self)@.insert(k@));
        before.is_none()
    }

    /// Takes `k` out and says whether it was there.
    pub fn remove(&mut self, k: &K) -> (r: bool)
        ensures
            final(self)@ == old(self)@.remove(k@),
            r == old(self)@.contains(k@),
    {
        let before = self.map.remove(k);
        assert(self@ =~= old(self)@.remove(k@));
        before.is_some()
    }
}

} // verus!
