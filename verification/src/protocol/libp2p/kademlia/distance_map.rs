//! Maps from distances, kept in order.

use super::types::Distance;
use vstd::prelude::*;

verus! {

/// The keys are strictly increasing.
pub open spec fn increasing<V>(s: Seq<(Distance, V)>) -> bool {
    forall|i: int, j: int|
        0 <= i < j < s.len() ==> (#[trigger] s[i]).0.value() < (#[trigger] s[j]).0.value()
}

/// Whether some entry has the key `d`.
pub open spec fn has_distance<V>(s: Seq<(Distance, V)>, d: Distance) -> bool {
    exists|i: int| 0 <= i < s.len() && (#[trigger] s[i]).0 == d
}

/// The map that a sequence of entries stands for.
pub open spec fn entries_map<V>(s: Seq<(Distance, V)>) -> Map<Distance, V> {
    Map::new(
        |d: Distance| has_distance(s, d),
        |d: Distance| s[choose|i: int| 0 <= i < s.len() && (#[trigger] s[i]).0 == d].1,
    )
}

/// Whether `d` is the least key of `m`.
pub open spec fn is_least<V>(m: Map<Distance, V>, d: Distance) -> bool {
    m.contains_key(d) && forall|k: Distance| #[trigger] m.contains_key(k) ==> d.value() <= k.value()
}

/// Whether `d` is the greatest key of `m`.
pub open spec fn is_greatest<V>(m: Map<Distance, V>, d: Distance) -> bool {
    m.contains_key(d) && forall|k: Distance| #[trigger] m.contains_key(k) ==> k.value() <= d.value()
}

/// The least key, if there is one.
pub open spec fn least<V>(m: Map<Distance, V>) -> Distance {
    choose|d: Distance| is_least(m, d)
}

/// The greatest key, if there is one.
pub open spec fn greatest<V>(m: Map<Distance, V>) -> Distance {
    choose|d: Distance| is_greatest(m, d)
}

/// The least and the greatest key are unique.
pub proof fn lemma_extremes_unique<V>(m: Map<Distance, V>, d: Distance)
    ensures
        is_least(m, d) ==> least(m) == d,
        is_greatest(m, d) ==> greatest(m) == d,
{
    if is_least(m, d) {
        let e = least(m);
        assert(is_least(m, e));
        Distance::lemma_extensional(d, e);
    }
    if is_greatest(m, d) {
        let e = greatest(m);
        assert(is_greatest(m, e));
        Distance::lemma_extensional(d, e);
    }
}

/// A map with an entry has a greatest key.
pub proof fn lemma_greatest<V>(m: Map<Distance, V>)
    requires
        m.dom().finite(),
        m != Map::<Distance, V>::empty(),
    ensures
        is_greatest(m, greatest(m)),
    decreases m.dom().len(),
{
    if m.dom() =~= Set::empty() {
        assert(m =~= Map::empty());
    }
    let d = m.dom().choose();
    let rest = m.remove(d);
    if rest == Map::<Distance, V>::empty() {
        assert forall|k: Distance| #[trigger] m.contains_key(k) implies k.value() <= d.value() by {
            if k != d {
                assert(rest.contains_key(k));
            }
        }
        assert(is_greatest(m, d));
    } else {
        lemma_greatest(rest);
        let e = greatest(rest);
        let last = if d.value() < e.value() { e } else { d };
        assert forall|k: Distance| #[trigger] m.contains_key(k) implies k.value()
            <= last.value() by {
            if k != d {
                assert(rest.contains_key(k));
            }
        }
        assert(is_greatest(m, last));
    }
}

proof fn lemma_at<V>(s: Seq<(Distance, V)>, i: int)
    requires
        increasing(s),
        0 <= i < s.len(),
    ensures
        entries_map(s).contains_key(s[i].0),
        entries_map(s)[s[i].0] == s[i].1,
{
    let d = s[i].0;
    assert(has_distance(s, d));
    let p = choose|p: int| 0 <= p < s.len() && (#[trigger] s[p]).0 == d;
    if p < i {
        assert(s[p].0.value() < s[i].0.value());
    } else if i < p {
        assert(s[i].0.value() < s[p].0.value());
    }
}

proof fn lemma_index<V>(s: Seq<(Distance, V)>, d: Distance) -> (i: int)
    requires
        increasing(s),
        entries_map(s).contains_key(d),
    ensures
        0 <= i < s.len(),
        s[i].0 == d,
        entries_map(s)[d] == s[i].1,
{
    let i = choose|i: int| 0 <= i < s.len() && (#[trigger] s[i]).0 == d;
    lemma_at(s, i);
    i
}

proof fn lemma_extremes<V>(s: Seq<(Distance, V)>)
    requires
        increasing(s),
        s.len() > 0,
    ensures
        is_least(entries_map(s), s[0].0),
        is_greatest(entries_map(s), s.last().0),
{
    lemma_at(s, 0);
    lemma_at(s, s.len() - 1);
    assert forall|k: Distance| #[trigger] entries_map(s).contains_key(k) implies s[0].0.value()
        <= k.value() && k.value() <= s.last().0.value() by {
        let i = lemma_index(s, k);
        if i > 0 {
            assert(s[0].0.value() < s[i].0.value());
        }
        if i < s.len() - 1 {
            assert(s[i].0.value() < s[s.len() - 1].0.value());
        }
    }
}

proof fn lemma_size<V>(s: Seq<(Distance, V)>)
    requires
        increasing(s),
    ensures
        entries_map(s).dom().finite(),
        entries_map(s).len() == s.len(),
    decreases s.len(),
{
    let m = entries_map(s);
    if s.len() == 0 {
        assert(m.dom() =~= Set::<Distance>::empty());
    } else {
        let t = s.drop_last();
        lemma_size(t);
        assert(m.dom() =~= entries_map(t).dom().insert(s.last().0)) by {
            assert forall|d: Distance|
                has_distance(s, d) <==> (has_distance(t, d) || d == s.last().0) by {
                if has_distance(t, d) {
                    let i = lemma_index(t, d);
                    assert(s[i].0 == d);
                }
                if has_distance(s, d) {
                    let i = lemma_index(s, d);
                    if i < t.len() {
                        assert(t[i].0 == d);
                    }
                }
                assert(s[s.len() - 1].0 == s.last().0);
            }
        }
        assert(!has_distance(t, s.last().0)) by {
            if has_distance(t, s.last().0) {
                let i = lemma_index(t, s.last().0);
                assert(s[i].0.value() < s[s.len() - 1].0.value());
            }
        }
    }
}

proof fn lemma_inserted<V>(s: Seq<(Distance, V)>, p: int, d: Distance, v: V)
    requires
        increasing(s),
        0 <= p <= s.len(),
        forall|i: int| 0 <= i < p ==> (#[trigger] s[i]).0.value() < d.value(),
        forall|i: int| p <= i < s.len() ==> d.value() < (#[trigger] s[i]).0.value(),
    ensures
        increasing(s.insert(p, (d, v))),
        entries_map(s.insert(p, (d, v))) == entries_map(s).insert(d, v),
        !entries_map(s).contains_key(d),
{
    let t = s.insert(p, (d, v));
    assert forall|i: int| 0 <= i < t.len() implies #[trigger] t[i] == (if i < p {
        s[i]
    } else if i == p {
        (d, v)
    } else {
        s[i - 1]
    }) by {}
    assert(increasing(t)) by {
        assert forall|i: int, j: int| 0 <= i < j < t.len() implies (#[trigger] t[i]).0.value() < (
        #[trigger] t[j]).0.value() by {
            let i2 = if i < p { i } else { i - 1 };
            let j2 = if j < p { j } else { j - 1 };
            if i != p && j != p {
                assert(s[i2].0.value() < s[j2].0.value());
            } else if i == p {
                assert(d.value() < s[j2].0.value());
            } else {
                assert(s[i2].0.value() < d.value());
            }
        }
    }
    if entries_map(s).contains_key(d) {
        let i = lemma_index(s, d);
    }
    assert(entries_map(t) =~= entries_map(s).insert(d, v)) by {
        assert forall|k: Distance| has_distance(t, k) <==> (has_distance(s, k) || k == d) by {
            if has_distance(s, k) {
                let i = lemma_index(s, k);
                if i < p {
                    assert(t[i].0 == k);
                } else {
                    assert(t[i + 1].0 == k);
                }
            }
            if has_distance(t, k) {
                let i = lemma_index(t, k);
                if i < p {
                    assert(s[i].0 == k);
                } else if i > p {
                    assert(s[i - 1].0 == k);
                }
            }
            assert(t[p].0 == d);
        }
        lemma_at(t, p);
        assert forall|k: Distance| has_distance(s, k) implies #[trigger] entries_map(t)[k]
            == entries_map(s)[k] by {
            let i = lemma_index(s, k);
            if i < p {
                lemma_at(t, i);
            } else {
                lemma_at(t, i + 1);
            }
        }
    }
}

proof fn lemma_replaced<V>(s: Seq<(Distance, V)>, p: int, v: V)
    requires
        increasing(s),
        0 <= p < s.len(),
    ensures
        increasing(s.update(p, (s[p].0, v))),
        entries_map(s.update(p, (s[p].0, v))) == entries_map(s).insert(s[p].0, v),
{
    let t = s.update(p, (s[p].0, v));
    let d = s[p].0;
    assert forall|i: int| 0 <= i < s.len() implies (#[trigger] t[i]).0 == s[i].0 by {}
    assert(increasing(t)) by {
        assert forall|i: int, j: int| 0 <= i < j < t.len() implies (#[trigger] t[i]).0.value() < (
        #[trigger] t[j]).0.value() by {
            assert(s[i].0.value() < s[j].0.value());
        }
    }
    assert(entries_map(t) =~= entries_map(s).insert(d, v)) by {
        assert forall|k: Distance| has_distance(t, k) <==> has_distance(s, k) by {
            if has_distance(s, k) {
                let i = lemma_index(s, k);
                assert(t[i].0 == k);
            }
            if has_distance(t, k) {
                let i = lemma_index(t, k);
                assert(s[i].0 == k);
            }
        }
        lemma_at(s, p);
        lemma_at(t, p);
        assert forall|k: Distance| has_distance(s, k) && k != d implies #[trigger] entries_map(t)[k]
            == entries_map(s)[k] by {
            let i = lemma_index(s, k);
            lemma_at(t, i);
        }
    }
}

proof fn lemma_first_removed<V>(s: Seq<(Distance, V)>)
    requires
        increasing(s),
        s.len() > 0,
    ensures
        increasing(s.remove(0)),
        entries_map(s.remove(0)) == entries_map(s).remove(s[0].0),
{
    let t = s.remove(0);
    assert forall|i: int| 0 <= i < t.len() implies #[trigger] t[i] == s[i + 1] by {}
    assert(increasing(t)) by {
        assert forall|i: int, j: int| 0 <= i < j < t.len() implies (#[trigger] t[i]).0.value() < (
        #[trigger] t[j]).0.value() by {
            assert(s[i + 1].0.value() < s[j + 1].0.value());
        }
    }
    assert(entries_map(t) =~= entries_map(s).remove(s[0].0)) by {
        assert forall|k: Distance|
            has_distance(t, k) <==> (has_distance(s, k) && k != s[0].0) by {
            if has_distance(s, k) && k != s[0].0 {
                let i = lemma_index(s, k);
                assert(t[i - 1].0 == k);
            }
            if has_distance(t, k) {
                let i = lemma_index(t, k);
                assert(s[i + 1].0 == k);
                assert(s[0].0.value() < s[i + 1].0.value());
            }
        }
        assert forall|k: Distance| has_distance(t, k) implies #[trigger] entries_map(t)[k]
            == entries_map(s)[k] by {
            let i = lemma_index(t, k);
            lemma_at(s, i + 1);
        }
    }
}

proof fn lemma_last_removed<V>(s: Seq<(Distance, V)>)
    requires
        increasing(s),
        s.len() > 0,
    ensures
        increasing(s.drop_last()),
        entries_map(s.drop_last()) == entries_map(s).remove(s.last().0),
{
    let t = s.drop_last();
    let last = s.last().0;
    assert(increasing(t)) by {
        assert forall|i: int, j: int| 0 <= i < j < t.len() implies (#[trigger] t[i]).0.value() < (
        #[trigger] t[j]).0.value() by {
            assert(s[i].0.value() < s[j].0.value());
        }
    }
    assert(entries_map(t) =~= entries_map(s).remove(last)) by {
        assert forall|k: Distance| has_distance(t, k) <==> (has_distance(s, k) && k != last) by {
            if has_distance(s, k) && k != last {
                let i = lemma_index(s, k);
                assert(t[i].0 == k);
            }
            if has_distance(t, k) {
                let i = lemma_index(t, k);
                assert(s[i].0 == k);
                assert(s[i].0.value() < s[s.len() - 1].0.value());
            }
        }
        assert forall|k: Distance| has_distance(t, k) implies #[trigger] entries_map(t)[k]
            == entries_map(s)[k] by {
            let i = lemma_index(t, k);
            lemma_at(s, i);
        }
    }
}

/// A map from distances that hands its entries out from the shortest distance to the longest.
pub struct DistanceMap<V> {
    entries: Vec<(Distance, V)>,
}

impl<V> View for DistanceMap<V> {
    type V = Map<Distance, V>;

    closed spec fn view(&self) -> Map<Distance, V> {
        entries_map(self.entries@)
    }
}

impl<V> DistanceMap<V> {
    #[verifier::type_invariant]
    spec fn wf(self) -> bool {
        increasing(self.entries@)
    }

    /// The empty map.
    pub fn new() -> (r: Self)
        ensures
            r@ == Map::<Distance, V>::empty(),
    {
        let r = DistanceMap { entries: Vec::new() };
        assert(r@ =~= Map::<Distance, V>::empty());
        r
    }

    /// The number of entries.
    pub fn len(&self) -> (r: usize)
        ensures
            r == self@.len(),
            self@.dom().finite(),
    {
        proof {
            use_type_invariant(self);
            lemma_size(self.entries@);
        }
        self.entries.len()
    }

    /// Whether there is no entry.
    pub fn is_empty(&self) -> (r: bool)
        ensures
            r == (self@ == Map::<Distance, V>::empty()),
            r == (self@.len() == 0),
            self@.dom().finite(),
    {
        proof {
            use_type_invariant(self);
            lemma_size(self.entries@);
            if self.entries@.len() == 0 {
                assert(self@ =~= Map::<Distance, V>::empty());
            } else {
                lemma_at(self.entries@, 0);
            }
        }
        self.entries.len() == 0
    }

    /// The position of the first entry whose distance is not below `d`.
    fn lower_bound(&self, d: &Distance) -> (r: usize)
        ensures
            r <= self.entries@.len(),
            forall|i: int| 0 <= i < r ==> (#[trigger] self.entries@[i]).0.value() < d.value(),
            r < self.entries@.len() ==> d.value() <= self.entries@[r as int].0.value(),
    {
        let mut i: usize = 0;
        while i < self.entries.len()
            invariant
                i <= self.entries@.len(),
                forall|j: int| 0 <= j < i ==> (#[trigger] self.entries@[j]).0.value() < d.value(),
            decreases self.entries@.len() - i,
        {
            if !self.entries[i].0.less_than(d) {
                return i;
            }
            i += 1;
        }
        i
    }

    /// Whether there is an entry under `d`.
    pub fn contains_key(&self, d: &Distance) -> (r: bool)
        ensures
            r == self@.contains_key(*d),
    {
        proof {
            use_type_invariant(self);
        }
        let p = self.lower_bound(d);
        let found = p < self.entries.len() && !d.less_than(&self.entries[p].0);
        proof {
            let s = self.entries@;
            if found {
                Distance::lemma_extensional(*d, s[p as int].0);
                lemma_at(s, p as int);
            } else if self@.contains_key(*d) {
                let i = lemma_index(s, *d);
                if p < i {
                    assert(s[p as int].0.value() < s[i].0.value());
                }
            }
        }
        found
    }

    /// Puts `v` under `d`, in place of what was there.
    pub fn insert(&mut self, d: Distance, v: V)
        ensures
            final(self)@ == old(self)@.insert(d, v),
    {
        proof {
            use_type_invariant(&*self);
        }
        let p = self.lower_bound(&d);
        let mut entries: Vec<(Distance, V)> = Vec::new();
        std::mem::swap(&mut entries, &mut self.entries);
        let ghost before = entries@;
        if p < entries.len() && !d.less_than(&entries[p].0) {
            proof {
                Distance::lemma_extensional(d, before[p as int].0);
                lemma_replaced(before, p as int, v);
            }
            entries[p] = (d, v);
            assert(entries@ =~= before.update(p as int, (d, v)));
            self.entries = entries;
        } else {
            proof {
                assert forall|i: int| p <= i < before.len() implies d.value() < (
                #[trigger] before[i]).0.value() by {
                    if i > p {
                        assert(before[p as int].0.value() < before[i].0.value());
                    }
                }
                lemma_inserted(before, p as int, d, v);
            }
            entries.insert(p, (d, v));
            self.entries = entries;
        }
    }

    /// Takes out the entry with the shortest distance.
    pub fn pop_first(&mut self) -> (r: Option<(Distance, V)>)
        ensures
            match r {
                Some((d, v)) => {
                    &&& is_least(old(self)@, d)
                    &&& d == least(old(self)@)
                    &&& v == old(self)@[d]
                    &&& final(self)@ == old(self)@.remove(d)
                },
                None => {
                    &&& old(self)@ == Map::<Distance, V>::empty()
                    &&& final(self)@ == old(self)@
                },
            },
    {
        proof {
            use_type_invariant(&*self);
            lemma_size(self.entries@);
        }
        if self.is_empty() {
            return None;
        }
        let mut entries: Vec<(Distance, V)> = Vec::new();
        std::mem::swap(&mut entries, &mut self.entries);
        proof {
            lemma_extremes(entries@);
            lemma_at(entries@, 0);
            lemma_first_removed(entries@);
            lemma_extremes_unique(entries_map(entries@), entries@[0].0);
        }
        let first = entries.remove(0);
        self.entries = entries;
        Some(first)
    }

    /// Takes out the entry with the longest distance.
    pub fn pop_last(&mut self) -> (r: Option<(Distance, V)>)
        ensures
            match r {
                Some((d, v)) => {
                    &&& is_greatest(old(self)@, d)
                    &&& d == greatest(old(self)@)
                    &&& v == old(self)@[d]
                    &&& final(self)@ == old(self)@.remove(d)
                },
                None => {
                    &&& old(self)@ == Map::<Distance, V>::empty()
                    &&& final(self)@ == old(self)@
                },
            },
    {
        proof {
            use_type_invariant(&*self);
            lemma_size(self.entries@);
        }
        if self.is_empty() {
            return None;
        }
        let mut entries: Vec<(Distance, V)> = Vec::new();
        std::mem::swap(&mut entries, &mut self.entries);
        proof {
            lemma_extremes(entries@);
            lemma_at(entries@, entries@.len() - 1);
            lemma_last_removed(entries@);
            lemma_extremes_unique(entries_map(entries@), entries@.last().0);
        }
        let last = entries.pop();
        self.entries = entries;
        last
    }

    /// The entry with the shortest distance.
    pub fn first(&self) -> (r: Option<(&Distance, &V)>)
        ensures
            match r {
                Some((d, v)) => {
                    &&& is_least(self@, *d)
                    &&& *d == least(self@)
                    &&& *v == self@[*d]
                },
                None => self@ == Map::<Distance, V>::empty(),
            },
    {
        proof {
            use_type_invariant(self);
            lemma_size(self.entries@);
        }
        if self.is_empty() {
            return None;
        }
        proof {
            lemma_extremes(self.entries@);
            lemma_at(self.entries@, 0);
            lemma_extremes_unique(self@, self.entries@[0].0);
        }
        Some((&self.entries[0].0, &self.entries[0].1))
    }

    /// The longest distance that has an entry.
    pub fn last_key(&self) -> (r: Option<Distance>)
        ensures
            match r {
                Some(d) => is_greatest(self@, d) && d == greatest(self@),
                None => self@ == Map::<Distance, V>::empty(),
            },
    {
        proof {
            use_type_invariant(self);
            lemma_size(self.entries@);
        }
        if self.is_empty() {
            return None;
        }
        proof {
            lemma_extremes(self.entries@);
            lemma_extremes_unique(self@, self.entries@.last().0);
        }
        Some(self.entries[self.entries.len() - 1].0)
    }

    /// The values, from the shortest distance to the longest.
    pub fn into_values(self) -> (r: Vec<V>)
        ensures
            is_ascending(self@, r@),
            r@.len() == self@.len(),
    {
        proof {
            use_type_invariant(&self);
            lemma_size(self.entries@);
        }
        let ghost all = self.entries@;
        let mut entries = self.entries;
        let mut r: Vec<V> = Vec::new();
        while entries.len() > 0
            invariant
                increasing(all),
                r.len() + entries.len() == all.len(),
                entries@ == all.skip(r.len() as int),
                forall|i: int| 0 <= i < r.len() ==> #[trigger] r@[i] == all[i].1,
            decreases entries.len(),
        {
            let (_, v) = entries.remove(0);
            r.push(v);
            assert(entries@ =~= all.skip(r.len() as int));
        }
        proof {
            let keys = Seq::new(all.len(), |i: int| all[i].0);
            assert forall|i: int| 0 <= i < r.len() implies entries_map(all).contains_key(
                #[trigger] keys[i],
            ) && r@[i] == entries_map(all)[keys[i]] by {
                lemma_at(all, i);
            }
            assert(ascending_keys(entries_map(all), r@, keys)) by {
                assert forall|d: Distance| #[trigger]
                    entries_map(all).contains_key(d) implies keys.contains(d) by {
                    let i = lemma_index(all, d);
                    assert(keys[i] == d);
                }
            }
        }
        r
    }
}

/// Whether `keys` are all the keys of `m` in increasing order, and `values` the values under them.
pub open spec fn ascending_keys<V>(m: Map<Distance, V>, values: Seq<V>, keys: Seq<Distance>) -> bool {
    &&& keys.len() == values.len()
    &&& forall|i: int, j: int|
        0 <= i < j < keys.len() ==> (#[trigger] keys[i]).value() < (#[trigger] keys[j]).value()
    &&& forall|i: int|
        0 <= i < keys.len() ==> m.contains_key(#[trigger] keys[i]) && values[i] == m[keys[i]]
    &&& forall|d: Distance| #[trigger] m.contains_key(d) ==> keys.contains(d)
}

/// Whether `values` are the values of `m`, from the shortest distance to the longest.
pub open spec fn is_ascending<V>(m: Map<Distance, V>, values: Seq<V>) -> bool {
    exists|keys: Seq<Distance>| ascending_keys(m, values, keys)
}

} // verus!
