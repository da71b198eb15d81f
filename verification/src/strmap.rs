//! A string-keyed map kept as an association list. It gives the managers of the
//! library a map whose contents Verus can follow: the view is a `Map` from the
//! keys' character sequences to the values, and the entries keep the order in
//! which their keys were first inserted.
use vstd::prelude::*;

verus! {

/// String-keyed map with insertion-ordered entries and distinct keys.
#[derive(Debug)]
pub struct StrMap<V> {
    entries: Vec<(String, V)>,
}

impl<V> StrMap<V> {
    /// The entries as (key, value) pairs in order.
    pub closed spec fn entries(&self) -> Seq<(Seq<char>, V)> {
        self.entries@.map_values(|e: (String, V)| (e.0@, e.1))
    }

    /// The keys, in entry order.
    pub open spec fn key_seq(&self) -> Seq<Seq<char>> {
        self.entries().map_values(|e: (Seq<char>, V)| e.0)
    }

    /// The values, in entry order.
    pub open spec fn value_seq(&self) -> Seq<V> {
        self.entries().map_values(|e: (Seq<char>, V)| e.1)
    }

    /// No key occurs twice.
    pub open spec fn wf(&self) -> bool {
        forall|i: int, j: int|
            0 <= i < self.entries().len() && 0 <= j < self.entries().len() && i != j
                ==> #[trigger] self.entries()[i].0 != #[trigger] self.entries()[j].0
    }

    /// Position of key `k` among the entries.
    pub open spec fn index_of(&self, k: Seq<char>) -> int {
        choose|i: int| 0 <= i < self.entries().len() && self.entries()[i].0 == k
    }

    pub open spec fn has(&self, k: Seq<char>) -> bool {
        exists|i: int| 0 <= i < self.entries().len() && self.entries()[i].0 == k
    }

    /// The map that the entries describe.
    pub open spec fn view(&self) -> Map<Seq<char>, V> {
        Map::new(|k: Seq<char>| self.has(k), |k: Seq<char>| self.entries()[self.index_of(k)].1)
    }

    pub proof fn lemma_index_of(&self, i: int)
        requires
            self.wf(),
            0 <= i < self.entries().len(),
        ensures
            self.index_of(self.entries()[i].0) == i,
            self@.contains_key(self.entries()[i].0),
            self@[self.entries()[i].0] == self.entries()[i].1,
    {
        let k = self.entries()[i].0;
        assert(self.has(k));
        let j = self.index_of(k);
        assert(self.entries()[j].0 == k);
    }

    pub proof fn lemma_key_seq(&self)
        requires
            self.wf(),
        ensures
            self.key_seq().no_duplicates(),
            forall|k: Seq<char>| #[trigger] self@.contains_key(k) <==> self.key_seq().contains(k),
            self.key_seq().len() == self.entries().len(),
            self.value_seq().len() == self.entries().len(),
            forall|i: int| 0 <= i < self.entries().len() ==> #[trigger] self@[self.key_seq()[i]] == self.value_seq()[i],
    {
        assert forall|k: Seq<char>| #[trigger] self@.contains_key(k) implies self.key_seq().contains(k) by {
            let j = self.index_of(k);
            assert(self.key_seq()[j] == k);
        }
        assert forall|k: Seq<char>| self.key_seq().contains(k) implies #[trigger] self@.contains_key(k) by {
            let j = choose|j: int| 0 <= j < self.key_seq().len() && self.key_seq()[j] == k;
            assert(self.entries()[j].0 == k);
        }
        assert forall|i: int| 0 <= i < self.entries().len() implies #[trigger] self@[self.key_seq()[i]] == self.value_seq()[i] by {
            self.lemma_index_of(i);
        }
    }

    /// An empty map.
    pub fn new() -> (m: Self)
        ensures
            m.wf(),
            m@ == Map::<Seq<char>, V>::empty(),
            m.entries().len() == 0,
    {
        let m = StrMap { entries: Vec::new() };
        assert(m@ =~= Map::<Seq<char>, V>::empty());
        m
    }

    /// Number of entries.
    pub fn len(&self) -> (n: usize)
        ensures
            n == self.entries().len(),
    {
        self.entries.len()
    }

    /// Position of `k`, if present.
    pub fn find(&self, k: &str) -> (r: Option<usize>)
        requires
            self.wf(),
        ensures
            match r {
                Some(i) => i < self.entries().len() && self.entries()[i as int].0 == k@
                    && self.index_of(k@) == i,
                None => !self@.contains_key(k@),
            },
    {
        let mut i: usize = 0;
        while i < self.entries.len()
            invariant
                self.wf(),
                i <= self.entries@.len(),
                forall|j: int| 0 <= j < i ==> self.entries()[j].0 != k@,
            decreases self.entries.len() - i,
        {
            if crate::text::str_eq(self.entries[i].0.as_str(), k) {
                proof {
                    self.lemma_index_of(i as int);
                }
                return Some(i);
            }
            i = i + 1;
        }
        None
    }

    /// Whether `k` has an entry.
    pub fn contains_key(&self, k: &str) -> (b: bool)
        requires
            self.wf(),
        ensures
            b == self@.contains_key(k@),
    {
        match self.find(k) {
            Some(i) => {
                proof {
                    self.lemma_index_of(i as int);
                }
                true
            },
            None => false,
        }
    }

    /// The value stored for `k`.
    pub fn get(&self, k: &str) -> (r: Option<&V>)
        requires
            self.wf(),
        ensures
            match r {
                Some(v) => self@.contains_key(k@) && *v == self@[k@],
                None => !self@.contains_key(k@),
            },
    {
        match self.find(k) {
            Some(i) => {
                proof {
                    self.lemma_index_of(i as int);
                }
                Some(&self.entries[i].1)
            },
            None => None,
        }
    }

    /// The entry at position `i`.
    pub fn entry_at(&self, i: usize) -> (r: (&String, &V))
        requires
            i < self.entries().len(),
        ensures
            r.0@ == self.entries()[i as int].0,
            *r.1 == self.entries()[i as int].1,
    {
        (&self.entries[i].0, &self.entries[i].1)
    }

    /// Removes the entry for `k` and gives back its value.
    pub fn remove(&mut self, k: &str) -> (r: Option<V>)
        requires
            old(self).wf(),
        ensures
            final(self).wf(),
            final(self)@ == old(self)@.remove(k@),
            match r {
                Some(v) => old(self)@.contains_key(k@) && v == old(self)@[k@],
                None => !old(self)@.contains_key(k@),
            },
            final(self).entries() == (match old(self).find_spec(k@) {
                Some(i) => old(self).entries().remove(i),
                None => old(self).entries(),
            }),
    {
        match self.find(k) {
            Some(i) => {
                proof {
                    self.lemma_index_of(i as int);
                }
                let ghost old_self = *self;
                let e = self.entries.remove(i);
                proof {
                    assert(self.entries() =~= old_self.entries().remove(i as int));
                    assert forall|a: int, b: int|
                        0 <= a < self.entries().len() && 0 <= b < self.entries().len() && a != b
                        implies #[trigger] self.entries()[a].0 != #[trigger] self.entries()[b].0 by {
                        let a2 = if a < i { a } else { a + 1 };
                        let b2 = if b < i { b } else { b + 1 };
                        assert(self.entries()[a] == old_self.entries()[a2]);
                        assert(self.entries()[b] == old_self.entries()[b2]);
                    }
                    assert forall|q: Seq<char>| #[trigger] self@.contains_key(q) == old_self@.remove(k@).contains_key(q) by {
                        if self.has(q) {
                            let j = choose|j: int| 0 <= j < self.entries().len() && self.entries()[j].0 == q;
                            let j2 = if j < i { j } else { j + 1 };
                            assert(old_self.entries()[j2].0 == q);
                        }
                        if old_self.has(q) && q != k@ {
                            let j = choose|j: int| 0 <= j < old_self.entries().len() && old_self.entries()[j].0 == q;
                            assert(j != i);
                            let j2 = if j < i { j } else { j - 1 };
                            assert(self.entries()[j2].0 == q);
                        }
                    }
                    assert forall|q: Seq<char>| #[trigger] self@.contains_key(q) implies self@[q] == old_self@[q] by {
                        let j = self.index_of(q);
                        self.lemma_index_of(j);
                        let j2 = if j < i { j } else { j + 1 };
                        old_self.lemma_index_of(j2);
                    }
                    assert(self@ =~= old_self@.remove(k@));
                }
                Some(e.1)
            },
            None => {
                assert(self@ =~= self@.remove(k@));
                None
            },
        }
    }

    /// Position of `k` among the entries, if it has one.
    pub open spec fn find_spec(&self, k: Seq<char>) -> Option<int> {
        if self.has(k) { Some(self.index_of(k)) } else { None }
    }

    /// Inserts or replaces the value for `k`. A new key goes after the existing
    /// entries; a present key keeps its position. Gives back the previous value.
    pub fn insert(&mut self, k: String, v: V) -> (r: Option<V>)
        requires
            old(self).wf(),
        ensures
            final(self).wf(),
            final(self)@ == old(self)@.insert(k@, v),
            match r {
                Some(ov) => old(self)@.contains_key(k@) && ov == old(self)@[k@],
                None => !old(self)@.contains_key(k@),
            },
            old(self)@.contains_key(k@) ==> final(self).key_seq() == old(self).key_seq(),
            !old(self)@.contains_key(k@) ==> final(self).entries() == old(self).entries().push((k@, v)),
    {
        let ghost old_self = *self;
        match self.find(k.as_str()) {
            Some(i) => {
                proof {
                    self.lemma_index_of(i as int);
                }
                let e = self.entries.remove(i);
                self.entries.insert(i, (k, v));
                proof {
                    assert(self.entries() =~= old_self.entries().update(i as int, (k@, v)));
                    assert(self.key_seq() =~= old_self.key_seq());
                    assert forall|a: int, b: int|
                        0 <= a < self.entries().len() && 0 <= b < self.entries().len() && a != b
                        implies #[trigger] self.entries()[a].0 != #[trigger] self.entries()[b].0 by {
                        assert(self.entries()[a].0 == old_self.entries()[a].0);
                        assert(self.entries()[b].0 == old_self.entries()[b].0);
                    }
                    assert forall|q: Seq<char>| #[trigger] self@.contains_key(q) == old_self@.insert(k@, v).contains_key(q) by {
                        if self.has(q) {
                            let j = choose|j: int| 0 <= j < self.entries().len() && self.entries()[j].0 == q;
                            assert(old_self.entries()[j].0 == q);
                        }
                        if old_self.has(q) {
                            let j = choose|j: int| 0 <= j < old_self.entries().len() && old_self.entries()[j].0 == q;
                            assert(self.entries()[j].0 == q);
                        }
                        if q == k@ {
                            assert(self.entries()[i as int].0 == q);
                        }
                    }
                    assert forall|q: Seq<char>| #[trigger] self@.contains_key(q) implies self@[q] == old_self@.insert(k@, v)[q] by {
                        let j = self.index_of(q);
                        self.lemma_index_of(j);
                        if q != k@ {
                            old_self.lemma_index_of(j);
                        }
                    }
                    assert(self@ =~= old_self@.insert(k@, v));
                }
                Some(e.1)
            },
            None => {
                self.entries.push((k, v));
                proof {
                    assert(self.entries() =~= old_self.entries().push((k@, v)));
                    let n = old_self.entries().len() as int;
                    assert forall|a: int, b: int|
                        0 <= a < self.entries().len() && 0 <= b < self.entries().len() && a != b
                        implies #[trigger] self.entries()[a].0 != #[trigger] self.entries()[b].0 by {
                        if a < n && b < n {
                            assert(self.entries()[a] == old_self.entries()[a]);
                            assert(self.entries()[b] == old_self.entries()[b]);
                        } else if a < n {
                            assert(self.entries()[a] == old_self.entries()[a]);
                            assert(old_self.has(old_self.entries()[a].0));
                        } else if b < n {
                            assert(self.entries()[b] == old_self.entries()[b]);
                            assert(old_self.has(old_self.entries()[b].0));
                        }
                    }
                    assert forall|q: Seq<char>| #[trigger] self@.contains_key(q) == old_self@.insert(k@, v).contains_key(q) by {
                        if self.has(q) {
                            let j = choose|j: int| 0 <= j < self.entries().len() && self.entries()[j].0 == q;
                            if j < n {
                                assert(old_self.entries()[j].0 == q);
                            }
                        }
                        if old_self.has(q) {
                            let j = choose|j: int| 0 <= j < old_self.entries().len() && old_self.entries()[j].0 == q;
                            assert(self.entries()[j].0 == q);
                        }
                        if q == k@ {
                            assert(self.entries()[n].0 == q);
                        }
                    }
                    assert forall|q: Seq<char>| #[trigger] self@.contains_key(q) implies self@[q] == old_self@.insert(k@, v)[q] by {
                        let j = self.index_of(q);
                        self.lemma_index_of(j);
                        if j < n {
                            old_self.lemma_index_of(j);
                        }
                    }
                    assert(self@ =~= old_self@.insert(k@, v));
                }
                None
            },
        }
    }

    /// The value of the `i`-th entry, to change in place; the keys stay.
    pub fn value_at_mut(&mut self, i: usize) -> (r: &mut V)
        requires
            old(self).wf(),
            i < old(self).entries().len(),
        ensures
            *r == old(self).entries()[i as int].1,
            final(self).entries() == old(self).entries().update(i as int, (old(self).entries()[i as int].0, *final(r))),
    {
        &mut self.entries[i].1
    }

    /// Keys and entries after changing the value of entry `i` keep the map's
    /// shape: it is well formed and maps that key to the new value.
    pub proof fn lemma_update_value(old_map: Self, new_map: Self, i: int, v: V)
        requires
            old_map.wf(),
            0 <= i < old_map.entries().len(),
            new_map.entries() == old_map.entries().update(i, (old_map.entries()[i].0, v)),
        ensures
            new_map.wf(),
            new_map@ == old_map@.insert(old_map.entries()[i].0, v),
            new_map.key_seq() == old_map.key_seq(),
    {
        let k = old_map.entries()[i].0;
        assert forall|a: int, b: int|
            0 <= a < new_map.entries().len() && 0 <= b < new_map.entries().len() && a != b
            implies #[trigger] new_map.entries()[a].0 != #[trigger] new_map.entries()[b].0 by {
            assert(new_map.entries()[a].0 == old_map.entries()[a].0);
            assert(new_map.entries()[b].0 == old_map.entries()[b].0);
        }
        assert(new_map.key_seq() =~= old_map.key_seq());
        assert forall|q: Seq<char>| #[trigger] new_map@.contains_key(q) == old_map@.insert(k, v).contains_key(q) by {
            if new_map.has(q) {
                let j = choose|j: int| 0 <= j < new_map.entries().len() && new_map.entries()[j].0 == q;
                assert(old_map.entries()[j].0 == q);
            }
            if old_map.has(q) {
                let j = choose|j: int| 0 <= j < old_map.entries().len() && old_map.entries()[j].0 == q;
                assert(new_map.entries()[j].0 == q);
            }
            if q == k {
                assert(new_map.entries()[i].0 == q);
            }
        }
        assert forall|q: Seq<char>| #[trigger] new_map@.contains_key(q) implies new_map@[q] == old_map@.insert(k, v)[q] by {
            let j = new_map.index_of(q);
            new_map.lemma_index_of(j);
            if q == k {
                assert(new_map.entries()[i].0 == k);
                new_map.lemma_index_of(i);
            } else {
                old_map.lemma_index_of(j);
            }
        }
        assert(new_map@ =~= old_map@.insert(k, v));
    }


    /// Removes every entry.
    pub fn clear(&mut self)
        ensures
            final(self).wf(),
            final(self)@ == Map::<Seq<char>, V>::empty(),
            final(self).entries().len() == 0,
    {
        self.entries.clear();
        assert(self@ =~= Map::<Seq<char>, V>::empty());
    }

    /// References to the values, in entry order.
    pub fn values(&self) -> (r: Vec<&V>)
        ensures
            r@.len() == self.entries().len(),
            forall|i: int| 0 <= i < r@.len() ==> *#[trigger] r@[i] == self.value_seq()[i],
    {
        let mut r: Vec<&V> = Vec::new();
        let mut i: usize = 0;
        while i < self.entries.len()
            invariant
                i <= self.entries@.len(),
                r@.len() == i,
                forall|j: int| 0 <= j < i ==> *#[trigger] r@[j] == self.value_seq()[j],
            decreases self.entries.len() - i,
        {
            r.push(&self.entries[i].1);
            i = i + 1;
        }
        r
    }

    /// Copies of the keys, in entry order.
    pub fn keys(&self) -> (r: Vec<String>)
        ensures
            r@.len() == self.entries().len(),
            forall|i: int| 0 <= i < r@.len() ==> #[trigger] r@[i]@ == self.key_seq()[i],
    {
        let mut r: Vec<String> = Vec::new();
        let mut i: usize = 0;
        while i < self.entries.len()
            invariant
                i <= self.entries@.len(),
                r@.len() == i,
                forall|j: int| 0 <= j < i ==> #[trigger] r@[j]@ == self.key_seq()[j],
            decreases self.entries.len() - i,
        {
            r.push(self.entries[i].0.clone());
            i = i + 1;
        }
        r
    }
}


impl StrMap<String> {
    /// A copy of the map, entry for entry.
    pub fn duplicate(&self) -> (r: Self)
        ensures
            r.entries() == self.entries(),
    {
        let mut v: Vec<(String, String)> = Vec::new();
        let mut i: usize = 0;
        while i < self.entries.len()
            invariant
                i <= self.entries@.len(),
                v@.len() == i,
                forall|j: int| 0 <= j < i ==> #[trigger] v@[j].0@ == self.entries@[j].0@ && v@[j].1 == self.entries@[j].1,
            decreases self.entries.len() - i,
        {
            let k = self.entries[i].0.clone();
            let val = self.entries[i].1.clone();
            v.push((k, val));
            i = i + 1;
        }
        let r = StrMap { entries: v };
        assert(r.entries() =~= self.entries());
        r
    }
}

/// The list stored under `k`, or the empty list when `k` is absent.
pub open spec fn list_at<T>(m: Map<Seq<char>, Vec<T>>, k: Seq<char>) -> Seq<T> {
    if m.contains_key(k) { m[k]@ } else { Seq::empty() }
}

/// Append `item` to the list stored under `key`, starting the list if absent.
pub fn push_to<T>(index: &mut StrMap<Vec<T>>, key: &str, item: T)
    requires old(index).wf(),
    ensures
        final(index).wf(),
        final(index)@.dom() == old(index)@.dom().insert(key@),
        list_at(final(index)@, key@) == list_at(old(index)@, key@).push(item),
        forall|k: Seq<char>| #[trigger] final(index)@.contains_key(k) && k != key@
            ==> final(index)@[k] == old(index)@[k],
{
    match index.find(key) {
        Some(p) => {
            let ghost before = *index;
            proof { index.lemma_index_of(p as int); }
            let items = index.value_at_mut(p);
            items.push(item);
            proof {
                StrMap::lemma_update_value(before, *index, p as int, index.entries()[p as int].1);
            }
        },
        None => {
            let mut items: Vec<T> = Vec::new();
            items.push(item);
            index.insert(crate::text::owned(key), items);
            assert(list_at(index@, key@) =~= Seq::<T>::empty().push(item));
        },
    }
}

} // verus!
