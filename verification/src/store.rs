//! A map from texts to values, kept in insertion order.
//!
//! The map is what the sessions and the files of a session are kept in. No
//! key stands in it twice.

use vstd::prelude::*;
use crate::text::chars_of;
use crate::text::same_chars;
use crate::text::starts_with_chars;

verus! {

/// The keys of a sequence of entries.
pub open spec fn entry_keys<V>(entries: Seq<(String, V)>) -> Seq<Seq<char>> {
    Seq::new(entries.len(), |i: int| entries[i].0@)
}

/// No key stands at two indices.
pub open spec fn distinct_keys(keys: Seq<Seq<char>>) -> bool {
    forall|i: int, j: int| 0 <= i < j < keys.len() ==> keys[i] != keys[j]
}

/// The index at which `key` stands in `keys`, where it stands in them.
pub open spec fn position(keys: Seq<Seq<char>>, key: Seq<char>) -> int {
    choose|i: int| 0 <= i < keys.len() && keys[i] == key
}

/// The map that a sequence of entries stands for.
pub open spec fn entries_map<V>(entries: Seq<(String, V)>) -> Map<Seq<char>, V> {
    Map::new(
        |k: Seq<char>| entry_keys(entries).contains(k),
        |k: Seq<char>| entries[position(entry_keys(entries), k)].1,
    )
}

/// Under distinct keys, the map holds each entry under its key.
pub proof fn lemma_entries_map<V>(entries: Seq<(String, V)>)
    requires
        distinct_keys(entry_keys(entries)),
    ensures
        forall|i: int|
            0 <= i < entries.len() ==> entries_map(entries).dom().contains(
                #[trigger] entries[i].0@,
            ) && entries_map(entries)[entries[i].0@] == entries[i].1,
        forall|k: Seq<char>| #[trigger]
            entries_map(entries).dom().contains(k) ==> 0 <= position(entry_keys(entries), k)
                < entries.len() && entries[position(entry_keys(entries), k)].0@ == k,
{
    let keys = entry_keys(entries);
    assert forall|i: int| 0 <= i < entries.len() implies entries_map(entries).dom().contains(
        #[trigger] entries[i].0@,
    ) && entries_map(entries)[entries[i].0@] == entries[i].1 by {
        assert(keys[i] == entries[i].0@);
        assert(keys.contains(entries[i].0@));
        let p = position(keys, entries[i].0@);
        assert(0 <= p < keys.len() && keys[p] == keys[i]);
        if p < i {
            assert(keys[p] != keys[i]);
        } else if i < p {
            assert(keys[i] != keys[p]);
        }
    }
    assert forall|k: Seq<char>| #[trigger] entries_map(entries).dom().contains(k) implies 0
        <= position(keys, k) < entries.len() && entries[position(keys, k)].0@ == k by {
        assert(keys.contains(k));
        let i = choose|i: int| 0 <= i < keys.len() && keys[i] == k;
        assert(keys[i] == k);
        assert(keys[position(keys, k)] == k);
    }
}

/// A map from texts to values of type `V`.
pub struct TextMap<V> {
    entries: Vec<(String, V)>,
}

impl<V> View for TextMap<V> {
    type V = Map<Seq<char>, V>;

    closed spec fn view(&self) -> Map<Seq<char>, V> {
        entries_map(self.entries@)
    }
}

impl<V> TextMap<V> {
    #[verifier::type_invariant]
    spec fn distinct(&self) -> bool {
        distinct_keys(entry_keys(self.entries@))
    }

    /// The keys, in insertion order.
    pub closed spec fn keys(&self) -> Seq<Seq<char>> {
        entry_keys(self.entries@)
    }

    /// The values, in the order of the keys.
    pub closed spec fn values(&self) -> Seq<V> {
        Seq::new(self.entries@.len(), |i: int| self.entries@[i].1)
    }

    /// How `keys` and `values` relate to the map: the keys are distinct,
    /// they are the map's domain, and each value is the one of its key.
    pub open spec fn ordered(&self) -> bool {
        &&& self.keys().len() == self.values().len()
        &&& distinct_keys(self.keys())
        &&& forall|k: Seq<char>| self@.dom().contains(k) <==> self.keys().contains(k)
        &&& forall|i: int|
            0 <= i < self.keys().len() ==> self@.dom().contains(#[trigger] self.keys()[i])
                && self@[self.keys()[i]] == self.values()[i]
    }

    /// An empty map.
    pub fn new() -> (m: Self)
        ensures
            m@ == Map::<Seq<char>, V>::empty(),
            m.keys().len() == 0,
    {
        let m = TextMap { entries: Vec::new() };
        assert(m@ =~= Map::<Seq<char>, V>::empty());
        m
    }

    /// The number of entries.
    pub fn len(&self) -> (n: usize)
        ensures
            n == self.keys().len(),
            self.ordered(),
    {
        proof {
            use_type_invariant(self);
            Self::lemma_ordered(*self);
        }
        self.entries.len()
    }

    proof fn lemma_ordered(m: Self)
        requires
            m.distinct(),
        ensures
            m.ordered(),
    {
        lemma_entries_map(m.entries@);
        assert forall|k: Seq<char>| m@.dom().contains(k) <==> m.keys().contains(k) by {}
        assert forall|i: int| 0 <= i < m.keys().len() implies m@.dom().contains(
            #[trigger] m.keys()[i],
        ) && m@[m.keys()[i]] == m.values()[i] by {
            assert(m.entries@[i].0@ == m.keys()[i]);
        }
    }

    /// The key at index `i` of the insertion order.
    pub fn key_at(&self, i: usize) -> (k: &String)
        requires
            i < self.keys().len(),
        ensures
            k@ == self.keys()[i as int],
    {
        &self.entries[i].0
    }

    /// The value at index `i` of the insertion order.
    pub fn value_at(&self, i: usize) -> (v: &V)
        requires
            i < self.keys().len(),
        ensures
            *v == self.values()[i as int],
            self.ordered(),
    {
        proof {
            use_type_invariant(self);
            Self::lemma_ordered(*self);
        }
        &self.entries[i].1
    }

    fn find(&self, key: &str) -> (r: Option<usize>)
        ensures
            match r {
                Some(i) => i < self.entries@.len() && self.entries@[i as int].0@ == key@,
                None => !entry_keys(self.entries@).contains(key@),
            },
    {
        let wanted = chars_of(key);
        let mut i: usize = 0;
        while i < self.entries.len()
            invariant
                i <= self.entries.len(),
                wanted@ == key@,
                forall|j: int| 0 <= j < i ==> entry_keys(self.entries@)[j] != key@,
            decreases self.entries.len() - i,
        {
            let here = chars_of(self.entries[i].0.as_str());
            if same_chars(&here, &wanted) {
                return Some(i);
            }
            i += 1;
        }
        None
    }

    /// Whether the map holds `key`.
    pub fn contains_key(&self, key: &str) -> (r: bool)
        ensures
            r == self@.dom().contains(key@),
    {
        proof {
            use_type_invariant(self);
            Self::lemma_ordered(*self);
        }
        match self.find(key) {
            Some(i) => {
                assert(entry_keys(self.entries@)[i as int] == key@);
                true
            },
            None => false,
        }
    }

    /// The value under `key`, if the map holds the key.
    pub fn get(&self, key: &str) -> (r: Option<&V>)
        ensures
            match r {
                Some(v) => self@.dom().contains(key@) && *v == self@[key@],
                None => !self@.dom().contains(key@),
            },
    {
        proof {
            use_type_invariant(self);
            Self::lemma_ordered(*self);
            lemma_entries_map(self.entries@);
        }
        match self.find(key) {
            Some(i) => {
                assert(entry_keys(self.entries@)[i as int] == key@);
                Some(&self.entries[i].1)
            },
            None => None,
        }
    }

    /// Puts `value` under `key`, in place of what was there.
    pub fn insert(&mut self, key: String, value: V)
        ensures
            final(self)@ == old(self)@.insert(key@, value),
    {
        proof {
            use_type_invariant(&*self);
            lemma_entries_map(self.entries@);
        }
        let ghost before = self.entries@;
        let ghost k = key@;
        let found = self.find(key.as_str());
        let mut entries: Vec<(String, V)> = Vec::new();
        std::mem::swap(&mut self.entries, &mut entries);
        match found {
            Some(i) => {
                entries.set(i, (key, value));
                proof {
                    let after = entries@;
                    assert(entry_keys(after) =~= entry_keys(before));
                    lemma_entries_map(after);
                    assert forall|q: Seq<char>|
                        entries_map(before).insert(k, value).dom().contains(q) implies #[trigger]
                        entries_map(after).dom().contains(q) && entries_map(after)[q]
                        == entries_map(before).insert(k, value)[q] by {
                        if q != k {
                            let p = position(entry_keys(before), q);
                            assert(before[p].0@ == q);
                            assert(after[p] == before[p]);
                            assert(after[p].0@ == q);
                        } else {
                            assert(after[i as int].0@ == k);
                        }
                    }
                    assert(entries_map(after) =~= entries_map(before).insert(k, value));
                }
            },
            None => {
                entries.push((key, value));
                proof {
                    let after = entries@;
                    let n = before.len() as int;
                    assert(forall|j: int| 0 <= j < n ==> after[j] == before[j]);
                    assert(after[n].0@ == k);
                    assert forall|a: int, b: int| 0 <= a < b < after.len() implies entry_keys(
                        after,
                    )[a] != entry_keys(after)[b] by {
                        assert(entry_keys(after)[a] == entry_keys(before)[a]);
                        if b < n {
                            assert(entry_keys(after)[b] == entry_keys(before)[b]);
                        } else {
                            assert(entry_keys(before).contains(entry_keys(before)[a]));
                        }
                    }
                    lemma_entries_map(after);
                    assert forall|q: Seq<char>|
                        entries_map(before).insert(k, value).dom().contains(q) implies #[trigger]
                        entries_map(after).dom().contains(q) && entries_map(after)[q]
                        == entries_map(before).insert(k, value)[q] by {
                        if q != k {
                            let p = position(entry_keys(before), q);
                            assert(before[p].0@ == q);
                            assert(after[p].0@ == q);
                        } else {
                            assert(after[n].0@ == k);
                        }
                    }
                    assert forall|q: Seq<char>| #[trigger]
                        entries_map(after).dom().contains(q) implies entries_map(before).insert(
                        k,
                        value,
                    ).dom().contains(q) by {
                        let p = position(entry_keys(after), q);
                        assert(after[p].0@ == q);
                        if p < n {
                            assert(before[p].0@ == q);
                        }
                    }
                    assert(entries_map(after) =~= entries_map(before).insert(k, value));
                }
            },
        }
        self.entries = entries;
    }

    /// Takes the entry at index `i` of the insertion order out of the map.
    fn remove_at(&mut self, i: usize) -> (gone: (String, V))
        requires
            i < old(self).keys().len(),
        ensures
            gone.0@ == old(self).keys()[i as int],
            old(self)@.dom().contains(gone.0@),
            gone.1 == old(self)@[gone.0@],
            final(self)@ == old(self)@.remove(gone.0@),
            final(self).keys() == old(self).keys().remove(i as int),
    {
        proof {
            use_type_invariant(&*self);
            lemma_entries_map(self.entries@);
        }
        let ghost before = self.entries@;
        let ghost key = before[i as int].0@;
        assert(entry_keys(before)[i as int] == key);
        let mut entries: Vec<(String, V)> = Vec::new();
        std::mem::swap(&mut self.entries, &mut entries);
        let gone = entries.remove(i);
        proof {
            let after = entries@;
            assert(forall|j: int| 0 <= j < i ==> after[j] == before[j]);
            assert(forall|j: int| i <= j < after.len() ==> after[j] == before[j + 1]);
            assert(entry_keys(after) =~= entry_keys(before).remove(i as int));
            assert forall|a: int, b: int| 0 <= a < b < after.len() implies entry_keys(after)[a]
                != entry_keys(after)[b] by {
                let a0 = if a < i {
                    a
                } else {
                    a + 1
                };
                let b0 = if b < i {
                    b
                } else {
                    b + 1
                };
                assert(entry_keys(after)[a] == entry_keys(before)[a0]);
                assert(entry_keys(after)[b] == entry_keys(before)[b0]);
            }
            lemma_entries_map(after);
            assert forall|q: Seq<char>|
                entries_map(before).remove(key).dom().contains(q) implies #[trigger] entries_map(
                after,
            ).dom().contains(q) && entries_map(after)[q] == entries_map(before).remove(key)[q] by {
                let p = position(entry_keys(before), q);
                assert(before[p].0@ == q);
                if p < i {
                    assert(after[p].0@ == q);
                } else {
                    assert(p != i);
                    assert(after[p - 1].0@ == q);
                }
            }
            assert forall|q: Seq<char>| #[trigger]
                entries_map(after).dom().contains(q) implies entries_map(before).remove(
                key,
            ).dom().contains(q) by {
                let p = position(entry_keys(after), q);
                assert(after[p].0@ == q);
                let p0 = if p < i {
                    p
                } else {
                    p + 1
                };
                assert(before[p0].0@ == q);
                if q == key {
                    if p0 < i {
                        assert(entry_keys(before)[p0] != entry_keys(before)[i as int]);
                    } else {
                        assert(entry_keys(before)[i as int] != entry_keys(before)[p0]);
                    }
                }
            }
            assert(entries_map(after) =~= entries_map(before).remove(key));
        }
        self.entries = entries;
        gone
    }

    /// Takes `key` and its value out of the map; gives the value, if the map
    /// held the key.
    pub fn remove(&mut self, key: &str) -> (r: Option<V>)
        ensures
            final(self)@ == old(self)@.remove(key@),
            match r {
                Some(v) => old(self)@.dom().contains(key@) && v == old(self)@[key@],
                None => !old(self)@.dom().contains(key@),
            },
    {
        match self.find(key) {
            Some(i) => {
                let gone = self.remove_at(i);
                Some(gone.1)
            },
            None => {
                assert(self@ =~= self@.remove(key@));
                None
            },
        }
    }

    /// Takes every key that begins with `prefix`, and its value, out of the
    /// map.
    pub fn remove_prefixed(&mut self, prefix: &str)
        ensures
            final(self)@ == old(self)@.remove_keys(
                Set::new(|k: Seq<char>| prefix@.is_prefix_of(k)),
            ),
    {
        let start = chars_of(prefix);
        let mut i: usize = 0;
        while i < self.entries.len()
            invariant
                i <= self.keys().len(),
                self.keys().len() == self.entries@.len(),
                start@ == prefix@,
                forall|j: int| 0 <= j < i ==> !prefix@.is_prefix_of(#[trigger] self.keys()[j]),
                forall|k: Seq<char>| #[trigger]
                    self@.dom().contains(k) ==> old(self)@.dom().contains(k) && self@[k] == old(
                        self,
                    )@[k],
                forall|k: Seq<char>|
                    old(self)@.dom().contains(k) && !prefix@.is_prefix_of(k) ==> #[trigger] self@.dom().contains(
                        k,
                    ),
            decreases self.entries@.len() - i,
        {
            let here = chars_of(self.entries[i].0.as_str());
            assert(here@ == self.keys()[i as int]);
            if starts_with_chars(&here, &start) {
                let ghost before_keys = self.keys();
                self.remove_at(i);
                assert(forall|j: int| 0 <= j < i ==> self.keys()[j] == before_keys[j]);
            } else {
                i += 1;
            }
        }
        proof {
            use_type_invariant(&*self);
            Self::lemma_ordered(*self);
            let gone = Set::new(|k: Seq<char>| prefix@.is_prefix_of(k));
            assert forall|k: Seq<char>| #[trigger] self@.dom().contains(k) implies !gone.contains(
                k,
            ) by {
                assert(self.keys().contains(k));
                let j = choose|j: int| 0 <= j < self.keys().len() && self.keys()[j] == k;
                assert(!prefix@.is_prefix_of(self.keys()[j]));
            }
            assert(self@ =~= old(self)@.remove_keys(gone));
        }
    }
}

} // verus!
